//! The small value types the user-facing shell shares with the core:
//! colors, menus, view modes, and selection wrappers.

use vstd::prelude::*;
use std::rc::Rc;
use crate::files::{GeneralFolder, PitouDrive};
use crate::text::{dec_of, push_char, u64_to_string};

verus! {

/// A color as red, green, blue and alpha channels.
#[derive(Clone, Copy, PartialEq, Eq, Structural)]
pub struct Color(pub u8, pub u8, pub u8, pub u8);

/// The CSS text of a color: its four channels inside `rgba(...)`.
pub open spec fn spec_rgba(c: Color) -> Seq<char> {
    "rgba("@ + dec_of(c.0 as nat) + ", "@ + dec_of(c.1 as nat) + ", "@ + dec_of(c.2 as nat)
        + ", "@ + dec_of(c.3 as nat) + ")"@
}

impl Color {
    /// Renders the color as CSS `rgba(...)` text.
    pub fn rgba(&self) -> (r: String)
        ensures
            r@ == spec_rgba(*self),
    {
        let mut s = String::from_str("rgba(");
        let s = s.concat(u64_to_string(self.0 as u64).as_str());
        let s = s.concat(", ");
        let s = s.concat(u64_to_string(self.1 as u64).as_str());
        let s = s.concat(", ");
        let s = s.concat(u64_to_string(self.2 as u64).as_str());
        let s = s.concat(", ");
        let mut s = s.concat(u64_to_string(self.3 as u64).as_str());
        push_char(&mut s, ')');
        proof {
            assert(")"@ =~= Seq::<char>::empty().push(')')) by {
                reveal_strlit(")");
            }
            assert(s@ =~= spec_rgba(*self));
        }
        s
    }
}

/// The six colors a theme paints the shell with.
#[derive(Clone, Copy, PartialEq, Eq, Structural)]
pub struct ColorTheme {
    pub background1: Color,
    pub background2: Color,
    pub foreground1: Color,
    pub foreground2: Color,
    pub spare1: Color,
    pub spare2: Color,
}

/// The top-level menu a tab shows.
#[derive(Clone, Copy, PartialEq, Eq, Structural)]
pub enum AppMenu {
    Home,
    Explorer,
    Trash,
    Favorites,
    Search,
    Locked,
    Recents,
    Cloud,
    Settings,
}

/// How a folder's items are laid out.
#[derive(Clone, Copy, PartialEq, Eq, Structural)]
pub enum ItemsView {
    Grid,
    Rows,
    Tiles,
}

#[derive(Clone, Copy, PartialEq, Eq, Structural)]
enum State {
    State1,
    State2,
}

/// The two-phase toggle the refresher timer flips on every tick.
pub struct RefresherState {
    state: State,
}

impl RefresherState {
    /// True in the phase a fresh value starts in.
    pub closed spec fn is_initial(&self) -> bool {
        self.state is State1
    }

    pub fn default() -> (r: Self)
        ensures
            r.is_initial(),
    {
        Self { state: State::State1 }
    }

    /// Flips to the other phase.
    pub fn toggle(&mut self)
        ensures
            final(self).is_initial() == !old(self).is_initial(),
    {
        self.state = match self.state {
            State::State1 => State::State2,
            State::State2 => State::State1,
        };
    }
}

/// A shared general folder, wrapped for use in a selection set.
pub struct GenFolderWrap {
    pub folder: Rc<GeneralFolder>,
}

impl GenFolderWrap {
    pub fn new(folder: Rc<GeneralFolder>) -> (r: Self)
        ensures
            r.folder == folder,
    {
        Self { folder }
    }
}

/// A shared drive record, wrapped for use in a selection set.
pub struct PitouDriveWrap {
    pub drive: Rc<PitouDrive>,
}

impl PitouDriveWrap {
    pub fn new(drive: Rc<PitouDrive>) -> (r: Self)
        ensures
            r.drive == drive,
    {
        Self { drive }
    }
}

} // verus!
