//! The clipboard: a stack of copy and cut operations over shared file
//! lists.
//!
//! Pasting hands back the newest operation and leaves it on the stack
//! in a copied state, so the same files can be pasted again; a cut
//! therefore moves its files once and copies thereafter.  The file
//! transfer itself is the caller's to perform.

use vstd::prelude::*;
use std::sync::Arc;
use crate::files::PitouFile;

verus! {

/// One clipboard operation: the files it concerns, shared.
pub enum ClipboardItem {
    Copied(Arc<Vec<PitouFile>>),
    Cut(Arc<Vec<PitouFile>>),
}

/// The files a clipboard operation concerns.
pub open spec fn clip_files(item: ClipboardItem) -> Arc<Vec<PitouFile>> {
    match item {
        ClipboardItem::Copied(files) => files,
        ClipboardItem::Cut(files) => files,
    }
}

/// Relies on `Arc::clone`: a clone of a shared handle is the same
/// value.
#[verifier::external_body]
fn clone_arc(files: &Arc<Vec<PitouFile>>) -> (r: Arc<Vec<PitouFile>>)
    ensures
        r == *files,
{
    files.clone()
}

/// The clipboard stack, newest operation last.
pub struct Clipboard {
    items: Vec<ClipboardItem>,
}

impl View for Clipboard {
    type V = Seq<ClipboardItem>;

    closed spec fn view(&self) -> Seq<ClipboardItem> {
        self.items@
    }
}

impl Clipboard {
    /// An empty clipboard.
    pub fn new() -> (r: Self)
        ensures
            r@ == Seq::<ClipboardItem>::empty(),
    {
        Clipboard { items: Vec::new() }
    }

    /// Records that `files` were copied.
    pub fn copy(&mut self, files: Vec<PitouFile>)
        ensures
            final(self)@.len() == old(self)@.len() + 1,
            final(self)@.drop_last() == old(self)@,
            (final(self)@.last() matches ClipboardItem::Copied(held) && held@ == files@),
    {
        self.items.push(ClipboardItem::Copied(Arc::new(files)));
        proof {
            assert(self@.drop_last() =~= old(self)@);
        }
    }

    /// Records that `files` were cut.
    pub fn cut(&mut self, files: Vec<PitouFile>)
        ensures
            final(self)@.len() == old(self)@.len() + 1,
            final(self)@.drop_last() == old(self)@,
            (final(self)@.last() matches ClipboardItem::Cut(held) && held@ == files@),
    {
        self.items.push(ClipboardItem::Cut(Arc::new(files)));
        proof {
            assert(self@.drop_last() =~= old(self)@);
        }
    }

    /// Removes the operation at `idx`, oldest first.
    pub fn remove_from_clipboard(&mut self, idx: usize)
        requires
            idx < old(self)@.len(),
        ensures
            final(self)@ == old(self)@.remove(idx as int),
    {
        self.items.remove(idx);
    }

    /// Forgets every recorded operation.
    pub fn clear_clipboard(&mut self)
        ensures
            final(self)@ == Seq::<ClipboardItem>::empty(),
    {
        self.items.clear();
    }

    /// How many operations are recorded.
    pub fn len(&self) -> (r: usize)
        ensures
            r == self@.len(),
    {
        self.items.len()
    }

    /// True iff nothing has been copied or cut.
    pub fn is_empty(&self) -> (r: bool)
        ensures
            r == (self@.len() == 0),
    {
        self.items.is_empty()
    }

    /// Takes the newest operation for pasting.  The caller copies or
    /// moves the returned files as the operation says; on the stack
    /// the operation stays behind in a copied state.
    pub fn paste(&mut self) -> (r: Option<ClipboardItem>)
        ensures
            old(self)@.len() == 0 ==> (r is None && final(self)@ == old(self)@),
            old(self)@.len() > 0 ==> {
                &&& r == Some(old(self)@.last())
                &&& final(self)@.len() == old(self)@.len()
                &&& final(self)@.drop_last() == old(self)@.drop_last()
                &&& (final(self)@.last() matches ClipboardItem::Copied(held) && held == clip_files(
                    old(self)@.last(),
                ))
            },
    {
        let taken = self.items.pop();
        match &taken {
            None => {},
            Some(item) => {
                let held = match item {
                    ClipboardItem::Copied(files) => clone_arc(files),
                    ClipboardItem::Cut(files) => clone_arc(files),
                };
                self.items.push(ClipboardItem::Copied(held));
                proof {
                    assert(self@.drop_last() =~= old(self)@.drop_last());
                }
            },
        }
        taken
    }
}

} // verus!
