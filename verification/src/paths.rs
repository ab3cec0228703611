//! The crate's path model.
//!
//! A path is held as plain text whose components are separated by
//! [`PATH_SEPARATOR`].  Code that talks to the operating system converts
//! native paths to this form on the way in and back on the way out.

use vstd::prelude::*;
use vstd::utf8::encode_utf8;
use crate::text::push_char;

verus! {

/// The component separator of the path model.
pub const PATH_SEPARATOR: char = '/';

/// The index of the last separator in `p`, or `-1` if `p` has none.
pub open spec fn last_sep(p: Seq<char>) -> int
    decreases p.len(),
{
    if p.len() == 0 {
        -1
    } else if p[p.len() - 1] == PATH_SEPARATOR {
        p.len() - 1
    } else {
        last_sep(p.drop_last())
    }
}

pub proof fn lemma_last_sep_bounds(p: Seq<char>)
    ensures
        -1 <= last_sep(p) < p.len(),
    decreases p.len(),
{
    if p.len() > 0 && p[p.len() - 1] != PATH_SEPARATOR {
        lemma_last_sep_bounds(p.drop_last());
    }
}

/// Path text with trailing separators and trailing `.` components
/// removed: the prefix whose last component is the one a display name
/// comes from.
pub open spec fn spec_trimmed(p: Seq<char>) -> Seq<char>
    decreases p.len(),
{
    if p.len() == 0 {
        p
    } else if p[p.len() - 1] == PATH_SEPARATOR {
        spec_trimmed(p.drop_last())
    } else if p[p.len() - 1] == '.' && (p.len() == 1 || p[p.len() - 2] == PATH_SEPARATOR) {
        spec_trimmed(p.drop_last())
    } else {
        p
    }
}

/// The display name of a path: a fixed caption for the empty path,
/// which stands for the drive list; otherwise the last real component
/// — trailing separators and `.` components are ignored, and a path
/// that ends in `..` (or runs out entirely) has no name.
pub open spec fn spec_name(p: Seq<char>) -> Seq<char> {
    if p.len() == 0 {
        "Drives"@
    } else {
        let q = spec_trimmed(p);
        if q.len() == 0 {
            Seq::empty()
        } else {
            let c = q.subrange(last_sep(q) + 1, q.len() as int);
            if c == seq!['.', '.'] {
                Seq::empty()
            } else {
                c
            }
        }
    }
}

/// The ancestor prefixes of `p`, shortest first: one prefix for each
/// separator — the text before it, with the root rendered as the
/// separator itself.
pub open spec fn cuts_upto(p: Seq<char>, i: int) -> Seq<Seq<char>>
    decreases i,
{
    if i <= 0 {
        Seq::empty()
    } else if p[i - 1] == PATH_SEPARATOR {
        cuts_upto(p, i - 1).push(
            if i - 1 == 0 {
                seq![PATH_SEPARATOR]
            } else {
                p.take(i - 1)
            },
        )
    } else {
        cuts_upto(p, i - 1)
    }
}

/// All the ancestors of `p`, shortest first: the empty ancestor of a
/// relative path, one prefix per separator (the root as the separator
/// itself), and `p` last.  The lone root is its own only ancestor.
pub open spec fn spec_ancestors(p: Seq<char>) -> Seq<Seq<char>> {
    if p == seq![PATH_SEPARATOR] {
        seq![p]
    } else if p.len() > 0 && p[0] != PATH_SEPARATOR {
        seq![Seq::<char>::empty()] + cuts_upto(p, p.len() as int).push(p)
    } else {
        cuts_upto(p, p.len() as int).push(p)
    }
}

/// A path in the crate's model form.
#[derive(Hash)]
pub struct PitouFilePath {
    pub path: String,
}

impl PartialEq for PitouFilePath {
    fn eq(&self, other: &Self) -> (r: bool) {
        self.path == other.path
    }
}

impl vstd::std_specs::cmp::PartialEqSpecImpl for PitouFilePath {
    open spec fn obeys_eq_spec() -> bool {
        true
    }

    open spec fn eq_spec(&self, other: &Self) -> bool {
        self.path@ == other.path@
    }
}

fn find_last_sep(s: &str, i: usize) -> (r: usize)
    requires
        i <= s@.len(),
    ensures
        r as int == last_sep(s@.take(i as int)) + 1,
        r <= i,
    decreases i,
{
    proof {
        lemma_last_sep_bounds(s@.take(i as int));
    }
    if i == 0 {
        0
    } else {
        let c = s.get_char(i - 1);
        if c == PATH_SEPARATOR {
            i
        } else {
            proof {
                assert(s@.take(i as int).drop_last() =~= s@.take(i as int - 1));
            }
            find_last_sep(s, i - 1)
        }
    }
}

fn trim_end(s: &str, i: usize) -> (r: usize)
    requires
        i <= s@.len(),
    ensures
        r <= i,
        s@.take(r as int) == spec_trimmed(s@.take(i as int)),
    decreases i,
{
    if i == 0 {
        0
    } else {
        let c = s.get_char(i - 1);
        if c == PATH_SEPARATOR {
            proof {
                assert(s@.take(i as int).drop_last() =~= s@.take(i as int - 1));
            }
            trim_end(s, i - 1)
        } else if c == '.' && (i == 1 || s.get_char(i - 2) == PATH_SEPARATOR) {
            proof {
                assert(s@.take(i as int).drop_last() =~= s@.take(i as int - 1));
            }
            trim_end(s, i - 1)
        } else {
            i
        }
    }
}

impl PitouFilePath {
    /// The display name: `"Drives"` for the empty path, otherwise the
    /// last real component — trailing separators and `.` components
    /// ignored, `""` when the path ends in `..` or has no component
    /// left.
    pub fn name(&self) -> (r: &str)
        ensures
            r@ == spec_name(self.path@),
    {
        let s = self.path.as_str();
        let n0 = s.unicode_len();
        if n0 == 0 {
            return "Drives";
        }
        proof {
            assert(s@.take(n0 as int) =~= s@);
        }
        let n = trim_end(s, n0);
        let ghost q = spec_trimmed(s@);
        proof {
            assert(q == s@.take(n as int));
            assert(q.len() == n);
        }
        if n == 0 {
            proof {
                reveal_strlit("");
                assert(""@ =~= spec_name(self.path@));
            }
            return "";
        }
        proof {
            lemma_last_sep_bounds(q);
        }
        let start = find_last_sep(s, n);
        let ghost c = q.subrange(last_sep(q) + 1, q.len() as int);
        proof {
            assert(c =~= s@.subrange(start as int, n as int));
        }
        let dotdot = if n - start == 2 {
            s.get_char(start) == '.' && s.get_char(start + 1) == '.'
        } else {
            false
        };
        if dotdot {
            proof {
                assert(c.len() == 2);
                assert(c[0] == s@[start as int]);
                assert(c[1] == s@[start as int + 1]);
                assert(c =~= seq!['.', '.']);
                reveal_strlit("");
                assert(""@ =~= spec_name(self.path@));
            }
            ""
        } else {
            proof {
                if c.len() == 2 {
                    assert(c[0] == s@[start as int]);
                    assert(c[1] == s@[start as int + 1]);
                }
                assert(c != seq!['.', '.']);
            }
            s.substring_char(start, n)
        }
    }

    /// Wraps already-converted path text.
    pub fn from_pathbuf(pathbuf: String) -> (r: Self)
        ensures
            r.path@ == pathbuf@,
    {
        Self { path: pathbuf }
    }

    /// The UTF-8 bytes of the path text.
    pub fn as_bytes(&self) -> (r: &[u8])
        ensures
            r@ == encode_utf8(self.path@),
    {
        self.path.as_str().as_bytes()
    }

    /// Every ancestor of the path, shortest first: the empty ancestor
    /// of a relative path, one prefix per separator (the root as the
    /// separator itself), and the path itself last.
    pub fn ancestors(&self) -> (r: Vec<PitouFilePath>)
        ensures
            r@.len() == spec_ancestors(self.path@).len(),
            forall|k: int|
                0 <= k < r@.len() ==> r@[k].path@ == spec_ancestors(self.path@)[k],
    {
        let s = self.path.as_str();
        let n = s.unicode_len();
        if n == 1 && s.get_char(0) == PATH_SEPARATOR {
            let mut r: Vec<PitouFilePath> = Vec::new();
            r.push(self.clone());
            proof {
                assert(s@ =~= seq![PATH_SEPARATOR]);
                assert(spec_ancestors(self.path@) =~= seq![self.path@]);
            }
            return r;
        }
        let mut r: Vec<PitouFilePath> = Vec::new();
        let ghost lead: Seq<Seq<char>> = if n > 0 && s@[0] != PATH_SEPARATOR {
            seq![Seq::<char>::empty()]
        } else {
            Seq::empty()
        };
        if n > 0 && s.get_char(0) != PATH_SEPARATOR {
            r.push(PitouFilePath { path: String::new() });
        }
        let mut i: usize = 0;
        while i < n
            invariant
                i <= n,
                n == s@.len(),
                r@.len() == lead.len() + cuts_upto(s@, i as int).len(),
                forall|k: int|
                    0 <= k < r@.len() ==> r@[k].path@ == (lead + cuts_upto(s@, i as int))[k],
            decreases n - i,
        {
            let c = s.get_char(i);
            if c == PATH_SEPARATOR {
                let ghost v: Seq<char> = if i == 0 {
                    seq![PATH_SEPARATOR]
                } else {
                    s@.take(i as int)
                };
                if i == 0 {
                    let mut root = String::new();
                    push_char(&mut root, PATH_SEPARATOR);
                    r.push(PitouFilePath { path: root });
                    proof {
                        assert(Seq::<char>::empty().push(PATH_SEPARATOR) =~= seq![
                            PATH_SEPARATOR,
                        ]);
                    }
                } else {
                    let prefix = s.substring_char(0, i);
                    r.push(PitouFilePath { path: prefix.to_owned() });
                    proof {
                        assert(s@.subrange(0, i as int) =~= s@.take(i as int));
                    }
                }
                proof {
                    assert(cuts_upto(s@, i as int + 1) == cuts_upto(s@, i as int).push(v));
                    assert(lead + cuts_upto(s@, i as int + 1) =~= (lead + cuts_upto(
                        s@,
                        i as int,
                    )).push(v));
                }
            }
            i = i + 1;
        }
        r.push(PitouFilePath { path: self.path.clone() });
        proof {
            assert(lead + cuts_upto(s@, n as int).push(self.path@) =~= (lead + cuts_upto(
                s@,
                n as int,
            )).push(self.path@));
            assert(spec_ancestors(self.path@) =~= lead + cuts_upto(s@, n as int).push(
                self.path@,
            ));
        }
        r
    }
}

impl Clone for PitouFilePath {
    fn clone(&self) -> (r: Self)
        ensures
            r == *self,
    {
        Self { path: self.path.clone() }
    }
}

/// Joins a child name onto a directory path, placing a separator
/// between them unless the directory is empty.
pub fn path_join(dir: &PitouFilePath, child: &str) -> (r: PitouFilePath)
    ensures
        r.path@ == spec_path_join(dir.path@, child@),
{
    let mut s = dir.path.clone();
    if s.as_str().unicode_len() > 0 {
        push_char(&mut s, PATH_SEPARATOR);
    }
    let joined = s.concat(child);
    proof {
        assert(joined@ =~= spec_path_join(dir.path@, child@));
    }
    PitouFilePath { path: joined }
}

/// The text of a path join: `dir`, a separator when `dir` is not empty,
/// then `child`.
pub open spec fn spec_path_join(dir: Seq<char>, child: Seq<char>) -> Seq<char> {
    if dir.len() == 0 {
        child
    } else {
        dir.push(PATH_SEPARATOR) + child
    }
}

} // verus!
