//! Ordering directory listings: sort keys, a verified insertion sort,
//! and the listing helpers built on it.
//!
//! Entries without metadata have no date key; they sort before every
//! dated entry, in either direction, as `Option` ordering has it.

use vstd::prelude::*;
use vstd::multiset::Multiset;
use vstd::relations::sorted_by;
use vstd::seq_lib::{to_multiset_insert, to_multiset_remove};
use crate::files::{PitouDrive, PitouFile, PitouFileFilter};
use crate::paths::spec_name;
use crate::text::{lemma_lex_le_total, lemma_lex_le_trans, lex_le, str_le};

verus! {

broadcast use vstd::seq_lib::group_to_multiset_ensures, vstd::multiset::group_multiset_axioms;

/// The direction of a sort.
#[derive(Clone, Copy)]
pub enum PitouFileSortOrder {
    Increasing,
    Decreasing,
}

/// What a listing is ordered by.
#[derive(Clone, Copy)]
pub enum PitouFileSort {
    DateCreated(PitouFileSortOrder),
    Name(PitouFileSortOrder),
    DateModified(PitouFileSortOrder),
    DateAccessed(PitouFileSortOrder),
}

/// The creation instant of an entry, if its metadata is present.
pub open spec fn created_of(f: PitouFile) -> Option<i64> {
    match f.metadata {
        Some(m) => Some(m.created.datetime),
        None => None,
    }
}

/// The modification instant of an entry, if its metadata is present.
pub open spec fn modified_of(f: PitouFile) -> Option<i64> {
    match f.metadata {
        Some(m) => Some(m.modified.datetime),
        None => None,
    }
}

/// The access instant of an entry, if its metadata is present.
pub open spec fn accessed_of(f: PitouFile) -> Option<i64> {
    match f.metadata {
        Some(m) => Some(m.accessed.datetime),
        None => None,
    }
}

/// The display name an entry is sorted by.
pub open spec fn name_of(f: PitouFile) -> Seq<char> {
    spec_name(f.path.path@)
}

/// Ascending order on optional instants: an absent key sorts first.
pub open spec fn opt_le(a: Option<i64>, b: Option<i64>) -> bool {
    match a {
        None => true,
        Some(x) => match b {
            None => false,
            Some(y) => x <= y,
        },
    }
}

/// Descending order on optional instants: an absent key still sorts
/// first, then later instants before earlier ones.
pub open spec fn opt_le_desc(a: Option<i64>, b: Option<i64>) -> bool {
    match a {
        None => true,
        Some(x) => match b {
            None => false,
            Some(y) => x >= y,
        },
    }
}

/// The ordering a sort request puts on two entries.
pub open spec fn sort_le(sort: PitouFileSort, a: PitouFile, b: PitouFile) -> bool {
    match sort {
        PitouFileSort::DateCreated(o) => match o {
            PitouFileSortOrder::Increasing => opt_le(created_of(a), created_of(b)),
            PitouFileSortOrder::Decreasing => opt_le_desc(created_of(a), created_of(b)),
        },
        PitouFileSort::Name(o) => match o {
            PitouFileSortOrder::Increasing => lex_le(name_of(a), name_of(b)),
            PitouFileSortOrder::Decreasing => lex_le(name_of(b), name_of(a)),
        },
        PitouFileSort::DateModified(o) => match o {
            PitouFileSortOrder::Increasing => opt_le(modified_of(a), modified_of(b)),
            PitouFileSortOrder::Decreasing => opt_le_desc(modified_of(a), modified_of(b)),
        },
        PitouFileSort::DateAccessed(o) => match o {
            PitouFileSortOrder::Increasing => opt_le(accessed_of(a), accessed_of(b)),
            PitouFileSortOrder::Decreasing => opt_le_desc(accessed_of(a), accessed_of(b)),
        },
    }
}

/// The ordering of a sort request, as a relation.
pub open spec fn le_of(sort: PitouFileSort) -> spec_fn(PitouFile, PitouFile) -> bool {
    |a: PitouFile, b: PitouFile| sort_le(sort, a, b)
}

/// Each sort order relates every pair of entries one way or the other.
pub proof fn lemma_sort_le_total(sort: PitouFileSort, a: PitouFile, b: PitouFile)
    ensures
        sort_le(sort, a, b) || sort_le(sort, b, a),
{
    match sort {
        PitouFileSort::Name(_) => {
            lemma_lex_le_total(name_of(a), name_of(b));
        },
        _ => {},
    }
}

/// Each sort order is transitive.
pub proof fn lemma_sort_le_trans(sort: PitouFileSort, a: PitouFile, b: PitouFile, c: PitouFile)
    requires
        sort_le(sort, a, b),
        sort_le(sort, b, c),
    ensures
        sort_le(sort, a, c),
{
    match sort {
        PitouFileSort::Name(o) => match o {
            PitouFileSortOrder::Increasing => {
                lemma_lex_le_trans(name_of(a), name_of(b), name_of(c));
            },
            PitouFileSortOrder::Decreasing => {
                lemma_lex_le_trans(name_of(c), name_of(b), name_of(a));
            },
        },
        _ => {},
    }
}

fn opt_le_exec(a: Option<i64>, b: Option<i64>, desc: bool) -> (r: bool)
    ensures
        !desc ==> r == opt_le(a, b),
        desc ==> r == opt_le_desc(a, b),
{
    match a {
        None => true,
        Some(x) => match b {
            None => false,
            Some(y) => if desc {
                x >= y
            } else {
                x <= y
            },
        },
    }
}

fn key_created(f: &PitouFile) -> (r: Option<i64>)
    ensures
        r == created_of(*f),
{
    match &f.metadata {
        Some(m) => Some(m.created.datetime),
        None => None,
    }
}

fn key_modified(f: &PitouFile) -> (r: Option<i64>)
    ensures
        r == modified_of(*f),
{
    match &f.metadata {
        Some(m) => Some(m.modified.datetime),
        None => None,
    }
}

fn key_accessed(f: &PitouFile) -> (r: Option<i64>)
    ensures
        r == accessed_of(*f),
{
    match &f.metadata {
        Some(m) => Some(m.accessed.datetime),
        None => None,
    }
}

fn sort_le_exec(sort: &PitouFileSort, a: &PitouFile, b: &PitouFile) -> (r: bool)
    ensures
        r == sort_le(*sort, *a, *b),
{
    match sort {
        PitouFileSort::DateCreated(o) => opt_le_exec(
            key_created(a),
            key_created(b),
            matches!(o, PitouFileSortOrder::Decreasing),
        ),
        PitouFileSort::Name(o) => match o {
            PitouFileSortOrder::Increasing => str_le(a.name(), b.name()),
            PitouFileSortOrder::Decreasing => str_le(b.name(), a.name()),
        },
        PitouFileSort::DateModified(o) => opt_le_exec(
            key_modified(a),
            key_modified(b),
            matches!(o, PitouFileSortOrder::Decreasing),
        ),
        PitouFileSort::DateAccessed(o) => opt_le_exec(
            key_accessed(a),
            key_accessed(b),
            matches!(o, PitouFileSortOrder::Decreasing),
        ),
    }
}

fn find_pos(sort: &PitouFileSort, out: &Vec<PitouFile>, f: &PitouFile) -> (j: usize)
    ensures
        j <= out@.len(),
        forall|k: int| 0 <= k < j ==> sort_le(*sort, out@[k], *f),
        j < out@.len() ==> !sort_le(*sort, out@[j as int], *f),
{
    let n = out.len();
    let mut j: usize = 0;
    loop
        invariant
            j <= n,
            n == out@.len(),
            forall|k: int| 0 <= k < j ==> sort_le(*sort, out@[k], *f),
        decreases n - j,
    {
        if j == n {
            return j;
        }
        if !sort_le_exec(sort, &out[j], f) {
            return j;
        }
        j = j + 1;
    }
}

fn insert_sorted(sort: &PitouFileSort, out: &mut Vec<PitouFile>, f: PitouFile)
    requires
        sorted_by(old(out)@, le_of(*sort)),
    ensures
        sorted_by(final(out)@, le_of(*sort)),
        final(out)@.to_multiset() == old(out)@.to_multiset().insert(f),
{
    let j = find_pos(sort, out, &f);
    out.insert(j, f);
    proof {
        let pre = old(out)@;
        let post = out@;
        to_multiset_insert(pre, j as int, f);
        assert forall|i1: int, i2: int| 0 <= i1 < i2 < post.len() implies #[trigger] le_of(
            *sort,
        )(post[i1], post[i2]) by {
            if i2 < j {
                assert(post[i1] == pre[i1]);
                assert(post[i2] == pre[i2]);
            } else if i1 < j && i2 == j {
                assert(post[i1] == pre[i1]);
                assert(post[i2] == f);
            } else if i1 < j && i2 > j {
                assert(post[i1] == pre[i1]);
                assert(post[i2] == pre[i2 - 1]);
                if i1 < i2 - 1 {
                } else {
                    assert(i1 == i2 - 1);
                    assert(i1 == j - 1 && i2 == j + 1 ==> false);
                }
            } else if i1 == j {
                assert(post[i1] == f);
                assert(post[i2] == pre[i2 - 1]);
                assert(j < pre.len());
                assert(!sort_le(*sort, pre[j as int], f));
                lemma_sort_le_total(*sort, pre[j as int], f);
                assert(sort_le(*sort, f, pre[j as int]));
                if i2 - 1 == j {
                } else {
                    assert(le_of(*sort)(pre[j as int], pre[i2 - 1]));
                    assert(sort_le(*sort, pre[j as int], pre[i2 - 1]));
                    lemma_sort_le_trans(*sort, f, pre[j as int], pre[i2 - 1]);
                }
            } else {
                assert(i1 > j);
                assert(post[i1] == pre[i1 - 1]);
                assert(post[i2] == pre[i2 - 1]);
            }
        }
    }
}

impl PitouFileSort {
    /// Reorders a listing under this sort request: the result is
    /// ordered by the requested key and direction, and holds exactly
    /// the entries given.
    #[verifier::loop_isolation(false)]
    pub fn sorted(self, items: Vec<PitouFile>) -> (r: Vec<PitouFile>)
        ensures
            sorted_by(r@, le_of(self)),
            r@.to_multiset() == items@.to_multiset(),
    {
        let ghost whole = items@;
        let mut rest = items;
        let mut out: Vec<PitouFile> = Vec::new();
        proof {
            assert(out@.to_multiset().add(rest@.to_multiset()) =~= whole.to_multiset());
        }
        loop
            invariant
                sorted_by(out@, le_of(self)),
                out@.to_multiset().add(rest@.to_multiset()) == whole.to_multiset(),
            decreases rest@.len(),
        {
            let ghost pre_rest = rest@;
            let ghost pre_out = out@;
            match rest.pop() {
                Some(f) => {
                    proof {
                        to_multiset_remove(pre_rest, pre_rest.len() - 1);
                        assert(rest@ =~= pre_rest.remove(pre_rest.len() - 1));
                        assert(pre_rest[pre_rest.len() - 1] == f);
                        assert(pre_rest.contains(f));
                        assert(pre_rest.to_multiset().count(f) > 0);
                    }
                    insert_sorted(&self, &mut out, f);
                    proof {
                        assert(out@.to_multiset().add(rest@.to_multiset())
                            =~= pre_out.to_multiset().add(pre_rest.to_multiset()));
                    }
                },
                None => {
                    proof {
                        assert(rest@.len() == 0);
                        assert(forall|a: PitouFile| !rest@.contains(a));
                        assert(rest@.to_multiset() =~= Multiset::<PitouFile>::empty());
                        assert(out@.to_multiset() =~= whole.to_multiset());
                    }
                    return out;
                },
            }
        }
    }
}

/// A listing reduced to the entries whose kind the filter admits, in
/// their original order.
pub open spec fn filtered(entries: Seq<PitouFile>, filter: PitouFileFilter) -> Seq<PitouFile>
    decreases entries.len(),
{
    if entries.len() == 0 {
        Seq::empty()
    } else {
        let rest = filtered(entries.drop_last(), filter);
        if filter.admits(entries.last()) {
            rest.push(entries.last())
        } else {
            rest
        }
    }
}

/// A listing filtered down to the kinds a filter admits and, when a
/// sort is requested, reordered under it.
pub fn children(
    entries: Vec<PitouFile>,
    filter: PitouFileFilter,
    sort: Option<PitouFileSort>,
) -> (r: Vec<PitouFile>)
    ensures
        (sort is None ==> r@ == filtered(entries@, filter)),
        (sort matches Some(st) ==> sorted_by(r@, le_of(st)) && r@.to_multiset() == filtered(
            entries@,
            filter,
        ).to_multiset()),
{
    let n = entries.len();
    let mut kept: Vec<PitouFile> = Vec::new();
    let mut i: usize = 0;
    proof {
        assert(filtered(entries@.take(0), filter) =~= Seq::<PitouFile>::empty());
    }
    while i < n
        invariant
            i <= n,
            n == entries@.len(),
            kept@ == filtered(entries@.take(i as int), filter),
        decreases n - i,
    {
        let f = entries[i].clone();
        match filter.map(f) {
            Some(kf) => kept.push(kf),
            None => {},
        }
        proof {
            let taken = entries@.take(i as int + 1);
            assert(taken.drop_last() =~= entries@.take(i as int));
            assert(taken.last() == entries@[i as int]);
            assert(kept@ =~= filtered(taken, filter));
        }
        i = i + 1;
    }
    proof {
        assert(entries@.take(n as int) =~= entries@);
    }
    match sort {
        Some(st) => st.sorted(kept),
        None => kept,
    }
}

/// Ascending order of drives by the display name of their mount
/// points.
pub open spec fn drive_le(a: PitouDrive, b: PitouDrive) -> bool {
    lex_le(spec_name(a.mount_point.path@), spec_name(b.mount_point.path@))
}

/// The drive ordering, as a relation.
pub open spec fn drive_le_rel() -> spec_fn(PitouDrive, PitouDrive) -> bool {
    |a: PitouDrive, b: PitouDrive| drive_le(a, b)
}

fn drive_find_pos(out: &Vec<PitouDrive>, d: &PitouDrive) -> (j: usize)
    ensures
        j <= out@.len(),
        forall|k: int| 0 <= k < j ==> drive_le(out@[k], *d),
        j < out@.len() ==> !drive_le(out@[j as int], *d),
{
    let n = out.len();
    let mut j: usize = 0;
    loop
        invariant
            j <= n,
            n == out@.len(),
            forall|k: int| 0 <= k < j ==> drive_le(out@[k], *d),
        decreases n - j,
    {
        if j == n {
            return j;
        }
        if !str_le(out[j].mount_point.name(), d.mount_point.name()) {
            return j;
        }
        j = j + 1;
    }
}

fn drive_insert_sorted(out: &mut Vec<PitouDrive>, d: PitouDrive)
    requires
        sorted_by(old(out)@, drive_le_rel()),
    ensures
        sorted_by(final(out)@, drive_le_rel()),
        final(out)@.to_multiset() == old(out)@.to_multiset().insert(d),
{
    let j = drive_find_pos(out, &d);
    out.insert(j, d);
    proof {
        let pre = old(out)@;
        let post = out@;
        to_multiset_insert(pre, j as int, d);
        assert forall|i1: int, i2: int| 0 <= i1 < i2 < post.len() implies #[trigger] drive_le_rel()(
            post[i1],
            post[i2],
        ) by {
            if i2 < j {
            } else if i1 < j && i2 == j {
            } else if i1 < j && i2 > j {
                assert(post[i2] == pre[i2 - 1]);
            } else if i1 == j {
                assert(post[i2] == pre[i2 - 1]);
                assert(j < pre.len());
                lemma_lex_le_total(
                    spec_name(pre[j as int].mount_point.path@),
                    spec_name(d.mount_point.path@),
                );
                if i2 - 1 != j {
                    assert(drive_le_rel()(pre[j as int], pre[i2 - 1]));
                    lemma_lex_le_trans(
                        spec_name(d.mount_point.path@),
                        spec_name(pre[j as int].mount_point.path@),
                        spec_name(pre[i2 - 1].mount_point.path@),
                    );
                }
            } else {
                assert(post[i1] == pre[i1 - 1]);
                assert(post[i2] == pre[i2 - 1]);
            }
        }
    }
}

/// The drive list a consumer sees: the drives found, in ascending
/// order of their mount points' names.
#[verifier::loop_isolation(false)]
pub fn drives(found: Vec<PitouDrive>) -> (r: Vec<PitouDrive>)
    ensures
        sorted_by(r@, drive_le_rel()),
        r@.to_multiset() == found@.to_multiset(),
{
    let ghost whole = found@;
    let mut rest = found;
    let mut out: Vec<PitouDrive> = Vec::new();
    proof {
        assert(out@.to_multiset().add(rest@.to_multiset()) =~= whole.to_multiset());
    }
    loop
        invariant
            sorted_by(out@, drive_le_rel()),
            out@.to_multiset().add(rest@.to_multiset()) == whole.to_multiset(),
        decreases rest@.len(),
    {
        let ghost pre_rest = rest@;
        let ghost pre_out = out@;
        match rest.pop() {
            Some(d) => {
                proof {
                    to_multiset_remove(pre_rest, pre_rest.len() - 1);
                    assert(rest@ =~= pre_rest.remove(pre_rest.len() - 1));
                    assert(pre_rest[pre_rest.len() - 1] == d);
                    assert(pre_rest.contains(d));
                    assert(pre_rest.to_multiset().count(d) > 0);
                }
                drive_insert_sorted(&mut out, d);
                proof {
                    assert(out@.to_multiset().add(rest@.to_multiset())
                        =~= pre_out.to_multiset().add(pre_rest.to_multiset()));
                }
            },
            None => {
                proof {
                    assert(rest@.len() == 0);
                    assert(forall|a: PitouDrive| !rest@.contains(a));
                    assert(rest@.to_multiset() =~= Multiset::<PitouDrive>::empty());
                    assert(out@.to_multiset() =~= whole.to_multiset());
                }
                return out;
            },
        }
    }
}

} // verus!
