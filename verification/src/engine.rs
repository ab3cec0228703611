//! The traversal scheduler and the search orchestrator.
//!
//! A directory tree is taken as a value: each [`FsNode`] is one entry
//! together with the listing its enumeration produced (`None` when the
//! directory could not be opened).  Walking such a tree, the engine
//! does to the session precisely what the specification functions
//! below say, step by step: for each entry of a directory it first
//! registers a unit of work for a subdirectory, then writes the entry
//! if it passes the filter; then it works through the subdirectories.
//! Depth runs out one level per step, and the top of every traversal
//! task is a cooperative cancellation checkpoint, so once the session
//! goes inactive — an outside `terminate_stream`, or the write past
//! the quota — no further directory is entered.
//!
//! When a directory cannot be enumerated, that branch is abandoned
//! silently and its siblings are unaffected, whatever `skip_errors`
//! says; the flag is carried for its callers but gates nothing here.

use vstd::prelude::*;
use crate::files::PitouFile;
use crate::options::{SearchOptions, SearchVariables};
use crate::session::{SearchSession, SessionState, Task};

verus! {

/// One enumerated entry and, when it is a directory that could be
/// opened, its own listing in enumeration order.
pub struct FsNode {
    pub file: PitouFile,
    pub entries: Option<Vec<FsNode>>,
}

/// What one entry does to the session while its directory is scanned:
/// a unit of work is registered if the entry is a directory, then the
/// entry is written if it passes the filter.
pub open spec fn entry_step(
    s: SessionState,
    e: FsNode,
    vars: SearchVariables,
    child_depth: u8,
) -> SessionState {
    let s1 = if e.file.is_dir_spec() {
        s.step_append(Task { dir: e.file.path, depth: child_depth })
    } else {
        s
    };
    if vars.include_spec(&e.file) {
        s1.step_write(e.file)
    } else {
        s1
    }
}

/// The scan of a whole listing, entry by entry in order.
pub open spec fn scan_state(
    s: SessionState,
    entries: Seq<FsNode>,
    vars: SearchVariables,
    child_depth: u8,
) -> SessionState
    decreases entries.len(),
{
    if entries.len() == 0 {
        s
    } else {
        scan_state(entry_step(s, entries[0], vars, child_depth), entries.drop_first(), vars, child_depth)
    }
}

/// One traversal task on directory `node` with `depth` levels left:
/// nothing when the depth is spent, the session is inactive (the
/// cooperative checkpoint), or the listing is missing; otherwise the
/// scan of the listing, then the traversals of its subdirectories, in
/// order.
pub open spec fn visit_state(
    s: SessionState,
    node: FsNode,
    depth: u8,
    vars: SearchVariables,
) -> SessionState
    decreases depth, 0nat,
{
    if depth == 0 || !(s.stream is Some) {
        s
    } else {
        match node.entries {
            None => s,
            Some(es) => subdirs_state(
                scan_state(s, es@, vars, (depth - 1) as u8),
                es@,
                (depth - 1) as u8,
                vars,
            ),
        }
    }
}

/// The traversals of every directory entry of a listing, in order;
/// each one starts from the state the previous one left, and so sees
/// the checkpoint.
pub open spec fn subdirs_state(
    s: SessionState,
    entries: Seq<FsNode>,
    depth: u8,
    vars: SearchVariables,
) -> SessionState
    decreases depth, entries.len(),
{
    if entries.len() == 0 {
        s
    } else {
        subdirs_state(
            if entries[0].file.is_dir_spec() {
                visit_state(s, entries[0], depth, vars)
            } else {
                s
            },
            entries.drop_first(),
            depth,
            vars,
        )
    }
}

proof fn lemma_scan_snoc(
    s: SessionState,
    entries: Seq<FsNode>,
    x: FsNode,
    vars: SearchVariables,
    child_depth: u8,
)
    ensures
        scan_state(s, entries.push(x), vars, child_depth) == entry_step(
            scan_state(s, entries, vars, child_depth),
            x,
            vars,
            child_depth,
        ),
    decreases entries.len(),
{
    if entries.len() == 0 {
        assert(entries.push(x)[0] == x);
        assert(entries.push(x).drop_first() =~= Seq::<FsNode>::empty());
        assert(scan_state(entry_step(s, x, vars, child_depth), Seq::<FsNode>::empty(), vars, child_depth)
            == entry_step(s, x, vars, child_depth));
    } else {
        assert(entries.push(x)[0] == entries[0]);
        assert(entries.push(x).drop_first() =~= entries.drop_first().push(x));
        lemma_scan_snoc(
            entry_step(s, entries[0], vars, child_depth),
            entries.drop_first(),
            x,
            vars,
            child_depth,
        );
    }
}

proof fn lemma_subdirs_snoc(
    s: SessionState,
    entries: Seq<FsNode>,
    x: FsNode,
    depth: u8,
    vars: SearchVariables,
)
    ensures
        subdirs_state(s, entries.push(x), depth, vars) == (if x.file.is_dir_spec() {
            visit_state(subdirs_state(s, entries, depth, vars), x, depth, vars)
        } else {
            subdirs_state(s, entries, depth, vars)
        }),
    decreases entries.len(),
{
    if entries.len() == 0 {
        let s1 = if x.file.is_dir_spec() {
            visit_state(s, x, depth, vars)
        } else {
            s
        };
        assert(entries.push(x)[0] == x);
        assert(entries.push(x).drop_first() =~= Seq::<FsNode>::empty());
        assert(subdirs_state(s1, Seq::<FsNode>::empty(), depth, vars) == s1);
    } else {
        assert(entries.push(x)[0] == entries[0]);
        assert(entries.push(x).drop_first() =~= entries.drop_first().push(x));
        lemma_subdirs_snoc(
            if entries[0].file.is_dir_spec() {
                visit_state(s, entries[0], depth, vars)
            } else {
                s
            },
            entries.drop_first(),
            x,
            depth,
            vars,
        );
    }
}

/// One traversal task over `node` with `depth` levels left.
///
/// The contract is the whole story: the task takes the session from
/// its state to exactly `visit_state` of it — the scan of the listing
/// followed by the subtraversals, each behind the cooperative
/// checkpoint.
pub fn recursive_search(node: &FsNode, depth: u8, vars: &SearchVariables, session: &mut SearchSession)
    ensures
        final(session)@ == visit_state(old(session)@, *node, depth, *vars),
    decreases depth,
{
    if depth == 0 || session.is_terminated() {
        return ;
    }
    let child_depth = depth - 1;
    let ghost s0 = session@;
    match &node.entries {
        None => {
            // the directory could not be opened: abandon this branch
        },
        Some(es) => {
            let n = es.len();
            let mut i: usize = 0;
            proof {
                assert(es@.take(0) =~= Seq::<FsNode>::empty());
            }
            while i < n
                invariant
                    i <= n,
                    n == es@.len(),
                    session@ == scan_state(s0, es@.take(i as int), *vars, child_depth),
                decreases n - i,
            {
                let ghost before = session@;
                let e = &es[i];
                if e.file.is_dir() {
                    let t = Task { dir: e.file.path.clone(), depth: child_depth };
                    session.append_handle(t);
                }
                let ghost mid = session@;
                if vars.includes(&e.file) {
                    let _withdrawn = session.write(e.file.clone());
                }
                proof {
                    assert(session@ == entry_step(before, es@[i as int], *vars, child_depth));
                    assert(es@.take(i as int).push(es@[i as int]) =~= es@.take(i as int + 1));
                    lemma_scan_snoc(s0, es@.take(i as int), es@[i as int], *vars, child_depth);
                    assert(session@ == scan_state(s0, es@.take(i as int + 1), *vars, child_depth));
                }
                i = i + 1;
            }
            proof {
                assert(es@.take(n as int) =~= es@);
            }
            let ghost s1 = session@;
            let mut j: usize = 0;
            proof {
                assert(es@.take(0) =~= Seq::<FsNode>::empty());
            }
            while j < n
                invariant
                    j <= n,
                    n == es@.len(),
                    child_depth < depth,
                    session@ == subdirs_state(s1, es@.take(j as int), child_depth, *vars),
                decreases n - j,
            {
                let ghost before = session@;
                let e = &es[j];
                if e.file.is_dir() {
                    recursive_search(e, child_depth, vars, session);
                }
                proof {
                    assert(es@.take(j as int).push(es@[j as int]) =~= es@.take(j as int + 1));
                    lemma_subdirs_snoc(s1, es@.take(j as int), es@[j as int], child_depth, *vars);
                    assert(session@ == subdirs_state(s1, es@.take(j as int + 1), child_depth, *vars));
                }
                j = j + 1;
            }
            proof {
                assert(es@.take(n as int) =~= es@);
                assert(session@ == visit_state(s0, *node, depth, *vars));
            }
        },
    }
}

/// With no depth at all, a traversal is inert: no directory is
/// enumerated and the session is untouched.
pub proof fn lemma_depth_zero_is_inert(s: SessionState, node: FsNode, vars: SearchVariables)
    ensures
        visit_state(s, node, 0, vars) == s,
{
}

proof fn lemma_subdirs_depth_zero(s: SessionState, entries: Seq<FsNode>, vars: SearchVariables)
    ensures
        subdirs_state(s, entries, 0, vars) == s,
    decreases entries.len(),
{
    if entries.len() > 0 {
        assert(visit_state(s, entries[0], 0, vars) == s);
        lemma_subdirs_depth_zero(s, entries.drop_first(), vars);
    }
}

/// With exactly one level of depth, only the root's own listing is
/// tested: no subdirectory of it is ever entered.
pub proof fn lemma_depth_one_scans_root_only(s: SessionState, node: FsNode, vars: SearchVariables)
    ensures
        visit_state(s, node, 1, vars) == (if s.stream is Some {
            match node.entries {
                None => s,
                Some(es) => scan_state(s, es@, vars, 0),
            }
        } else {
            s
        }),
{
    if s.stream is Some {
        match node.entries {
            None => {},
            Some(es) => {
                lemma_subdirs_depth_zero(scan_state(s, es@, vars, 0), es@, vars);
            },
        }
    }
}

/// Every entry in the buffer passed the request: its kind is one the
/// filter asks for and its name satisfies the pattern.
pub open spec fn buffer_filtered(s: SessionState, vars: SearchVariables) -> bool {
    s.stream matches Some(b) ==> (forall|k: int|
        0 <= k < b.len() ==> vars.include_spec(&#[trigger] b[k]))
}

proof fn lemma_entry_step_keeps_filtered(
    s: SessionState,
    e: FsNode,
    vars: SearchVariables,
    child_depth: u8,
)
    requires
        buffer_filtered(s, vars),
    ensures
        buffer_filtered(entry_step(s, e, vars, child_depth), vars),
{
}

proof fn lemma_scan_keeps_filtered(
    s: SessionState,
    entries: Seq<FsNode>,
    vars: SearchVariables,
    child_depth: u8,
)
    requires
        buffer_filtered(s, vars),
    ensures
        buffer_filtered(scan_state(s, entries, vars, child_depth), vars),
    decreases entries.len(),
{
    if entries.len() > 0 {
        lemma_entry_step_keeps_filtered(s, entries[0], vars, child_depth);
        lemma_scan_keeps_filtered(
            entry_step(s, entries[0], vars, child_depth),
            entries.drop_first(),
            vars,
            child_depth,
        );
    }
}

/// What lands in the buffer fits the request: a traversal never adds
/// an entry the filter excludes, so an unclassifiable entry never
/// appears among the results.
pub proof fn lemma_visit_keeps_filtered(
    s: SessionState,
    node: FsNode,
    depth: u8,
    vars: SearchVariables,
)
    requires
        buffer_filtered(s, vars),
    ensures
        buffer_filtered(visit_state(s, node, depth, vars), vars),
    decreases depth, 0nat,
{
    if depth != 0 && s.stream is Some {
        match node.entries {
            None => {},
            Some(es) => {
                lemma_scan_keeps_filtered(s, es@, vars, (depth - 1) as u8);
                lemma_subdirs_keeps_filtered(
                    scan_state(s, es@, vars, (depth - 1) as u8),
                    es@,
                    (depth - 1) as u8,
                    vars,
                );
            },
        }
    }
}

proof fn lemma_subdirs_keeps_filtered(
    s: SessionState,
    entries: Seq<FsNode>,
    depth: u8,
    vars: SearchVariables,
)
    requires
        buffer_filtered(s, vars),
    ensures
        buffer_filtered(subdirs_state(s, entries, depth, vars), vars),
    decreases depth, entries.len(),
{
    if entries.len() > 0 {
        let s1 = if entries[0].file.is_dir_spec() {
            visit_state(s, entries[0], depth, vars)
        } else {
            s
        };
        if entries[0].file.is_dir_spec() {
            lemma_visit_keeps_filtered(s, entries[0], depth, vars);
        }
        lemma_subdirs_keeps_filtered(s1, entries.drop_first(), depth, vars);
    }
}

proof fn lemma_entry_step_wf(s: SessionState, e: FsNode, vars: SearchVariables, child_depth: u8)
    requires
        s.wf(),
    ensures
        entry_step(s, e, vars, child_depth).wf(),
        entry_step(s, e, vars, child_depth).quota == s.quota,
{
}

proof fn lemma_scan_wf(
    s: SessionState,
    entries: Seq<FsNode>,
    vars: SearchVariables,
    child_depth: u8,
)
    requires
        s.wf(),
    ensures
        scan_state(s, entries, vars, child_depth).wf(),
        scan_state(s, entries, vars, child_depth).quota == s.quota,
    decreases entries.len(),
{
    if entries.len() > 0 {
        lemma_entry_step_wf(s, entries[0], vars, child_depth);
        lemma_scan_wf(
            entry_step(s, entries[0], vars, child_depth),
            entries.drop_first(),
            vars,
            child_depth,
        );
    }
}

/// A traversal keeps the session's bookkeeping invariant and its
/// starting quota.
pub proof fn lemma_visit_wf(s: SessionState, node: FsNode, depth: u8, vars: SearchVariables)
    requires
        s.wf(),
    ensures
        visit_state(s, node, depth, vars).wf(),
        visit_state(s, node, depth, vars).quota == s.quota,
    decreases depth, 0nat,
{
    if depth != 0 && s.stream is Some {
        match node.entries {
            None => {},
            Some(es) => {
                lemma_scan_wf(s, es@, vars, (depth - 1) as u8);
                lemma_subdirs_wf(
                    scan_state(s, es@, vars, (depth - 1) as u8),
                    es@,
                    (depth - 1) as u8,
                    vars,
                );
            },
        }
    }
}

proof fn lemma_subdirs_wf(s: SessionState, entries: Seq<FsNode>, depth: u8, vars: SearchVariables)
    requires
        s.wf(),
    ensures
        subdirs_state(s, entries, depth, vars).wf(),
        subdirs_state(s, entries, depth, vars).quota == s.quota,
    decreases depth, entries.len(),
{
    if entries.len() > 0 {
        let s1 = if entries[0].file.is_dir_spec() {
            visit_state(s, entries[0], depth, vars)
        } else {
            s
        };
        if entries[0].file.is_dir_spec() {
            lemma_visit_wf(s, entries[0], depth, vars);
        }
        lemma_subdirs_wf(s1, entries.drop_first(), depth, vars);
    }
}

/// The request-derived variables a run of [`search`] hands every task.
pub open spec fn spec_vars(options: SearchOptions) -> SearchVariables {
    SearchVariables {
        filter: options.filter,
        case_sensitive: options.case_sensitive,
        depth: options.depth,
        search_type: options.search_type,
        skip_errors: options.skip_errors,
    }
}

/// What one whole search does to the session.
///
/// A request whose filter excludes every kind touches nothing: no
/// session is begun and no work registered.  Otherwise the session is
/// begun under the request's quota, the tree is traversed from the
/// root, and the session is terminated; a request that asks to wait
/// for its descendants finds the work registry drained afterwards.
pub open spec fn spec_search(
    s: SessionState,
    options: SearchOptions,
    root: FsNode,
) -> SessionState {
    if options.filter.spec_all_filtered() {
        s
    } else {
        let done = visit_state(
            s.step_begin(options.max_finds as nat),
            root,
            options.depth,
            spec_vars(options),
        ).step_terminate();
        if options.hardware_accelerate {
            SessionState { ops: Seq::empty(), ..done }
        } else {
            done
        }
    }
}

/// Quota semantics at the top: over the life of one whole search,
/// never more matches are accepted than the request's `max_finds`.
pub proof fn lemma_search_respects_quota(s: SessionState, options: SearchOptions, root: FsNode)
    requires
        !options.filter.spec_all_filtered(),
    ensures
        spec_search(s, options, root).accepted <= options.max_finds,
{
    let begun = s.step_begin(options.max_finds as nat);
    let ran = visit_state(begun, root, options.depth, spec_vars(options));
    lemma_visit_wf(begun, root, options.depth, spec_vars(options));
    crate::session::lemma_accepted_bounded(ran);
    assert(spec_search(s, options, root).accepted == ran.accepted);
}

/// Runs one search over the tree `root`, which stands for the listing
/// of the request's `search_dir`.  Results are observed through
/// [`SearchSession::read`], not returned.
pub fn search(options: SearchOptions, root: &FsNode, session: &mut SearchSession)
    ensures
        final(session)@ == spec_search(old(session)@, options, *root),
        options.filter.spec_all_filtered() ==> final(session)@ == old(session)@,
{
    let hardware_accelerate = options.hardware_accelerate;
    let max_finds = options.max_finds;
    let depth = options.depth;
    let ghost opts = options;
    let (variables, _directory) = options.split();
    if variables.filter.all_filtered() {
        return ;
    }
    session.begin_stream(max_finds);
    proof {
        assert(variables == spec_vars(opts));
    }
    recursive_search(root, depth, &variables, session);
    session.terminate_stream();
    if hardware_accelerate {
        let _finished = session.wait_for_all_ops();
    }
}

} // verus!
