use std::rc::Rc;

use pitou::engine::{recursive_search, search, FsNode};
use pitou::files::{
    PitouDateTime, PitouFile, PitouFileFilter, PitouFileKind, PitouFileMetadata, PitouFileSize,
};
use pitou::msg::SearchMsg;
use pitou::options::{SearchOptions, SearchVariables, SimplifiedSearchOptions};
use pitou::paths::PitouFilePath;
use pitou::session::SearchSession;

fn meta(kind: PitouFileKind) -> PitouFileMetadata {
    PitouFileMetadata {
        modified: PitouDateTime { datetime: 0 },
        accessed: PitouDateTime { datetime: 0 },
        created: PitouDateTime { datetime: 0 },
        size: PitouFileSize::new(0),
        kind,
    }
}

fn file_node(path: &str) -> FsNode {
    FsNode {
        file: PitouFile::new(
            PitouFilePath::from_pathbuf(path.to_string()),
            Some(meta(PitouFileKind::File)),
        ),
        entries: None,
    }
}

fn dir_node(path: &str, entries: Vec<FsNode>) -> FsNode {
    FsNode {
        file: PitouFile::new(
            PitouFilePath::from_pathbuf(path.to_string()),
            Some(meta(PitouFileKind::Directory)),
        ),
        entries: Some(entries),
    }
}

fn unreadable_dir(path: &str) -> FsNode {
    FsNode {
        file: PitouFile::new(
            PitouFilePath::from_pathbuf(path.to_string()),
            Some(meta(PitouFileKind::Directory)),
        ),
        entries: None,
    }
}

fn vars_matching(key: &str, depth: u8) -> SearchVariables {
    let dir = Rc::new(PitouFile::new(PitouFilePath::from_pathbuf("/".to_string()), None));
    let mut simplified = SimplifiedSearchOptions::default(dir);
    simplified.input = key.to_string();
    simplified.search_kind = 2;
    simplified.depth = depth;
    let options = simplified.try_into().expect("literal pattern always builds");
    options.split().0
}

fn drained(session: &mut SearchSession) -> Vec<String> {
    match session.read() {
        SearchMsg::Active(v) => v.into_iter().map(|f| f.path.path).collect(),
        SearchMsg::Terminated(v) => v.into_iter().map(|f| f.path.path).collect(),
    }
}

fn sample_tree() -> FsNode {
    dir_node(
        "/root",
        vec![
            file_node("/root/match_a"),
            dir_node(
                "/root/sub",
                vec![file_node("/root/sub/match_b"), file_node("/root/sub/other")],
            ),
            file_node("/root/other"),
        ],
    )
}

#[test]
fn depth_zero_enumerates_nothing() {
    let mut session = SearchSession::new();
    session.begin_stream(100);
    let vars = vars_matching("match", 0);
    recursive_search(&sample_tree(), 0, &vars, &mut session);
    assert!(drained(&mut session).is_empty());
}

#[test]
fn depth_one_tests_only_direct_children() {
    let mut session = SearchSession::new();
    session.begin_stream(100);
    let vars = vars_matching("match", 1);
    recursive_search(&sample_tree(), 1, &vars, &mut session);
    assert_eq!(drained(&mut session), vec!["/root/match_a".to_string()]);
}

#[test]
fn full_depth_finds_nested_matches_scan_before_subdirs() {
    let mut session = SearchSession::new();
    session.begin_stream(100);
    let vars = vars_matching("match", 6);
    recursive_search(&sample_tree(), 6, &vars, &mut session);
    assert_eq!(
        drained(&mut session),
        vec!["/root/match_a".to_string(), "/root/sub/match_b".to_string()]
    );
}

#[test]
fn matching_directories_are_both_written_and_entered() {
    let tree = dir_node(
        "/r",
        vec![dir_node("/r/match_dir", vec![file_node("/r/match_dir/match_leaf")])],
    );
    let mut session = SearchSession::new();
    session.begin_stream(100);
    let vars = vars_matching("match", 3);
    recursive_search(&tree, 3, &vars, &mut session);
    assert_eq!(
        drained(&mut session),
        vec!["/r/match_dir".to_string(), "/r/match_dir/match_leaf".to_string()]
    );
}

#[test]
fn unreadable_branch_does_not_abort_siblings() {
    let tree = dir_node(
        "/r",
        vec![unreadable_dir("/r/locked"), file_node("/r/match_here")],
    );
    let mut session = SearchSession::new();
    session.begin_stream(100);
    let vars = vars_matching("match", 4);
    recursive_search(&tree, 4, &vars, &mut session);
    assert_eq!(drained(&mut session), vec!["/r/match_here".to_string()]);
}

#[test]
fn quota_exhaustion_deactivates_the_session() {
    let tree = dir_node(
        "/r",
        vec![
            file_node("/r/match_1"),
            file_node("/r/match_2"),
            file_node("/r/match_3"),
            file_node("/r/match_4"),
        ],
    );
    let mut session = SearchSession::new();
    session.begin_stream(2);
    let vars = vars_matching("match", 2);
    recursive_search(&tree, 2, &vars, &mut session);
    // The write past the threshold discarded the buffer and left the
    // session inactive; a consumer that did not poll in time observes
    // only the termination.
    assert!(session.is_terminated());
    match session.read() {
        SearchMsg::Terminated(v) => assert!(v.is_empty()),
        SearchMsg::Active(_) => panic!("session must be inactive after quota exhaustion"),
    }
}

#[test]
fn quota_caps_accepted_matches_exactly() {
    // A quota exactly met is never exceeded and does not terminate
    // the session: three matches under a quota of three.
    let tree = dir_node(
        "/r",
        vec![
            file_node("/r/match_1"),
            file_node("/r/match_2"),
            file_node("/r/match_3"),
        ],
    );
    let mut session = SearchSession::new();
    session.begin_stream(3);
    let vars = vars_matching("match", 2);
    recursive_search(&tree, 2, &vars, &mut session);
    // All three matches are there and the session is still live.
    assert_eq!(
        drained(&mut session),
        vec![
            "/r/match_1".to_string(),
            "/r/match_2".to_string(),
            "/r/match_3".to_string()
        ]
    );
    assert!(!session.is_terminated());
}

#[test]
fn terminated_session_stops_traversal_at_the_checkpoint() {
    let mut session = SearchSession::new();
    session.begin_stream(100);
    session.terminate_stream();
    let vars = vars_matching("match", 6);
    recursive_search(&sample_tree(), 6, &vars, &mut session);
    assert!(session.is_terminated());
    match session.read() {
        SearchMsg::Terminated(v) => assert!(v.is_empty()),
        SearchMsg::Active(_) => panic!("session must stay terminated"),
    }
}

#[test]
fn subdirectory_work_is_registered_before_writes_continue() {
    // With a quota of one, the first match is accepted and the next
    // write self-terminates: the work registered for the
    // subdirectories seen so far is withdrawn and no subdirectory is
    // entered past the checkpoint.
    let tree = dir_node(
        "/r",
        vec![
            dir_node("/r/sub1", vec![file_node("/r/sub1/match_deep")]),
            file_node("/r/match_1"),
            file_node("/r/match_2"),
            dir_node("/r/sub2", vec![]),
        ],
    );
    let mut session = SearchSession::new();
    session.begin_stream(1);
    let vars = vars_matching("match", 2);
    recursive_search(&tree, 2, &vars, &mut session);
    assert!(session.is_terminated());
    match session.read() {
        SearchMsg::Terminated(v) => assert!(v.is_empty()),
        SearchMsg::Active(_) => panic!("session must be inactive after quota exhaustion"),
    }
}

#[test]
fn all_filtered_request_starts_nothing() {
    let dir = Rc::new(PitouFile::new(PitouFilePath::from_pathbuf("/r".to_string()), None));
    let mut simplified = SimplifiedSearchOptions::default(dir);
    simplified.input = "match".to_string();
    simplified.search_kind = 2;
    simplified.filter = PitouFileFilter {
        files: false,
        links: false,
        dirs: false,
    };
    let options = simplified.try_into().unwrap();
    let mut session = SearchSession::new();
    search(options, &sample_tree(), &mut session);
    // No session was begun: the state is exactly the fresh one.
    assert!(s_is_fresh(&mut session));
}

fn s_is_fresh(session: &mut SearchSession) -> bool {
    session.is_terminated() && session.abort_remaining_ops().is_empty()
}

#[test]
fn search_runs_and_terminates_the_session() {
    let dir = Rc::new(PitouFile::new(PitouFilePath::from_pathbuf("/root".to_string()), None));
    let mut simplified = SimplifiedSearchOptions::default(dir);
    simplified.input = "match".to_string();
    simplified.search_kind = 2;
    let options = simplified.try_into().unwrap();
    let mut session = SearchSession::new();
    search(options, &sample_tree(), &mut session);
    // The orchestrator tears the session down when the traversal ends.
    assert!(session.is_terminated());
    // The two subdirectory registrations (one per directory entry seen)
    // are still listed for the owner; here only "/root/sub".
    let ops = session.abort_remaining_ops();
    assert_eq!(ops.len(), 1);
    assert_eq!(ops[0].dir.path, "/root/sub");
}

#[test]
fn search_with_wait_drains_the_registry() {
    let dir = Rc::new(PitouFile::new(PitouFilePath::from_pathbuf("/root".to_string()), None));
    let mut simplified = SimplifiedSearchOptions::default(dir);
    simplified.input = "match".to_string();
    simplified.search_kind = 2;
    simplified.hardware_accelerate = true;
    let options = simplified.try_into().unwrap();
    let mut session = SearchSession::new();
    search(options, &sample_tree(), &mut session);
    assert!(session.is_terminated());
    assert!(session.abort_remaining_ops().is_empty());
}

#[test]
fn unclassifiable_entries_are_never_matched() {
    let tree = FsNode {
        file: PitouFile::new(
            PitouFilePath::from_pathbuf("/r".to_string()),
            Some(meta(PitouFileKind::Directory)),
        ),
        entries: Some(vec![FsNode {
            file: PitouFile::new(PitouFilePath::from_pathbuf("/r/match_x".to_string()), None),
            entries: None,
        }]),
    };
    let mut session = SearchSession::new();
    session.begin_stream(100);
    let vars = vars_matching("match", 3);
    recursive_search(&tree, 3, &vars, &mut session);
    assert!(drained(&mut session).is_empty());
}

#[test]
fn search_options_new_drives_a_plain_substring_search() {
    let dir = Rc::new(PitouFile::new(PitouFilePath::from_pathbuf("/root".to_string()), None));
    let options = SearchOptions::new(dir, "match".to_string());
    let mut session = SearchSession::new();
    session.begin_stream(options.max_finds);
    let (vars, _root_path) = options.split();
    recursive_search(&sample_tree(), vars.depth, &vars, &mut session);
    assert_eq!(
        drained(&mut session),
        vec!["/root/match_a".to_string(), "/root/sub/match_b".to_string()]
    );
}
