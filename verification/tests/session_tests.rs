use pitou::files::PitouFile;
use pitou::msg::SearchMsg;
use pitou::paths::PitouFilePath;
use pitou::session::{SearchSession, Task};

fn entry(path: &str) -> PitouFile {
    PitouFile::new(PitouFilePath::from_pathbuf(path.to_string()), None)
}

fn batch_paths(msg: SearchMsg) -> (bool, Vec<String>) {
    match msg {
        SearchMsg::Active(v) => (true, v.into_iter().map(|f| f.path.path).collect()),
        SearchMsg::Terminated(v) => (false, v.into_iter().map(|f| f.path.path).collect()),
    }
}

#[test]
fn fresh_session_is_inactive() {
    let s = SearchSession::new();
    assert!(s.is_terminated());
    assert!(!s.is_active());
}

#[test]
fn read_on_inactive_session_is_terminated_and_empty() {
    let mut s = SearchSession::new();
    let (active, paths) = batch_paths(s.read());
    assert!(!active);
    assert!(paths.is_empty());
}

#[test]
fn writes_are_read_back_in_order() {
    let mut s = SearchSession::new();
    s.begin_stream(10);
    assert!(s.is_active());
    s.write(entry("a"));
    s.write(entry("b"));
    s.write(entry("c"));
    let (active, paths) = batch_paths(s.read());
    assert!(active);
    assert_eq!(paths, vec!["a".to_string(), "b".to_string(), "c".to_string()]);
}

#[test]
fn read_drains_rather_than_snapshots() {
    let mut s = SearchSession::new();
    s.begin_stream(10);
    s.write(entry("a"));
    let (active1, first) = batch_paths(s.read());
    assert!(active1);
    assert_eq!(first.len(), 1);
    // A second read with no intervening write returns an empty batch.
    let (active2, second) = batch_paths(s.read());
    assert!(active2);
    assert!(second.is_empty());
}

#[test]
fn quota_boundary_is_one_past_exhaustion() {
    let mut s = SearchSession::new();
    s.begin_stream(2);
    s.append_handle(Task { dir: PitouFilePath::from_pathbuf("sub".to_string()), depth: 3 });
    // The write that exhausts the quota is still accepted.
    assert!(s.write(entry("a")).is_empty());
    assert!(s.write(entry("b")).is_empty());
    // Both boundary matches are observable before the threshold write.
    let (active, paths) = batch_paths(s.read());
    assert!(active);
    assert_eq!(paths, vec!["a".to_string(), "b".to_string()]);
    // The next write self-terminates the session: the match is
    // rejected, the registered work is withdrawn, and the session
    // goes inactive.
    let aborted = s.write(entry("c"));
    assert_eq!(aborted.len(), 1);
    assert_eq!(aborted[0].dir.path, "sub");
    assert_eq!(aborted[0].depth, 3);
    assert!(!s.is_active());
    assert!(s.is_terminated());
    let (active_after, later) = batch_paths(s.read());
    assert!(!active_after);
    assert!(later.is_empty());
    // Later writes store nothing.
    s.write(entry("d"));
    let (_, even_later) = batch_paths(s.read());
    assert!(even_later.is_empty());
}

#[test]
fn zero_quota_rejects_the_first_write() {
    let mut s = SearchSession::new();
    s.begin_stream(0);
    s.write(entry("a"));
    // The rejected write already self-terminated the session.
    let (active, paths) = batch_paths(s.read());
    assert!(!active);
    assert!(paths.is_empty());
}

#[test]
fn terminate_stops_acceptance_promptly() {
    let mut s = SearchSession::new();
    s.begin_stream(10);
    s.write(entry("a"));
    s.terminate_stream();
    assert!(!s.is_active());
    assert!(s.is_terminated());
    // Nothing written after terminate is ever observable.
    s.write(entry("b"));
    let (active, paths) = batch_paths(s.read());
    assert!(!active);
    assert!(paths.is_empty());
}

#[test]
fn terminate_is_idempotent() {
    let mut s = SearchSession::new();
    s.begin_stream(1);
    s.terminate_stream();
    s.terminate_stream();
    assert!(s.is_terminated());
}

#[test]
fn second_begin_replaces_the_buffer() {
    let mut s = SearchSession::new();
    s.begin_stream(5);
    s.write(entry("old"));
    s.begin_stream(5);
    s.write(entry("new"));
    let (_, paths) = batch_paths(s.read());
    assert_eq!(paths, vec!["new".to_string()]);
}

#[test]
fn abort_remaining_ops_returns_newest_first() {
    let mut s = SearchSession::new();
    s.append_handle(Task { dir: PitouFilePath::from_pathbuf("one".to_string()), depth: 1 });
    s.append_handle(Task { dir: PitouFilePath::from_pathbuf("two".to_string()), depth: 1 });
    let drained = s.abort_remaining_ops();
    let names: Vec<String> = drained.into_iter().map(|t| t.dir.path).collect();
    assert_eq!(names, vec!["two".to_string(), "one".to_string()]);
    assert!(s.abort_remaining_ops().is_empty());
}

#[test]
fn wait_for_all_ops_drains_the_registry() {
    let mut s = SearchSession::new();
    s.append_handle(Task { dir: PitouFilePath::from_pathbuf("one".to_string()), depth: 2 });
    let drained = s.wait_for_all_ops();
    assert_eq!(drained.len(), 1);
    assert!(s.wait_for_all_ops().is_empty());
}
