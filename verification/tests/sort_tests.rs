use pitou::files::{
    PitouDateTime, PitouDrive, PitouDriveKind, PitouFile, PitouFileFilter, PitouFileKind,
    PitouFileMetadata, PitouFileSize,
};
use pitou::paths::PitouFilePath;
use pitou::sort::{children, drives, PitouFileSort, PitouFileSortOrder};

fn dated(path: &str, created: i64) -> PitouFile {
    PitouFile::new(
        PitouFilePath::from_pathbuf(path.to_string()),
        Some(PitouFileMetadata {
            modified: PitouDateTime { datetime: created + 1 },
            accessed: PitouDateTime { datetime: created + 2 },
            created: PitouDateTime { datetime: created },
            size: PitouFileSize::new(0),
            kind: PitouFileKind::File,
        }),
    )
}

fn bare(path: &str) -> PitouFile {
    PitouFile::new(PitouFilePath::from_pathbuf(path.to_string()), None)
}

fn names(v: &[PitouFile]) -> Vec<&str> {
    v.iter().map(|f| f.path.path.as_str()).collect()
}

#[test]
fn sort_by_name_increasing() {
    let sort = PitouFileSort::Name(PitouFileSortOrder::Increasing);
    let sorted = sort.sorted(vec![dated("c", 0), dated("a", 0), dated("b", 0)]);
    assert_eq!(names(&sorted), vec!["a", "b", "c"]);
}

#[test]
fn sort_by_name_decreasing() {
    let sort = PitouFileSort::Name(PitouFileSortOrder::Decreasing);
    let sorted = sort.sorted(vec![dated("c", 0), dated("a", 0), dated("b", 0)]);
    assert_eq!(names(&sorted), vec!["c", "b", "a"]);
}

#[test]
fn sort_by_created_increasing_puts_unknown_first() {
    let sort = PitouFileSort::DateCreated(PitouFileSortOrder::Increasing);
    let sorted = sort.sorted(vec![dated("late", 30), bare("unknown"), dated("early", 10)]);
    assert_eq!(names(&sorted), vec!["unknown", "early", "late"]);
}

#[test]
fn sort_by_created_decreasing_still_puts_unknown_first() {
    let sort = PitouFileSort::DateCreated(PitouFileSortOrder::Decreasing);
    let sorted = sort.sorted(vec![dated("late", 30), bare("unknown"), dated("early", 10)]);
    assert_eq!(names(&sorted), vec!["unknown", "late", "early"]);
}

#[test]
fn sort_by_modified_and_accessed() {
    let inc = PitouFileSort::DateModified(PitouFileSortOrder::Increasing);
    let sorted = inc.sorted(vec![dated("b", 20), dated("a", 10)]);
    assert_eq!(names(&sorted), vec!["a", "b"]);
    let dec = PitouFileSort::DateAccessed(PitouFileSortOrder::Decreasing);
    let sorted = dec.sorted(vec![dated("a", 10), dated("b", 20)]);
    assert_eq!(names(&sorted), vec!["b", "a"]);
}

#[test]
fn children_keeps_admitted_kinds_in_order() {
    let mut link = dated("l", 0);
    if let Some(m) = link.metadata.as_mut() {
        m.kind = PitouFileKind::Link;
    }
    let entries = vec![dated("f1", 0), bare("none"), link, dated("f2", 0)];
    let filter = PitouFileFilter::new();
    let kept = children(entries, filter, None);
    // Files pass, the link and the unclassifiable entry do not.
    assert_eq!(names(&kept), vec!["f1", "f2"]);
}

#[test]
fn children_sorts_when_asked() {
    let entries = vec![dated("b", 0), dated("a", 0)];
    let kept = children(
        entries,
        PitouFileFilter::include_all(),
        Some(PitouFileSort::Name(PitouFileSortOrder::Increasing)),
    );
    assert_eq!(names(&kept), vec!["a", "b"]);
}

fn drive(mount: &str) -> PitouDrive {
    PitouDrive {
        name: mount.to_string(),
        mount_point: PitouFilePath::from_pathbuf(mount.to_string()),
        total_space: 100,
        free_space: 50,
        is_removable: false,
        kind: PitouDriveKind::SSD,
    }
}

#[test]
fn drives_are_sorted_by_mount_point_name() {
    let sorted = drives(vec![drive("/mnt/c"), drive("/mnt/a"), drive("/mnt/b")]);
    let got: Vec<String> = sorted.into_iter().map(|d| d.mount_point.path).collect();
    assert_eq!(got, vec!["/mnt/a".to_string(), "/mnt/b".to_string(), "/mnt/c".to_string()]);
}

#[test]
fn drive_equality_is_by_mount_point() {
    let a = drive("/mnt/a");
    let mut b = drive("/mnt/a");
    b.name = "other".to_string();
    assert!(a == b);
    assert!(a != drive("/mnt/b"));
}

#[test]
fn file_equality_is_by_path() {
    assert!(bare("x") == dated("x", 5));
    assert!(bare("x") != bare("y"));
}
