use pitou::files::{
    PitouDateTime, PitouFile, PitouFileFilter, PitouFileKind, PitouFileMetadata, PitouFileSize,
};
use pitou::paths::PitouFilePath;

fn with_kind(path: &str, kind: PitouFileKind) -> PitouFile {
    PitouFile::new(
        PitouFilePath::from_pathbuf(path.to_string()),
        Some(PitouFileMetadata {
            modified: PitouDateTime { datetime: 0 },
            accessed: PitouDateTime { datetime: 0 },
            created: PitouDateTime { datetime: 0 },
            size: PitouFileSize::new(0),
            kind,
        }),
    )
}

#[test]
fn default_filter_takes_files_and_dirs_only() {
    let filter = PitouFileFilter::new();
    assert!(filter.include_files());
    assert!(filter.include_dirs());
    assert!(!filter.include_links());
    assert!(!filter.all_filtered());
}

#[test]
fn include_all_takes_every_kind() {
    let filter = PitouFileFilter::include_all();
    assert!(filter.include_files() && filter.include_dirs() && filter.include_links());
}

#[test]
fn all_filtered_detects_the_empty_filter() {
    let filter = PitouFileFilter { files: false, links: false, dirs: false };
    assert!(filter.all_filtered());
}

#[test]
fn map_admits_matching_kinds() {
    let filter = PitouFileFilter::new();
    assert!(filter.map(with_kind("f", PitouFileKind::File)).is_some());
    assert!(filter.map(with_kind("d", PitouFileKind::Directory)).is_some());
    assert!(filter.map(with_kind("l", PitouFileKind::Link)).is_none());
}

#[test]
fn map_never_admits_unclassifiable_entries() {
    let all = PitouFileFilter::include_all();
    let no_meta = PitouFile::new(PitouFilePath::from_pathbuf("x".to_string()), None);
    assert!(all.map(no_meta).is_none());
}

#[test]
fn kind_predicates_follow_metadata() {
    let f = with_kind("f", PitouFileKind::File);
    assert!(f.is_file() && !f.is_dir() && !f.is_link());
    let d = with_kind("d", PitouFileKind::Directory);
    assert!(d.is_dir());
    assert!(d.metadata.as_ref().unwrap().is_dir());
    let bare = PitouFile::new(PitouFilePath::from_pathbuf("b".to_string()), None);
    assert!(!bare.is_file() && !bare.is_dir() && !bare.is_link());
    assert_eq!(bare.name(), "b");
}
