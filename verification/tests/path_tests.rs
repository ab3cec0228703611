use pitou::files::{PitouTrashItem, PitouFileSize};
use pitou::paths::{path_join, PitouFilePath};

fn path_of(text: &str) -> PitouFilePath {
    PitouFilePath::from_pathbuf(text.to_string())
}

#[test]
fn name_of_empty_path_is_drives() {
    assert_eq!(path_of("").name(), "Drives");
}

#[test]
fn name_is_last_component() {
    assert_eq!(path_of("a/b/c.txt").name(), "c.txt");
    assert_eq!(path_of("/home/user").name(), "user");
    assert_eq!(path_of("plain").name(), "plain");
}

#[test]
fn name_ignores_trailing_separators() {
    assert_eq!(path_of("a/b/").name(), "b");
    assert_eq!(path_of("a//").name(), "a");
    assert_eq!(path_of("/").name(), "");
}

#[test]
fn name_ignores_trailing_dot_components() {
    assert_eq!(path_of("a/b/.").name(), "b");
    assert_eq!(path_of(".").name(), "");
    // A name that merely ends in a dot is a real name.
    assert_eq!(path_of("a/b.").name(), "b.");
}

#[test]
fn name_of_a_parent_reference_is_empty() {
    assert_eq!(path_of("a/..").name(), "");
    assert_eq!(path_of("..").name(), "");
    assert_eq!(path_of("/..").name(), "");
    // Three dots are an ordinary name.
    assert_eq!(path_of("a/...").name(), "...");
}

#[test]
fn as_bytes_is_utf8_of_text() {
    assert_eq!(path_of("a/é").as_bytes(), "a/é".as_bytes());
}

#[test]
fn ancestors_of_a_relative_path_include_the_empty_one() {
    let got: Vec<String> = path_of("a/b/c").ancestors().into_iter().map(|p| p.path).collect();
    assert_eq!(
        got,
        vec!["".to_string(), "a".to_string(), "a/b".to_string(), "a/b/c".to_string()]
    );
}

#[test]
fn ancestors_of_an_absolute_path_start_at_the_root() {
    let got: Vec<String> = path_of("/a/b").ancestors().into_iter().map(|p| p.path).collect();
    assert_eq!(got, vec!["/".to_string(), "/a".to_string(), "/a/b".to_string()]);
}

#[test]
fn ancestors_of_the_root_and_of_the_empty_path() {
    let root: Vec<String> = path_of("/").ancestors().into_iter().map(|p| p.path).collect();
    assert_eq!(root, vec!["/".to_string()]);
    let empty: Vec<String> = path_of("").ancestors().into_iter().map(|p| p.path).collect();
    assert_eq!(empty, vec!["".to_string()]);
}

#[test]
fn path_join_inserts_separator() {
    assert_eq!(path_join(&path_of("a/b"), "c").path, "a/b/c");
    assert_eq!(path_join(&path_of(""), "c").path, "c");
}

#[test]
fn trash_item_from_parts_restores_path_and_time() {
    let item = PitouTrashItem::from_parts(
        "id-1".to_string(),
        "notes.txt",
        path_of("/home/user"),
        1700000000,
    );
    assert_eq!(item.original_path.path, "/home/user/notes.txt");
    assert_eq!(item.name(), "notes.txt");
    assert_eq!(item.metadata.id, "id-1");
    assert_eq!(item.metadata.deleted.datetime, 1700000000000);
}

#[test]
fn size_format_small_values_are_bytes() {
    assert_eq!(PitouFileSize::new(0).format(), "0.00 B");
    assert_eq!(PitouFileSize::new(100).format(), "100.00 B");
    assert_eq!(PitouFileSize::new(2047).format(), "2047.00 B");
}

#[test]
fn size_format_scales_by_doubled_units() {
    assert_eq!(PitouFileSize::new(2048).format(), "1.00 KB");
    assert_eq!(PitouFileSize::new(2560).format(), "1.25 KB");
    assert_eq!(PitouFileSize::new(3072).format(), "1.50 KB");
    assert_eq!(PitouFileSize::new(2097152).format(), "1.00 MB");
    assert_eq!(PitouFileSize::new(2147483648).format(), "1.00 GB");
    assert_eq!(PitouFileSize::new(2199023255552).format(), "1.00 TB");
}

#[test]
fn size_format_as_dir_entries() {
    assert_eq!(PitouFileSize::new(5).format_as_dir_entries(), "5 items");
    assert_eq!(PitouFileSize::new(0).format_as_dir_entries(), "0 items");
}
