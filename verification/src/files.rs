//! File, drive, trash and folder records, and the entry filter.

use vstd::prelude::*;
use vstd::arithmetic::div_mod::lemma_multiply_divide_lt;
use crate::paths::{PitouFilePath, path_join, spec_name, spec_path_join};
use crate::text::{dec2_of, dec_of, push_char, u64_to_string, u64_to_two_digits};

verus! {

/// A point in time, held as milliseconds relative to the Unix epoch.
/// Code at the system boundary converts native timestamps to this form;
/// the order of the integers is the order of the instants.
#[derive(Clone, Copy)]
pub struct PitouDateTime {
    pub datetime: i64,
}

/// What kind of entry a path names.
#[derive(Clone, Copy, PartialEq, Eq, Structural)]
pub enum PitouFileKind {
    Directory,
    File,
    Link,
}

/// One kilobyte step of the size formatter.  The formatter's scale
/// doubles the usual powers of two.
pub const SIZE_KB: u64 = 2048;

/// One megabyte step of the size formatter.
pub const SIZE_MB: u64 = 2097152;

/// One gigabyte step of the size formatter.
pub const SIZE_GB: u64 = 2147483648;

/// One terabyte step of the size formatter.
pub const SIZE_TB: u64 = 2199023255552;

/// `bytes / unit` scaled to hundredths and rounded to the nearest,
/// ties to even.
pub open spec fn rounded_hundredths(bytes: nat, unit: nat) -> nat {
    let t = bytes * 200 / unit;
    let rem = (bytes * 200) % unit;
    if t % 2 == 0 {
        t / 2
    } else if rem > 0 {
        t / 2 + 1
    } else if (t / 2) % 2 == 0 {
        t / 2
    } else {
        t / 2 + 1
    }
}

/// Hundredths rendered as a decimal number with two digits after the
/// point.
pub open spec fn spec_two_dec(h: nat) -> Seq<char> {
    dec_of(h / 100) + seq!['.'] + dec2_of(h % 100)
}

/// The text of [`PitouFileSize::format`]: the size scaled to the
/// largest unit it reaches, with two decimal places and a unit suffix.
pub open spec fn spec_format_size(bytes: nat) -> Seq<char> {
    if bytes < SIZE_KB {
        dec_of(bytes) + ".00 B"@
    } else if bytes < SIZE_MB {
        spec_two_dec(rounded_hundredths(bytes, SIZE_KB as nat)) + " KB"@
    } else if bytes < SIZE_GB {
        spec_two_dec(rounded_hundredths(bytes, SIZE_MB as nat)) + " MB"@
    } else if bytes < SIZE_TB {
        spec_two_dec(rounded_hundredths(bytes, SIZE_GB as nat)) + " GB"@
    } else {
        spec_two_dec(rounded_hundredths(bytes, SIZE_TB as nat)) + " TB"@
    }
}

/// A size in bytes.
#[derive(Clone, Copy)]
pub struct PitouFileSize {
    pub bytes: u64,
}

fn rounded_hundredths_exec(bytes: u64, unit: u64) -> (h: u64)
    requires
        unit >= 2048,
    ensures
        h as nat == rounded_hundredths(bytes as nat, unit as nat),
{
    let b200: u128 = (bytes as u128) * 200;
    let t: u128 = b200 / (unit as u128);
    let rem: u128 = b200 % (unit as u128);
    proof {
        assert((unit as int) * 0x2000000000000000 >= 2048int * 0x2000000000000000)
            by (nonlinear_arith)
            requires
                unit >= 2048;
        assert((b200 as int) < (unit as int) * 0x2000000000000000);
        lemma_multiply_divide_lt(b200 as int, unit as int, 0x2000000000000000);
        assert(t < 0x2000000000000000u128);
    }
    let h128: u128 = if t % 2 == 0 {
        t / 2
    } else if rem > 0 {
        t / 2 + 1
    } else if (t / 2) % 2 == 0 {
        t / 2
    } else {
        t / 2 + 1
    };
    h128 as u64
}

fn format_scaled(bytes: u64, unit: u64, suffix: &str) -> (r: String)
    requires
        unit >= 2048,
    ensures
        r@ == spec_two_dec(rounded_hundredths(bytes as nat, unit as nat)) + suffix@,
{
    let h = rounded_hundredths_exec(bytes, unit);
    let mut s = u64_to_string(h / 100);
    push_char(&mut s, '.');
    let two = u64_to_two_digits(h % 100);
    let s = s.concat(two.as_str());
    let r = s.concat(suffix);
    proof {
        assert(r@ =~= spec_two_dec(rounded_hundredths(bytes as nat, unit as nat)) + suffix@);
    }
    r
}

impl PitouFileSize {
    /// Renders the size for display, scaled to the largest unit it
    /// reaches, with two decimal places.
    pub fn format(self) -> (r: String)
        ensures
            r@ == spec_format_size(self.bytes as nat),
    {
        if self.bytes < SIZE_KB {
            let r = u64_to_string(self.bytes).concat(".00 B");
            proof {
                assert(r@ =~= spec_format_size(self.bytes as nat));
            }
            r
        } else if self.bytes < SIZE_MB {
            format_scaled(self.bytes, SIZE_KB, " KB")
        } else if self.bytes < SIZE_GB {
            format_scaled(self.bytes, SIZE_MB, " MB")
        } else if self.bytes < SIZE_TB {
            format_scaled(self.bytes, SIZE_GB, " GB")
        } else {
            format_scaled(self.bytes, SIZE_TB, " TB")
        }
    }

    pub fn new(value: u64) -> (r: Self)
        ensures
            r.bytes == value,
    {
        Self { bytes: value }
    }

    /// Renders the value as a count of directory entries.
    pub fn format_as_dir_entries(&self) -> (r: String)
        ensures
            r@ == dec_of(self.bytes as nat) + " items"@,
    {
        let r = u64_to_string(self.bytes).concat(" items");
        proof {
            assert(r@ =~= dec_of(self.bytes as nat) + " items"@);
        }
        r
    }
}

/// A best-effort metadata snapshot of one entry.
#[derive(Clone, Copy)]
pub struct PitouFileMetadata {
    pub modified: PitouDateTime,
    pub accessed: PitouDateTime,
    pub created: PitouDateTime,
    pub size: PitouFileSize,
    pub kind: PitouFileKind,
}

impl PitouFileMetadata {
    pub fn is_dir(&self) -> (r: bool)
        ensures
            r == (self.kind is Directory),
    {
        matches!(self.kind, PitouFileKind::Directory)
    }
}

/// One discovered entry: its path and, when the metadata call
/// succeeded, a snapshot of its metadata.
pub struct PitouFile {
    pub path: PitouFilePath,
    pub metadata: Option<PitouFileMetadata>,
}

impl PitouFile {
    /// Builds an entry from its parts.  Metadata is best effort: `None`
    /// records that the metadata call failed, and such an entry counts
    /// as no kind at all.
    pub fn new(path: PitouFilePath, metadata: Option<PitouFileMetadata>) -> (r: Self)
        ensures
            r.path == path,
            r.metadata == metadata,
    {
        Self { path, metadata }
    }

    pub open spec fn is_dir_spec(&self) -> bool {
        self.metadata matches Some(m) && m.kind is Directory
    }

    pub open spec fn is_file_spec(&self) -> bool {
        self.metadata matches Some(m) && m.kind is File
    }

    pub open spec fn is_link_spec(&self) -> bool {
        self.metadata matches Some(m) && m.kind is Link
    }

    pub fn is_dir(&self) -> (r: bool)
        ensures
            r == self.is_dir_spec(),
    {
        match &self.metadata {
            None => false,
            Some(metadata) => matches!(metadata.kind, PitouFileKind::Directory),
        }
    }

    pub fn is_link(&self) -> (r: bool)
        ensures
            r == self.is_link_spec(),
    {
        match &self.metadata {
            None => false,
            Some(metadata) => matches!(metadata.kind, PitouFileKind::Link),
        }
    }

    pub fn is_file(&self) -> (r: bool)
        ensures
            r == self.is_file_spec(),
    {
        match &self.metadata {
            None => false,
            Some(metadata) => matches!(metadata.kind, PitouFileKind::File),
        }
    }

    pub fn name(&self) -> (r: &str)
        ensures
            r@ == spec_name(self.path.path@),
    {
        self.path.name()
    }
}

impl Clone for PitouFile {
    fn clone(&self) -> (r: Self)
        ensures
            r == *self,
    {
        Self {
            path: self.path.clone(),
            metadata: match &self.metadata {
                Some(m) => Some(*m),
                None => None,
            },
        }
    }
}

impl PartialEq for PitouFile {
    fn eq(&self, other: &Self) -> (r: bool) {
        self.path.path == other.path.path
    }
}

impl vstd::std_specs::cmp::PartialEqSpecImpl for PitouFile {
    open spec fn obeys_eq_spec() -> bool {
        true
    }

    open spec fn eq_spec(&self, other: &Self) -> bool {
        self.path.path@ == other.path.path@
    }
}

/// What kind of device backs a drive.
#[derive(Debug, Clone, Copy, PartialEq, Eq, Structural)]
pub enum PitouDriveKind {
    HDD,
    SSD,
    Unknown,
}

/// One mounted drive.
pub struct PitouDrive {
    pub name: String,
    pub mount_point: PitouFilePath,
    pub total_space: u64,
    pub free_space: u64,
    pub is_removable: bool,
    pub kind: PitouDriveKind,
}

impl PartialEq for PitouDrive {
    fn eq(&self, other: &Self) -> (r: bool) {
        self.mount_point.path == other.mount_point.path
    }
}

impl vstd::std_specs::cmp::PartialEqSpecImpl for PitouDrive {
    open spec fn obeys_eq_spec() -> bool {
        true
    }

    open spec fn eq_spec(&self, other: &Self) -> bool {
        self.mount_point.path@ == other.mount_point.path@
    }
}

/// A deleted entry as the trash records it.
pub struct PitouTrashItem {
    pub original_path: PitouFilePath,
    pub metadata: PitouTrashItemMetadata,
}

/// The trash bookkeeping of one deleted entry.
pub struct PitouTrashItemMetadata {
    pub id: String,
    pub deleted: PitouDateTime,
}

impl PitouTrashItem {
    pub fn name(&self) -> (r: &str)
        ensures
            r@ == spec_name(self.original_path.path@),
    {
        self.original_path.name()
    }

    /// Builds a trash record from the values the trash reports: the
    /// entry's name is joined back onto the directory it was deleted
    /// from, and the deletion time, given in whole seconds, is held in
    /// milliseconds.
    pub fn from_parts(id: String, name: &str, original_parent: PitouFilePath, deleted_secs: i64) -> (r: Self)
        requires
            -9223372036854775 <= deleted_secs <= 9223372036854775,
        ensures
            r.original_path.path@ == spec_path_join(original_parent.path@, name@),
            r.metadata.id@ == id@,
            r.metadata.deleted.datetime == 1000 * deleted_secs,
    {
        let original_path = path_join(&original_parent, name);
        PitouTrashItem {
            original_path,
            metadata: PitouTrashItemMetadata {
                id,
                deleted: PitouDateTime { datetime: 1000 * deleted_secs },
            },
        }
    }
}

/// One of the well-known user folders.
pub enum GeneralFolder {
    DocumentsFolder(PitouFilePath),
    AudiosFolder(PitouFilePath),
    PicturesFolder(PitouFilePath),
    VideosFolder(PitouFilePath),
    DesktopFolder(PitouFilePath),
    DownloadsFolder(PitouFilePath),
}

/// The path a general folder wraps.
pub open spec fn spec_folder_path(g: GeneralFolder) -> Seq<char> {
    match g {
        GeneralFolder::DocumentsFolder(d) => d.path@,
        GeneralFolder::AudiosFolder(a) => a.path@,
        GeneralFolder::PicturesFolder(p) => p.path@,
        GeneralFolder::VideosFolder(v) => v.path@,
        GeneralFolder::DesktopFolder(d) => d.path@,
        GeneralFolder::DownloadsFolder(d) => d.path@,
    }
}

/// The fixed caption of a general folder.
pub open spec fn spec_folder_caption(g: GeneralFolder) -> Seq<char> {
    match g {
        GeneralFolder::DocumentsFolder(_) => "Documents"@,
        GeneralFolder::AudiosFolder(_) => "Audios"@,
        GeneralFolder::PicturesFolder(_) => "pictures"@,
        GeneralFolder::VideosFolder(_) => "Videos"@,
        GeneralFolder::DesktopFolder(_) => "Desktop"@,
        GeneralFolder::DownloadsFolder(_) => "Downloads"@,
    }
}

impl GeneralFolder {
    /// The display name of the folder the variant wraps.
    pub fn o_name(&self) -> (r: &str)
        ensures
            r@ == spec_name(spec_folder_path(*self)),
    {
        match self {
            GeneralFolder::DocumentsFolder(d) => d.name(),
            GeneralFolder::AudiosFolder(a) => a.name(),
            GeneralFolder::PicturesFolder(p) => p.name(),
            GeneralFolder::VideosFolder(v) => v.name(),
            GeneralFolder::DesktopFolder(d) => d.name(),
            GeneralFolder::DownloadsFolder(d) => d.name(),
        }
    }

    /// The variant's fixed caption.
    pub fn name(&self) -> (r: String)
        ensures
            r@ == spec_folder_caption(*self),
    {
        match self {
            GeneralFolder::DocumentsFolder(_) => String::from_str("Documents"),
            GeneralFolder::AudiosFolder(_) => String::from_str("Audios"),
            GeneralFolder::PicturesFolder(_) => String::from_str("pictures"),
            GeneralFolder::VideosFolder(_) => String::from_str("Videos"),
            GeneralFolder::DesktopFolder(_) => String::from_str("Desktop"),
            GeneralFolder::DownloadsFolder(_) => String::from_str("Downloads"),
        }
    }
}

/// The general folder list, in its fixed display order, from the six
/// folder paths the system reports.
pub fn general_folders(
    desktop: PitouFilePath,
    downloads: PitouFilePath,
    audios: PitouFilePath,
    videos: PitouFilePath,
    pictures: PitouFilePath,
    documents: PitouFilePath,
) -> (r: Vec<GeneralFolder>)
    ensures
        r@.len() == 6,
        r@[0] == GeneralFolder::DesktopFolder(desktop),
        r@[1] == GeneralFolder::DownloadsFolder(downloads),
        r@[2] == GeneralFolder::AudiosFolder(audios),
        r@[3] == GeneralFolder::VideosFolder(videos),
        r@[4] == GeneralFolder::PicturesFolder(pictures),
        r@[5] == GeneralFolder::DocumentsFolder(documents),
{
    let mut r: Vec<GeneralFolder> = Vec::new();
    r.push(GeneralFolder::DesktopFolder(desktop));
    r.push(GeneralFolder::DownloadsFolder(downloads));
    r.push(GeneralFolder::AudiosFolder(audios));
    r.push(GeneralFolder::VideosFolder(videos));
    r.push(GeneralFolder::PicturesFolder(pictures));
    r.push(GeneralFolder::DocumentsFolder(documents));
    r
}

/// Which kinds of directory entries a search is interested in.
///
/// An entry whose kind is unknown (its metadata call failed) satisfies
/// none of the three flags and is never matched.
#[derive(Clone, Copy)]
pub struct PitouFileFilter {
    pub files: bool,
    pub links: bool,
    pub dirs: bool,
}

impl PitouFileFilter {
    /// The default filter: regular files and directories, no links.
    pub fn new() -> (r: Self)
        ensures
            r.files && r.dirs && !r.links,
    {
        Self { files: true, links: false, dirs: true }
    }

    /// A filter that admits every classifiable entry.
    pub fn include_all() -> (r: Self)
        ensures
            r.files && r.dirs && r.links,
    {
        Self { files: true, links: true, dirs: true }
    }

    /// Whether the filter's kind test admits `file`.  An entry without
    /// metadata is of no kind and never passes.
    pub open spec fn admits(self, file: PitouFile) -> bool {
        (file.is_dir_spec() && self.dirs) || (file.is_file_spec() && self.files) || (
        file.is_link_spec() && self.links)
    }

    /// Passes `file` through the kind test: the entry comes back when
    /// it passes and is dropped otherwise.
    pub fn map(self, file: PitouFile) -> (r: Option<PitouFile>)
        ensures
            self.admits(file) ==> r == Some(file),
            !self.admits(file) ==> r is None,
    {
        if (file.is_dir() && self.include_dirs()) || (file.is_file() && self.include_files()) || (
        file.is_link() && self.include_links()) {
            Some(file)
        } else {
            None
        }
    }

    /// All three kind flags off: the filter excludes everything.
    pub open spec fn spec_all_filtered(self) -> bool {
        !self.dirs && !self.files && !self.links
    }

    /// True iff all three kind flags are off, so nothing can ever match.
    pub fn all_filtered(self) -> (r: bool)
        ensures
            r == (!self.dirs && !self.files && !self.links),
    {
        !self.dirs && !self.files && !self.links
    }

    pub fn include_dirs(self) -> (r: bool)
        ensures
            r == self.dirs,
    {
        self.dirs
    }

    pub fn include_files(self) -> (r: bool)
        ensures
            r == self.files,
    {
        self.files
    }

    pub fn include_links(self) -> (r: bool)
        ensures
            r == self.links,
    {
        self.links
    }
}

/// An entry that passes no kind flag of any filter is one the filter
/// cannot admit; in particular an entry without metadata is never
/// admitted.
pub proof fn lemma_unclassifiable_never_admitted(filter: PitouFileFilter, file: PitouFile)
    requires
        file.metadata is None,
    ensures
        !filter.admits(file),
{
}

} // verus!
