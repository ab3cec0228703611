//! A verified core for a desktop file explorer.
//!
//! The heart of the crate is a recursive filesystem search engine: a
//! pattern matcher over entry names, an entry filter over file kinds, a
//! session that buffers matches under a result quota, and a traversal
//! scheduler that walks a directory tree under a depth bound with
//! cooperative cancellation.  Directory enumeration, metadata calls and
//! all other I/O stay outside this crate; the engine here works on the
//! values such calls produce and is verified for every such value.

pub mod clipboard;
pub mod codec;
pub mod engine;
pub mod files;
pub mod matcher;
pub mod msg;
pub mod options;
pub mod paths;
pub mod regexes;
pub mod session;
pub mod sort;
pub mod text;
pub mod ui;

pub use files::{
    GeneralFolder, PitouDateTime, PitouDrive, PitouDriveKind, PitouFile, PitouFileFilter,
    PitouFileKind, PitouFileMetadata, PitouFileSize, PitouTrashItem, PitouTrashItemMetadata,
    general_folders,
};
pub use paths::PitouFilePath;
pub use sort::{PitouFileSort, PitouFileSortOrder, children, drives};
pub use ui::{AppMenu, Color, ColorTheme, GenFolderWrap, ItemsView, PitouDriveWrap, RefresherState};
