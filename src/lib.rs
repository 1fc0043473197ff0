//! Indexing of a directory tree into a map from path to entry.
//!
//! The library holds the logic of a walk and leaves the reads to its caller:
//! a caller reports what the filesystem said about a path (`PathInfo`) and
//! what a directory listing held (`Report`s), and the library decides,
//! classifies, builds entries and merges them into an `Index`. Paths are
//! strings whose components are separated by `/`.
pub mod entries;
pub mod error;
pub mod explorer;
pub mod file_system;
pub mod index;
pub mod paths;
pub mod search;
pub mod search_entry;

pub use entries::{Child, Directory, Entry, File, Link};
pub use error::{FexplorerError, FileSystemError};
pub use explorer::Explorer;
pub use file_system::{
    classify, get_entries, get_entries_sorted, get_entry_type, get_link_target, get_link_type,
    is_directory, is_file, is_link, is_link_to_directory, is_link_to_file, sort_entries,
    EntryType, LinkType, PathInfo,
};
pub use index::Index;
pub use paths::{
    file_name, get_path_name, get_rel_path, get_string_from_path, join_path, parent_path,
};
pub use search::{Indexer, Report};
pub use search_entry::{SearchEntry, SearchError};
