use vstd::prelude::*;

verus! {

/// A path that has the wrong kind for what was asked of it.
#[derive(Debug, Clone, PartialEq, Eq)]
pub enum FileSystemError {
    NotADirectory(String),
    NotAFile(String),
    NotALink(String),
}

/// The errors of the library's filesystem operations. A read that failed is
/// reported by its message.
#[derive(Debug, Clone, PartialEq, Eq)]
pub enum FexplorerError {
    IO(String),
    IOVec(Vec<String>),
    PathDoesNotExist(String),
    FileSystem(FileSystemError),
    OpenError(String),
}

} // verus!
