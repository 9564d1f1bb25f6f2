//! The kinds of failure that the library reports.

use vstd::prelude::*;

verus! {

/// Why an operation failed.
#[derive(Debug, Clone, PartialEq, Eq)]
pub enum SyncError {
    /// An alias, a path, a repository entry or a history is absent.
    NotFound,
    /// The path names something other than a regular file.
    NotAFile,
    /// The alias is already in use.
    DuplicateAlias,
    /// The path is already tracked under another alias.
    DuplicatePath,
    /// The destination exists and overwriting it was not allowed.
    WouldOverwrite,
    /// The stored configuration document could not be parsed; the cause.
    ConfigCorrupt(String),
    /// Reading, writing or copying failed; the cause.
    IoFailure(String),
}

} // verus!
