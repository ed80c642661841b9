//! The ways a command can fail.

use vstd::prelude::*;

verus! {

/// Why an operation was refused or could not be completed.
#[derive(Clone, Copy, Debug, PartialEq, Eq, Structural)]
pub enum ErrorKind {
    /// The logical path is empty, holds a character outside the allowed set,
    /// or names a segment that would leave the store.
    InvalidPath,
    /// The URL does not have the shape `scheme://host...`.
    InvalidUrl,
    /// No record is stored at the path.
    NotFound,
    /// The file at the path is not a readable record.
    CorruptRecord,
    /// A record could not be written.
    WriteError,
    /// A directory or file operation other than writing a record failed.
    FsError,
    /// The version-control client reported a failure.
    SyncError,
}

} // verus!
