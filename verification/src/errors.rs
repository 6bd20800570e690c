//! Closed error kinds for each component, carrying structured context.
//! Formatting an error into a human-readable line is the host's business.

use vstd::prelude::*;

verus! {

/// Failures while resolving and validating the launch-file argument at
/// process startup.  Every one of these is fatal to startup.
#[derive(Clone, Copy, Debug, PartialEq, Eq, Structural)]
pub enum LaunchArgError {
    /// More than one positional path argument was supplied.
    TooManyPaths,
    /// The raw argument is empty or all whitespace.
    EmptyPath,
    /// The argument is a `file://` URI with nothing after the scheme.
    EmptyFileUri,
    /// The path exists but is not a regular file.
    NotARegularFile,
    /// The file is at or above the hard size limit.
    FileTooLarge { size_bytes: u64 },
    /// The file is large enough to need confirmation, but there is no
    /// interactive channel to ask on.
    ConfirmationRequired { size_bytes: u64 },
    /// The file is large and the interactive confirmation was not affirmative.
    OpenCancelled { size_bytes: u64 },
    /// The path could not be stat'ed for a reason other than absence.
    StatFailed,
    /// The path has no parent directory component.
    NoParent,
    /// The parent directory of a not-yet-existing file does not exist.
    ParentMissing,
    /// The parent of a not-yet-existing file exists but is not a directory.
    ParentNotADirectory,
    /// The path has no usable final file-name component.
    NoFileName,
    /// The host could not canonicalize an existing path.
    CanonicalizeFailed,
}

/// Failures of read-stream operations, reported to the caller; the process
/// keeps running.
#[derive(Clone, Copy, Debug, PartialEq, Eq, Structural)]
pub enum ReadStreamError {
    /// No launch file was approved at startup, so nothing may be streamed.
    NoLaunchFile,
    /// The requested path is not byte-equal to the approved launch path.
    PathNotApproved,
    /// The approved path no longer names a regular file.
    NotARegularFile,
    /// The approved path could not be stat'ed.
    StatFailed,
    /// No live read session has the given identifier.
    SessionNotFound,
    /// The streamed bytes are not well-formed UTF-8.
    InvalidUtf8,
}

/// Failures of write-stream operations, reported to the caller; the process
/// keeps running.
#[derive(Clone, Copy, Debug, PartialEq, Eq, Structural)]
pub enum WriteStreamError {
    /// The target path is empty or all whitespace.
    EmptyPath,
    /// The target path has no parent directory component.
    NoParent,
    /// The target's parent directory does not exist.
    ParentMissing,
    /// The target's parent exists but is not a directory.
    ParentNotADirectory,
    /// The target path has no usable final file-name component.
    NoFileName,
    /// No live write session has the given identifier.
    SessionNotFound,
}

} // verus!
