//! The errors of the library and the messages they carry.

use vstd::prelude::*;
use vstd::string::StringExecFns;

verus! {

/// The kinds of failure.
#[derive(Clone, Copy, Debug, PartialEq, Eq, Structural)]
pub enum ErrorKind {
    /// A path is absent where it has to exist.
    NotFound,
    /// A path exists but is of the wrong type.
    InvalidInput,
    /// A filesystem operation failed; the message names the operation, the
    /// path and the cause.
    IoFailure,
}

/// A failure with its message.
#[derive(Clone, Debug, PartialEq, Eq)]
pub struct FsError {
    pub kind: ErrorKind,
    pub message: String,
}

/// The mathematical content of an [`FsError`].
pub struct FsErrorView {
    pub kind: ErrorKind,
    pub message: Seq<char>,
}

impl View for FsError {
    type V = FsErrorView;

    open spec fn view(&self) -> FsErrorView {
        FsErrorView { kind: self.kind, message: self.message@ }
    }
}

/// The result of an operation, seen through the view of its error.
pub open spec fn outcome_view(result: Result<(), FsError>) -> Option<FsErrorView> {
    match result {
        Ok(_) => None,
        Err(err) => Some(err@),
    }
}

/// The message of a failed operation on one path:
/// `<operation> <path> due to: <cause>`.
pub open spec fn decorated(operation: Seq<char>, path: Seq<char>, cause: Seq<char>) -> Seq<char> {
    operation + " "@ + path + " due to: "@ + cause
}

/// The message of a failed operation from one path to another:
/// `<operation> <from> to <to> due to: <cause>`.
pub open spec fn decorated_pair(
    operation: Seq<char>,
    from: Seq<char>,
    to: Seq<char>,
    cause: Seq<char>,
) -> Seq<char> {
    operation + " "@ + from + " to "@ + to + " due to: "@ + cause
}

impl FsError {
    /// An I/O failure of `operation` on `path`.
    pub fn io(operation: &str, path: &str, cause: &str) -> (err: FsError)
        ensures
            err@.kind == ErrorKind::IoFailure,
            err@.message == decorated(operation@, path@, cause@),
    {
        let mut message = String::from_str(operation);
        message.append(" ");
        message.append(path);
        message.append(" due to: ");
        message.append(cause);
        FsError { kind: ErrorKind::IoFailure, message }
    }

    /// An I/O failure of `operation` from `from` to `to`.
    pub fn io_pair(operation: &str, from: &str, to: &str, cause: &str) -> (err: FsError)
        ensures
            err@.kind == ErrorKind::IoFailure,
            err@.message == decorated_pair(operation@, from@, to@, cause@),
    {
        let mut message = String::from_str(operation);
        message.append(" ");
        message.append(from);
        message.append(" to ");
        message.append(to);
        message.append(" due to: ");
        message.append(cause);
        FsError { kind: ErrorKind::IoFailure, message }
    }

    /// A file could not be copied.
    pub fn copy_failed(from: &str, to: &str, cause: &str) -> (err: FsError)
        ensures
            err@.kind == ErrorKind::IoFailure,
            err@.message == decorated_pair("Could not copy"@, from@, to@, cause@),
    {
        FsError::io_pair("Could not copy", from, to, cause)
    }

    /// A path could not be renamed.
    pub fn rename_failed(from: &str, to: &str, cause: &str) -> (err: FsError)
        ensures
            err@.kind == ErrorKind::IoFailure,
            err@.message == decorated_pair("Could not rename"@, from@, to@, cause@),
    {
        FsError::io_pair("Could not rename", from, to, cause)
    }

    /// A file or a directory tree could not be removed.
    pub fn remove_failed(path: &str, cause: &str) -> (err: FsError)
        ensures
            err@.kind == ErrorKind::IoFailure,
            err@.message == decorated("Could not remove"@, path@, cause@),
    {
        FsError::io("Could not remove", path, cause)
    }

    /// A directory could not be created.
    pub fn create_dir_failed(path: &str, cause: &str) -> (err: FsError)
        ensures
            err@.kind == ErrorKind::IoFailure,
            err@.message == decorated("Could not create directory"@, path@, cause@),
    {
        FsError::io("Could not create directory", path, cause)
    }

    /// A directory could not be created together with its parents.
    pub fn create_dir_all_failed(path: &str, cause: &str) -> (err: FsError)
        ensures
            err@.kind == ErrorKind::IoFailure,
            err@.message == decorated("Could not create directories for"@, path@, cause@),
    {
        FsError::io("Could not create directories for", path, cause)
    }

    /// A file could not be read.
    pub fn read_failed(path: &str, cause: &str) -> (err: FsError)
        ensures
            err@.kind == ErrorKind::IoFailure,
            err@.message == decorated("Could not read"@, path@, cause@),
    {
        FsError::io("Could not read", path, cause)
    }

    /// A file could not be written.
    pub fn write_failed(path: &str, cause: &str) -> (err: FsError)
        ensures
            err@.kind == ErrorKind::IoFailure,
            err@.message == decorated("Could not write to"@, path@, cause@),
    {
        FsError::io("Could not write to", path, cause)
    }
}

} // verus!
