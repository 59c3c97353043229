//! Checks on what the metadata of a path says, with the errors they raise.

use crate::entry::EntryKind;
use crate::error::{ErrorKind, FsError, FsErrorView};
use vstd::prelude::*;
use vstd::string::StringExecFns;

verus! {

/// The error of a path that has to exist and does not.
pub open spec fn missing(path: Seq<char>) -> FsErrorView {
    FsErrorView {
        kind: ErrorKind::NotFound,
        message: "Path \""@ + path + "\" does not exist or you don't have access!"@,
    }
}

/// The error of a path that has to be a directory and is none.
pub open spec fn no_directory(path: Seq<char>) -> FsErrorView {
    FsErrorView {
        kind: ErrorKind::InvalidInput,
        message: "Path \""@ + path + "\" is not a directory!"@,
    }
}

/// The error of a path that has to be a file and is none.
pub open spec fn no_file(path: Seq<char>) -> FsErrorView {
    FsErrorView { kind: ErrorKind::InvalidInput, message: "Path \""@ + path + "\" is not a file!"@ }
}

/// `Path "<path>"<rest>`, as an error of the given kind.
fn complaint(kind: ErrorKind, path: &str, rest: &str) -> (err: FsError)
    ensures
        err@ == (FsErrorView { kind, message: "Path \""@ + path@ + rest@ }),
{
    let mut message = String::from_str("Path \"");
    message.append(path);
    message.append(rest);
    FsError { kind, message }
}

/// Fails unless something exists at `path`, whose metadata said `kind`.
pub fn assert_exists(path: &str, kind: EntryKind) -> (checked: Result<(), FsError>)
    ensures
        match checked {
            Ok(_) => kind.is_present(),
            Err(err) => !kind.is_present() && err@ == missing(path@),
        },
{
    match kind {
        EntryKind::Missing => Err(
            complaint(ErrorKind::NotFound, path, "\" does not exist or you don't have access!"),
        ),
        _ => Ok(()),
    }
}

/// Fails unless `path`, whose metadata said `kind`, is a directory.
pub fn assert_dir(path: &str, kind: EntryKind) -> (checked: Result<(), FsError>)
    ensures
        match checked {
            Ok(_) => kind is Dir,
            Err(err) => !(kind is Dir) && err@ == no_directory(path@),
        },
{
    match kind {
        EntryKind::Dir => Ok(()),
        _ => Err(complaint(ErrorKind::InvalidInput, path, "\" is not a directory!")),
    }
}

/// Fails unless `path`, whose metadata said `kind`, is a regular file.
pub fn assert_file(path: &str, kind: EntryKind) -> (checked: Result<(), FsError>)
    ensures
        match checked {
            Ok(_) => kind is File,
            Err(err) => !(kind is File) && err@ == no_file(path@),
        },
{
    match kind {
        EntryKind::File => Ok(()),
        _ => Err(complaint(ErrorKind::InvalidInput, path, "\" is not a file!")),
    }
}

} // verus!
