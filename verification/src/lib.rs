//! Path-oriented filesystem utilities, written without any I/O of their own.
//!
//! The library holds the decisions: which directory to list next, which entry
//! to yield, where a copied entry lands, what a removal has to do. The caller
//! performs the filesystem operations that the library asks for and hands the
//! results back as plain values.

pub mod copy;
pub mod entry;
pub mod error;
pub mod guard;
pub mod laws;
pub mod listing;
pub mod ls;
pub mod paths;
pub mod remove;
pub mod tree;
pub mod walker;

pub use copy::{Copier, CopyStep};
pub use entry::{Entry, EntryKind};
pub use error::{ErrorKind, FsError};
pub use listing::{ListItem, Listing};
pub use ls::{Ls, TryLsIter};
pub use remove::{Removal, RemoveStep, Remover};
pub use walker::{LsFilter, Step, Walker};
