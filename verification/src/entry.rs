//! What a directory listing and a metadata lookup tell about a path.

use vstd::prelude::*;

verus! {

/// What the metadata of a path says it is.
#[derive(Clone, Copy, Debug, PartialEq, Eq, Structural)]
pub enum EntryKind {
    /// A regular file.
    File,
    /// A directory.
    Dir,
    /// Something else that exists: a socket, a device, a pipe.
    Other,
    /// Nothing that metadata can reach: the path is absent, or it is a link
    /// that leads nowhere, or access is denied.
    Missing,
}

impl EntryKind {
    /// Whether something is there at all.
    pub open spec fn is_present(self) -> bool {
        !(self is Missing)
    }
}

/// One discovered path together with its kind.
#[derive(Clone, Debug, PartialEq, Eq)]
pub struct Entry {
    pub path: String,
    pub kind: EntryKind,
}

/// The mathematical content of an [`Entry`].
pub struct EntryView {
    pub path: Seq<char>,
    pub kind: EntryKind,
}

impl View for Entry {
    type V = EntryView;

    open spec fn view(&self) -> EntryView {
        EntryView { path: self.path@, kind: self.kind }
    }
}

impl Entry {
    /// The entry at `path` whose metadata said `kind`.
    pub fn new(path: String, kind: EntryKind) -> (entry: Entry)
        ensures
            entry@ == (EntryView { path: path@, kind }),
    {
        Entry { path, kind }
    }
}

/// The views of a sequence of entries, in order.
pub open spec fn entry_views(entries: Seq<Entry>) -> Seq<EntryView> {
    entries.map_values(|e: Entry| e@)
}

} // verus!
