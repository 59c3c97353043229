//! Recursive copy: the decisions of mirroring a file or a directory tree at a
//! destination. The caller performs each operation that is asked for and
//! hands its result back.

use crate::entry::{entry_views, Entry, EntryKind, EntryView};
use crate::error::{outcome_view, FsError, FsErrorView};
use crate::guard::{assert_exists, missing};
use crate::listing::{Listing, ListingView};
use crate::paths::{is_under, join, joined, relative};
use crate::walker::{all_under, lie_under, relative_part};
use std::collections::VecDeque;
use vstd::prelude::*;

verus! {

/// What a copy asks of its caller, or how it ended.
#[derive(Clone, Debug, PartialEq, Eq)]
pub enum CopyStep {
    /// The kind of this path is wanted; it is handed in with
    /// [`Copier::found`].
    Stat(String),
    /// Create this directory with all its parents; the result is handed in
    /// with [`Copier::completed`].
    CreateDirAll(String),
    /// The listing of this directory is wanted; it is handed in with
    /// [`Copier::listed`].
    List(String),
    /// Create this directory unless it exists; the result is handed in with
    /// [`Copier::completed`].
    CreateDir(String),
    /// Copy the file `from` to `to`, replacing what is there; the result is
    /// handed in with [`Copier::completed`].
    CopyFile { from: String, to: String },
    /// The copy was given up with this error. What was copied stays.
    Failed(FsError),
    /// Everything was copied.
    Finished,
}

/// The mathematical content of a [`CopyStep`].
pub enum CopyStepView {
    Stat(Seq<char>),
    CreateDirAll(Seq<char>),
    List(Seq<char>),
    CreateDir(Seq<char>),
    CopyFile { from: Seq<char>, to: Seq<char> },
    Failed(FsErrorView),
    Finished,
}

impl View for CopyStep {
    type V = CopyStepView;

    open spec fn view(&self) -> CopyStepView {
        match self {
            CopyStep::Stat(path) => CopyStepView::Stat(path@),
            CopyStep::CreateDirAll(path) => CopyStepView::CreateDirAll(path@),
            CopyStep::List(path) => CopyStepView::List(path@),
            CopyStep::CreateDir(path) => CopyStepView::CreateDir(path@),
            CopyStep::CopyFile { from, to } => CopyStepView::CopyFile { from: from@, to: to@ },
            CopyStep::Failed(err) => CopyStepView::Failed(err@),
            CopyStep::Finished => CopyStepView::Finished,
        }
    }
}

/// Where a copy stands.
pub enum CopyPhaseView {
    /// Nothing was asked yet.
    Fresh,
    /// The kind of the source was asked for.
    Probing,
    /// The source is a single file, and its copy was asked for.
    Single,
    /// The source is a directory, and the destination directory was asked
    /// for.
    Rooting,
    /// The listing of the source directory was asked for.
    ListingRoot,
    /// The listing of this directory of the source tree was asked for.
    Expanding(EntryView),
    /// The directory or the file copy for one entry was asked for.
    Placing,
    /// The copy has ended.
    Finished,
}

/// The mathematical model of a copy: source, destination, phase, and the
/// queue of discovered entries that wait to be copied, oldest first.
pub struct CopyState {
    pub from: Seq<char>,
    pub to: Seq<char>,
    pub phase: CopyPhaseView,
    pub queue: Seq<EntryView>,
}

impl CopyState {
    /// A copy from `from` to `to` of which nothing was done yet.
    pub open spec fn fresh(from: Seq<char>, to: Seq<char>) -> CopyState {
        CopyState { from, to, phase: CopyPhaseView::Fresh, queue: Seq::empty() }
    }

    /// Every entry that the copy holds lies under the source.
    pub open spec fn wf(self) -> bool {
        &&& all_under(self.queue, self.from)
        &&& self.phase matches CopyPhaseView::Expanding(e) ==> is_under(e.path, self.from)
            && e.kind is Dir
    }

    /// The copy given up, or ended.
    pub open spec fn ended(self) -> CopyState {
        CopyState { phase: CopyPhaseView::Finished, queue: Seq::empty(), ..self }
    }

    /// Where the entry `e` of the source tree lands: its path relative to
    /// the source, joined onto the destination.
    pub open spec fn target(self, e: EntryView) -> Seq<char> {
        joined(self.to, relative(e.path, self.from))
    }

    /// Takes the next entry from the queue: a directory is listed first, a
    /// file is copied; with an empty queue the copy is finished.
    pub open spec fn proceed(self) -> (CopyState, CopyStepView) {
        if self.queue.len() == 0 {
            (self.ended(), CopyStepView::Finished)
        } else {
            let e = self.queue[0];
            let rest = CopyState { queue: self.queue.skip(1), ..self };
            if e.kind is Dir {
                (
                    CopyState { phase: CopyPhaseView::Expanding(e), ..rest },
                    CopyStepView::List(e.path),
                )
            } else {
                (
                    CopyState { phase: CopyPhaseView::Placing, ..rest },
                    CopyStepView::CopyFile { from: e.path, to: self.target(e) },
                )
            }
        }
    }

    /// The first step: the kind of the source is asked for.
    pub open spec fn start(self) -> (CopyState, CopyStepView)
        recommends
            self.phase is Fresh,
    {
        (CopyState { phase: CopyPhaseView::Probing, ..self }, CopyStepView::Stat(self.from))
    }

    /// The answer to a `Stat`. A source that is missing ends the copy with
    /// an error; a directory asks for the destination directory; anything
    /// else is copied as a single file.
    pub open spec fn found(self, kind: EntryKind) -> (CopyState, CopyStepView)
        recommends
            self.phase is Probing,
    {
        match kind {
            EntryKind::Missing => (self.ended(), CopyStepView::Failed(missing(self.from))),
            EntryKind::Dir => (
                CopyState { phase: CopyPhaseView::Rooting, ..self },
                CopyStepView::CreateDirAll(self.to),
            ),
            _ => (
                CopyState { phase: CopyPhaseView::Single, ..self },
                CopyStepView::CopyFile { from: self.from, to: self.to },
            ),
        }
    }

    /// Is the result of an operation awaited?
    pub open spec fn operating(self) -> bool {
        self.phase is Single || self.phase is Rooting || self.phase is Placing
    }

    /// The answer to a `CreateDirAll`, a `CreateDir` or a `CopyFile`. A
    /// failure ends the copy with that error. After the single file the copy
    /// is finished; after the destination directory the source directory is
    /// listed; after an entry the next one is taken.
    pub open spec fn completed(self, failure: Option<FsErrorView>) -> (CopyState, CopyStepView)
        recommends
            self.operating(),
    {
        match failure {
            Some(err) => (self.ended(), CopyStepView::Failed(err)),
            None => match self.phase {
                CopyPhaseView::Single => (self.ended(), CopyStepView::Finished),
                CopyPhaseView::Rooting => (
                    CopyState { phase: CopyPhaseView::ListingRoot, ..self },
                    CopyStepView::List(self.from),
                ),
                _ => self.proceed(),
            },
        }
    }

    /// Is a listing awaited, and do all its entries lie under the source?
    pub open spec fn takes(self, listing: ListingView) -> bool {
        &&& self.phase is ListingRoot || self.phase is Expanding
        &&& all_under(listing.entries(), self.from)
    }

    /// The answer to a `List`. A failure in the listing ends the copy with
    /// that error. Otherwise its entries join the back of the queue; after
    /// the listing of the source the first entry is taken, after the listing
    /// of a directory that directory is created at the destination.
    pub open spec fn listed(self, listing: ListingView) -> (CopyState, CopyStepView)
        recommends
            self.takes(listing),
    {
        match listing.failure() {
            Some(err) => (self.ended(), CopyStepView::Failed(err)),
            None => {
                let grown = CopyState { queue: self.queue + listing.entries(), ..self };
                match self.phase {
                    CopyPhaseView::Expanding(e) => (
                        CopyState { phase: CopyPhaseView::Placing, ..grown },
                        CopyStepView::CreateDir(self.target(e)),
                    ),
                    _ => grown.proceed(),
                }
            },
        }
    }
}

/// Where a copy stands, with the directory that an open listing is about.
enum CopyPhase {
    Fresh,
    Probing,
    Single,
    Rooting,
    ListingRoot,
    Expanding(Entry),
    Placing,
    Finished,
}

impl View for CopyPhase {
    type V = CopyPhaseView;

    closed spec fn view(&self) -> CopyPhaseView {
        match self {
            CopyPhase::Fresh => CopyPhaseView::Fresh,
            CopyPhase::Probing => CopyPhaseView::Probing,
            CopyPhase::Single => CopyPhaseView::Single,
            CopyPhase::Rooting => CopyPhaseView::Rooting,
            CopyPhase::ListingRoot => CopyPhaseView::ListingRoot,
            CopyPhase::Expanding(e) => CopyPhaseView::Expanding(e@),
            CopyPhase::Placing => CopyPhaseView::Placing,
            CopyPhase::Finished => CopyPhaseView::Finished,
        }
    }
}

/// A recursive copy from one path to another.
///
/// The copy begins with [`Copier::start`]. Each [`CopyStep`] names one
/// operation; its result is handed in with [`Copier::found`],
/// [`Copier::completed`] or [`Copier::listed`], which give the next step,
/// until the copy has failed or is finished.
pub struct Copier {
    from: String,
    to: String,
    phase: CopyPhase,
    queue: VecDeque<Entry>,
}

impl View for Copier {
    type V = CopyState;

    closed spec fn view(&self) -> CopyState {
        CopyState {
            from: self.from@,
            to: self.to@,
            phase: self.phase@,
            queue: entry_views(self.queue@),
        }
    }
}

impl Copier {
    #[verifier::type_invariant]
    spec fn well_formed(self) -> bool {
        self@.wf()
    }

    /// A copy from `from` to `to`, not yet begun.
    pub fn new(from: String, to: String) -> (copier: Copier)
        ensures
            copier@ == CopyState::fresh(from@, to@),
    {
        let copier = Copier { from, to, phase: CopyPhase::Fresh, queue: VecDeque::new() };
        assert(entry_views(copier.queue@) =~= Seq::empty());
        copier
    }

    /// Ends the copy and drops what is queued.
    fn end(&mut self)
        ensures
            final(self)@ == old(self)@.ended(),
    {
        proof {
            use_type_invariant(&*self);
        }
        let emptied: VecDeque<Entry> = VecDeque::new();
        assert(entry_views(emptied@) =~= Seq::empty());
        self.phase = CopyPhase::Finished;
        self.queue = emptied;
    }

    /// Where the entry lands at the destination.
    fn target_of(&self, entry: &Entry) -> (target: String)
        requires
            is_under(entry@.path, self@.from),
        ensures
            target@ == self@.target(entry@),
    {
        let rel = relative_part(entry.path.as_str(), self.from.as_str());
        join(self.to.as_str(), rel.as_str())
    }

    /// Takes the next entry from the queue.
    fn proceed(&mut self) -> (step: CopyStep)
        ensures
            (final(self)@, step@) == old(self)@.proceed(),
    {
        proof {
            use_type_invariant(&*self);
        }
        let mut queue: VecDeque<Entry> = VecDeque::new();
        assert(entry_views(queue@) =~= Seq::empty());
        std::mem::swap(&mut self.queue, &mut queue);
        let ghost before = entry_views(queue@);
        match queue.pop_front() {
            None => {
                self.phase = CopyPhase::Finished;
                CopyStep::Finished
            },
            Some(entry) => {
                proof {
                    assert(entry_views(queue@) =~= before.skip(1));
                    assert(is_under(before[0].path, self@.from));
                }
                self.queue = queue;
                if matches!(entry.kind, EntryKind::Dir) {
                    let dir = entry.path.clone();
                    self.phase = CopyPhase::Expanding(entry);
                    CopyStep::List(dir)
                } else {
                    let to = self.target_of(&entry);
                    self.phase = CopyPhase::Placing;
                    CopyStep::CopyFile { from: entry.path, to }
                }
            },
        }
    }

    /// Begins the copy. Where it has begun already, nothing changes and
    /// `None` comes back.
    pub fn start(&mut self) -> (step: Option<CopyStep>)
        ensures
            match step {
                Some(step) => old(self)@.phase is Fresh && (final(self)@, step@) == old(
                    self,
                )@.start(),
                None => !(old(self)@.phase is Fresh) && final(self)@ == old(self)@,
            },
    {
        proof {
            use_type_invariant(&*self);
        }
        match &self.phase {
            CopyPhase::Fresh => {
                self.phase = CopyPhase::Probing;
                Some(CopyStep::Stat(self.from.clone()))
            },
            _ => None,
        }
    }

    /// Hands in the kind of the source. Where it was not asked for, nothing
    /// changes and `None` comes back.
    pub fn found(&mut self, kind: EntryKind) -> (step: Option<CopyStep>)
        ensures
            match step {
                Some(step) => old(self)@.phase is Probing && (final(self)@, step@) == old(
                    self,
                )@.found(kind),
                None => !(old(self)@.phase is Probing) && final(self)@ == old(self)@,
            },
    {
        proof {
            use_type_invariant(&*self);
        }
        match &self.phase {
            CopyPhase::Probing => {},
            _ => {
                return None;
            },
        }
        match assert_exists(self.from.as_str(), kind) {
            Err(err) => {
                self.end();
                Some(CopyStep::Failed(err))
            },
            Ok(_) => {
                if matches!(kind, EntryKind::Dir) {
                    self.phase = CopyPhase::Rooting;
                    Some(CopyStep::CreateDirAll(self.to.clone()))
                } else {
                    self.phase = CopyPhase::Single;
                    Some(CopyStep::CopyFile { from: self.from.clone(), to: self.to.clone() })
                }
            },
        }
    }

    /// Hands in the result of creating a directory or copying a file. Where
    /// no such result was awaited, nothing changes and `None` comes back.
    pub fn completed(&mut self, result: Result<(), FsError>) -> (step: Option<CopyStep>)
        ensures
            match step {
                Some(step) => old(self)@.operating() && (final(self)@, step@) == old(
                    self,
                )@.completed(outcome_view(result)),
                None => !old(self)@.operating() && final(self)@ == old(self)@,
            },
    {
        proof {
            use_type_invariant(&*self);
        }
        let awaited = match &self.phase {
            CopyPhase::Single => true,
            CopyPhase::Rooting => true,
            CopyPhase::Placing => true,
            _ => false,
        };
        if !awaited {
            return None;
        }
        match result {
            Err(err) => {
                self.end();
                Some(CopyStep::Failed(err))
            },
            Ok(_) => match &self.phase {
                CopyPhase::Single => {
                    self.end();
                    Some(CopyStep::Finished)
                },
                CopyPhase::Rooting => {
                    self.phase = CopyPhase::ListingRoot;
                    Some(CopyStep::List(self.from.clone()))
                },
                _ => Some(self.proceed()),
            },
        }
    }

    /// Hands in the listing that was asked for. Where no listing was asked
    /// for, or where the listing holds an entry that does not lie under the
    /// source, nothing changes and `None` comes back.
    pub fn listed(&mut self, listing: Listing) -> (step: Option<CopyStep>)
        ensures
            match step {
                Some(step) => old(self)@.takes(listing@) && (final(self)@, step@) == old(
                    self,
                )@.listed(listing@),
                None => !old(self)@.takes(listing@) && final(self)@ == old(self)@,
            },
    {
        proof {
            use_type_invariant(&*self);
        }
        let awaited = match &self.phase {
            CopyPhase::ListingRoot => true,
            CopyPhase::Expanding(_) => true,
            _ => false,
        };
        if !awaited {
            return None;
        }
        let (mut found, failure) = listing.into_parts();
        if !lie_under(&found, self.from.as_str()) {
            return None;
        }
        if let Some(err) = failure {
            self.end();
            return Some(CopyStep::Failed(err));
        }
        let mut queue: VecDeque<Entry> = VecDeque::new();
        std::mem::swap(&mut self.queue, &mut queue);
        let ghost waiting = queue@;
        let ghost added = found@;
        queue.append(&mut found);
        proof {
            assert(entry_views(queue@) =~= entry_views(waiting) + entry_views(added));
        }
        self.queue = queue;
        let mut phase = CopyPhase::Placing;
        std::mem::swap(&mut self.phase, &mut phase);
        match phase {
            CopyPhase::Expanding(entry) => Some(CopyStep::CreateDir(self.target_of(&entry))),
            _ => Some(self.proceed()),
        }
    }
}

/// Is `e` an entry under the source that the step `step` of the copy `s`
/// is about, and does the step put it at its place: a directory is listed
/// at its own path and created at its target, anything else is copied from
/// its own path to its target?
pub open spec fn places(s: CopyState, e: EntryView, step: CopyStepView) -> bool {
    &&& is_under(e.path, s.from)
    &&& match step {
        CopyStepView::List(dir) => e.kind is Dir && dir == e.path,
        CopyStepView::CreateDir(dir) => e.kind is Dir && dir == s.target(e),
        CopyStepView::CopyFile { from, to } => !(e.kind is Dir) && from == e.path && to
            == s.target(e),
        _ => false,
    }
}

/// Does the step mirror the source at the destination? The source itself is
/// looked up, listed, or copied to the destination as a single file; the
/// destination directory is created with its parents; and every other
/// operation puts an entry of the source tree at its relative place under
/// the destination.
pub open spec fn mirrors(s: CopyState, step: CopyStepView) -> bool {
    match step {
        CopyStepView::Stat(path) => path == s.from,
        CopyStepView::CreateDirAll(dir) => dir == s.to,
        CopyStepView::Failed(_) => true,
        CopyStepView::Finished => true,
        CopyStepView::List(dir) => dir == s.from || exists|e: EntryView| #[trigger]
            places(s, e, step),
        CopyStepView::CopyFile { from, to } => (from == s.from && to == s.to) || exists|
            e: EntryView,
        | #[trigger] places(s, e, step),
        CopyStepView::CreateDir(_) => exists|e: EntryView| #[trigger] places(s, e, step),
    }
}

/// Taking the next entry mirrors the source and keeps the copy well formed.
proof fn lemma_proceed_mirrors(s: CopyState)
    requires
        all_under(s.queue, s.from),
    ensures
        s.proceed().0.wf(),
        mirrors(s, s.proceed().1),
{
    if s.queue.len() > 0 {
        let e = s.queue[0];
        let step = s.proceed().1;
        assert(places(s, e, step));
    }
}

/// A copy preserves the layout of the source. Whatever results are handed
/// in, every step that the copy hands out mirrors the source at the
/// destination: each entry of the source tree is created or copied at the
/// path that it has relative to the source, joined onto the destination.
pub proof fn law_copy_mirrors(
    s: CopyState,
    kind: EntryKind,
    failure: Option<FsErrorView>,
    listing: ListingView,
)
    requires
        s.wf(),
    ensures
        s.phase is Fresh ==> s.start().0.wf() && mirrors(s, s.start().1),
        s.phase is Probing ==> s.found(kind).0.wf() && mirrors(s, s.found(kind).1),
        s.operating() ==> s.completed(failure).0.wf() && mirrors(s, s.completed(failure).1),
        s.takes(listing) ==> s.listed(listing).0.wf() && mirrors(s, s.listed(listing).1),
{
    lemma_proceed_mirrors(s);
    if s.takes(listing) && listing.failure() is None {
        let grown = CopyState { queue: s.queue + listing.entries(), ..s };
        lemma_proceed_mirrors(grown);
        if let CopyPhaseView::Expanding(e) = s.phase {
            assert(places(s, e, s.listed(listing).1));
        } else {
            let step = grown.proceed().1;
            if grown.queue.len() > 0 {
                assert(places(s, grown.queue[0], step));
            }
        }
    }
}

} // verus!
