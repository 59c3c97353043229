//! Removal: what removing a path has to do, and the decisions of removing
//! what a predicate selects.

use crate::entry::{entry_views, Entry, EntryKind, EntryView};
use crate::error::{outcome_view, FsError, FsErrorView};
use crate::listing::{Listing, ListingView};
use std::collections::VecDeque;
use vstd::prelude::*;

verus! {

/// What removing a path has to do.
#[derive(Clone, Copy, Debug, PartialEq, Eq, Structural)]
pub enum Removal {
    /// Nothing is there: nothing is done, and that is no error.
    Nothing,
    /// A directory: it is removed with all that it holds.
    Tree,
    /// Anything else: it is removed as a file.
    File,
}

/// What removing a path whose metadata said `kind` has to do.
pub open spec fn removal_of(kind: EntryKind) -> Removal {
    match kind {
        EntryKind::Missing => Removal::Nothing,
        EntryKind::Dir => Removal::Tree,
        _ => Removal::File,
    }
}

/// What removing a path whose metadata said `kind` has to do. A path that
/// does not exist asks for nothing.
pub fn removal(kind: EntryKind) -> (how: Removal)
    ensures
        how == removal_of(kind),
        !kind.is_present() ==> how is Nothing,
{
    match kind {
        EntryKind::Missing => Removal::Nothing,
        EntryKind::Dir => Removal::Tree,
        _ => Removal::File,
    }
}

/// What a removal by predicate asks of its caller, or how it ended.
#[derive(Clone, Debug, PartialEq, Eq)]
pub enum RemoveStep {
    /// The kind of this path is wanted; it is handed in with
    /// [`Remover::found`].
    Stat(String),
    /// The listing of this directory is wanted; it is handed in with
    /// [`Remover::listed`].
    List(String),
    /// Does the predicate select this path? The answer is handed in with
    /// [`Remover::tested`].
    Test(String),
    /// Remove this directory with all that it holds; the result is handed in
    /// with [`Remover::completed`].
    RemoveTree(String),
    /// Remove this file; the result is handed in with
    /// [`Remover::completed`].
    RemoveFile(String),
    /// The removal was given up with this error. What was removed stays
    /// removed.
    Failed(FsError),
    /// Everything that was selected is removed.
    Finished,
}

/// The mathematical content of a [`RemoveStep`].
pub enum RemoveStepView {
    Stat(Seq<char>),
    List(Seq<char>),
    Test(Seq<char>),
    RemoveTree(Seq<char>),
    RemoveFile(Seq<char>),
    Failed(FsErrorView),
    Finished,
}

impl View for RemoveStep {
    type V = RemoveStepView;

    open spec fn view(&self) -> RemoveStepView {
        match self {
            RemoveStep::Stat(path) => RemoveStepView::Stat(path@),
            RemoveStep::List(path) => RemoveStepView::List(path@),
            RemoveStep::Test(path) => RemoveStepView::Test(path@),
            RemoveStep::RemoveTree(path) => RemoveStepView::RemoveTree(path@),
            RemoveStep::RemoveFile(path) => RemoveStepView::RemoveFile(path@),
            RemoveStep::Failed(err) => RemoveStepView::Failed(err@),
            RemoveStep::Finished => RemoveStepView::Finished,
        }
    }
}

/// Where a removal by predicate stands.
pub enum RemovePhaseView {
    /// Nothing was asked yet.
    Fresh,
    /// The kind of the target was asked for.
    Probing,
    /// The target is a directory, and its listing was asked for.
    Listing,
    /// The predicate was asked about this entry: the target itself where it
    /// is no directory, an immediate entry of the target otherwise.
    Testing(EntryView),
    /// The removal of an entry was asked for.
    Removing,
    /// The removal has ended.
    Finished,
}

/// The mathematical model of a removal by predicate: the target, the phase,
/// and the entries that are still to be tested, in the order of the listing.
pub struct RemoveState {
    pub target: Seq<char>,
    pub phase: RemovePhaseView,
    pub queue: Seq<EntryView>,
}

impl RemoveState {
    /// A removal under `target` of which nothing was done yet.
    pub open spec fn fresh(target: Seq<char>) -> RemoveState {
        RemoveState { target, phase: RemovePhaseView::Fresh, queue: Seq::empty() }
    }

    /// The removal given up, or ended.
    pub open spec fn ended(self) -> RemoveState {
        RemoveState { phase: RemovePhaseView::Finished, queue: Seq::empty(), ..self }
    }

    /// Takes the next entry and asks the predicate about it; with no entry
    /// left the removal is finished.
    pub open spec fn proceed(self) -> (RemoveState, RemoveStepView) {
        if self.queue.len() == 0 {
            (self.ended(), RemoveStepView::Finished)
        } else {
            let e = self.queue[0];
            (
                RemoveState {
                    phase: RemovePhaseView::Testing(e),
                    queue: self.queue.skip(1),
                    ..self
                },
                RemoveStepView::Test(e.path),
            )
        }
    }

    /// The first step: the kind of the target is asked for.
    pub open spec fn start(self) -> (RemoveState, RemoveStepView)
        recommends
            self.phase is Fresh,
    {
        (RemoveState { phase: RemovePhaseView::Probing, ..self }, RemoveStepView::Stat(self.target))
    }

    /// The answer to a `Stat`. A directory is listed; of anything else the
    /// predicate is asked about the target itself.
    pub open spec fn found(self, kind: EntryKind) -> (RemoveState, RemoveStepView)
        recommends
            self.phase is Probing,
    {
        if kind is Dir {
            (
                RemoveState { phase: RemovePhaseView::Listing, ..self },
                RemoveStepView::List(self.target),
            )
        } else {
            (
                RemoveState {
                    phase: RemovePhaseView::Testing(EntryView { path: self.target, kind }),
                    ..self
                },
                RemoveStepView::Test(self.target),
            )
        }
    }

    /// The answer to a `List`: the entries of the listing are gone through
    /// in order. A listing that failed gives no entries, an item that could
    /// not be read is passed over. Nothing below these entries is ever
    /// listed.
    pub open spec fn listed(self, listing: ListingView) -> (RemoveState, RemoveStepView)
        recommends
            self.phase is Listing,
    {
        RemoveState { queue: listing.entries(), ..self }.proceed()
    }

    /// The answer to a `Test`. A selected entry that exists is removed: a
    /// directory as a tree, anything else as a file. An entry that is not
    /// selected, or is not there, is left alone, and the next one is taken.
    pub open spec fn tested(self, selected: bool) -> (RemoveState, RemoveStepView)
        recommends
            self.phase is Testing,
    {
        let e = self.phase->Testing_0;
        if selected && removal_of(e.kind) is Tree {
            (
                RemoveState { phase: RemovePhaseView::Removing, ..self },
                RemoveStepView::RemoveTree(e.path),
            )
        } else if selected && removal_of(e.kind) is File {
            (
                RemoveState { phase: RemovePhaseView::Removing, ..self },
                RemoveStepView::RemoveFile(e.path),
            )
        } else {
            self.proceed()
        }
    }

    /// The answer to a `RemoveTree` or a `RemoveFile`. A failure ends the
    /// removal with that error; otherwise the next entry is taken.
    pub open spec fn completed(self, failure: Option<FsErrorView>) -> (RemoveState, RemoveStepView)
        recommends
            self.phase is Removing,
    {
        match failure {
            Some(err) => (self.ended(), RemoveStepView::Failed(err)),
            None => self.proceed(),
        }
    }
}

/// Where a removal stands, with the entry that the predicate is asked about.
enum RemovePhase {
    Fresh,
    Probing,
    Listing,
    Testing(Entry),
    Removing,
    Finished,
}

impl View for RemovePhase {
    type V = RemovePhaseView;

    closed spec fn view(&self) -> RemovePhaseView {
        match self {
            RemovePhase::Fresh => RemovePhaseView::Fresh,
            RemovePhase::Probing => RemovePhaseView::Probing,
            RemovePhase::Listing => RemovePhaseView::Listing,
            RemovePhase::Testing(e) => RemovePhaseView::Testing(e@),
            RemovePhase::Removing => RemovePhaseView::Removing,
            RemovePhase::Finished => RemovePhaseView::Finished,
        }
    }
}

/// The removal of what a predicate selects: the target itself where it is
/// no directory, its immediate entries where it is one.
///
/// The removal begins with [`Remover::start`]. Each [`RemoveStep`] names one
/// operation or one question; the answer is handed in with
/// [`Remover::found`], [`Remover::listed`], [`Remover::tested`] or
/// [`Remover::completed`], which give the next step.
pub struct Remover {
    target: String,
    phase: RemovePhase,
    queue: VecDeque<Entry>,
}

impl View for Remover {
    type V = RemoveState;

    closed spec fn view(&self) -> RemoveState {
        RemoveState { target: self.target@, phase: self.phase@, queue: entry_views(self.queue@) }
    }
}

impl Remover {
    /// A removal under `target`, not yet begun.
    pub fn new(target: String) -> (remover: Remover)
        ensures
            remover@ == RemoveState::fresh(target@),
    {
        let remover = Remover { target, phase: RemovePhase::Fresh, queue: VecDeque::new() };
        assert(entry_views(remover.queue@) =~= Seq::empty());
        remover
    }

    /// Ends the removal and drops what is queued.
    fn end(&mut self)
        ensures
            final(self)@ == old(self)@.ended(),
    {
        self.phase = RemovePhase::Finished;
        self.queue.clear();
        assert(entry_views(self.queue@) =~= Seq::empty());
    }

    /// Takes the next entry.
    fn proceed(&mut self) -> (step: RemoveStep)
        ensures
            (final(self)@, step@) == old(self)@.proceed(),
    {
        let ghost before = entry_views(self.queue@);
        match self.queue.pop_front() {
            None => {
                self.end();
                RemoveStep::Finished
            },
            Some(entry) => {
                assert(entry_views(self.queue@) =~= before.skip(1));
                let path = entry.path.clone();
                self.phase = RemovePhase::Testing(entry);
                RemoveStep::Test(path)
            },
        }
    }

    /// Begins the removal. Where it has begun already, nothing changes and
    /// `None` comes back.
    pub fn start(&mut self) -> (step: Option<RemoveStep>)
        ensures
            match step {
                Some(step) => old(self)@.phase is Fresh && (final(self)@, step@) == old(
                    self,
                )@.start(),
                None => !(old(self)@.phase is Fresh) && final(self)@ == old(self)@,
            },
    {
        match &self.phase {
            RemovePhase::Fresh => {
                self.phase = RemovePhase::Probing;
                Some(RemoveStep::Stat(self.target.clone()))
            },
            _ => None,
        }
    }

    /// Hands in the kind of the target. Where it was not asked for, nothing
    /// changes and `None` comes back.
    pub fn found(&mut self, kind: EntryKind) -> (step: Option<RemoveStep>)
        ensures
            match step {
                Some(step) => old(self)@.phase is Probing && (final(self)@, step@) == old(
                    self,
                )@.found(kind),
                None => !(old(self)@.phase is Probing) && final(self)@ == old(self)@,
            },
    {
        match &self.phase {
            RemovePhase::Probing => {},
            _ => {
                return None;
            },
        }
        if matches!(kind, EntryKind::Dir) {
            self.phase = RemovePhase::Listing;
            Some(RemoveStep::List(self.target.clone()))
        } else {
            self.phase = RemovePhase::Testing(Entry { path: self.target.clone(), kind });
            Some(RemoveStep::Test(self.target.clone()))
        }
    }

    /// Hands in the listing of the target. Where it was not asked for,
    /// nothing changes and `None` comes back.
    pub fn listed(&mut self, listing: Listing) -> (step: Option<RemoveStep>)
        ensures
            match step {
                Some(step) => old(self)@.phase is Listing && (final(self)@, step@) == old(
                    self,
                )@.listed(listing@),
                None => !(old(self)@.phase is Listing) && final(self)@ == old(self)@,
            },
    {
        match &self.phase {
            RemovePhase::Listing => {},
            _ => {
                return None;
            },
        }
        let (found, _) = listing.into_parts();
        self.queue = found;
        Some(self.proceed())
    }

    /// Hands in the answer of the predicate. Where it was not asked,
    /// nothing changes and `None` comes back.
    pub fn tested(&mut self, selected: bool) -> (step: Option<RemoveStep>)
        ensures
            match step {
                Some(step) => old(self)@.phase is Testing && (final(self)@, step@) == old(
                    self,
                )@.tested(selected),
                None => !(old(self)@.phase is Testing) && final(self)@ == old(self)@,
            },
    {
        let mut phase = RemovePhase::Removing;
        std::mem::swap(&mut self.phase, &mut phase);
        match phase {
            RemovePhase::Testing(entry) => {
                if selected {
                    match removal(entry.kind) {
                        Removal::Tree => {
                            return Some(RemoveStep::RemoveTree(entry.path));
                        },
                        Removal::File => {
                            return Some(RemoveStep::RemoveFile(entry.path));
                        },
                        Removal::Nothing => {},
                    }
                }
                Some(self.proceed())
            },
            other => {
                self.phase = other;
                None
            },
        }
    }

    /// Hands in the result of a removal. Where none was awaited, nothing
    /// changes and `None` comes back.
    pub fn completed(&mut self, result: Result<(), FsError>) -> (step: Option<RemoveStep>)
        ensures
            match step {
                Some(step) => old(self)@.phase is Removing && (final(self)@, step@) == old(
                    self,
                )@.completed(outcome_view(result)),
                None => !(old(self)@.phase is Removing) && final(self)@ == old(self)@,
            },
    {
        match &self.phase {
            RemovePhase::Removing => {},
            _ => {
                return None;
            },
        }
        match result {
            Err(err) => {
                self.end();
                Some(RemoveStep::Failed(err))
            },
            Ok(_) => Some(self.proceed()),
        }
    }
}

/// Is the step about one of the entries `scope`: a question about it or
/// its removal? The end and a failure are about nothing; a request for
/// metadata or for a listing is about something else.
pub open spec fn step_within(step: RemoveStepView, scope: Seq<EntryView>) -> bool {
    match step {
        RemoveStepView::Test(path) => exists|i: int|
            0 <= i < scope.len() && (#[trigger] scope[i]).path == path,
        RemoveStepView::RemoveTree(path) => exists|i: int|
            0 <= i < scope.len() && (#[trigger] scope[i]).path == path && scope[i].kind is Dir,
        RemoveStepView::RemoveFile(path) => exists|i: int|
            0 <= i < scope.len() && (#[trigger] scope[i]).path == path && !(scope[i].kind is Dir),
        RemoveStepView::Failed(_) => true,
        RemoveStepView::Finished => true,
        RemoveStepView::Stat(_) => false,
        RemoveStepView::List(_) => false,
    }
}

/// Is the removal past its listing, with nothing in hand but entries of
/// `scope`?
pub open spec fn within(s: RemoveState, scope: Seq<EntryView>) -> bool {
    &&& forall|i: int| 0 <= i < s.queue.len() ==> scope.contains(#[trigger] s.queue[i])
    &&& match s.phase {
        RemovePhaseView::Testing(e) => scope.contains(e),
        RemovePhaseView::Removing => true,
        RemovePhaseView::Finished => true,
        _ => false,
    }
}

/// Taking the next entry stays within the scope.
proof fn lemma_proceed_within(s: RemoveState, scope: Seq<EntryView>)
    requires
        forall|i: int| 0 <= i < s.queue.len() ==> scope.contains(#[trigger] s.queue[i]),
    ensures
        within(s.proceed().0, scope),
        step_within(s.proceed().1, scope),
{
    if s.queue.len() > 0 {
        let e = s.queue[0];
        let i = choose|i: int| 0 <= i < scope.len() && scope[i] == e;
    }
}

/// Removal by predicate goes one level deep. Once the listing of the target
/// is handed in, the removal is about the entries of that listing and about
/// nothing else: no further listing is ever asked for.
pub proof fn law_removal_scope(s: RemoveState, listing: ListingView)
    requires
        s.phase is Listing,
    ensures
        within(s.listed(listing).0, listing.entries()),
        step_within(s.listed(listing).1, listing.entries()),
{
    let scope = listing.entries();
    let filled = RemoveState { queue: scope, ..s };
    lemma_proceed_within(filled, scope);
}

/// A target that is no directory is the only thing its removal is about.
pub proof fn law_removal_scope_single(s: RemoveState, kind: EntryKind)
    requires
        s.phase is Probing,
        s.queue.len() == 0,
        !(kind is Dir),
    ensures
        within(s.found(kind).0, seq![EntryView { path: s.target, kind }]),
        step_within(s.found(kind).1, seq![EntryView { path: s.target, kind }]),
{
    let scope = seq![EntryView { path: s.target, kind }];
    assert(scope[0] == EntryView { path: s.target, kind });
}

/// A removal that is about the entries `scope` and nothing else stays so
/// with every answer: each further step is a question about one of these
/// entries, the removal of one that was selected, or the end.
pub proof fn law_removal_scope_kept(
    s: RemoveState,
    scope: Seq<EntryView>,
    selected: bool,
    failure: Option<FsErrorView>,
)
    requires
        within(s, scope),
    ensures
        s.phase is Testing ==> within(s.tested(selected).0, scope) && step_within(
            s.tested(selected).1,
            scope,
        ),
        s.phase is Testing && !selected ==> !(s.tested(selected).1 is RemoveTree) && !(s.tested(
            selected,
        ).1 is RemoveFile),
        s.phase is Removing ==> within(s.completed(failure).0, scope) && step_within(
            s.completed(failure).1,
            scope,
        ),
{
    lemma_proceed_within(s, scope);
    if s.phase is Testing {
        let e = s.phase->Testing_0;
        let i = choose|i: int| 0 <= i < scope.len() && scope[i] == e;
    }
}

} // verus!
