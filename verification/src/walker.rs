//! The traversal engine: a state machine that is pulled for the next path,
//! asks for directory listings and for decisions on descending, and never
//! touches the filesystem itself.

use crate::entry::{entry_views, Entry, EntryKind, EntryView};
use crate::error::{FsError, FsErrorView};
use crate::listing::{Listing, ListingView};
use crate::paths::{comes_back, is_under, rejoins, relative, relative_to};
use std::collections::VecDeque;
use vstd::prelude::*;

verus! {

/// Which of the discovered entries are yielded. The filter never decides which
/// directories are descended into.
#[derive(Clone, Copy, Debug, PartialEq, Eq, Structural)]
pub enum LsFilter {
    /// Every entry is yielded.
    All,
    /// Regular files only.
    Files,
    /// Directories only.
    Dirs,
}

impl LsFilter {
    /// Does an entry of this kind pass the filter?
    pub open spec fn passes(self, kind: EntryKind) -> bool {
        match self {
            LsFilter::All => true,
            LsFilter::Files => kind is File,
            LsFilter::Dirs => kind is Dir,
        }
    }

    /// Does an entry of this kind pass the filter?
    pub fn admits(self, kind: EntryKind) -> (yes: bool)
        ensures
            yes == self.passes(kind),
    {
        match self {
            LsFilter::All => true,
            LsFilter::Files => matches!(kind, EntryKind::File),
            LsFilter::Dirs => matches!(kind, EntryKind::Dir),
        }
    }
}

/// What the walker hands out when it is advanced.
#[derive(Clone, Debug, PartialEq, Eq)]
pub enum Step {
    /// The listing of this directory is wanted; it is handed in with
    /// [`Walker::listed`].
    List(String),
    /// A directory was reached: shall it be descended into? The text is its
    /// path relative to the base; the answer is handed in with
    /// [`Walker::decided`].
    Decide(String),
    /// The next entry of the sequence, its path in the configured form.
    Yield(Entry),
    /// A listing failed and the walker is fail-fast: the sequence ends here.
    Fail(FsError),
    /// The sequence is exhausted.
    End,
}

/// The mathematical content of a [`Step`].
pub enum StepView {
    List(Seq<char>),
    Decide(Seq<char>),
    Yield(EntryView),
    Fail(FsErrorView),
    End,
}

impl View for Step {
    type V = StepView;

    open spec fn view(&self) -> StepView {
        match self {
            Step::List(dir) => StepView::List(dir@),
            Step::Decide(rel) => StepView::Decide(rel@),
            Step::Yield(entry) => StepView::Yield(entry@),
            Step::Fail(err) => StepView::Fail(err@),
            Step::End => StepView::End,
        }
    }
}

/// Where a traversal stands.
pub enum PhaseView {
    /// Nothing was listed yet.
    Fresh,
    /// The listing of the base directory was asked for.
    AwaitingRoot,
    /// Between two entries: the queue holds what is left.
    Ready,
    /// The decision on descending into this directory was asked for.
    Deciding(EntryView),
    /// The listing of this directory was asked for.
    Expanding(EntryView),
    /// The sequence has ended, by exhaustion or by a failure.
    Finished,
}

/// The mathematical model of a walker: its configuration, its phase and the
/// queue of discovered entries that wait to be processed, oldest first.
pub struct WalkState {
    pub base: Seq<char>,
    pub relative: bool,
    pub filter: LsFilter,
    pub fail_fast: bool,
    pub phase: PhaseView,
    pub queue: Seq<EntryView>,
}

/// All of `entries` lie under `base`.
pub open spec fn all_under(entries: Seq<EntryView>, base: Seq<char>) -> bool {
    forall|i: int| 0 <= i < entries.len() ==> is_under(#[trigger] entries[i].path, base)
}

/// Each of `entries`, taken relative to `base` and joined onto it again,
/// gives its own path.
pub open spec fn all_come_back(entries: Seq<EntryView>, base: Seq<char>) -> bool {
    forall|i: int| 0 <= i < entries.len() ==> comes_back(#[trigger] entries[i].path, base)
}

impl WalkState {
    /// The state of a walker that was just made for `base`: no recursion
    /// asked for yet, every entry yielded, absolute paths, best effort.
    pub open spec fn fresh(base: Seq<char>) -> WalkState {
        WalkState {
            base,
            relative: false,
            filter: LsFilter::All,
            fail_fast: false,
            phase: PhaseView::Fresh,
            queue: Seq::empty(),
        }
    }

    /// Every entry that the walker holds lies under the base, and its path
    /// relative to the base, joined onto the base, gives its path again. A
    /// decision is asked about directories only.
    pub open spec fn wf(self) -> bool {
        &&& all_under(self.queue, self.base)
        &&& all_come_back(self.queue, self.base)
        &&& self.phase matches PhaseView::Deciding(e) ==> is_under(e.path, self.base)
            && comes_back(e.path, self.base) && e.kind is Dir
        &&& self.phase matches PhaseView::Expanding(e) ==> is_under(e.path, self.base)
            && comes_back(e.path, self.base)
    }

    /// The same state in another phase.
    pub open spec fn with_phase(self, phase: PhaseView) -> WalkState {
        WalkState { phase, ..self }
    }

    /// The same state with another queue.
    pub open spec fn with_queue(self, queue: Seq<EntryView>) -> WalkState {
        WalkState { queue, ..self }
    }

    /// The same configuration, started over: fresh, with an empty queue.
    pub open spec fn restarted(self) -> WalkState {
        WalkState { phase: PhaseView::Fresh, queue: Seq::empty(), ..self }
    }

    /// The entry as it is yielded: its path relative to the base where
    /// relative paths are configured, unchanged otherwise.
    pub open spec fn shown(self, e: EntryView) -> EntryView {
        if self.relative {
            EntryView { path: relative(e.path, self.base), kind: e.kind }
        } else {
            e
        }
    }

    /// Yields `e` if it passes the filter; goes on with the queue otherwise.
    pub open spec fn emit(self, e: EntryView) -> (WalkState, StepView)
        decreases self.queue.len(), 1nat,
    {
        if self.filter.passes(e.kind) {
            (self.with_phase(PhaseView::Ready), StepView::Yield(self.shown(e)))
        } else {
            self.with_phase(PhaseView::Ready).drain()
        }
    }

    /// Takes entries from the front of the queue until one is yielded, a
    /// directory needs a decision, or the queue is empty.
    pub open spec fn drain(self) -> (WalkState, StepView)
        decreases self.queue.len(), 0nat,
    {
        if self.queue.len() == 0 {
            (self.with_phase(PhaseView::Finished), StepView::End)
        } else {
            let e = self.queue[0];
            let rest = self.with_queue(self.queue.skip(1));
            if e.kind is Dir {
                (
                    rest.with_phase(PhaseView::Deciding(e)),
                    StepView::Decide(relative(e.path, self.base)),
                )
            } else {
                rest.emit(e)
            }
        }
    }

    /// One pull: the first pull asks for the listing of the base; a pull
    /// between two entries goes on with the queue; a pull while a request is
    /// open repeats the request; a pull after the end gives the end again.
    pub open spec fn pull(self) -> (WalkState, StepView) {
        match self.phase {
            PhaseView::Fresh => (
                self.with_phase(PhaseView::AwaitingRoot),
                StepView::List(self.base),
            ),
            PhaseView::AwaitingRoot => (self, StepView::List(self.base)),
            PhaseView::Ready => self.drain(),
            PhaseView::Deciding(e) => (self, StepView::Decide(relative(e.path, self.base))),
            PhaseView::Expanding(e) => (self, StepView::List(e.path)),
            PhaseView::Finished => (self, StepView::End),
        }
    }

    /// The answer to a `Decide`: descending asks for the listing of the
    /// directory; not descending goes on to yield it.
    pub open spec fn decided(self, descend: bool) -> (WalkState, StepView)
        recommends
            self.phase is Deciding,
    {
        let e = self.phase->Deciding_0;
        if descend {
            (self.with_phase(PhaseView::Expanding(e)), StepView::List(e.path))
        } else {
            self.with_phase(PhaseView::Ready).emit(e)
        }
    }

    /// Is a listing awaited, and do all its entries lie under the base?
    pub open spec fn takes(self, listing: ListingView) -> bool {
        &&& self.phase is AwaitingRoot || self.phase is Expanding
        &&& all_under(listing.entries(), self.base)
    }

    /// The answer to a `List`. A fail-fast walker ends with the first failure
    /// that the listing holds. Otherwise the entries of the listing join the
    /// back of the queue, and the walker goes on: with the queue after the
    /// listing of the base, with yielding the directory after the listing of
    /// a directory.
    pub open spec fn listed(self, listing: ListingView) -> (WalkState, StepView)
        recommends
            self.takes(listing),
    {
        if self.fail_fast && listing.failure() is Some {
            (
                self.with_queue(Seq::empty()).with_phase(PhaseView::Finished),
                StepView::Fail(listing.failure().unwrap()),
            )
        } else {
            let grown = self.with_queue(self.queue + listing.entries()).with_phase(
                PhaseView::Ready,
            );
            match self.phase {
                PhaseView::Expanding(e) => grown.emit(e),
                _ => grown.drain(),
            }
        }
    }
}

/// Does `step` fit the phase of `s`: is it what a walker in that phase hands
/// out?
pub open spec fn fits(s: WalkState, step: StepView) -> bool {
    match step {
        StepView::List(dir) => match s.phase {
            PhaseView::AwaitingRoot => dir == s.base,
            PhaseView::Expanding(e) => dir == e.path,
            _ => false,
        },
        StepView::Decide(rel) => s.phase matches PhaseView::Deciding(e) && rel == relative(
            e.path,
            s.base,
        ) && e.kind is Dir,
        StepView::Yield(_) => s.phase is Ready,
        StepView::Fail(_) => s.phase is Finished && s.fail_fast,
        StepView::End => s.phase is Finished,
    }
}

/// Is `y` the entry `e` under `base` in relative form, and does its path,
/// joined onto `base`, give the path of `e` again?
pub open spec fn relative_form(base: Seq<char>, e: EntryView, y: EntryView) -> bool {
    &&& is_under(e.path, base)
    &&& y == EntryView { path: relative(e.path, base), kind: e.kind }
    &&& rejoins(base, y.path, e.path)
}

/// Where relative paths are configured: is `y` the relative form of an
/// entry under the base whose path comes back when `y` is joined onto the
/// base?
pub open spec fn joins_back(s: WalkState, y: EntryView) -> bool {
    s.relative ==> exists|e: EntryView| #[trigger] relative_form(s.base, e, y)
}

/// What holds of a step that yields an entry in relative form.
pub open spec fn yield_joins_back(s: WalkState, step: StepView) -> bool {
    step matches StepView::Yield(y) ==> joins_back(s, y)
}

/// Going on with the queue never lengthens it, shortens it where a decision
/// is asked for, keeps the configuration, and hands out a step that fits the
/// new phase: an entry, a request for a decision, or the end.
pub proof fn lemma_drain(s: WalkState)
    ensures
        ({
            let (t, step) = s.drain();
            &&& t.queue.len() <= s.queue.len()
            &&& step is Decide ==> t.queue.len() < s.queue.len()
            &&& t == WalkState { phase: t.phase, queue: t.queue, ..s }
            &&& fits(t, step)
            &&& step is Yield || step is Decide || step is End
            &&& t.queue == s.queue.skip(s.queue.len() - t.queue.len())
            &&& all_under(s.queue, s.base) && all_come_back(s.queue, s.base) ==> t.wf()
        }),
    decreases s.queue.len(), 0nat,
{
    if s.queue.len() > 0 {
        let e = s.queue[0];
        if !(e.kind is Dir) {
            lemma_emit(s.with_queue(s.queue.skip(1)), e);
        }
    }
}

/// The same for yielding an entry or going on with the queue.
pub proof fn lemma_emit(s: WalkState, e: EntryView)
    ensures
        ({
            let (t, step) = s.emit(e);
            &&& t.queue.len() <= s.queue.len()
            &&& step is Decide ==> t.queue.len() < s.queue.len()
            &&& t == WalkState { phase: t.phase, queue: t.queue, ..s }
            &&& fits(t, step)
            &&& step is Yield || step is Decide || step is End
            &&& t.queue == s.queue.skip(s.queue.len() - t.queue.len())
            &&& all_under(s.queue, s.base) && all_come_back(s.queue, s.base) ==> t.wf()
        }),
    decreases s.queue.len(), 1nat,
{
    if !s.filter.passes(e.kind) {
        lemma_drain(s.with_phase(PhaseView::Ready));
    }
}

/// A pull keeps the walker well formed and the configuration as it is, and
/// hands out a step that fits the new phase.
pub proof fn lemma_pull(s: WalkState)
    requires
        s.wf(),
    ensures
        s.pull().0.wf(),
        fits(s.pull().0, s.pull().1),
        s.pull().0 == (WalkState { phase: s.pull().0.phase, queue: s.pull().0.queue, ..s }),
{
    if s.phase is Ready {
        lemma_drain(s);
    }
}

/// The answer to a request for a decision keeps the walker well formed and
/// the configuration as it is, and hands out a step that fits the new phase.
pub proof fn lemma_decided(s: WalkState, descend: bool)
    requires
        s.wf(),
        s.phase is Deciding,
    ensures
        s.decided(descend).0.wf(),
        fits(s.decided(descend).0, s.decided(descend).1),
        !descend ==> !(s.decided(descend).1 is List),
        s.decided(descend).0 == (WalkState {
            phase: s.decided(descend).0.phase,
            queue: s.decided(descend).0.queue,
            ..s
        }),
{
    lemma_emit(s.with_phase(PhaseView::Ready), s.phase->Deciding_0);
}

/// The answer to a request for a listing keeps the walker well formed and the
/// configuration as it is, and hands out a step that fits the new phase.
pub proof fn lemma_listed(s: WalkState, listing: ListingView)
    requires
        s.wf(),
        s.takes(listing),
        all_come_back(listing.entries(), s.base),
    ensures
        s.listed(listing).0.wf(),
        fits(s.listed(listing).0, s.listed(listing).1),
        !(s.listed(listing).1 is List),
        s.listed(listing).0 == (WalkState {
            phase: s.listed(listing).0.phase,
            queue: s.listed(listing).0.queue,
            ..s
        }),
{
    if !(s.fail_fast && listing.failure() is Some) {
        let grown = s.with_queue(s.queue + listing.entries()).with_phase(PhaseView::Ready);
        match s.phase {
            PhaseView::Expanding(e) => lemma_emit(grown, e),
            _ => lemma_drain(grown),
        }
    }
}

/// Where a walker stands, with the entry that an open request is about.
enum Phase {
    Fresh,
    AwaitingRoot,
    Ready,
    Deciding(Entry),
    Expanding(Entry),
    Finished,
}

impl View for Phase {
    type V = PhaseView;

    closed spec fn view(&self) -> PhaseView {
        match self {
            Phase::Fresh => PhaseView::Fresh,
            Phase::AwaitingRoot => PhaseView::AwaitingRoot,
            Phase::Ready => PhaseView::Ready,
            Phase::Deciding(e) => PhaseView::Deciding(e@),
            Phase::Expanding(e) => PhaseView::Expanding(e@),
            Phase::Finished => PhaseView::Finished,
        }
    }
}

/// The traversal engine over one base directory.
///
/// A walker is advanced with [`Walker::pull`]. Where it hands out
/// [`Step::List`] or [`Step::Decide`], the caller does what is asked and hands
/// the result in with [`Walker::listed`] or [`Walker::decided`], which advance
/// the walker further.
pub struct Walker {
    base: String,
    relative: bool,
    filter: LsFilter,
    fail_fast: bool,
    phase: Phase,
    queue: VecDeque<Entry>,
}

impl View for Walker {
    type V = WalkState;

    closed spec fn view(&self) -> WalkState {
        WalkState {
            base: self.base@,
            relative: self.relative,
            filter: self.filter,
            fail_fast: self.fail_fast,
            phase: self.phase@,
            queue: entry_views(self.queue@),
        }
    }
}

/// The path of `path` relative to `base`, for a path that lies under it.
pub(crate) fn relative_part(path: &str, base: &str) -> (rel: String)
    requires
        is_under(path@, base@),
    ensures
        rel@ == relative(path@, base@),
        comes_back(path@, base@),
{
    match relative_to(path, base) {
        Some(rel) => rel,
        None => vstd::pervasive::unreached(),
    }
}

/// Do all of `entries` lie under `base`?
pub(crate) fn lie_under(entries: &VecDeque<Entry>, base: &str) -> (yes: bool)
    ensures
        yes == all_under(entry_views(entries@), base@),
        yes ==> all_come_back(entry_views(entries@), base@),
{
    let mut i: usize = 0;
    while i < entries.len()
        invariant
            i <= entries@.len(),
            forall|j: int| 0 <= j < i ==> is_under(#[trigger] entry_views(entries@)[j].path, base@),
            forall|j: int|
                0 <= j < i ==> comes_back(#[trigger] entry_views(entries@)[j].path, base@),
        decreases entries@.len() - i,
    {
        if relative_to(entries[i].path.as_str(), base).is_none() {
            assert(!is_under(entry_views(entries@)[i as int].path, base@));
            return false;
        }
        i += 1;
    }
    true
}

impl Walker {
    #[verifier::type_invariant]
    spec fn well_formed(self) -> bool {
        self@.wf()
    }

    /// A walker over `base`: nothing listed yet, every entry yielded, with
    /// absolute paths, best effort.
    pub fn new(base: String) -> (walker: Walker)
        ensures
            walker@ == WalkState::fresh(base@),
    {
        let walker = Walker {
            base,
            relative: false,
            filter: LsFilter::All,
            fail_fast: false,
            phase: Phase::Fresh,
            queue: VecDeque::new(),
        };
        assert(entry_views(walker.queue@) =~= Seq::empty());
        walker
    }

    /// The entry in the form in which it is yielded.
    fn show(&self, entry: Entry) -> (shown: Entry)
        requires
            is_under(entry@.path, self@.base),
        ensures
            shown@ == self@.shown(entry@),
            joins_back(self@, shown@),
    {
        if self.relative {
            let rel = relative_part(entry.path.as_str(), self.base.as_str());
            let shown = Entry { path: rel, kind: entry.kind };
            assert(relative_form(self@.base, entry@, shown@));
            shown
        } else {
            entry
        }
    }

    /// Takes the queue out of the walker and leaves an empty one.
    fn take_queue(&mut self) -> (queue: VecDeque<Entry>)
        ensures
            final(self)@ == old(self)@.with_queue(Seq::empty()),
            entry_views(queue@) == old(self)@.queue,
    {
        let mut queue: VecDeque<Entry> = VecDeque::new();
        proof {
            use_type_invariant(&*self);
            assert(entry_views(queue@) =~= Seq::empty());
        }
        std::mem::swap(&mut self.queue, &mut queue);
        queue
    }

    /// Goes on with the queue.
    fn drain(&mut self) -> (step: Step)
        requires
            old(self)@.phase is Ready,
        ensures
            (final(self)@, step@) == old(self)@.drain(),
            yield_joins_back(old(self)@, step@),
    {
        proof {
            use_type_invariant(&*self);
        }
        let mut queue = self.take_queue();
        loop
            invariant
                self@ == old(self)@.with_queue(Seq::empty()),
                self@.phase is Ready,
                all_under(entry_views(queue@), self@.base),
                all_come_back(entry_views(queue@), self@.base),
                self@.with_queue(entry_views(queue@)).drain() == old(self)@.drain(),
            decreases queue@.len(),
        {
            let ghost before = entry_views(queue@);
            match queue.pop_front() {
                None => {
                    assert(before =~= Seq::empty());
                    self.phase = Phase::Finished;
                    return Step::End;
                },
                Some(entry) => {
                    proof {
                        assert(entry_views(queue@) =~= before.skip(1));
                    }
                    if matches!(entry.kind, EntryKind::Dir) {
                        let rel = relative_part(entry.path.as_str(), self.base.as_str());
                        self.queue = queue;
                        self.phase = Phase::Deciding(entry);
                        return Step::Decide(rel);
                    } else if self.filter.admits(entry.kind) {
                        self.queue = queue;
                        let shown = self.show(entry);
                        return Step::Yield(shown);
                    }
                },
            }
        }
    }

    /// Yields the entry or goes on with the queue.
    fn emit(&mut self, entry: Entry) -> (step: Step)
        requires
            old(self)@.phase is Ready,
            is_under(entry@.path, old(self)@.base),
            comes_back(entry@.path, old(self)@.base),
        ensures
            (final(self)@, step@) == old(self)@.emit(entry@),
            yield_joins_back(old(self)@, step@),
    {
        if self.filter.admits(entry.kind) {
            let shown = self.show(entry);
            Step::Yield(shown)
        } else {
            self.drain()
        }
    }

    /// Advances the walker by one pull.
    pub fn pull(&mut self) -> (step: Step)
        ensures
            (final(self)@, step@) == old(self)@.pull(),
            yield_joins_back(old(self)@, step@),
            old(self)@.wf(),
    {
        proof {
            use_type_invariant(&*self);
        }
        match &self.phase {
            Phase::Fresh => {
                self.phase = Phase::AwaitingRoot;
                Step::List(self.base.clone())
            },
            Phase::AwaitingRoot => Step::List(self.base.clone()),
            Phase::Ready => self.drain(),
            Phase::Deciding(entry) => Step::Decide(
                relative_part(entry.path.as_str(), self.base.as_str()),
            ),
            Phase::Expanding(entry) => Step::List(entry.path.clone()),
            Phase::Finished => Step::End,
        }
    }

    /// Hands in the answer to a [`Step::Decide`] and advances the walker.
    /// Where no decision was asked for, nothing changes and `None` comes
    /// back.
    pub fn decided(&mut self, descend: bool) -> (step: Option<Step>)
        ensures
            match step {
                Some(step) => old(self)@.phase is Deciding && (final(self)@, step@) == old(
                    self,
                )@.decided(descend),
                None => !(old(self)@.phase is Deciding) && final(self)@ == old(self)@,
            },
            step matches Some(step) ==> yield_joins_back(old(self)@, step@),
            old(self)@.wf(),
    {
        proof {
            use_type_invariant(&*self);
        }
        let mut phase = Phase::Ready;
        std::mem::swap(&mut self.phase, &mut phase);
        match phase {
            Phase::Deciding(entry) => {
                if descend {
                    let dir = entry.path.clone();
                    self.phase = Phase::Expanding(entry);
                    Some(Step::List(dir))
                } else {
                    Some(self.emit(entry))
                }
            },
            other => {
                self.phase = other;
                None
            },
        }
    }

    /// Hands in the answer to a [`Step::List`] and advances the walker.
    /// Where no listing was asked for, or where the listing holds an entry
    /// that does not lie under the base, nothing changes and `None` comes
    /// back.
    pub fn listed(&mut self, listing: Listing) -> (step: Option<Step>)
        ensures
            match step {
                Some(step) => old(self)@.takes(listing@) && (final(self)@, step@) == old(
                    self,
                )@.listed(listing@),
                None => !old(self)@.takes(listing@) && final(self)@ == old(self)@,
            },
            step matches Some(step) ==> yield_joins_back(old(self)@, step@),
            step is Some ==> all_come_back(listing@.entries(), old(self)@.base),
            old(self)@.wf(),
    {
        proof {
            use_type_invariant(&*self);
        }
        let awaited = match &self.phase {
            Phase::AwaitingRoot => true,
            Phase::Expanding(_) => true,
            _ => false,
        };
        if !awaited {
            return None;
        }
        let (mut found, failure) = listing.into_parts();
        if !lie_under(&found, self.base.as_str()) {
            return None;
        }
        if self.fail_fast {
            if let Some(err) = failure {
                let emptied: VecDeque<Entry> = VecDeque::new();
                assert(entry_views(emptied@) =~= Seq::empty());
                self.queue = emptied;
                self.phase = Phase::Finished;
                return Some(Step::Fail(err));
            }
        }
        let mut queue = self.take_queue();
        let ghost waiting = queue@;
        let ghost added = found@;
        queue.append(&mut found);
        proof {
            assert(entry_views(queue@) =~= entry_views(waiting) + entry_views(added));
        }
        self.queue = queue;
        let mut phase = Phase::Ready;
        std::mem::swap(&mut self.phase, &mut phase);
        match phase {
            Phase::Expanding(entry) => Some(self.emit(entry)),
            _ => Some(self.drain()),
        }
    }

    /// The same walker, set to yield paths relative to the base.
    pub fn relative_paths(self) -> (walker: Walker)
        ensures
            walker@ == (WalkState { relative: true, ..self@ }),
    {
        proof {
            use_type_invariant(&self);
        }
        let mut walker = self;
        walker.relative = true;
        walker
    }

    /// The same walker, set to yield what passes `filter`.
    pub fn filtered(self, filter: LsFilter) -> (walker: Walker)
        ensures
            walker@ == (WalkState { filter, ..self@ }),
    {
        proof {
            use_type_invariant(&self);
        }
        let mut walker = self;
        walker.filter = filter;
        walker
    }

    /// A walker with the same configuration that starts over and ends with
    /// the first failure of a listing.
    pub fn failing_fast(self) -> (walker: Walker)
        ensures
            walker@ == (WalkState { fail_fast: true, ..self@.restarted() }),
    {
        proof {
            use_type_invariant(&self);
        }
        let mut walker = self;
        let emptied: VecDeque<Entry> = VecDeque::new();
        assert(entry_views(emptied@) =~= Seq::empty());
        walker.phase = Phase::Fresh;
        walker.queue = emptied;
        walker.fail_fast = true;
        walker
    }
}

} // verus!
