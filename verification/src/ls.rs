//! Directory listings as lazy sequences: a walker together with the predicate
//! that decides which directories are descended into.

use crate::listing::Listing;
use crate::walker::{
    fits, lemma_decided, lemma_emit, lemma_listed, lemma_pull, yield_joins_back, LsFilter,
    PhaseView, Step, StepView, WalkState, Walker,
};
use vstd::prelude::*;

verus! {

/// The capability that decides, for a directory, whether its children are
/// visited. It is given the path of the directory relative to the base.
pub trait RecursePredicate {
    /// May the predicate answer `verdict` for `rel`?
    spec fn accepts(&self, rel: Seq<char>, verdict: bool) -> bool;

    /// Asks the predicate about the directory with the relative path `rel`.
    fn test(&self, rel: &str) -> (verdict: bool)
        ensures
            self.accepts(rel@, verdict),
    ;
}

/// Descends nowhere.
pub struct Never;

/// Descends everywhere.
pub struct Always;

/// Descends where the function says so.
pub struct When<F: Fn(&str) -> bool> {
    f: F,
}

impl RecursePredicate for Never {
    open spec fn accepts(&self, rel: Seq<char>, verdict: bool) -> bool {
        !verdict
    }

    fn test(&self, rel: &str) -> (verdict: bool) {
        false
    }
}

impl RecursePredicate for Always {
    open spec fn accepts(&self, rel: Seq<char>, verdict: bool) -> bool {
        verdict
    }

    fn test(&self, rel: &str) -> (verdict: bool) {
        true
    }
}

impl<F: Fn(&str) -> bool> When<F> {
    #[verifier::type_invariant]
    spec fn callable(self) -> bool {
        forall|rel: &str| call_requires(self.f, (rel,))
    }

    /// The function that is asked.
    pub closed spec fn function(&self) -> F {
        self.f
    }

    /// The predicate that asks `f`, a function that can be called on every
    /// path.
    pub fn new(f: F) -> (predicate: When<F>)
        requires
            forall|rel: &str| call_requires(f, (rel,)),
        ensures
            predicate.function() == f,
    {
        When { f }
    }
}

impl<F: Fn(&str) -> bool> RecursePredicate for When<F> {
    open spec fn accepts(&self, rel: Seq<char>, verdict: bool) -> bool {
        exists|text: &str| text@ == rel && #[trigger] call_ensures(self.function(), (text,), verdict)
    }

    fn test(&self, rel: &str) -> (verdict: bool) {
        proof {
            use_type_invariant(self);
        }
        let verdict = (self.f)(rel);
        assert(call_ensures(self.function(), (rel,), verdict));
        verdict
    }
}

/// The answers of a predicate, as a relation: may it answer `verdict` for the
/// relative path `rel`?
pub type Verdicts = spec_fn(Seq<char>, bool) -> bool;

/// The predicate that descends nowhere.
pub open spec fn nowhere() -> Verdicts {
    |rel: Seq<char>, verdict: bool| !verdict
}

/// The predicate that descends everywhere.
pub open spec fn everywhere() -> Verdicts {
    |rel: Seq<char>, verdict: bool| verdict
}

/// The predicate that answers as the function `f` does.
pub open spec fn as_answered<F: Fn(&str) -> bool>(f: F) -> Verdicts {
    |rel: Seq<char>, verdict: bool|
        exists|text: &str| text@ == rel && #[trigger] call_ensures(f, (text,), verdict)
}

/// The answers of a stored predicate.
pub open spec fn answers(predicate: &Box<dyn RecursePredicate>) -> Verdicts {
    |rel: Seq<char>, verdict: bool| predicate.accepts(rel, verdict)
}

/// From the walker state `s`, which has just handed out `step`, answering
/// every request for a decision with an answer of the predicate leads to the
/// state `t` and to the step `out`, which is no request for a decision.
pub open spec fn settles(
    verdicts: Verdicts,
    s: WalkState,
    step: StepView,
    t: WalkState,
    out: StepView,
) -> bool
    decreases s.queue.len(), (if step is Decide { 1nat } else { 0nat }),
{
    if step is Decide && s.phase is Deciding {
        let rel = step->Decide_0;
        let stay = s.decided(false);
        proof {
            lemma_emit(s.with_phase(PhaseView::Ready), s.phase->Deciding_0);
        }
        ||| verdicts(rel, true) && (t, out) == s.decided(true)
        ||| verdicts(rel, false) && settles(verdicts, stay.0, stay.1, t, out)
    } else {
        t == s && out == step
    }
}

/// A lazy listing of the directory `path`. Directory listings that fail are
/// passed over: the directory then contributes no children.
pub struct Ls {
    recurse_if_fn: Box<dyn RecursePredicate>,
    walker: Walker,
}

impl View for Ls {
    type V = WalkState;

    closed spec fn view(&self) -> WalkState {
        self.walker@
    }
}

/// Answers the requests for a decision with the predicate until the walker
/// hands out something else.
fn settle(predicate: &Box<dyn RecursePredicate>, walker: &mut Walker, step: Step) -> (out: Step)
    requires
        fits(old(walker)@, step@),
        yield_joins_back(old(walker)@, step@),
    ensures
        settles(answers(predicate), old(walker)@, step@, final(walker)@, out@),
        !(out@ is Decide),
        fits(final(walker)@, out@),
        yield_joins_back(old(walker)@, out@),
{
    let ghost verdicts = answers(predicate);
    let ghost first = step@;
    let ghost start = walker@;
    let mut current = step;
    loop
        invariant
            verdicts == answers(predicate),
            first == step@,
            start == old(walker)@,
            walker@.base == start.base,
            walker@.relative == start.relative,
            fits(walker@, current@),
            yield_joins_back(walker@, current@),
            forall|t: WalkState, out: StepView| #[trigger]
                settles(verdicts, walker@, current@, t, out) ==> settles(
                    verdicts,
                    start,
                    first,
                    t,
                    out,
                ),
        decreases walker@.queue.len(), (if current@ is Decide { 1nat } else { 0nat }),
    {
        match current {
            Step::Decide(rel) => {
                let ghost before = walker@;
                let ghost asked = StepView::Decide(rel@);
                let verdict = predicate.test(rel.as_str());
                proof {
                    lemma_emit(before.with_phase(PhaseView::Ready), before.phase->Deciding_0);
                }
                let next = match walker.decided(verdict) {
                    Some(next) => next,
                    None => vstd::pervasive::unreached(),
                };
                proof {
                    lemma_decided(before, verdict);
                    assert forall|t: WalkState, out: StepView| #[trigger]
                        settles(verdicts, walker@, next@, t, out) implies settles(
                        verdicts,
                        start,
                        first,
                        t,
                        out,
                    ) by {
                        assert(settles(verdicts, before, asked, t, out));
                    }
                }
                current = next;
            },
            other => {
                assert(settles(verdicts, walker@, other@, walker@, other@));
                return other;
            },
        }
    }
}

impl Ls {
    /// The answers of the stored predicate.
    pub closed spec fn verdicts(&self) -> Verdicts {
        answers(&self.recurse_if_fn)
    }

    /// A listing of `path`: no recursion, every entry, absolute paths.
    pub fn new(path: String) -> (ls: Ls)
        ensures
            ls@ == WalkState::fresh(path@),
            ls.verdicts() == nowhere(),
    {
        Ls { recurse_if_fn: Box::new(Never), walker: Walker::new(path) }
    }

    /// Yields paths relative to the base instead of absolute ones.
    pub fn relative_paths(self) -> (ls: Ls)
        ensures
            ls@ == (WalkState { relative: true, ..self@ }),
            ls.verdicts() == self.verdicts(),
    {
        let mut ls = self;
        ls.walker = ls.walker.relative_paths();
        ls
    }

    /// Descends only into the directories for which `predicate` says so. It
    /// is given the path relative to the base, whatever the form of the
    /// paths that are yielded.
    pub fn recurse_if<P: Fn(&str) -> bool + 'static>(self, predicate: P) -> (ls: Ls)
        requires
            forall|rel: &str| call_requires(predicate, (rel,)),
        ensures
            ls@ == self@,
            ls.verdicts() == as_answered(predicate),
    {
        let stored = When::new(predicate);
        let mut ls = self;
        ls.recurse_if_fn = Box::new(stored);
        ls
    }

    /// Descends into all directories.
    pub fn recurse(self) -> (ls: Ls)
        ensures
            ls@ == self@,
            ls.verdicts() == everywhere(),
    {
        let mut ls = self;
        ls.recurse_if_fn = Box::new(Always);
        ls
    }

    /// Yields files only.
    pub fn files(self) -> (ls: Ls)
        ensures
            ls@ == (WalkState { filter: LsFilter::Files, ..self@ }),
            ls.verdicts() == self.verdicts(),
    {
        let mut ls = self;
        ls.walker = ls.walker.filtered(LsFilter::Files);
        ls
    }

    /// Yields directories only.
    pub fn dirs(self) -> (ls: Ls)
        ensures
            ls@ == (WalkState { filter: LsFilter::Dirs, ..self@ }),
            ls.verdicts() == self.verdicts(),
    {
        let mut ls = self;
        ls.walker = ls.walker.filtered(LsFilter::Dirs);
        ls
    }

    /// The same listing, started over, as a sequence that ends with the
    /// first failure of a directory listing.
    pub fn try_iter(self) -> (iter: TryLsIter)
        ensures
            iter@ == (WalkState { fail_fast: true, ..self@.restarted() }),
            iter.verdicts() == self.verdicts(),
    {
        let mut ls = self;
        ls.walker = ls.walker.failing_fast();
        TryLsIter { ls }
    }

    /// Pulls the next step of the sequence: a path, the end, or the request
    /// for a directory listing, which is answered with [`Ls::listed`].
    pub fn next(&mut self) -> (step: Step)
        ensures
            settles(
                old(self).verdicts(),
                old(self)@.pull().0,
                old(self)@.pull().1,
                final(self)@,
                step@,
            ),
            final(self).verdicts() == old(self).verdicts(),
            !(step@ is Decide),
            yield_joins_back(old(self)@, step@),
    {
        let pulled = self.walker.pull();
        proof {
            lemma_pull(old(self)@);
        }
        settle(&self.recurse_if_fn, &mut self.walker, pulled)
    }

    /// Hands in the listing that was asked for and goes on to the next
    /// step. Where no listing was asked for, or where the listing holds an
    /// entry that does not lie under the base, nothing changes and `None`
    /// comes back.
    pub fn listed(&mut self, listing: Listing) -> (step: Option<Step>)
        ensures
            match step {
                Some(step) => {
                    &&& old(self)@.takes(listing@)
                    &&& settles(
                        old(self).verdicts(),
                        old(self)@.listed(listing@).0,
                        old(self)@.listed(listing@).1,
                        final(self)@,
                        step@,
                    )
                    &&& !(step@ is Decide)
                },
                None => !old(self)@.takes(listing@) && final(self)@ == old(self)@,
            },
            final(self).verdicts() == old(self).verdicts(),
            step matches Some(step) ==> yield_joins_back(old(self)@, step@),
    {
        let ghost listing_view = listing@;
        match self.walker.listed(listing) {
            Some(first) => {
                proof {
                    lemma_listed(old(self)@, listing_view);
                }
                Some(settle(&self.recurse_if_fn, &mut self.walker, first))
            },
            None => None,
        }
    }
}

/// A lazy listing that ends with the first failure of a directory listing.
pub struct TryLsIter {
    ls: Ls,
}

impl View for TryLsIter {
    type V = WalkState;

    closed spec fn view(&self) -> WalkState {
        self.ls@
    }
}

impl TryLsIter {
    /// The answers of the stored predicate.
    pub closed spec fn verdicts(&self) -> Verdicts {
        self.ls.verdicts()
    }

    /// Pulls the next step of the sequence: a path, a failure, the end, or
    /// the request for a directory listing, which is answered with
    /// [`TryLsIter::listed`].
    pub fn next(&mut self) -> (step: Step)
        ensures
            settles(
                old(self).verdicts(),
                old(self)@.pull().0,
                old(self)@.pull().1,
                final(self)@,
                step@,
            ),
            final(self).verdicts() == old(self).verdicts(),
            !(step@ is Decide),
            yield_joins_back(old(self)@, step@),
    {
        self.ls.next()
    }

    /// Hands in the listing that was asked for and goes on to the next
    /// step. Where no listing was asked for, or where the listing holds an
    /// entry that does not lie under the base, nothing changes and `None`
    /// comes back.
    pub fn listed(&mut self, listing: Listing) -> (step: Option<Step>)
        ensures
            match step {
                Some(step) => {
                    &&& old(self)@.takes(listing@)
                    &&& settles(
                        old(self).verdicts(),
                        old(self)@.listed(listing@).0,
                        old(self)@.listed(listing@).1,
                        final(self)@,
                        step@,
                    )
                    &&& !(step@ is Decide)
                },
                None => !old(self)@.takes(listing@) && final(self)@ == old(self)@,
            },
            final(self).verdicts() == old(self).verdicts(),
            step matches Some(step) ==> yield_joins_back(old(self)@, step@),
    {
        self.ls.listed(listing)
    }
}

} // verus!
