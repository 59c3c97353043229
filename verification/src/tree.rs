//! File trees as a traversal meets them, and the order in which a
//! breadth-first traversal goes through them.

use crate::entry::EntryView;
use crate::error::FsErrorView;
use crate::listing::{lemma_all_entries, ListItemView, ListingView};
use crate::paths::{is_under, relative};
use crate::walker::{all_under, PhaseView, StepView, WalkState};
use vstd::prelude::*;

verus! {

/// An entry of a file tree with what lies below it. For a directory,
/// `failure` says whether listing it fails, and `children` are the entries
/// that its listing gives otherwise, in the order of the listing.
pub struct Tree {
    pub entry: EntryView,
    pub failure: Option<FsErrorView>,
    pub children: Seq<Tree>,
}

/// The entries at the roots of a forest, in order.
pub open spec fn roots(forest: Seq<Tree>) -> Seq<EntryView> {
    forest.map_values(|t: Tree| t.entry)
}

impl Tree {
    /// What listing this directory gives.
    pub open spec fn listing(self) -> ListingView {
        match self.failure {
            Some(err) => ListingView::Failed(err),
            None => ListingView::Items(
                self.children.map_values(|t: Tree| ListItemView::Entry(t.entry)),
            ),
        }
    }

    /// The number of entries of the tree.
    pub open spec fn size(self) -> nat
        decreases self,
    {
        1 + forest_size(self.children)
    }
}

/// The number of entries of all trees of the forest.
pub open spec fn forest_size(forest: Seq<Tree>) -> nat
    decreases forest,
{
    if forest.len() == 0 {
        0
    } else {
        forest[0].size() + forest_size(forest.skip(1))
    }
}

/// The size of two forests put together is the sum of their sizes.
pub proof fn lemma_forest_size_add(a: Seq<Tree>, b: Seq<Tree>)
    ensures
        forest_size(a + b) == forest_size(a) + forest_size(b),
    decreases a.len(),
{
    if a.len() > 0 {
        lemma_forest_size_add(a.skip(1), b);
        assert((a + b).skip(1) =~= a.skip(1) + b);
    }
}

/// A listing without failure gives the entries of the children.
pub proof fn lemma_listing_entries(t: Tree)
    requires
        t.failure is None,
    ensures
        t.listing().entries() == roots(t.children),
        t.listing().failure() is None,
{
    let items = t.children.map_values(|c: Tree| ListItemView::Entry(c.entry));
    lemma_all_entries(items, roots(t.children));
}

/// A predicate on relative paths that gives one answer for each path.
pub type Oracle = spec_fn(Seq<char>) -> bool;

/// What a walker with the configuration of `s` yields for the entry `e`
/// itself: the entry in the configured form, if it passes the filter.
pub open spec fn own_yield(s: WalkState, e: EntryView) -> Seq<StepView> {
    if s.filter.passes(e.kind) {
        seq![StepView::Yield(s.shown(e))]
    } else {
        Seq::empty()
    }
}

/// What a walker with the configuration of `s` yields for the forest
/// `pending`, whose roots stand in its queue: breadth first by discovery.
/// Each entry is yielded if it passes the filter. A directory that the
/// oracle accepts is listed before it is yielded, and its children go to
/// the back of the queue; where its listing fails, a fail-fast walker ends
/// with the failure, and any other walker goes on as if it were empty.
pub open spec fn breadth_first(s: WalkState, oracle: Oracle, pending: Seq<Tree>) -> Seq<StepView>
    decreases forest_size(pending),
{
    if pending.len() == 0 {
        Seq::empty()
    } else {
        let t = pending[0];
        let rest = pending.skip(1);
        proof {
            assert(t.size() == 1 + forest_size(t.children));
        }
        let own = own_yield(s, t.entry);
        if t.entry.kind is Dir && oracle(relative(t.entry.path, s.base)) {
            match t.failure {
                Some(err) => if s.fail_fast {
                    seq![StepView::Fail(err)]
                } else {
                    own + breadth_first(s, oracle, rest)
                },
                None => {
                    proof {
                        lemma_forest_size_add(rest, t.children);
                    }
                    own + breadth_first(s, oracle, rest + t.children)
                },
            }
        } else {
            own + breadth_first(s, oracle, rest)
        }
    }
}

/// The filesystem as a walker sees it: the listing of each directory.
pub type Listings = spec_fn(Seq<char>) -> ListingView;

/// The listings `fs` show the tree `t` under `base`: every entry of the tree
/// lies under the base, and listing a directory of the tree gives what the
/// tree says.
pub open spec fn shows(fs: Listings, t: Tree, base: Seq<char>) -> bool
    decreases t,
{
    &&& is_under(t.entry.path, base)
    &&& t.entry.kind is Dir ==> fs(t.entry.path) == t.listing()
    &&& forall|i: int| 0 <= i < t.children.len() ==> shows(fs, #[trigger] t.children[i], base)
}

/// The listings show every tree of the forest.
pub open spec fn shows_all(fs: Listings, forest: Seq<Tree>, base: Seq<char>) -> bool {
    forall|i: int| 0 <= i < forest.len() ==> shows(fs, #[trigger] forest[i], base)
}

/// What a walker hands out to its consumer when it is driven over the
/// listings `fs`: starting in the state `s`, which has just handed out
/// `step`, every request for a listing is answered from `fs`, every request
/// for a decision by the oracle, and after every yielded entry the walker is
/// pulled again, for at most `fuel` steps. Where the walker refuses an
/// answer, nothing more comes.
pub open spec fn driven(
    s: WalkState,
    step: StepView,
    fs: Listings,
    oracle: Oracle,
    fuel: nat,
) -> Seq<StepView>
    decreases fuel,
{
    if fuel == 0 {
        Seq::empty()
    } else {
        match step {
            StepView::List(dir) => if s.takes(fs(dir)) {
                let next = s.listed(fs(dir));
                driven(next.0, next.1, fs, oracle, (fuel - 1) as nat)
            } else {
                Seq::empty()
            },
            StepView::Decide(rel) => if s.phase is Deciding {
                let next = s.decided(oracle(rel));
                driven(next.0, next.1, fs, oracle, (fuel - 1) as nat)
            } else {
                Seq::empty()
            },
            StepView::Yield(_) => {
                let next = s.pull();
                seq![step] + driven(next.0, next.1, fs, oracle, (fuel - 1) as nat)
            },
            StepView::Fail(_) => seq![step],
            StepView::End => Seq::empty(),
        }
    }
}

/// The roots of a forest lie under the base where the listings show it.
proof fn lemma_roots_under(fs: Listings, forest: Seq<Tree>, base: Seq<char>)
    requires
        shows_all(fs, forest, base),
    ensures
        all_under(roots(forest), base),
{
}

/// Going on with the queue, driven over the listings, yields the forest in
/// the queue breadth first.
proof fn lemma_drain_driven(
    s: WalkState,
    pending: Seq<Tree>,
    fs: Listings,
    oracle: Oracle,
    fuel: nat,
)
    requires
        s.queue == roots(pending),
        shows_all(fs, pending, s.base),
        fuel >= 1 + 3 * forest_size(pending),
    ensures
        driven(s.drain().0, s.drain().1, fs, oracle, fuel) == breadth_first(
            s.restarted(),
            oracle,
            pending,
        ),
    decreases fuel, pending.len(), 1nat,
{
    if pending.len() > 0 {
        let t = pending[0];
        let rest = pending.skip(1);
        let rest_state = s.with_queue(s.queue.skip(1));
        assert(rest_state.queue =~= roots(rest));
        assert(t.size() == 1 + forest_size(t.children));
        if t.entry.kind is Dir {
            let deciding = rest_state.with_phase(PhaseView::Deciding(t.entry));
            assert(seq![t] + rest =~= pending);
            lemma_decide_driven(deciding, t, rest, fs, oracle, fuel);
        } else {
            lemma_emit_driven(rest_state, t, rest, fs, oracle, fuel);
        }
    }
}

/// Yielding the entry of `t` or going on with the queue, driven over the
/// listings, yields that entry if it passes the filter, and then the forest
/// in the queue breadth first.
proof fn lemma_emit_driven(
    s: WalkState,
    t: Tree,
    pending: Seq<Tree>,
    fs: Listings,
    oracle: Oracle,
    fuel: nat,
)
    requires
        s.queue == roots(pending),
        shows_all(fs, pending, s.base),
        fuel >= 2 + 3 * forest_size(pending),
    ensures
        driven(s.emit(t.entry).0, s.emit(t.entry).1, fs, oracle, fuel) == own_yield(
            s.restarted(),
            t.entry,
        ) + breadth_first(s.restarted(), oracle, pending),
    decreases fuel, pending.len(), 2nat,
{
    let ready = s.with_phase(PhaseView::Ready);
    if s.filter.passes(t.entry.kind) {
        lemma_drain_driven(ready, pending, fs, oracle, (fuel - 1) as nat);
    } else {
        lemma_drain_driven(ready, pending, fs, oracle, fuel);
    }
}

/// From the request for the decision on the directory `t`, driven over the
/// listings, the walker yields the forest of `t` and the queue breadth
/// first.
proof fn lemma_decide_driven(
    s: WalkState,
    t: Tree,
    pending: Seq<Tree>,
    fs: Listings,
    oracle: Oracle,
    fuel: nat,
)
    requires
        s.phase == PhaseView::Deciding(t.entry),
        t.entry.kind is Dir,
        shows(fs, t, s.base),
        s.queue == roots(pending),
        shows_all(fs, pending, s.base),
        fuel >= 1 + 3 * forest_size(seq![t] + pending),
    ensures
        driven(s, StepView::Decide(relative(t.entry.path, s.base)), fs, oracle, fuel)
            == breadth_first(s.restarted(), oracle, seq![t] + pending),
    decreases fuel, pending.len(), 0nat,
{
    let all = seq![t] + pending;
    let rel = relative(t.entry.path, s.base);
    assert(all.skip(1) =~= pending);
    lemma_forest_size_add(seq![t], pending);
    assert(t.size() == 1 + forest_size(t.children));
    if oracle(rel) {
        let expanding = s.with_phase(PhaseView::Expanding(t.entry));
        let listing = t.listing();
        assert(expanding.takes(listing)) by {
            if t.failure is None {
                lemma_listing_entries(t);
                lemma_roots_under(fs, t.children, s.base);
            }
        }
        let second = expanding.listed(listing);
        assert(driven(expanding, StepView::List(t.entry.path), fs, oracle, (fuel - 1) as nat)
            == driven(second.0, second.1, fs, oracle, (fuel - 2) as nat));
        match t.failure {
            Some(err) => {
                if !s.fail_fast {
                    let grown = expanding.with_queue(expanding.queue + listing.entries()).with_phase(
                        PhaseView::Ready,
                    );
                    lemma_emit_driven(grown, t, pending, fs, oracle, (fuel - 2) as nat);
                }
            },
            None => {
                lemma_listing_entries(t);
                let grown = expanding.with_queue(expanding.queue + listing.entries()).with_phase(
                    PhaseView::Ready,
                );
                let more = pending + t.children;
                assert(grown.queue =~= roots(more));
                lemma_forest_size_add(pending, t.children);
                lemma_emit_driven(grown, t, more, fs, oracle, (fuel - 2) as nat);
            },
        }
    } else {
        let ready = s.with_phase(PhaseView::Ready);
        lemma_emit_driven(ready, t, pending, fs, oracle, (fuel - 1) as nat);
    }
}

/// What a traversal of the tree `root` hands out in all: nothing but a
/// failure, or nothing at all, where the base itself cannot be listed, and
/// its entries breadth first otherwise.
pub open spec fn traversal(s: WalkState, oracle: Oracle, root: Tree) -> Seq<StepView> {
    match root.failure {
        Some(err) => if s.fail_fast {
            seq![StepView::Fail(err)]
        } else {
            Seq::empty()
        },
        None => breadth_first(s.restarted(), oracle, root.children),
    }
}

/// A walker that is driven from its first pull over listings that show the
/// tree below its base hands out the traversal of that tree: every entry
/// that is reached, breadth first by discovery, and, where it is fail-fast,
/// the first failure of a listing at the end. This holds whatever the
/// filter, the form of the paths and the predicate are.
pub proof fn law_walk_is_breadth_first(
    s: WalkState,
    root: Tree,
    fs: Listings,
    oracle: Oracle,
    fuel: nat,
)
    requires
        s.phase is Fresh,
        s.queue.len() == 0,
        fs(s.base) == root.listing(),
        shows_all(fs, root.children, s.base),
        fuel >= 3 * root.size(),
    ensures
        s.pull().1 == StepView::List(s.base),
        driven(s.pull().0, s.pull().1, fs, oracle, fuel) == traversal(s, oracle, root),
{
    let awaiting = s.with_phase(PhaseView::AwaitingRoot);
    let listing = root.listing();
    assert(awaiting.takes(listing)) by {
        if root.failure is None {
            lemma_listing_entries(root);
            lemma_roots_under(fs, root.children, s.base);
        }
    }
    let next = awaiting.listed(listing);
    assert(driven(awaiting, StepView::List(s.base), fs, oracle, fuel) == driven(
        next.0,
        next.1,
        fs,
        oracle,
        (fuel - 1) as nat,
    ));
    match root.failure {
        Some(err) => {
            if !s.fail_fast {
                let grown = awaiting.with_queue(awaiting.queue + listing.entries()).with_phase(
                    PhaseView::Ready,
                );
                assert(grown.queue =~= roots(Seq::<Tree>::empty()));
                lemma_drain_driven(grown, Seq::empty(), fs, oracle, (fuel - 1) as nat);
            }
        },
        None => {
            lemma_listing_entries(root);
            let grown = awaiting.with_queue(awaiting.queue + listing.entries()).with_phase(
                PhaseView::Ready,
            );
            lemma_drain_driven(grown, root.children, fs, oracle, (fuel - 1) as nat);
        },
    }
}

} // verus!
