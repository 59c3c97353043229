//! What holds of every traversal, stated over file trees.

use crate::entry::EntryView;
use crate::listing::{ListItemView, ListingView};
use crate::paths::{rejoins, relative};
use crate::ls::{settles, Verdicts};
use crate::tree::{
    breadth_first, driven, forest_size, lemma_forest_size_add, own_yield, roots, Listings, Oracle,
    Tree,
};
use crate::walker::{lemma_drain, lemma_emit, LsFilter, PhaseView, StepView, WalkState};
use vstd::multiset::Multiset;
use vstd::prelude::*;

verus! {

/// The predicate that accepts every directory.
pub open spec fn always() -> Oracle {
    |rel: Seq<char>| true
}

/// The predicate that rejects every directory.
pub open spec fn never() -> Oracle {
    |rel: Seq<char>| false
}

/// The entries of a forest level by level: the roots first, and the children
/// of each entry behind everything that was found before them.
pub open spec fn level_order(forest: Seq<Tree>) -> Seq<EntryView>
    decreases forest_size(forest),
{
    if forest.len() == 0 {
        Seq::empty()
    } else {
        let t = forest[0];
        let rest = forest.skip(1);
        proof {
            assert(t.size() == 1 + forest_size(t.children));
            lemma_forest_size_add(rest, t.children);
        }
        seq![t.entry] + level_order(rest + t.children)
    }
}

/// A tree in which every listing succeeds and only directories have
/// children.
pub open spec fn intact(t: Tree) -> bool
    decreases t,
{
    &&& t.failure is None
    &&& t.entry.kind is Dir || t.children.len() == 0
    &&& forall|i: int| 0 <= i < t.children.len() ==> intact(#[trigger] t.children[i])
}

/// Every tree of the forest is intact.
pub open spec fn all_intact(forest: Seq<Tree>) -> bool {
    forall|i: int| 0 <= i < forest.len() ==> intact(#[trigger] forest[i])
}

/// The entries of a forest, each as often as it occurs in it.
pub open spec fn all_entries(forest: Seq<Tree>) -> Multiset<EntryView>
    decreases forest,
{
    if forest.len() == 0 {
        Multiset::empty()
    } else {
        Multiset::singleton(forest[0].entry).add(all_entries(forest[0].children)).add(
            all_entries(forest.skip(1)),
        )
    }
}

/// The entries of two forests put together.
pub proof fn lemma_all_entries_add(a: Seq<Tree>, b: Seq<Tree>)
    ensures
        all_entries(a + b) == all_entries(a).add(all_entries(b)),
    decreases a.len(),
{
    if a.len() > 0 {
        lemma_all_entries_add(a.skip(1), b);
        assert((a + b).skip(1) =~= a.skip(1) + b);
    }
}

/// The steps that yield the given entries in the form that `s` configures.
pub open spec fn yields(s: WalkState, entries: Seq<EntryView>) -> Seq<StepView> {
    entries.map_values(|e: EntryView| StepView::Yield(s.shown(e)))
}

/// Without recursion a walker yields the roots of the forest in the queue,
/// in order, and nothing of what lies below them.
pub proof fn law_no_recursion(s: WalkState, forest: Seq<Tree>)
    requires
        s.filter == LsFilter::All,
    ensures
        breadth_first(s, never(), forest) == yields(s, roots(forest)),
    decreases forest_size(forest),
{
    if forest.len() > 0 {
        let t = forest[0];
        let rest = forest.skip(1);
        assert(forest_size(forest) == t.size() + forest_size(rest));
        law_no_recursion(s, rest);
    }
}

/// Full recursion over an intact forest yields every entry exactly once:
/// what is yielded are the entries level by level; their number is the
/// number of entries of the forest; and they are the entries of the forest,
/// each as often as it occurs in it.
pub proof fn law_full_recursion(s: WalkState, forest: Seq<Tree>)
    requires
        s.filter == LsFilter::All,
        all_intact(forest),
    ensures
        breadth_first(s, always(), forest) == yields(s, level_order(forest)),
        level_order(forest).len() == forest_size(forest),
        level_order(forest).to_multiset() == all_entries(forest),
    decreases forest_size(forest),
{
    if forest.len() == 0 {
        assert(level_order(forest).to_multiset() =~= Multiset::empty()) by {
            level_order(forest).to_multiset_ensures();
        }
    } else {
        let t = forest[0];
        let rest = forest.skip(1);
        let more = rest + t.children;
        assert(t.size() == 1 + forest_size(t.children));
        lemma_forest_size_add(rest, t.children);
        law_full_recursion(s, more);
        lemma_all_entries_add(rest, t.children);
        assert(level_order(forest).to_multiset() =~= all_entries(forest)) by {
            let tail = level_order(more);
            vstd::seq_lib::lemma_multiset_commutative(seq![t.entry], tail);
            assert(seq![t.entry].to_multiset() =~= Multiset::singleton(t.entry)) by {
                seq![t.entry].to_multiset_ensures();
                Seq::<EntryView>::empty().to_multiset_ensures();
            }
        }
    }
}

/// Two trees that are alike as far as a traversal with this predicate
/// reaches: they have the same entry, and where that is a directory which
/// the predicate accepts, listing it gives the same failure, or children
/// that are alike in the same way. Below a directory that the predicate
/// rejects the two trees may differ at will.
pub open spec fn alike_where_reached(oracle: Oracle, base: Seq<char>, a: Tree, b: Tree) -> bool
    decreases a,
{
    &&& a.entry == b.entry
    &&& a.entry.kind is Dir && oracle(relative(a.entry.path, base)) ==> {
        &&& a.failure == b.failure
        &&& a.failure is None ==> {
            &&& a.children.len() == b.children.len()
            &&& forall|i: int|
                0 <= i < a.children.len() ==> alike_where_reached(
                    oracle,
                    base,
                    #[trigger] a.children[i],
                    b.children[i],
                )
        }
    }
}

/// The two forests are alike as far as a traversal reaches, tree by tree.
pub open spec fn forests_alike(
    oracle: Oracle,
    base: Seq<char>,
    a: Seq<Tree>,
    b: Seq<Tree>,
) -> bool {
    &&& a.len() == b.len()
    &&& forall|i: int| 0 <= i < a.len() ==> alike_where_reached(oracle, base, #[trigger] a[i], b[i])
}

/// Selective recursion: what lies below a directory that the predicate
/// rejects has no part in what is yielded. Two forests that differ only
/// below such directories give the same sequence, whatever the filter is.
pub proof fn law_selective_recursion(s: WalkState, oracle: Oracle, a: Seq<Tree>, b: Seq<Tree>)
    requires
        forests_alike(oracle, s.base, a, b),
    ensures
        breadth_first(s, oracle, a) == breadth_first(s, oracle, b),
    decreases forest_size(a),
{
    if a.len() > 0 {
        let t = a[0];
        let u = b[0];
        let rest_a = a.skip(1);
        let rest_b = b.skip(1);
        assert(t.size() == 1 + forest_size(t.children));
        if t.entry.kind is Dir && oracle(relative(t.entry.path, s.base)) && t.failure is None {
            let more_a = rest_a + t.children;
            let more_b = rest_b + u.children;
            lemma_forest_size_add(rest_a, t.children);
            law_selective_recursion(s, oracle, more_a, more_b);
        } else {
            law_selective_recursion(s, oracle, rest_a, rest_b);
        }
    }
}

/// The steps among `steps` that a filter lets through: the entries of a
/// kind that passes it, and everything that is no entry.
pub open spec fn kept(filter: LsFilter, steps: Seq<StepView>) -> Seq<StepView>
    decreases steps.len(),
{
    if steps.len() == 0 {
        Seq::empty()
    } else {
        let first = match steps[0] {
            StepView::Yield(e) => if filter.passes(e.kind) {
                seq![steps[0]]
            } else {
                Seq::empty()
            },
            _ => seq![steps[0]],
        };
        first + kept(filter, steps.skip(1))
    }
}

/// What a filter lets through of two sequences put together.
pub proof fn lemma_kept_add(filter: LsFilter, a: Seq<StepView>, b: Seq<StepView>)
    ensures
        kept(filter, a + b) == kept(filter, a) + kept(filter, b),
    decreases a.len(),
{
    if a.len() > 0 {
        lemma_kept_add(filter, a.skip(1), b);
        assert((a + b).skip(1) =~= a.skip(1) + b);
    }
}

/// The same configuration with another filter.
pub open spec fn refiltered(s: WalkState, filter: LsFilter) -> WalkState {
    WalkState { filter, ..s }
}

/// The filter selects and does nothing else: what a walker yields with a
/// filter is what it yields without one, less the entries that do not pass.
/// Which directories are listed does not depend on the filter, so an entry
/// that passes is yielded however many entries above it do not.
pub proof fn law_filter_only_selects(s: WalkState, oracle: Oracle, forest: Seq<Tree>)
    ensures
        breadth_first(s, oracle, forest) == kept(
            s.filter,
            breadth_first(refiltered(s, LsFilter::All), oracle, forest),
        ),
    decreases forest_size(forest),
{
    let all = refiltered(s, LsFilter::All);
    if forest.len() > 0 {
        let t = forest[0];
        let rest = forest.skip(1);
        assert(t.size() == 1 + forest_size(t.children));
        lemma_forest_size_add(rest, t.children);
        let own_all = own_yield(all, t.entry);
        assert(kept(s.filter, own_all) =~= own_yield(s, t.entry)) by {
            assert(kept(s.filter, own_all.skip(1)) =~= Seq::<StepView>::empty());
        }
        if t.entry.kind is Dir && oracle(relative(t.entry.path, s.base)) {
            match t.failure {
                Some(err) => {
                    if s.fail_fast {
                        let fail = seq![StepView::Fail(err)];
                        assert(kept(s.filter, fail.skip(1)) =~= Seq::<StepView>::empty());
                    } else {
                        law_filter_only_selects(s, oracle, rest);
                        lemma_kept_add(s.filter, own_all, breadth_first(all, oracle, rest));
                    }
                },
                None => {
                    law_filter_only_selects(s, oracle, rest + t.children);
                    lemma_kept_add(
                        s.filter,
                        own_all,
                        breadth_first(all, oracle, rest + t.children),
                    );
                },
            }
        } else {
            law_filter_only_selects(s, oracle, rest);
            lemma_kept_add(s.filter, own_all, breadth_first(all, oracle, rest));
        }
    }
}

/// Every entry that a walker yields passes its filter: with the filter for
/// directories nothing but directories is yielded.
pub proof fn law_yields_pass_filter(s: WalkState, oracle: Oracle, forest: Seq<Tree>, i: int)
    requires
        0 <= i < breadth_first(s, oracle, forest).len(),
    ensures
        breadth_first(s, oracle, forest)[i] matches StepView::Yield(e) ==> s.filter.passes(e.kind),
    decreases forest_size(forest),
{
    if forest.len() > 0 {
        let t = forest[0];
        let rest = forest.skip(1);
        assert(t.size() == 1 + forest_size(t.children));
        lemma_forest_size_add(rest, t.children);
        let own = own_yield(s, t.entry);
        let descends = t.entry.kind is Dir && oracle(relative(t.entry.path, s.base));
        let next = if descends && t.failure is None {
            rest + t.children
        } else {
            rest
        };
        if !(descends && t.failure is Some && s.fail_fast) && i >= own.len() {
            law_yields_pass_filter(s, oracle, next, i - own.len());
        }
    }
}

/// The step with the path of a yielded entry taken relative to `base`.
pub open spec fn relativized(base: Seq<char>, step: StepView) -> StepView {
    match step {
        StepView::Yield(e) => StepView::Yield(
            EntryView { path: relative(e.path, base), kind: e.kind },
        ),
        other => other,
    }
}

/// The same configuration with relative or with absolute paths.
pub open spec fn reformed(s: WalkState, relative: bool) -> WalkState {
    WalkState { relative, ..s }
}

/// Relative paths: a walker that yields relative paths yields, entry for
/// entry, what the same walker yields with absolute paths, each path taken
/// relative to the base. The form of the paths changes nothing else.
pub proof fn law_relative_paths(s: WalkState, oracle: Oracle, forest: Seq<Tree>)
    ensures
        breadth_first(reformed(s, true), oracle, forest) == breadth_first(
            reformed(s, false),
            oracle,
            forest,
        ).map_values(|step: StepView| relativized(s.base, step)),
    decreases forest_size(forest),
{
    if forest.len() > 0 {
        let t = forest[0];
        let rest = forest.skip(1);
        assert(t.size() == 1 + forest_size(t.children));
        lemma_forest_size_add(rest, t.children);
        let descends = t.entry.kind is Dir && oracle(relative(t.entry.path, s.base));
        if !(descends && t.failure is Some && s.fail_fast) {
            let next = if descends && t.failure is None {
                rest + t.children
            } else {
                rest
            };
            law_relative_paths(s, oracle, next);
        }
    }
}

/// Does the walker hold the entry: in its queue, or as the directory that
/// an open request is about?
pub open spec fn holds(s: WalkState, e: EntryView) -> bool {
    s.queue.contains(e) || s.phase == PhaseView::Deciding(e) || s.phase == PhaseView::Expanding(e)
}

/// Relative paths join back: where a walker yields relative paths, the
/// path that it yields for an entry that it holds, joined onto the base,
/// gives the path of that entry again.
pub proof fn law_relative_paths_join_back(s: WalkState, e: EntryView)
    requires
        s.wf(),
        s.relative,
        holds(s, e),
    ensures
        rejoins(s.base, s.shown(e).path, e.path),
{
}

/// The same configuration, fail-fast or best-effort.
pub open spec fn remoded(s: WalkState, fail_fast: bool) -> WalkState {
    WalkState { fail_fast, ..s }
}

/// Is `a` the beginning of `b`?
pub open spec fn begins(a: Seq<StepView>, b: Seq<StepView>) -> bool {
    a.len() <= b.len() && a == b.take(a.len() as int)
}

/// Fail-fast and best-effort: a best-effort walker never hands out a
/// failure. A fail-fast walker hands out at most one, and nothing after it.
/// Where it hands out none, the two yield the same; where it hands out one,
/// what it yielded before is the beginning of what the best-effort walker
/// yields.
pub proof fn law_fail_fast_and_best_effort(s: WalkState, oracle: Oracle, forest: Seq<Tree>)
    ensures
        ({
            let strict = breadth_first(remoded(s, true), oracle, forest);
            let lenient = breadth_first(remoded(s, false), oracle, forest);
            &&& forall|i: int| 0 <= i < lenient.len() ==> !(#[trigger] lenient[i] is Fail)
            &&& forall|i: int| 0 <= i < strict.len() - 1 ==> !(#[trigger] strict[i] is Fail)
            &&& if strict.len() > 0 && strict.last() is Fail {
                begins(strict.drop_last(), lenient)
            } else {
                strict == lenient
            }
        }),
    decreases forest_size(forest),
{
    let hard = remoded(s, true);
    let soft = remoded(s, false);
    let strict = breadth_first(hard, oracle, forest);
    let lenient = breadth_first(soft, oracle, forest);
    if forest.len() > 0 {
        let t = forest[0];
        let rest = forest.skip(1);
        assert(t.size() == 1 + forest_size(t.children));
        lemma_forest_size_add(rest, t.children);
        let own = own_yield(soft, t.entry);
        if t.entry.kind is Dir && oracle(relative(t.entry.path, s.base)) && t.failure is Some {
            law_fail_fast_and_best_effort(s, oracle, rest);
            assert(strict.drop_last() =~= Seq::<StepView>::empty());
            assert(lenient.take(0) =~= Seq::<StepView>::empty());
        } else {
            let next = if t.entry.kind is Dir && oracle(relative(t.entry.path, s.base)) {
                rest + t.children
            } else {
                rest
            };
            law_fail_fast_and_best_effort(s, oracle, next);
            let strict_tail = breadth_first(hard, oracle, next);
            if strict_tail.len() > 0 && strict_tail.last() is Fail {
                assert(strict.drop_last() =~= own + strict_tail.drop_last());
                assert(strict.drop_last() =~= lenient.take(strict.len() - 1));
            }
        }
    }
}

/// A failure is final: the listing that makes a walker hand out a failure
/// holds that failure as its first one, the walker is fail-fast, and from
/// then on every pull gives the end and changes nothing.
pub proof fn law_failure_is_final(s: WalkState, listing: ListingView)
    requires
        s.takes(listing),
        s.listed(listing).1 is Fail,
    ensures
        s.fail_fast,
        listing.failure() == Some(s.listed(listing).1->Fail_0),
        s.listed(listing).0.phase is Finished,
        s.listed(listing).0.pull() == (s.listed(listing).0, StepView::End),
{
    if !(s.fail_fast && listing.failure() is Some) {
        let grown = s.with_queue(s.queue + listing.entries()).with_phase(PhaseView::Ready);
        match s.phase {
            PhaseView::Expanding(e) => lemma_emit(grown, e),
            _ => lemma_drain(grown),
        }
    }
}

/// What is left of a listing for a walker that passes over failures: its
/// readable entries.
pub open spec fn forgiven(listing: ListingView) -> ListingView {
    ListingView::Items(listing.entries().map_values(|e: EntryView| ListItemView::Entry(e)))
}

/// Best effort: to a walker that is not fail-fast a listing is worth its
/// readable entries. A listing that failed counts as an empty one, an
/// unreadable item as none, and no failure is ever handed out.
pub proof fn law_best_effort_forgives(s: WalkState, listing: ListingView)
    requires
        !s.fail_fast,
    ensures
        s.listed(listing) == s.listed(forgiven(listing)),
        !(s.listed(listing).1 is Fail),
{
    let items = listing.entries().map_values(|e: EntryView| ListItemView::Entry(e));
    crate::listing::lemma_all_entries(items, listing.entries());
    let grown = s.with_queue(s.queue + listing.entries()).with_phase(PhaseView::Ready);
    match s.phase {
        PhaseView::Expanding(e) => lemma_emit(grown, e),
        _ => lemma_drain(grown),
    }
}

/// A directory that the predicate rejects stays closed: the answer never
/// leads to a request for its listing, and the queue gains nothing: it is
/// what was left of it before, less the entries that were gone through.
pub proof fn law_rejected_directory_stays_closed(s: WalkState)
    requires
        s.phase is Deciding,
    ensures
        !(s.decided(false).1 is List),
        !(s.decided(false).0.phase is Expanding),
        s.decided(false).0.queue.len() <= s.queue.len(),
        s.decided(false).0.queue == s.queue.skip(
            s.queue.len() - s.decided(false).0.queue.len(),
        ),
{
    lemma_emit(s.with_phase(PhaseView::Ready), s.phase->Deciding_0);
}

/// Every answer that the predicate may give is the answer of the oracle.
pub open spec fn answers_as(verdicts: Verdicts, oracle: Oracle) -> bool {
    forall|rel: Seq<char>, verdict: bool|
        #[trigger] verdicts(rel, verdict) ==> verdict == oracle(rel)
}

/// A listing with its predicate is a walker that is driven by that
/// predicate. Where the predicate answers as the oracle does, the state and
/// the step that the listing settles on are those that the driven walker
/// reaches after as many steps as there were decisions; the number of
/// decisions comes back.
pub proof fn law_settled_is_driven(
    verdicts: Verdicts,
    oracle: Oracle,
    s: WalkState,
    step: StepView,
    t: WalkState,
    out: StepView,
    fs: Listings,
) -> (decisions: nat)
    requires
        answers_as(verdicts, oracle),
        settles(verdicts, s, step, t, out),
    ensures
        forall|fuel: nat| #[trigger]
            driven(t, out, fs, oracle, fuel) == driven(s, step, fs, oracle, fuel + decisions),
    decreases s.queue.len(), (if step is Decide { 1nat } else { 0nat }),
{
    if step is Decide && s.phase is Deciding {
        let rel = step->Decide_0;
        if verdicts(rel, true) && (t, out) == s.decided(true) {
            1
        } else {
            let stay = s.decided(false);
            lemma_emit(s.with_phase(PhaseView::Ready), s.phase->Deciding_0);
            law_settled_is_driven(verdicts, oracle, stay.0, stay.1, t, out, fs) + 1
        }
    } else {
        0
    }
}

} // verus!
