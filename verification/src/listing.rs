//! The result of listing one directory.

use crate::entry::{Entry, EntryView};
use crate::error::{FsError, FsErrorView};
use std::collections::VecDeque;
use vstd::prelude::*;

verus! {

/// One item of a directory listing: an entry, or the failure to read one.
#[derive(Clone, Debug, PartialEq, Eq)]
pub enum ListItem {
    Entry(Entry),
    Unreadable(FsError),
}

/// What listing a directory gave: a failure of the listing as a whole, or its
/// items in the order in which the system handed them out.
#[derive(Clone, Debug, PartialEq, Eq)]
pub enum Listing {
    Failed(FsError),
    Items(Vec<ListItem>),
}

/// The mathematical content of a [`ListItem`].
pub enum ListItemView {
    Entry(EntryView),
    Unreadable(FsErrorView),
}

/// The mathematical content of a [`Listing`].
pub enum ListingView {
    Failed(FsErrorView),
    Items(Seq<ListItemView>),
}

impl View for ListItem {
    type V = ListItemView;

    open spec fn view(&self) -> ListItemView {
        match self {
            ListItem::Entry(e) => ListItemView::Entry(e@),
            ListItem::Unreadable(err) => ListItemView::Unreadable(err@),
        }
    }
}

/// The views of a sequence of items, in order.
pub open spec fn item_views(items: Seq<ListItem>) -> Seq<ListItemView> {
    items.map_values(|i: ListItem| i@)
}

impl View for Listing {
    type V = ListingView;

    open spec fn view(&self) -> ListingView {
        match self {
            Listing::Failed(err) => ListingView::Failed(err@),
            Listing::Items(items) => ListingView::Items(item_views(items@)),
        }
    }
}

/// The entries among `items`, in order; the unreadable ones are left out.
pub open spec fn readable(items: Seq<ListItemView>) -> Seq<EntryView>
    decreases items.len(),
{
    if items.len() == 0 {
        Seq::empty()
    } else {
        match items[0] {
            ListItemView::Entry(e) => seq![e] + readable(items.skip(1)),
            ListItemView::Unreadable(_) => readable(items.skip(1)),
        }
    }
}

/// The failure of the first unreadable item among `items`, if there is one.
pub open spec fn first_failure(items: Seq<ListItemView>) -> Option<FsErrorView>
    decreases items.len(),
{
    if items.len() == 0 {
        None
    } else {
        match items[0] {
            ListItemView::Entry(_) => first_failure(items.skip(1)),
            ListItemView::Unreadable(err) => Some(err),
        }
    }
}

impl ListingView {
    /// The entries that the listing holds; none where it failed as a whole.
    pub open spec fn entries(self) -> Seq<EntryView> {
        match self {
            ListingView::Failed(_) => Seq::empty(),
            ListingView::Items(items) => readable(items),
        }
    }

    /// The first failure that the listing holds: that of the listing itself,
    /// or else that of its first unreadable item.
    pub open spec fn failure(self) -> Option<FsErrorView> {
        match self {
            ListingView::Failed(err) => Some(err),
            ListingView::Items(items) => first_failure(items),
        }
    }
}

/// The option of an error, seen through its view.
pub open spec fn failure_view(failure: Option<FsError>) -> Option<FsErrorView> {
    match failure {
        Some(err) => Some(err@),
        None => None,
    }
}

impl Listing {
    /// Splits the listing into its entries, in order, and its first failure.
    pub fn into_parts(self) -> (parts: (VecDeque<Entry>, Option<FsError>))
        ensures
            crate::entry::entry_views(parts.0@) == self@.entries(),
            failure_view(parts.1) == self@.failure(),
    {
        let mut found: VecDeque<Entry> = VecDeque::new();
        match self {
            Listing::Failed(err) => (found, Some(err)),
            Listing::Items(items) => {
                let mut items = items;
                let ghost all = item_views(items@);
                let mut failure: Option<FsError> = None;
                while items.len() > 0
                    invariant
                        items@.len() <= all.len(),
                        item_views(items@) == all.take(items@.len() as int),
                        crate::entry::entry_views(found@) == readable(
                            all.skip(items@.len() as int),
                        ),
                        failure_view(failure) == first_failure(all.skip(items@.len() as int)),
                    decreases items@.len(),
                {
                    let ghost before = items@;
                    let item = items.pop().unwrap();
                    let ghost n = items@.len() as int;
                    proof {
                        assert(item@ == all[n]) by {
                            assert(item_views(before)[n] == before[n]@);
                        }
                        assert(all.skip(n).skip(1) =~= all.skip(n + 1));
                    }
                    match item {
                        ListItem::Entry(entry) => {
                            found.push_front(entry);
                        },
                        ListItem::Unreadable(err) => {
                            failure = Some(err);
                        },
                    }
                }
                (found, failure)
            },
        }
    }
}

/// A sequence of items that holds nothing but the entries `entries` gives
/// these entries as readable, and has no failure.
pub proof fn lemma_all_entries(items: Seq<ListItemView>, entries: Seq<EntryView>)
    requires
        items.len() == entries.len(),
        forall|i: int| 0 <= i < items.len() ==> #[trigger] items[i] == ListItemView::Entry(entries[i]),
    ensures
        readable(items) == entries,
        first_failure(items) is None,
    decreases items.len(),
{
    if items.len() > 0 {
        lemma_all_entries(items.skip(1), entries.skip(1));
    }
}

} // verus!
