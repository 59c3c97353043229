use camino_fs::entry::{Entry, EntryKind};
use camino_fs::error::{ErrorKind, FsError};
use camino_fs::listing::{ListItem, Listing};
use camino_fs::ls::{Always, Ls, Never, RecursePredicate, TryLsIter, When};
use camino_fs::walker::{LsFilter, Step, Walker};

fn file(path: &str) -> ListItem {
    ListItem::Entry(Entry::new(path.to_string(), EntryKind::File))
}

fn dir(path: &str) -> ListItem {
    ListItem::Entry(Entry::new(path.to_string(), EntryKind::Dir))
}

fn denied(path: &str) -> FsError {
    FsError {
        kind: ErrorKind::IoFailure,
        message: format!("Could not list {path} due to: permission denied"),
    }
}

/// /base holds the files a and b and the directory c; c holds the file d and
/// the directory e; e holds the file f.
fn tree() -> Vec<(String, Listing)> {
    vec![
        (
            "/base".to_string(),
            Listing::Items(vec![file("/base/a"), file("/base/b"), dir("/base/c")]),
        ),
        (
            "/base/c".to_string(),
            Listing::Items(vec![file("/base/c/d"), dir("/base/c/e")]),
        ),
        ("/base/c/e".to_string(), Listing::Items(vec![file("/base/c/e/f")])),
    ]
}

fn list(fs: &[(String, Listing)], dir: &str) -> Listing {
    for (path, listing) in fs {
        if path == dir {
            return listing.clone();
        }
    }
    Listing::Failed(denied(dir))
}

/// Drives a best-effort listing to its end and gathers what it yields.
fn gather(mut ls: Ls, fs: &[(String, Listing)]) -> Vec<String> {
    let mut out = Vec::new();
    let mut step = ls.next();
    loop {
        step = match step {
            Step::List(dir) => ls.listed(list(fs, &dir)).unwrap(),
            Step::Yield(entry) => {
                out.push(entry.path);
                ls.next()
            }
            Step::End => return out,
            other => panic!("unexpected step {other:?}"),
        };
    }
}

/// Drives a fail-fast listing to its end and gathers what it yields, with
/// the failure if there was one.
fn try_gather(mut iter: TryLsIter, fs: &[(String, Listing)]) -> (Vec<String>, Option<FsError>) {
    let mut out = Vec::new();
    let mut step = iter.next();
    loop {
        step = match step {
            Step::List(dir) => iter.listed(list(fs, &dir)).unwrap(),
            Step::Yield(entry) => {
                out.push(entry.path);
                iter.next()
            }
            Step::Fail(err) => {
                assert_eq!(iter.next(), Step::End);
                assert_eq!(iter.next(), Step::End);
                return (out, Some(err));
            }
            Step::End => return (out, None),
            other => panic!("unexpected step {other:?}"),
        };
    }
}

fn sorted(mut paths: Vec<String>) -> Vec<String> {
    paths.sort();
    paths
}

#[test]
fn non_recursive_listing_yields_the_immediate_entries() {
    let found = gather(Ls::new("/base".to_string()), &tree());
    assert_eq!(sorted(found), vec!["/base/a", "/base/b", "/base/c"]);
}

#[test]
fn full_recursion_yields_every_entry_once() {
    let found = gather(Ls::new("/base".to_string()).recurse(), &tree());
    assert_eq!(found.len(), 6);
    assert_eq!(
        found,
        vec!["/base/a", "/base/b", "/base/c", "/base/c/d", "/base/c/e", "/base/c/e/f"]
    );
}

#[test]
fn selective_recursion_leaves_excluded_subtrees_out() {
    let ls = Ls::new("/base".to_string()).recurse_if(|rel: &str| rel != "c/e");
    let found = gather(ls, &tree());
    assert_eq!(found, vec!["/base/a", "/base/b", "/base/c", "/base/c/d", "/base/c/e"]);
    let files = Ls::new("/base".to_string()).recurse_if(|rel: &str| rel != "c").files();
    assert_eq!(gather(files, &tree()), vec!["/base/a", "/base/b"]);
}

#[test]
fn the_predicate_sees_relative_paths_of_directories_only() {
    let seen = std::rc::Rc::new(std::cell::RefCell::new(Vec::new()));
    let log = seen.clone();
    let ls = Ls::new("/base".to_string()).recurse_if(move |rel: &str| {
        log.borrow_mut().push(rel.to_string());
        true
    });
    gather(ls, &tree());
    assert_eq!(*seen.borrow(), vec!["c", "c/e"]);
}

#[test]
fn dirs_filter_does_not_prune_the_traversal() {
    let found = gather(Ls::new("/base".to_string()).recurse().dirs(), &tree());
    assert_eq!(found, vec!["/base/c", "/base/c/e"]);
    let files = gather(Ls::new("/base".to_string()).recurse().files(), &tree());
    assert_eq!(files, vec!["/base/a", "/base/b", "/base/c/d", "/base/c/e/f"]);
}

#[test]
fn relative_paths_join_back_to_the_absolute_ones() {
    let absolute = gather(Ls::new("/base".to_string()).recurse(), &tree());
    let relative = gather(Ls::new("/base".to_string()).recurse().relative_paths(), &tree());
    assert_eq!(relative, vec!["a", "b", "c", "c/d", "c/e", "c/e/f"]);
    for (rel, abs) in relative.iter().zip(absolute.iter()) {
        assert_eq!(&camino_fs::paths::join("/base", rel), abs);
    }
}

#[test]
fn best_effort_passes_over_an_unreadable_directory() {
    let mut fs = tree();
    fs[1].1 = Listing::Failed(denied("/base/c"));
    let found = gather(Ls::new("/base".to_string()).recurse(), &fs);
    assert_eq!(found, vec!["/base/a", "/base/b", "/base/c"]);
}

#[test]
fn fail_fast_ends_with_the_first_failure() {
    let mut fs = tree();
    fs[1].1 = Listing::Failed(denied("/base/c"));
    let (found, failure) = try_gather(Ls::new("/base".to_string()).recurse().try_iter(), &fs);
    assert_eq!(found, vec!["/base/a", "/base/b"]);
    assert_eq!(failure, Some(denied("/base/c")));
}

#[test]
fn fail_fast_without_failure_yields_like_best_effort() {
    let (found, failure) = try_gather(Ls::new("/base".to_string()).recurse().try_iter(), &tree());
    assert_eq!(failure, None);
    assert_eq!(found, gather(Ls::new("/base".to_string()).recurse(), &tree()));
}

#[test]
fn missing_base_is_empty_or_an_error() {
    let found = gather(Ls::new("/nowhere".to_string()), &tree());
    assert!(found.is_empty());
    let (found, failure) = try_gather(Ls::new("/nowhere".to_string()).try_iter(), &tree());
    assert!(found.is_empty());
    assert_eq!(failure, Some(denied("/nowhere")));
}

#[test]
fn unreadable_item_is_skipped_or_fatal() {
    let fs = vec![(
        "/base".to_string(),
        Listing::Items(vec![
            file("/base/a"),
            ListItem::Unreadable(denied("/base/?")),
            file("/base/b"),
        ]),
    )];
    assert_eq!(gather(Ls::new("/base".to_string()), &fs), vec!["/base/a", "/base/b"]);
    let (found, failure) = try_gather(Ls::new("/base".to_string()).try_iter(), &fs);
    assert!(found.is_empty());
    assert_eq!(failure, Some(denied("/base/?")));
}

#[test]
fn walker_asks_for_decisions_and_listings() {
    let mut walker = Walker::new("/base".to_string()).filtered(LsFilter::Files);
    assert_eq!(walker.pull(), Step::List("/base".to_string()));
    assert_eq!(walker.pull(), Step::List("/base".to_string()));
    assert_eq!(walker.decided(true), None);
    let step = walker.listed(Listing::Items(vec![dir("/base/c"), file("/base/a")]));
    assert_eq!(step, Some(Step::Decide("c".to_string())));
    assert_eq!(walker.listed(Listing::Items(vec![])), None);
    assert_eq!(walker.decided(true), Some(Step::List("/base/c".to_string())));
    let step = walker.listed(Listing::Items(vec![file("/base/c/d")]));
    assert_eq!(
        step,
        Some(Step::Yield(Entry::new("/base/a".to_string(), EntryKind::File)))
    );
    assert_eq!(
        walker.pull(),
        Step::Yield(Entry::new("/base/c/d".to_string(), EntryKind::File))
    );
    assert_eq!(walker.pull(), Step::End);
    assert_eq!(walker.pull(), Step::End);
}

#[test]
fn listing_with_a_foreign_entry_is_refused() {
    let mut walker = Walker::new("/base".to_string());
    assert_eq!(walker.pull(), Step::List("/base".to_string()));
    assert_eq!(walker.listed(Listing::Items(vec![file("/elsewhere/a")])), None);
    assert_eq!(
        walker.listed(Listing::Items(vec![file("/base/a")])),
        Some(Step::Yield(Entry::new("/base/a".to_string(), EntryKind::File)))
    );
}

#[test]
fn walker_yields_relative_paths_when_configured() {
    let mut walker = Walker::new("/base".to_string()).relative_paths();
    assert_eq!(walker.pull(), Step::List("/base".to_string()));
    let step = walker.listed(Listing::Items(vec![file("/base/a"), dir("/base/c")]));
    assert_eq!(step, Some(Step::Yield(Entry::new("a".to_string(), EntryKind::File))));
    assert_eq!(walker.pull(), Step::Decide("c".to_string()));
    assert_eq!(walker.pull(), Step::Decide("c".to_string()));
    assert_eq!(
        walker.decided(false),
        Some(Step::Yield(Entry::new("c".to_string(), EntryKind::Dir)))
    );
    assert_eq!(walker.pull(), Step::End);
}

#[test]
fn failing_fast_starts_the_walker_over() {
    let mut walker = Walker::new("/base".to_string());
    walker.pull();
    walker.listed(Listing::Items(vec![file("/base/a"), file("/base/b")]));
    let mut strict = walker.failing_fast();
    assert_eq!(strict.pull(), Step::List("/base".to_string()));
    let step = strict.listed(Listing::Failed(denied("/base")));
    assert_eq!(step, Some(Step::Fail(denied("/base"))));
    assert_eq!(strict.pull(), Step::End);
    assert_eq!(strict.listed(Listing::Items(vec![])), None);
}

#[test]
fn filter_admits_by_kind() {
    for kind in [EntryKind::File, EntryKind::Dir, EntryKind::Other, EntryKind::Missing] {
        assert!(LsFilter::All.admits(kind));
        assert_eq!(LsFilter::Files.admits(kind), kind == EntryKind::File);
        assert_eq!(LsFilter::Dirs.admits(kind), kind == EntryKind::Dir);
    }
}

#[test]
fn entries_that_are_neither_file_nor_directory_pass_no_narrow_filter() {
    let fs = vec![(
        "/base".to_string(),
        Listing::Items(vec![
            ListItem::Entry(Entry::new("/base/socket".to_string(), EntryKind::Other)),
            ListItem::Entry(Entry::new("/base/dangling".to_string(), EntryKind::Missing)),
        ]),
    )];
    assert_eq!(
        gather(Ls::new("/base".to_string()), &fs),
        vec!["/base/socket", "/base/dangling"]
    );
    assert!(gather(Ls::new("/base".to_string()).files(), &fs).is_empty());
    assert!(gather(Ls::new("/base".to_string()).dirs(), &fs).is_empty());
}

#[test]
fn listing_splits_into_entries_and_first_failure() {
    let (entries, failure) = Listing::Items(vec![
        file("/base/a"),
        ListItem::Unreadable(denied("/base/1")),
        dir("/base/c"),
        ListItem::Unreadable(denied("/base/2")),
    ])
    .into_parts();
    assert_eq!(
        Vec::from(entries),
        vec![
            Entry::new("/base/a".to_string(), EntryKind::File),
            Entry::new("/base/c".to_string(), EntryKind::Dir),
        ]
    );
    assert_eq!(failure, Some(denied("/base/1")));
    let (entries, failure) = Listing::Failed(denied("/base")).into_parts();
    assert!(entries.is_empty());
    assert_eq!(failure, Some(denied("/base")));
    let (entries, failure) = Listing::Items(vec![]).into_parts();
    assert!(entries.is_empty());
    assert_eq!(failure, None);
}

#[test]
fn predicates_answer_as_they_are_made() {
    assert!(!Never.test("c"));
    assert!(Always.test("c"));
    let short = When::new(|rel: &str| rel.len() < 3);
    assert!(short.test("c"));
    assert!(!short.test("c/e/f"));
}

#[test]
fn breadth_first_goes_by_discovery() {
    // Two directories side by side: the children of the first come before
    // those of the second, and both after the directories themselves.
    let fs = vec![
        ("/b".to_string(), Listing::Items(vec![dir("/b/x"), dir("/b/y"), file("/b/z")])),
        ("/b/x".to_string(), Listing::Items(vec![file("/b/x/1"), dir("/b/x/d")])),
        ("/b/y".to_string(), Listing::Items(vec![file("/b/y/2")])),
        ("/b/x/d".to_string(), Listing::Items(vec![file("/b/x/d/3")])),
    ];
    assert_eq!(
        gather(Ls::new("/b".to_string()).recurse(), &fs),
        vec!["/b/x", "/b/y", "/b/z", "/b/x/1", "/b/x/d", "/b/y/2", "/b/x/d/3"]
    );
}
