use camino_fs::entry::{Entry, EntryKind};
use camino_fs::error::FsError;
use camino_fs::listing::{ListItem, Listing};
use camino_fs::remove::{removal, Removal, RemoveStep, Remover};

fn entry(path: &str, kind: EntryKind) -> ListItem {
    ListItem::Entry(Entry::new(path.to_string(), kind))
}

/// Runs a removal by predicate. `kind` is the kind of the target and
/// `listing` what listing it gives; every removal succeeds. The steps come
/// back.
fn run_remove(
    target: &str,
    kind: EntryKind,
    listing: Listing,
    predicate: impl Fn(&str) -> bool,
) -> Vec<RemoveStep> {
    let mut remover = Remover::new(target.to_string());
    let mut log = Vec::new();
    let mut step = remover.start().unwrap();
    loop {
        log.push(step.clone());
        step = match step {
            RemoveStep::Stat(_) => remover.found(kind),
            RemoveStep::List(_) => remover.listed(listing.clone()),
            RemoveStep::Test(path) => remover.tested(predicate(&path)),
            RemoveStep::RemoveTree(_) | RemoveStep::RemoveFile(_) => remover.completed(Ok(())),
            RemoveStep::Failed(_) | RemoveStep::Finished => return log,
        }
        .unwrap();
    }
}

#[test]
fn removing_what_does_not_exist_does_nothing() {
    assert_eq!(removal(EntryKind::Missing), Removal::Nothing);
    assert_eq!(removal(EntryKind::Dir), Removal::Tree);
    assert_eq!(removal(EntryKind::File), Removal::File);
    assert_eq!(removal(EntryKind::Other), Removal::File);
}

#[test]
fn predicate_removal_of_a_missing_target_does_nothing() {
    let log = run_remove("/gone", EntryKind::Missing, Listing::Items(vec![]), |_| true);
    assert_eq!(
        log,
        vec![
            RemoveStep::Stat("/gone".to_string()),
            RemoveStep::Test("/gone".to_string()),
            RemoveStep::Finished,
        ]
    );
}

#[test]
fn predicate_removal_looks_at_immediate_entries_only() {
    // /t holds keep (a directory with the file keep/old.tmp in it) and old.tmp.
    let listing = Listing::Items(vec![
        entry("/t/keep", EntryKind::Dir),
        entry("/t/old.tmp", EntryKind::File),
    ]);
    let log = run_remove("/t", EntryKind::Dir, listing, |path| path.ends_with(".tmp"));
    assert_eq!(
        log,
        vec![
            RemoveStep::Stat("/t".to_string()),
            RemoveStep::List("/t".to_string()),
            RemoveStep::Test("/t/keep".to_string()),
            RemoveStep::Test("/t/old.tmp".to_string()),
            RemoveStep::RemoveFile("/t/old.tmp".to_string()),
            RemoveStep::Finished,
        ]
    );
    assert!(!log.contains(&RemoveStep::List("/t/keep".to_string())));
    assert!(!log.contains(&RemoveStep::Test("/t/keep/old.tmp".to_string())));
}

#[test]
fn predicate_removal_removes_directories_as_trees() {
    let listing = Listing::Items(vec![
        entry("/t/a", EntryKind::Dir),
        entry("/t/b", EntryKind::File),
        entry("/t/c", EntryKind::Other),
        entry("/t/d", EntryKind::Missing),
    ]);
    let log = run_remove("/t", EntryKind::Dir, listing, |_| true);
    assert_eq!(
        log,
        vec![
            RemoveStep::Stat("/t".to_string()),
            RemoveStep::List("/t".to_string()),
            RemoveStep::Test("/t/a".to_string()),
            RemoveStep::RemoveTree("/t/a".to_string()),
            RemoveStep::Test("/t/b".to_string()),
            RemoveStep::RemoveFile("/t/b".to_string()),
            RemoveStep::Test("/t/c".to_string()),
            RemoveStep::RemoveFile("/t/c".to_string()),
            RemoveStep::Test("/t/d".to_string()),
            RemoveStep::Finished,
        ]
    );
}

#[test]
fn predicate_removal_of_a_file_target() {
    let selected = run_remove("/f.tmp", EntryKind::File, Listing::Items(vec![]), |p| {
        p.ends_with(".tmp")
    });
    assert_eq!(
        selected,
        vec![
            RemoveStep::Stat("/f.tmp".to_string()),
            RemoveStep::Test("/f.tmp".to_string()),
            RemoveStep::RemoveFile("/f.tmp".to_string()),
            RemoveStep::Finished,
        ]
    );
    let spared = run_remove("/f.txt", EntryKind::File, Listing::Items(vec![]), |p| {
        p.ends_with(".tmp")
    });
    assert_eq!(
        spared,
        vec![
            RemoveStep::Stat("/f.txt".to_string()),
            RemoveStep::Test("/f.txt".to_string()),
            RemoveStep::Finished,
        ]
    );
}

#[test]
fn predicate_removal_stops_at_the_first_failure() {
    let mut remover = Remover::new("/t".to_string());
    assert_eq!(remover.start(), Some(RemoveStep::Stat("/t".to_string())));
    assert_eq!(remover.start(), None);
    assert_eq!(remover.tested(true), None);
    assert_eq!(
        remover.found(EntryKind::Dir),
        Some(RemoveStep::List("/t".to_string()))
    );
    assert_eq!(remover.found(EntryKind::Dir), None);
    assert_eq!(remover.completed(Ok(())), None);
    let listing = Listing::Items(vec![
        entry("/t/a", EntryKind::File),
        entry("/t/b", EntryKind::File),
    ]);
    assert_eq!(
        remover.listed(listing.clone()),
        Some(RemoveStep::Test("/t/a".to_string()))
    );
    assert_eq!(remover.listed(listing), None);
    assert_eq!(
        remover.tested(true),
        Some(RemoveStep::RemoveFile("/t/a".to_string()))
    );
    let err = FsError::remove_failed("/t/a", "permission denied");
    assert_eq!(
        remover.completed(Err(err.clone())),
        Some(RemoveStep::Failed(err))
    );
    assert_eq!(remover.tested(true), None);
    assert_eq!(remover.completed(Ok(())), None);
}

#[test]
fn predicate_removal_passes_over_an_unreadable_listing() {
    let failed = Listing::Failed(FsError::io("Could not list", "/t", "permission denied"));
    let log = run_remove("/t", EntryKind::Dir, failed, |_| true);
    assert_eq!(
        log,
        vec![
            RemoveStep::Stat("/t".to_string()),
            RemoveStep::List("/t".to_string()),
            RemoveStep::Finished,
        ]
    );
}
