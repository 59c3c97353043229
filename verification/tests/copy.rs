use camino_fs::copy::{Copier, CopyStep};
use camino_fs::entry::{Entry, EntryKind};
use camino_fs::error::{ErrorKind, FsError};
use camino_fs::listing::{ListItem, Listing};
use std::collections::BTreeMap;

/// A filesystem in memory: a path leads to the content of a file, or to
/// `None` for a directory.
type Disk = BTreeMap<String, Option<String>>;

fn kind_on(disk: &Disk, path: &str) -> EntryKind {
    match disk.get(path) {
        Some(Some(_)) => EntryKind::File,
        Some(None) => EntryKind::Dir,
        None => EntryKind::Missing,
    }
}

fn list_on(disk: &Disk, dir: &str) -> Listing {
    if kind_on(disk, dir) != EntryKind::Dir {
        return Listing::Failed(FsError::io("Could not list", dir, "not a directory"));
    }
    let prefix = format!("{dir}/");
    let mut items = Vec::new();
    for path in disk.keys() {
        if let Some(name) = path.strip_prefix(&prefix) {
            if !name.contains('/') {
                items.push(ListItem::Entry(Entry::new(path.clone(), kind_on(disk, path))));
            }
        }
    }
    Listing::Items(items)
}

fn create_dir_all_on(disk: &mut Disk, path: &str) -> Result<(), FsError> {
    let mut at = String::new();
    for part in path.split('/').skip(1) {
        at.push('/');
        at.push_str(part);
        match kind_on(disk, &at) {
            EntryKind::Missing => {
                disk.insert(at.clone(), None);
            }
            EntryKind::Dir => {}
            _ => return Err(FsError::create_dir_all_failed(path, "a file is in the way")),
        }
    }
    Ok(())
}

fn copy_file_on(disk: &mut Disk, from: &str, to: &str) -> Result<(), FsError> {
    match disk.get(from).cloned() {
        Some(Some(content)) => {
            if kind_on(disk, to) == EntryKind::Dir {
                return Err(FsError::copy_failed(from, to, "is a directory"));
            }
            disk.insert(to.to_string(), Some(content));
            Ok(())
        }
        _ => Err(FsError::copy_failed(from, to, "no such file")),
    }
}

/// Runs a copy on the disk and records the steps that it took.
fn run_copy(disk: &mut Disk, from: &str, to: &str) -> (Result<(), FsError>, Vec<CopyStep>) {
    let mut copier = Copier::new(from.to_string(), to.to_string());
    let mut log = Vec::new();
    let mut step = copier.start().unwrap();
    loop {
        log.push(step.clone());
        step = match step {
            CopyStep::Stat(path) => copier.found(kind_on(disk, &path)),
            CopyStep::CreateDirAll(path) => copier.completed(create_dir_all_on(disk, &path)),
            CopyStep::List(path) => copier.listed(list_on(disk, &path)),
            CopyStep::CreateDir(path) => {
                if kind_on(disk, &path) == EntryKind::Missing {
                    disk.insert(path, None);
                }
                copier.completed(Ok(()))
            }
            CopyStep::CopyFile { from, to } => copier.completed(copy_file_on(disk, &from, &to)),
            CopyStep::Failed(err) => return (Err(err), log),
            CopyStep::Finished => return (Ok(()), log),
        }
        .unwrap();
    }
}

fn source_tree() -> Disk {
    let mut disk = Disk::new();
    disk.insert("/src".to_string(), None);
    disk.insert("/src/a.txt".to_string(), Some("hi".to_string()));
    disk.insert("/src/sub".to_string(), None);
    disk.insert("/src/sub/b.txt".to_string(), Some("bye".to_string()));
    disk
}

#[test]
fn recursive_copy_mirrors_the_tree() {
    let mut disk = source_tree();
    let (result, log) = run_copy(&mut disk, "/src", "/out/dst");
    assert_eq!(result, Ok(()));
    assert_eq!(
        log,
        vec![
            CopyStep::Stat("/src".to_string()),
            CopyStep::CreateDirAll("/out/dst".to_string()),
            CopyStep::List("/src".to_string()),
            CopyStep::CopyFile {
                from: "/src/a.txt".to_string(),
                to: "/out/dst/a.txt".to_string()
            },
            CopyStep::List("/src/sub".to_string()),
            CopyStep::CreateDir("/out/dst/sub".to_string()),
            CopyStep::CopyFile {
                from: "/src/sub/b.txt".to_string(),
                to: "/out/dst/sub/b.txt".to_string()
            },
            CopyStep::Finished,
        ]
    );
    assert_eq!(disk.get("/out/dst/a.txt"), Some(&Some("hi".to_string())));
    assert_eq!(disk.get("/out/dst/sub/b.txt"), Some(&Some("bye".to_string())));
    assert_eq!(disk.get("/out/dst/sub"), Some(&None));
    let copied: Vec<&str> = disk
        .keys()
        .filter_map(|path| path.strip_prefix("/out/dst/"))
        .collect();
    assert_eq!(copied, vec!["a.txt", "sub", "sub/b.txt"]);
}

#[test]
fn recursive_copy_twice_changes_nothing() {
    let mut disk = source_tree();
    assert_eq!(run_copy(&mut disk, "/src", "/dst").0, Ok(()));
    let once = disk.clone();
    assert_eq!(run_copy(&mut disk, "/src", "/dst").0, Ok(()));
    assert_eq!(disk, once);
}

#[test]
fn copy_of_a_single_file() {
    let mut disk = source_tree();
    let (result, log) = run_copy(&mut disk, "/src/a.txt", "/copy.txt");
    assert_eq!(result, Ok(()));
    assert_eq!(
        log,
        vec![
            CopyStep::Stat("/src/a.txt".to_string()),
            CopyStep::CopyFile {
                from: "/src/a.txt".to_string(),
                to: "/copy.txt".to_string()
            },
            CopyStep::Finished,
        ]
    );
    assert_eq!(disk.get("/copy.txt"), Some(&Some("hi".to_string())));
}

#[test]
fn copy_of_a_missing_source_is_not_found() {
    let mut disk = source_tree();
    let before = disk.clone();
    let (result, log) = run_copy(&mut disk, "/nothing", "/dst");
    let err = result.unwrap_err();
    assert_eq!(err.kind, ErrorKind::NotFound);
    assert_eq!(
        err.message,
        "Path \"/nothing\" does not exist or you don't have access!"
    );
    assert_eq!(log.len(), 2);
    assert_eq!(disk, before);
}

#[test]
fn copy_stops_at_the_first_failure_and_keeps_what_was_copied() {
    let mut disk = source_tree();
    disk.insert("/dst".to_string(), None);
    disk.insert("/dst/sub".to_string(), None);
    disk.insert("/dst/sub/b.txt".to_string(), None);
    let (result, log) = run_copy(&mut disk, "/src", "/dst");
    assert_eq!(
        result,
        Err(FsError::copy_failed(
            "/src/sub/b.txt",
            "/dst/sub/b.txt",
            "is a directory"
        ))
    );
    assert!(matches!(log.last(), Some(CopyStep::Failed(_))));
    assert_eq!(disk.get("/dst/a.txt"), Some(&Some("hi".to_string())));
}

#[test]
fn copy_gives_up_when_a_listing_fails() {
    let mut copier = Copier::new("/src".to_string(), "/dst".to_string());
    assert_eq!(copier.start(), Some(CopyStep::Stat("/src".to_string())));
    assert_eq!(copier.start(), None);
    assert_eq!(copier.completed(Ok(())), None);
    assert_eq!(
        copier.found(EntryKind::Dir),
        Some(CopyStep::CreateDirAll("/dst".to_string()))
    );
    assert_eq!(copier.found(EntryKind::Dir), None);
    assert_eq!(copier.listed(Listing::Items(vec![])), None);
    assert_eq!(
        copier.completed(Ok(())),
        Some(CopyStep::List("/src".to_string()))
    );
    let denied = FsError::io("Could not list", "/src", "permission denied");
    assert_eq!(
        copier.listed(Listing::Failed(denied.clone())),
        Some(CopyStep::Failed(denied))
    );
    assert_eq!(copier.completed(Ok(())), None);
}

#[test]
fn copy_refuses_a_listing_from_elsewhere() {
    let mut copier = Copier::new("/src".to_string(), "/dst".to_string());
    copier.start();
    copier.found(EntryKind::Dir);
    copier.completed(Ok(()));
    let foreign = Listing::Items(vec![ListItem::Entry(Entry::new(
        "/other/x".to_string(),
        EntryKind::File,
    ))]);
    assert_eq!(copier.listed(foreign), None);
    let own = Listing::Items(vec![ListItem::Entry(Entry::new(
        "/src/x".to_string(),
        EntryKind::File,
    ))]);
    assert_eq!(
        copier.listed(own),
        Some(CopyStep::CopyFile {
            from: "/src/x".to_string(),
            to: "/dst/x".to_string()
        })
    );
}

#[test]
fn copy_creation_failure_is_handed_on() {
    let mut copier = Copier::new("/src".to_string(), "/dst".to_string());
    copier.start();
    copier.found(EntryKind::Dir);
    let err = FsError::create_dir_all_failed("/dst", "read-only file system");
    assert_eq!(
        copier.completed(Err(err.clone())),
        Some(CopyStep::Failed(err))
    );
}
