use camino_fs::entry::EntryKind;
use camino_fs::error::{ErrorKind, FsError};
use camino_fs::guard::{assert_dir, assert_exists, assert_file};
use camino_fs::paths::{
    all_extensions, extensions, is_same_path, join, join_ext, needs_mkdir, parent_dir,
    relative_to,
};

#[test]
fn join_ext_appends_to_what_is_there() {
    assert_eq!(join_ext("file.txt", "gz"), "file.txt.gz");
    assert_eq!(all_extensions(&join_ext("file.txt", "gz")), Some("txt.gz".to_string()));
    assert_eq!(join_ext("file", ".gz"), "file.gz");
    assert_eq!(join_ext("dir/file", "tar.gz"), "dir/file.tar.gz");
    assert_eq!(join_ext("file", ""), "file.");
    assert_eq!(join_ext("", "x"), ".x");
    assert_eq!(join_ext("é", "ü"), "é.ü");
}

#[test]
fn all_extensions_follow_the_first_dot() {
    assert_eq!(all_extensions("a/b/archive.tar.gz"), Some("tar.gz".to_string()));
    assert_eq!(all_extensions("a.d/file"), None);
    assert_eq!(all_extensions("file."), Some(String::new()));
    assert_eq!(all_extensions(".hidden"), Some("hidden".to_string()));
    assert_eq!(all_extensions("/"), None);
    assert_eq!(all_extensions("a/.."), None);
    assert_eq!(all_extensions("naïve.tëxt"), Some("tëxt".to_string()));
}

#[test]
fn extensions_hand_out_the_first_piece() {
    assert_eq!(extensions("a/archive.tar.gz"), vec!["archive"]);
    assert_eq!(extensions("a/file"), vec!["file"]);
    assert_eq!(extensions(".hidden"), vec![""]);
    assert!(extensions("/").is_empty());
}

#[test]
fn relative_to_strips_the_base() {
    assert_eq!(
        relative_to("/test/haha/foo.txt", "/test"),
        Some("haha/foo.txt".to_string())
    );
    assert_eq!(
        relative_to("/test/haha/foo.txt", "/test/"),
        Some("haha/foo.txt".to_string())
    );
    assert_eq!(relative_to("/test/haha/foo.txt", "/test/haha/foo.txt"), Some(String::new()));
    assert_eq!(relative_to("/test/haha/foo.txt", "test"), None);
    assert_eq!(relative_to("/test/haha/foo.txt", "/haha"), None);
    assert_eq!(relative_to("/testing/x", "/test"), None);
}

#[test]
fn join_adjoins_a_path() {
    assert_eq!(join("/etc", "passwd"), "/etc/passwd");
    assert_eq!(join("/etc/", "passwd"), "/etc/passwd");
    assert_eq!(join("dst", "sub/b.txt"), "dst/sub/b.txt");
}

#[test]
fn parent_dir_is_what_a_write_needs() {
    assert_eq!(parent_dir("/foo/bar.txt"), Some("/foo".to_string()));
    assert_eq!(parent_dir("bar.txt"), Some(String::new()));
    assert_eq!(parent_dir("/"), None);
    assert_eq!(parent_dir(""), None);
}

#[test]
fn mkdir_is_needed_where_nothing_is() {
    assert!(needs_mkdir(EntryKind::Missing));
    assert!(!needs_mkdir(EntryKind::Dir));
    assert!(!needs_mkdir(EntryKind::File));
    assert!(!needs_mkdir(EntryKind::Other));
}

#[test]
fn assert_exists_fails_on_what_is_missing() {
    assert_eq!(assert_exists("/x", EntryKind::File), Ok(()));
    assert_eq!(assert_exists("/x", EntryKind::Dir), Ok(()));
    assert_eq!(assert_exists("/x", EntryKind::Other), Ok(()));
    assert_eq!(
        assert_exists("/x", EntryKind::Missing),
        Err(FsError {
            kind: ErrorKind::NotFound,
            message: "Path \"/x\" does not exist or you don't have access!".to_string(),
        })
    );
}

#[test]
fn assert_dir_fails_on_what_is_no_directory() {
    assert_eq!(assert_dir("/x", EntryKind::Dir), Ok(()));
    for kind in [EntryKind::File, EntryKind::Other, EntryKind::Missing] {
        assert_eq!(
            assert_dir("/x", kind),
            Err(FsError {
                kind: ErrorKind::InvalidInput,
                message: "Path \"/x\" is not a directory!".to_string(),
            })
        );
    }
}

#[test]
fn assert_file_fails_on_what_is_no_file() {
    assert_eq!(assert_file("/x", EntryKind::File), Ok(()));
    for kind in [EntryKind::Dir, EntryKind::Other, EntryKind::Missing] {
        assert_eq!(
            assert_file("/x", kind),
            Err(FsError {
                kind: ErrorKind::InvalidInput,
                message: "Path \"/x\" is not a file!".to_string(),
            })
        );
    }
}

#[test]
fn failures_carry_operation_path_and_cause() {
    let err = FsError::copy_failed("/a", "/b", "disk full");
    assert_eq!(err.kind, ErrorKind::IoFailure);
    assert_eq!(err.message, "Could not copy /a to /b due to: disk full");
    assert_eq!(
        FsError::rename_failed("/a", "/b", "busy").message,
        "Could not rename /a to /b due to: busy"
    );
    assert_eq!(
        FsError::remove_failed("/a", "denied").message,
        "Could not remove /a due to: denied"
    );
    assert_eq!(
        FsError::create_dir_failed("/a", "exists").message,
        "Could not create directory /a due to: exists"
    );
    assert_eq!(
        FsError::create_dir_all_failed("/a/b", "denied").message,
        "Could not create directories for /a/b due to: denied"
    );
    assert_eq!(
        FsError::read_failed("/a", "gone").message,
        "Could not read /a due to: gone"
    );
    assert_eq!(
        FsError::write_failed("/a", "full").message,
        "Could not write to /a due to: full"
    );
    assert_eq!(
        FsError::io("Could not list", "/a", "denied").message,
        "Could not list /a due to: denied"
    );
    assert_eq!(
        FsError::io_pair("Could not link", "/a", "/b", "denied").message,
        "Could not link /a to /b due to: denied"
    );
}

#[test]
fn same_path_goes_by_components() {
    assert!(is_same_path("/a/b", "/a/b"));
    assert!(is_same_path("/a//b/", "/a/b"));
    assert!(is_same_path("a/./b", "a/b"));
    assert!(!is_same_path("/a/b", "a/b"));
    assert!(!is_same_path("/a/b", "/a/c"));
    assert!(!is_same_path("/a/b", "/a"));
}

#[test]
fn relative_path_joined_onto_the_base_gives_the_path() {
    for (path, base) in [
        ("/test/haha/foo.txt", "/test"),
        ("/test/haha/foo.txt", "/test/"),
        ("/test/haha/foo.txt", "/"),
        ("/test/haha/foo.txt", "/test/haha/foo.txt"),
        ("a/./b/c", "a"),
        ("a/b", ""),
    ] {
        let rel = relative_to(path, base).unwrap();
        assert!(is_same_path(&join(base, &rel), path), "{path} under {base}");
    }
}

/// All texts over the given letters up to the given length.
fn texts(letters: &[char], max_len: usize) -> Vec<String> {
    let mut all = vec![String::new()];
    let mut last = vec![String::new()];
    for _ in 0..max_len {
        let mut next = Vec::new();
        for text in &last {
            for letter in letters {
                let mut longer = text.clone();
                longer.push(*letter);
                next.push(longer);
            }
        }
        all.extend(next.iter().cloned());
        last = next;
    }
    all
}

#[test]
fn every_relative_path_joins_back() {
    let all = texts(&['a', 'b', '/', '.'], 5);
    let mut under = 0;
    for path in &all {
        for base in &all {
            if let Some(rel) = relative_to(path, base) {
                under += 1;
                assert!(
                    is_same_path(&join(base, &rel), path),
                    "{path:?} under {base:?} gives {rel:?}"
                );
            }
        }
    }
    assert!(under > 1000);
}
