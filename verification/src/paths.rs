//! Path computations, on paths held as UTF-8 text.

use crate::entry::EntryKind;
use camino::Utf8Path;
use vstd::prelude::*;
use vstd::string::{StrSliceExecFns, StringExecFns};

verus! {

/// The remainder that `camino::Utf8Path::strip_prefix` returns for `path` and
/// `base`, or `None` where it reports that `base` is no prefix of `path`.
/// The result depends on the two texts alone, for the path syntax the crate is
/// built for.
pub uninterp spec fn stripped(path: Seq<char>, base: Seq<char>) -> Option<Seq<char>>;

/// The text that `camino::Utf8Path::join` returns for `base` with `path`
/// adjoined.
pub uninterp spec fn joined(base: Seq<char>, path: Seq<char>) -> Seq<char>;

/// The final component that `camino::Utf8Path::file_name` returns for `path`,
/// or `None` where it finds none.
pub uninterp spec fn file_name_of(path: Seq<char>) -> Option<Seq<char>>;

/// The path without its final component that `camino::Utf8Path::parent`
/// returns for `path`, or `None` where the path ends in a root or is empty.
pub uninterp spec fn parent_of(path: Seq<char>) -> Option<Seq<char>>;

/// Whether `==` of `camino::Utf8Path` holds for the two texts: whether they
/// are the same path, component for component.
pub uninterp spec fn same_path(a: Seq<char>, b: Seq<char>) -> bool;

/// Calls `camino::Utf8Path::strip_prefix` on `path` with `base`. Nothing is
/// proved of the call. The result is the one named by [`stripped`]; and, as
/// the documentation of `strip_prefix` has it, it is a path that, when
/// joined onto `base`, yields `path`.
#[verifier::external_body]
fn strip_prefix(path: &str, base: &str) -> (rest: Option<String>)
    ensures
        match rest {
            Some(r) => stripped(path@, base@) == Some(r@) && same_path(
                joined(base@, r@),
                path@,
            ),
            None => stripped(path@, base@) is None,
        },
{
    match Utf8Path::new(path).strip_prefix(base) {
        Ok(rest) => Some(rest.as_str().to_owned()),
        Err(_) => None,
    }
}

/// Calls `camino::Utf8Path::join` on `base` with `path`. Nothing is proved of
/// the call: the result is the one named by [`joined`].
#[verifier::external_body]
fn join_paths(base: &str, path: &str) -> (whole: String)
    ensures
        whole@ == joined(base@, path@),
{
    Utf8Path::new(base).join(path).into_string()
}

/// Compares the two texts with `==` of `camino::Utf8Path`. Nothing is proved
/// of the call: the result is the one named by [`same_path`].
#[verifier::external_body]
fn eq_paths(a: &str, b: &str) -> (same: bool)
    ensures
        same == same_path(a@, b@),
{
    Utf8Path::new(a) == Utf8Path::new(b)
}

/// Is `path` below `base`, so that it has a path relative to it?
pub open spec fn is_under(path: Seq<char>, base: Seq<char>) -> bool {
    stripped(path, base) is Some
}

/// The path of `path` relative to `base`; meaningful where `path` is under
/// `base`.
pub open spec fn relative(path: Seq<char>, base: Seq<char>) -> Seq<char> {
    stripped(path, base).unwrap()
}

/// Does joining `rel` onto `base` give the path `path` again?
pub open spec fn rejoins(base: Seq<char>, rel: Seq<char>, path: Seq<char>) -> bool {
    same_path(joined(base, rel), path)
}

/// Does the path of `path` relative to `base`, joined onto `base`, give
/// `path` again?
pub open spec fn comes_back(path: Seq<char>, base: Seq<char>) -> bool {
    rejoins(base, relative(path, base), path)
}

/// The path relative to `base`, or `None` where `path` does not lie under
/// it. Joined onto `base` again, the relative path gives `path`.
pub fn relative_to(path: &str, base: &str) -> (rest: Option<String>)
    ensures
        rest is Some == is_under(path@, base@),
        rest matches Some(r) ==> r@ == relative(path@, base@) && comes_back(path@, base@),
{
    strip_prefix(path, base)
}

/// Are the two texts the same path? Separators that are repeated or stand
/// at the end make no difference, nor does a `.` inside the path.
pub fn is_same_path(a: &str, b: &str) -> (same: bool)
    ensures
        same == same_path(a@, b@),
{
    eq_paths(a, b)
}

/// `path` adjoined to `base`.
pub fn join(base: &str, path: &str) -> (whole: String)
    ensures
        whole@ == joined(base@, path@),
{
    join_paths(base, path)
}

/// Calls `camino::Utf8Path::file_name` on `path`. Nothing is proved of the
/// call: the result is the one named by [`file_name_of`].
#[verifier::external_body]
fn file_name(path: &str) -> (name: Option<String>)
    ensures
        match name {
            Some(n) => file_name_of(path@) == Some(n@),
            None => file_name_of(path@) is None,
        },
{
    match Utf8Path::new(path).file_name() {
        Some(name) => Some(name.to_owned()),
        None => None,
    }
}

/// Calls `camino::Utf8Path::parent` on `path`. Nothing is proved of the
/// call: the result is the one named by [`parent_of`].
#[verifier::external_body]
fn parent(path: &str) -> (dir: Option<String>)
    ensures
        match dir {
            Some(d) => parent_of(path@) == Some(d@),
            None => parent_of(path@) is None,
        },
{
    match Utf8Path::new(path).parent() {
        Some(dir) => Some(dir.as_str().to_owned()),
        None => None,
    }
}

/// `path` with the extension `ext` added behind what is there: a dot goes
/// between them unless `ext` brings its own.
pub open spec fn with_ext(path: Seq<char>, ext: Seq<char>) -> Seq<char> {
    if ext.len() > 0 && ext[0] == '.' {
        path + ext
    } else {
        path + seq!['.'] + ext
    }
}

/// Adds an extension to the path. An extension that the path has already is
/// kept, and the new one follows it.
pub fn join_ext(path: &str, ext: &str) -> (joined: String)
    ensures
        joined@ == with_ext(path@, ext@),
{
    let mut text = String::from_str(path);
    let dotted = ext.unicode_len() > 0 && ext.get_char(0) == '.';
    if !dotted {
        proof {
            reveal_strlit(".");
        }
        text.append(".");
    }
    text.append(ext);
    text
}

/// Is `i` the place of the first dot in `name`?
pub open spec fn is_first_dot(name: Seq<char>, i: int) -> bool {
    &&& 0 <= i < name.len()
    &&& name[i] == '.'
    &&& forall|j: int| 0 <= j < i ==> name[j] != '.'
}

/// `name` cut at its first dot: what stands before the dot and what stands
/// behind it; `None` where it holds no dot.
pub open spec fn cut_at_dot(name: Seq<char>) -> Option<(Seq<char>, Seq<char>)> {
    if exists|i: int| is_first_dot(name, i) {
        let i = choose|i: int| is_first_dot(name, i);
        Some((name.take(i), name.skip(i + 1)))
    } else {
        None
    }
}

/// The place of the first dot in `name`, if it holds one.
fn find_dot(name: &str) -> (place: Option<usize>)
    ensures
        match place {
            Some(i) => is_first_dot(name@, i as int) && cut_at_dot(name@) == Some(
                (name@.take(i as int), name@.skip(i + 1)),
            ),
            None => cut_at_dot(name@) is None,
        },
{
    let len = name.unicode_len();
    let mut i: usize = 0;
    while i < len
        invariant
            len == name@.len(),
            i <= len,
            forall|j: int| 0 <= j < i ==> name@[j] != '.',
        decreases len - i,
    {
        if name.get_char(i) == '.' {
            assert(is_first_dot(name@, i as int));
            return Some(i);
        }
        i += 1;
    }
    None
}

/// All extensions of a file name: what follows its first dot.
pub open spec fn extensions_of(path: Seq<char>) -> Option<Seq<char>> {
    match file_name_of(path) {
        Some(name) => match cut_at_dot(name) {
            Some((_, behind)) => Some(behind),
            None => None,
        },
        None => None,
    }
}

/// All extensions of the path: the text after the first dot of its file
/// name. `None` where the path has no file name or the name holds no dot.
pub fn all_extensions(path: &str) -> (all: Option<String>)
    ensures
        match all {
            Some(text) => extensions_of(path@) == Some(text@),
            None => extensions_of(path@) is None,
        },
{
    match file_name(path) {
        None => None,
        Some(name) => {
            let name = name.as_str();
            match find_dot(name) {
                None => None,
                Some(i) => {
                    let len = name.unicode_len();
                    let behind = name.substring_char(i + 1, len);
                    Some(String::from_str(behind))
                },
            }
        },
    }
}

/// The pieces that `extensions` hands out: the part of the file name before
/// its first dot, or the whole name where it holds none; nothing where the
/// path has no file name.
pub open spec fn leading_piece(path: Seq<char>) -> Seq<Seq<char>> {
    match file_name_of(path) {
        Some(name) => match cut_at_dot(name) {
            Some((before, _)) => seq![before],
            None => seq![name],
        },
        None => Seq::empty(),
    }
}

/// Splits the file name of the path at its dots and hands out the first
/// piece only.
pub fn extensions(path: &str) -> (pieces: Vec<String>)
    ensures
        pieces@.len() == leading_piece(path@).len(),
        forall|i: int| 0 <= i < pieces@.len() ==> (#[trigger] pieces@[i])@ == leading_piece(path@)[i],
{
    let mut pieces: Vec<String> = Vec::new();
    match file_name(path) {
        None => {},
        Some(name) => {
            match find_dot(name.as_str()) {
                None => {
                    pieces.push(name);
                },
                Some(i) => {
                    let before = name.as_str().substring_char(0, i);
                    pieces.push(String::from_str(before));
                },
            }
        },
    }
    pieces
}

/// The directory that has to exist before `path` can be written: its
/// parent, where it has one.
pub fn parent_dir(path: &str) -> (dir: Option<String>)
    ensures
        match dir {
            Some(d) => parent_of(path@) == Some(d@),
            None => parent_of(path@) is None,
        },
{
    parent(path)
}

/// Does a directory have to be created at a path whose metadata said
/// `kind`? Only where nothing is there.
pub fn needs_mkdir(kind: EntryKind) -> (needed: bool)
    ensures
        needed == !kind.is_present(),
{
    matches!(kind, EntryKind::Missing)
}

} // verus!
