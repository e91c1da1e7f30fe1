//! Filesystem-path operations on UTF-8 path text, through camino.
//!
//! Paths are carried as `String`s. What camino computes component by
//! component for parents and prefixes is named here; file names and
//! component-wise equality are stated over the components, and joining,
//! which std documents in a few words, is stated too.

use vstd::prelude::*;

use crate::graph::identity::{path_parts, PathPart};

verus! {

/// The view of an optional string.
pub open spec fn opt_view(o: Option<String>) -> Option<Seq<char>> {
    match o {
        Some(s) => Some(s@),
        None => None,
    }
}

/// The parent of a path, as camino's `Utf8Path::parent` computes it
/// (`None` for a root or the empty path).
pub uninterp spec fn path_parent(p: Seq<char>) -> Option<Seq<char>>;

/// The rest of `p` after the leading components of `base`, as camino's
/// `Utf8Path::strip_prefix` computes it (`None` where `base` is not a
/// component-wise prefix of `p`).
pub uninterp spec fn path_strip_prefix(p: Seq<char>, base: Seq<char>) -> Option<Seq<char>>;

/// The file name of a path, as camino's `Utf8Path::file_name` computes it:
/// its last component where that is a normal one (not a root, `.` or
/// `..`), else none.
pub open spec fn path_file_name(p: Seq<char>) -> Option<Seq<char>> {
    let parts = path_parts(p);
    if parts.len() > 0 {
        match parts.last() {
            PathPart::Normal(n) => Some(n),
            _ => None,
        }
    } else {
        None
    }
}

/// Where the last `.` of `n` stands, or -1 where it has none.
pub open spec fn last_dot(n: Seq<char>) -> int
    decreases n.len(),
{
    if n.len() == 0 {
        -1
    } else if n.last() == '.' {
        n.len() - 1
    } else {
        last_dot(n.drop_last())
    }
}

/// The extension of a path, as std's `Path::extension` documents it (and
/// camino's `Utf8Path::extension` returns it): none without a file name;
/// none where the name has no `.` or has only a leading one; otherwise what
/// follows the name's final `.`.
pub open spec fn path_extension(p: Seq<char>) -> Option<Seq<char>> {
    match path_file_name(p) {
        None => None,
        Some(n) => if last_dot(n) <= 0 {
            None
        } else {
            Some(n.subrange(last_dot(n) + 1, n.len() as int))
        },
    }
}

/// Whether two paths have the same components (camino's `==` on paths).
pub open spec fn path_equiv(a: Seq<char>, b: Seq<char>) -> bool {
    path_parts(a) == path_parts(b)
}

/// `base` joined with `rest`: an absolute `rest` replaces `base`; otherwise
/// a separator goes between them unless `base` is empty or already ends in
/// one.
pub open spec fn path_join(base: Seq<char>, rest: Seq<char>) -> Seq<char> {
    if rest.len() > 0 && rest[0] == '/' {
        rest
    } else if base.len() > 0 && base.last() != '/' {
        base + seq!['/'] + rest
    } else {
        base + rest
    }
}

/// The parent of a path (camino's `Utf8Path::parent`).
///
/// Trusted: the result is a function of the path text alone; the contract
/// names it and claims nothing more.
#[verifier::external_body]
pub(crate) fn parent_of_path(p: &str) -> (r: Option<String>)
    ensures
        opt_view(r) == path_parent(p@),
{
    camino::Utf8Path::new(p).parent().map(|q| q.as_str().to_string())
}

/// `p` without the leading components of `base` (camino's
/// `Utf8Path::strip_prefix`).
///
/// Trusted: the result is a function of the two path texts alone; the
/// contract names it and claims nothing more.
#[verifier::external_body]
pub(crate) fn strip_prefix_of(p: &str, base: &str) -> (r: Option<String>)
    ensures
        opt_view(r) == path_strip_prefix(p@, base@),
{
    match camino::Utf8Path::new(p).strip_prefix(base) {
        Ok(q) => Some(q.as_str().to_string()),
        Err(_) => None,
    }
}

/// The file name of a path (camino's `Utf8Path::file_name`).
///
/// Trusted: camino returns std's `Path::file_name`, which is the last of the
/// path's components where that is a normal one; the contract states this
/// over the components as Unix-like platforms form them.
#[verifier::external_body]
pub(crate) fn file_name_of(p: &str) -> (r: Option<String>)
    ensures
        opt_view(r) == path_file_name(p@),
{
    camino::Utf8Path::new(p).file_name().map(|q| q.to_string())
}

/// The extension of a path (camino's `Utf8Path::extension`).
///
/// Trusted: camino returns std's `Path::extension`, whose documentation
/// gives the rule that [`path_extension`] states, over the file name as
/// Unix-like platforms form it.
#[verifier::external_body]
pub(crate) fn extension_of(p: &str) -> (r: Option<String>)
    ensures
        opt_view(r) == path_extension(p@),
{
    camino::Utf8Path::new(p).extension().map(|e| e.to_string())
}

/// Whether two paths are equal component by component (camino's `==`).
///
/// Trusted: camino compares paths as std's `Path` does, by their
/// components; the contract states this over the components as Unix-like
/// platforms form them.
#[verifier::external_body]
pub(crate) fn same_path(a: &str, b: &str) -> (r: bool)
    ensures
        r == path_equiv(a@, b@),
{
    camino::Utf8Path::new(a) == camino::Utf8Path::new(b)
}

/// `base` joined with `rest` (camino's `Utf8Path::join`).
///
/// Trusted: on Unix-like platforms std's `PathBuf::push`, which camino's
/// `join` runs, replaces the path by an absolute `rest` and otherwise
/// appends `rest`, inserting a `/` unless the path is empty or already ends
/// with one; the contract states exactly that.
#[verifier::external_body]
pub(crate) fn join_path(base: &str, rest: &str) -> (r: String)
    ensures
        r@ == path_join(base@, rest@),
{
    camino::Utf8Path::new(base).join(rest).into_string()
}

/// The parent directory, or the empty path where there is none.
pub open spec fn parent_dir(p: Seq<char>) -> Seq<char> {
    match path_parent(p) {
        Some(d) => d,
        None => Seq::empty(),
    }
}

/// `p` relative to `base` where `base` is a prefix of it, else `p` itself.
pub open spec fn relative_to(p: Seq<char>, base: Seq<char>) -> Seq<char> {
    match path_strip_prefix(p, base) {
        Some(r) => r,
        None => p,
    }
}

/// The directory that holds `p` (the empty path where it has no parent).
pub fn parent_or_empty(p: &str) -> (r: String)
    ensures
        r@ == parent_dir(p@),
{
    match parent_of_path(p) {
        Some(d) => d,
        None => String::new(),
    }
}

/// `p` made relative to `base` where `base` is a component-wise prefix of
/// it; otherwise `p` unchanged.
pub fn relative_or_self(p: &str, base: &str) -> (r: String)
    ensures
        r@ == relative_to(p@, base@),
{
    match strip_prefix_of(p, base) {
        Some(q) => q,
        None => p.to_owned(),
    }
}

/// The directory of a package whose manifest is `manifest`, relative to the
/// workspace root.
pub open spec fn package_dir(manifest: Seq<char>, root: Seq<char>) -> Seq<char> {
    relative_to(parent_dir(manifest), root)
}

/// The manifest's directory relative to the workspace root.
pub fn package_dir_of(manifest: &str, root: &str) -> (r: String)
    ensures
        r@ == package_dir(manifest@, root@),
{
    let dir = parent_or_empty(manifest);
    relative_or_self(dir.as_str(), root)
}

} // verus!
