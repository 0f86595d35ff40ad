//! File system paths, taken apart and put together with `std::path`.
use vstd::prelude::*;

verus! {

/// The path `base` followed by `rel`, as `Path::join` builds it on Unix: an
/// absolute `rel` (one starting at the root) replaces `base`; otherwise
/// `rel` follows `base`, after a separator unless `base` is empty or already
/// ends in one.
pub open spec fn joined_path(base: Seq<char>, rel: Seq<char>) -> Seq<char> {
    if rel.len() > 0 && rel[0] == '/' {
        rel
    } else if base.len() == 0 || base.last() == '/' {
        base + rel
    } else {
        base + seq!['/'] + rel
    }
}

/// The index of the last separator in `p`; -1 when there is none.
pub open spec fn last_separator(p: Seq<char>) -> int
    decreases p.len(),
{
    if p.len() == 0 {
        -1
    } else if p.last() == '/' {
        p.len() - 1
    } else {
        last_separator(p.drop_last())
    }
}

/// Whether `n` is the name of a file or directory: not empty, without a
/// separator, and neither `.` nor `..`.
pub open spec fn plain_name(n: Seq<char>) -> bool {
    n.len() > 0 && !n.contains('/') && n != seq!['.'] && n != seq!['.', '.']
}

/// Whether `d` is a directory path that `Path::parent` gives back as it
/// stands: not empty, not ending in a separator, and neither `.` nor ending
/// in `/.`.
pub open spec fn plain_dir(d: Seq<char>) -> bool {
    &&& d.len() > 0
    &&& d.last() != '/'
    &&& d != seq!['.']
    &&& !(d.len() >= 2 && d[d.len() - 2] == '/' && d.last() == '.')
}

/// The parent of the path `p` as `Path::parent` gives it: `None` for a path
/// that ends in a root or is empty.
pub uninterp spec fn parent_path(p: Seq<char>) -> Option<Seq<char>>;

/// The path `p` with the extension of its file name set to `ext`, as
/// `Path::with_extension` builds it.
pub uninterp spec fn path_with_extension(p: Seq<char>, ext: Seq<char>) -> Seq<char>;

/// The path `p` relative to `base`, as `Path::strip_prefix` gives it: `None`
/// when `base` is not a prefix of `p`, component by component.
pub uninterp spec fn path_without_prefix(p: Seq<char>, base: Seq<char>) -> Option<Seq<char>>;

/// The texts of the components of `p`, as `Path::components` yields them:
/// `/` for the root, `.` and `..` for the current and parent directory,
/// and the names in between.
pub uninterp spec fn path_components(p: Seq<char>) -> Seq<Seq<char>>;

/// The names `names` joined by separators.
pub open spec fn joined_names(names: Seq<Seq<char>>) -> Seq<char>
    decreases names.len(),
{
    if names.len() == 0 {
        seq![]
    } else if names.len() == 1 {
        names[0]
    } else {
        joined_names(names.drop_last()) + seq!['/'] + names.last()
    }
}

/// Whether `names` is a non-empty list of plain names.
pub open spec fn plain_names(names: Seq<Seq<char>>) -> bool {
    names.len() > 0 && forall|k: int| 0 <= k < names.len() ==> plain_name(#[trigger] names[k])
}

/// The part of `p` before its last separator.
pub open spec fn dir_part(p: Seq<char>) -> Seq<char> {
    p.take(last_separator(p))
}

/// Whether `p` is a plain directory path, a separator and a plain name.
pub open spec fn dir_then_name(p: Seq<char>) -> bool {
    &&& last_separator(p) >= 0
    &&& plain_name(p.skip(last_separator(p) + 1))
    &&& plain_dir(dir_part(p))
}

/// Appends `rel` to the path `base` with `std::path::Path::join`.
///
/// Trusted: the result is `joined_path` of the two texts, as `PathBuf::push`
/// documents it on Unix (the path of text is UTF-8, and so is the result).
/// Joining plain names separated by single separators adds them to the
/// components of `base`, as `Path::components` documents its normalization
/// (repeated separators and `.` after the start are no components).
#[verifier::external_body]
pub(crate) fn join(base: &str, rel: &str) -> (r: String)
    ensures
        r@ == joined_path(base@, rel@),
        forall|names: Seq<Seq<char>>|
            #[trigger] joined_names(names) == rel@ && plain_names(names) ==> path_components(r@)
                == path_components(base@) + names,
{
    std::path::Path::new(base).join(rel).to_string_lossy().into_owned()
}

/// The parent of a path, with `std::path::Path::parent`.
///
/// Trusted: the result is the one named by `parent_path`. The parent is the
/// path without its final component, so it is shorter than the path; the
/// contract says this too, and that a path made of a plain directory path, a
/// separator and a plain name has that directory path as its parent. As
/// `Path::parent` documents, there is no parent exactly for a path with no
/// components or ending in the root, and the parent's components are the
/// path's without the last.
#[verifier::external_body]
pub(crate) fn parent(p: &str) -> (r: Option<&str>)
    ensures
        r matches Some(q) ==> parent_path(p@) == Some(q@) && q@.len() < p@.len(),
        r is None ==> parent_path(p@) is None,
        r is None ==> !dir_then_name(p@),
        r is None <==> (path_components(p@).len() == 0 || path_components(p@).last() == seq!['/']),
        r matches Some(q) ==> path_components(q@) == path_components(p@).drop_last(),
        r matches Some(q) ==> (dir_then_name(p@) ==> q@ == dir_part(p@)),
{
    std::path::Path::new(p).parent().and_then(std::path::Path::to_str)
}

/// The path with the extension of its file name replaced, with
/// `std::path::Path::with_extension`.
///
/// Trusted: the result is the one named by `path_with_extension`. The
/// extension holds no path separator: std panics on one.
#[verifier::external_body]
pub(crate) fn with_extension(p: &str, ext: &str) -> (r: String)
    requires
        !ext@.contains('/'),
    ensures
        r@ == path_with_extension(p@, ext@),
{
    std::path::Path::new(p).with_extension(ext).to_string_lossy().into_owned()
}

/// The path relative to `base`, with `std::path::Path::strip_prefix`.
///
/// Trusted: the result is the one named by `path_without_prefix`.
#[verifier::external_body]
pub(crate) fn strip_prefix(p: &str, base: &str) -> (r: Option<String>)
    ensures
        match r {
            Some(s) => path_without_prefix(p@, base@) == Some(s@),
            None => path_without_prefix(p@, base@) is None,
        },
{
    std::path::Path::new(p).strip_prefix(base).ok().map(|q| q.to_string_lossy().into_owned())
}

/// The components of a path, each as its text, with
/// `std::path::Path::components`.
///
/// Trusted: the result is the one named by `path_components`.
#[verifier::external_body]
pub(crate) fn components(p: &str) -> (r: Vec<String>)
    ensures
        r@.map_values(|s: String| s@) == path_components(p@),
{
    std::path::Path::new(p).components().map(|c| c.as_os_str().to_string_lossy().into_owned()).collect()
}

} // verus!
