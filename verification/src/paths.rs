//! File-system paths, held as strings. What `std::path` computes from a path
//! (its parent, a join, an extension swap, its file name, component-wise
//! equality) is named here and obtained from `std::path`; what the disk holds
//! (whether a path exists, is a directory, is a file) is queried, and nothing
//! is claimed of the answer.
use vstd::prelude::*;

verus! {

/// What `Path::parent` gives for a path.
pub uninterp spec fn path_parent(p: Seq<char>) -> Option<Seq<char>>;

/// What `Path::join` gives for a base path and a second path.
pub uninterp spec fn path_join(base: Seq<char>, rest: Seq<char>) -> Seq<char>;

/// What `Path::with_extension` gives for a path and an extension.
pub uninterp spec fn path_with_extension(p: Seq<char>, ext: Seq<char>) -> Seq<char>;

/// What `Path::file_name` gives for a path.
pub uninterp spec fn path_file_name(p: Seq<char>) -> Option<Seq<char>>;

/// Whether `Path`'s `==` holds between two paths (it compares components).
pub uninterp spec fn path_eq(a: Seq<char>, b: Seq<char>) -> bool;

/// Two paths that `Path`'s `==` takes as equal; equal text always is.
pub open spec fn same_path_spec(a: Seq<char>, b: Seq<char>) -> bool {
    a == b || path_eq(a, b)
}

/// `Path::parent`. The result is named by `path_parent`; as the documentation
/// says, a parent is the path without its final component, so it is shorter.
#[verifier::external_body]
pub(crate) fn parent(p: &str) -> (r: Option<String>)
    ensures
        match r {
            Some(q) => path_parent(p@) == Some(q@) && q@.len() < p@.len(),
            None => path_parent(p@) is None,
        },
{
    std::path::Path::new(p).parent().map(|q| q.to_string_lossy().into_owned())
}

/// A single ordinary path component: not empty, not `.` or `..`, and with no
/// separator (`/`, `\\`) or drive mark (`:`) in it.
pub open spec fn single_component(c: Seq<char>) -> bool {
    &&& c.len() > 0
    &&& c != seq!['.']
    &&& c != seq!['.', '.']
    &&& forall|k: int| 0 <= k < c.len() ==> c[k] != '/' && c[k] != '\\' && c[k] != ':'
}

/// `Path::join`, named by `path_join`. Joining a single ordinary component
/// appends it (`PathBuf::push` with a relative path), so it becomes the final
/// component, which is what `Path::file_name` gives.
#[verifier::external_body]
pub(crate) fn join(base: &str, rest: &str) -> (r: String)
    ensures
        r@ == path_join(base@, rest@),
        single_component(rest@) ==> path_file_name(r@) == Some(rest@),
{
    std::path::Path::new(base).join(rest).to_string_lossy().into_owned()
}

/// An extension that `PathBuf::set_extension` accepts: its documentation says
/// that it panics when the extension holds a path separator.
pub open spec fn extension_ok(ext: Seq<char>) -> bool {
    forall|k: int| 0 <= k < ext.len() ==> ext[k] != '/' && ext[k] != '\\'
}

/// `Path::with_extension`, named by `path_with_extension`; only for an
/// extension without path separators, on which it does not panic.
#[verifier::external_body]
pub(crate) fn with_extension(p: &str, ext: &str) -> (r: String)
    requires
        extension_ok(ext@),
    ensures
        r@ == path_with_extension(p@, ext@),
{
    std::path::Path::new(p).with_extension(ext).to_string_lossy().into_owned()
}

/// `Path::file_name`, named by `path_file_name`.
#[verifier::external_body]
pub(crate) fn file_name(p: &str) -> (r: Option<String>)
    ensures
        match r {
            Some(n) => path_file_name(p@) == Some(n@),
            None => path_file_name(p@) is None,
        },
{
    std::path::Path::new(p).file_name().map(|n| n.to_string_lossy().into_owned())
}

/// `==` on `Path`, named by `path_eq`. `Path` implements `Eq`, so a path
/// equals itself.
#[verifier::external_body]
pub(crate) fn same_path(a: &str, b: &str) -> (r: bool)
    ensures
        r == path_eq(a@, b@),
        a@ == b@ ==> r,
        r == same_path_spec(a@, b@),
{
    std::path::Path::new(a) == std::path::Path::new(b)
}

/// `Path::is_dir`: asks the file system; nothing is claimed of the answer.
#[verifier::external_body]
pub(crate) fn is_dir(p: &str) -> bool {
    std::path::Path::new(p).is_dir()
}

/// `Path::exists`: asks the file system; nothing is claimed of the answer.
#[verifier::external_body]
pub(crate) fn path_exists(p: &str) -> bool {
    std::path::Path::new(p).exists()
}

/// `Path::is_file`: asks the file system; nothing is claimed of the answer.
#[verifier::external_body]
pub(crate) fn is_file(p: &str) -> bool {
    std::path::Path::new(p).is_file()
}

} // verus!
