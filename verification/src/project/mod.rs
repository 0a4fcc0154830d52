//! Where a project's files live: its root is the nearest directory, walking up
//! from the target's directory, that holds `.git` or `.pronto`; the build
//! directory is `<root>/.pronto/build`.
use vstd::prelude::*;

pub mod executables;
pub mod gitignore;

use crate::paths::{is_dir, join, parent, file_name, path_file_name, path_join, path_parent};
use crate::text::str_eq;

verus! {

pub const GIT_DIR: &'static str = ".git";
pub const PRONTO_DIR: &'static str = ".pronto";
pub const BUILD_DIR: &'static str = "build";

/// The view of an optional target path.
pub open spec fn target_view(t: Option<&str>) -> Option<Seq<char>> {
    match t {
        Some(p) => Some(p@),
        None => None,
    }
}

/// The directory the search starts from: the target's parent, or `.`.
pub open spec fn start_dir(target: Option<Seq<char>>) -> Seq<char> {
    match target {
        Some(p) => match path_parent(p) {
            Some(q) => q,
            None => "."@,
        },
        None => "."@,
    }
}

/// The `k`-th ancestor of `p` (`p` itself for `k == 0`), if there is one.
pub open spec fn ancestor(p: Seq<char>, k: nat) -> Option<Seq<char>>
    decreases k,
{
    if k == 0 {
        Some(p)
    } else {
        match ancestor(p, (k - 1) as nat) {
            Some(q) => path_parent(q),
            None => None,
        }
    }
}

/// The root taken when no ancestor of the start holds a marker: the start's
/// parent (or `.`), or that directory's parent when it is named `src`.
pub open spec fn fallback_root(start: Seq<char>) -> Seq<char> {
    let d = match path_parent(start) {
        Some(q) => q,
        None => "."@,
    };
    if path_file_name(d) == Some("src"@) {
        match path_parent(d) {
            Some(q) => q,
            None => d,
        }
    } else {
        d
    }
}

/// One step of the walk up the directory tree.
#[derive(Debug, Clone, PartialEq, Eq)]
pub enum RootSearch {
    /// The current directory holds a marker: it is the root.
    Found(String),
    /// Go on with the parent directory.
    Climb(String),
    /// No directory up to the file-system root holds a marker: this is the root.
    Fallback(String),
}

/// Decides one step of the walk: `current` is the directory looked at, `start`
/// where the walk began, and `has_git` / `has_pronto` whether `current` holds
/// a `.git` / `.pronto` directory.
pub fn root_search_step(current: &str, start: &str, has_git: bool, has_pronto: bool) -> (r: RootSearch)
    ensures
        has_git || has_pronto ==> (r matches RootSearch::Found(d) && d@ == current@),
        !has_git && !has_pronto && path_parent(current@) is Some ==> (r matches RootSearch::Climb(d)
            && Some(d@) == path_parent(current@)),
        !has_git && !has_pronto && path_parent(current@) is None ==> (r matches RootSearch::Fallback(
            d,
        ) && d@ == fallback_root(start@)),
        r matches RootSearch::Climb(d) ==> d@.len() < current@.len(),
{
    if has_git || has_pronto {
        return RootSearch::Found(current.to_owned());
    }
    match parent(current) {
        Some(up) => RootSearch::Climb(up),
        None => {
            let default_path = match parent(start) {
                Some(q) => q,
                None => ".".to_owned(),
            };
            let is_src = match file_name(default_path.as_str()) {
                Some(name) => str_eq(name.as_str(), "src"),
                None => false,
            };
            if is_src {
                match parent(default_path.as_str()) {
                    Some(q) => RootSearch::Fallback(q),
                    None => RootSearch::Fallback(default_path),
                }
            } else {
                RootSearch::Fallback(default_path)
            }
        },
    }
}

/// The project root for a target file (or for the current directory): the
/// first of the start directory and its ancestors that holds `.git` or
/// `.pronto`, else `fallback_root` of the start directory.
pub fn find_project_root(target_path: Option<&str>) -> (r: String)
    ensures
        (exists|k: nat| ancestor(start_dir(target_view(target_path)), k) == Some(r@))
            || r@ == fallback_root(start_dir(target_view(target_path))),
{
    let ghost start = start_dir(target_view(target_path));
    let mut current = match target_path {
        Some(path) => match parent(path) {
            Some(q) => q,
            None => ".".to_owned(),
        },
        None => ".".to_owned(),
    };
    let initial_path = current.clone();
    let ghost mut k: nat = 0;
    assert(ancestor(start, 0) == Some(start));
    loop
        invariant
            start == start_dir(target_view(target_path)),
            initial_path@ == start,
            ancestor(start, k) == Some(current@),
        decreases current@.len(),
    {
        let has_git = is_dir(join(current.as_str(), GIT_DIR).as_str());
        let has_pronto = !has_git && is_dir(join(current.as_str(), PRONTO_DIR).as_str());
        match root_search_step(current.as_str(), initial_path.as_str(), has_git, has_pronto) {
            RootSearch::Found(d) => {
                assert(ancestor(start, k) == Some(d@));
                return d;
            },
            RootSearch::Climb(up) => {
                proof {
                    k = k + 1;
                }
                current = up;
            },
            RootSearch::Fallback(d) => {
                return d;
            },
        }
    }
}

/// What to do about the build directory's place on disk.
#[derive(Debug, Clone, Copy, PartialEq, Eq)]
pub enum BuildDirAction {
    /// A directory is there already: use it.
    UseExisting,
    /// Something that is not a directory is there: refuse.
    NotAFolder,
    /// Nothing is there: create the directory (and its parents).
    Create,
}

/// Decides about the build directory, given whether something exists at its
/// place and whether that is a directory.
pub fn build_dir_action(exists: bool, is_dir: bool) -> (a: BuildDirAction)
    ensures
        a == (if !exists {
            BuildDirAction::Create
        } else if is_dir {
            BuildDirAction::UseExisting
        } else {
            BuildDirAction::NotAFolder
        }),
{
    if exists {
        if !is_dir {
            return BuildDirAction::NotAFolder;
        }
        return BuildDirAction::UseExisting;
    }
    BuildDirAction::Create
}

/// The `.pronto` directory of project root `root`.
pub open spec fn pronto_dir_of(root: Seq<char>) -> Seq<char> {
    path_join(root, ".pronto"@)
}

/// The build directory of project root `root`: `build` in its `.pronto`.
pub open spec fn build_dir_of(root: Seq<char>) -> Seq<char> {
    path_join(pronto_dir_of(root), "build"@)
}

/// The registry of executables of project root `root`: `executables.txt` in
/// its `.pronto`, beside the build directory.
pub open spec fn registry_file_of(root: Seq<char>) -> Seq<char> {
    path_join(pronto_dir_of(root), "executables.txt"@)
}

/// For one project root, the build directory and the registry of executables
/// sit in the same `.pronto` directory, so building and cleaning with the same
/// target (and the same directories on disk) share one registry.
pub proof fn law_registry_beside_build_dir(root: Seq<char>)
    ensures
        build_dir_of(root) == path_join(pronto_dir_of(root), "build"@),
        registry_file_of(root) == path_join(pronto_dir_of(root), "executables.txt"@),
        pronto_dir_of(root) == path_join(root, ".pronto"@),
{
}

/// `root` is a project root that `find_project_root` may give for `target`.
pub open spec fn is_project_root(target: Option<Seq<char>>, root: Seq<char>) -> bool {
    (exists|k: nat| ancestor(start_dir(target), k) == Some(root))
        || root == fallback_root(start_dir(target))
}

/// The `.pronto` directory of the target's project.
pub fn resolve_pronto_dir(target_path: Option<&str>) -> (r: String)
    ensures
        exists|root: Seq<char>|
            is_project_root(target_view(target_path), root) && r@ == pronto_dir_of(root),
        path_file_name(r@) == Some(".pronto"@),
{
    proof {
        reveal_strlit(".pronto");
    }
    let root = find_project_root(target_path);
    let r = join(root.as_str(), PRONTO_DIR);
    assert(is_project_root(target_view(target_path), root@) && r@ == pronto_dir_of(root@));
    r
}

/// The build directory (`.pronto/build`) of the target's project.
pub fn resolve_build_dir(target_path: Option<&str>) -> (r: String)
    ensures
        exists|root: Seq<char>|
            is_project_root(target_view(target_path), root) && r@ == build_dir_of(root)
                && path_file_name(pronto_dir_of(root)) == Some(".pronto"@),
        path_file_name(r@) == Some("build"@),
{
    proof {
        reveal_strlit("build");
    }
    let pronto = resolve_pronto_dir(target_path);
    let ghost root = choose|root: Seq<char>|
        is_project_root(target_view(target_path), root) && pronto@ == pronto_dir_of(root);
    let r = join(pronto.as_str(), BUILD_DIR);
    assert(is_project_root(target_view(target_path), root) && r@ == build_dir_of(root)
        && path_file_name(pronto_dir_of(root)) == Some(".pronto"@));
    r
}

} // verus!
