//! Where a project's files live, under the `get_*` names: the same root search
//! as `project`, with `.pronto` and `.pronto/build` under the root.
use vstd::prelude::*;

use crate::paths::{join, path_file_name};
use crate::project::{build_dir_of, is_project_root, pronto_dir_of, target_view};

verus! {

pub const PRONTO_DIR: &'static str = ".pronto";

/// The project root for a target file (or for the current directory).
pub fn find_project_root(target_path: Option<&str>) -> (r: String)
    ensures
        is_project_root(target_view(target_path), r@),
{
    crate::project::find_project_root(target_path)
}

/// The `.pronto` directory of the target's project.
pub fn get_pronto_dir(target_path: Option<&str>) -> (r: String)
    ensures
        exists|root: Seq<char>|
            is_project_root(target_view(target_path), root) && r@ == pronto_dir_of(root),
        path_file_name(r@) == Some(".pronto"@),
{
    proof {
        reveal_strlit(".pronto");
    }
    let project_root = find_project_root(target_path);
    let r = join(project_root.as_str(), PRONTO_DIR);
    assert(is_project_root(target_view(target_path), project_root@) && r@ == pronto_dir_of(
        project_root@,
    ));
    r
}

/// The build directory (`.pronto/build`) of the target's project.
pub fn get_build_dir(target_path: Option<&str>) -> (r: String)
    ensures
        exists|root: Seq<char>|
            is_project_root(target_view(target_path), root) && r@ == build_dir_of(root)
                && path_file_name(pronto_dir_of(root)) == Some(".pronto"@),
        path_file_name(r@) == Some("build"@),
{
    proof {
        reveal_strlit("build");
    }
    let pronto = get_pronto_dir(target_path);
    let ghost root = choose|root: Seq<char>|
        is_project_root(target_view(target_path), root) && pronto@ == pronto_dir_of(root);
    let r = join(pronto.as_str(), "build");
    assert(is_project_root(target_view(target_path), root) && r@ == build_dir_of(root)
        && path_file_name(pronto_dir_of(root)) == Some(".pronto"@));
    r
}

} // verus!
