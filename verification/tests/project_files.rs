use std::path::Path;

use pronto::helpers::cli::build_dir as get_layout;
use pronto::project::executables::{
    add_executable, clean_action, get_executables_list_file_path, parse_executables_registry, registry_content,
    remove_executable, CleanAction,
};
use pronto::project::gitignore::gitignore_with_entry;
use pronto::project::{build_dir_action, BuildDirAction, find_project_root, resolve_build_dir, resolve_pronto_dir, root_search_step, RootSearch};
use pronto::build_dir::executables as cwd_registry;

fn strings(ws: &[&str]) -> Vec<String> {
    ws.iter().map(|w| w.to_string()).collect()
}

#[test]
fn without_markers_the_root_is_above_the_target_directory() {
    assert_eq!(find_project_root(Some("/pronto_no_such_dir/app/lib/main.c")), "/pronto_no_such_dir/app");
    assert_eq!(find_project_root(Some("/pronto_no_such_dir/app/src/lib/x.c")), "/pronto_no_such_dir/app");
    assert_eq!(
        resolve_pronto_dir(Some("/pronto_no_such_dir/app/lib/main.c")),
        "/pronto_no_such_dir/app/.pronto"
    );
    assert_eq!(
        resolve_build_dir(Some("/pronto_no_such_dir/app/lib/main.c")),
        "/pronto_no_such_dir/app/.pronto/build"
    );
    assert_eq!(
        get_executables_list_file_path(Some("/pronto_no_such_dir/app/lib/main.c")),
        "/pronto_no_such_dir/app/.pronto/executables.txt"
    );
    assert_eq!(get_layout::find_project_root(Some("/pronto_no_such_dir/w/x/y.c")), "/pronto_no_such_dir/w");
    assert_eq!(get_layout::get_pronto_dir(Some("/pronto_no_such_dir/w/x/y.c")), "/pronto_no_such_dir/w/.pronto");
    assert_eq!(
        get_layout::get_build_dir(Some("/pronto_no_such_dir/w/x/y.c")),
        "/pronto_no_such_dir/w/.pronto/build"
    );
}

#[test]
fn the_walk_stops_at_a_marker_and_climbs_otherwise() {
    assert_eq!(root_search_step("/a/b", "/a/b", true, false), RootSearch::Found("/a/b".to_string()));
    assert_eq!(root_search_step("/a/b", "/a/b", false, true), RootSearch::Found("/a/b".to_string()));
    assert_eq!(root_search_step("/a/b", "/a/b", false, false), RootSearch::Climb("/a".to_string()));
    assert_eq!(root_search_step("/", "/p/src/x", false, false), RootSearch::Fallback("/p".to_string()));
    assert_eq!(root_search_step("/", "/p/q/x", false, false), RootSearch::Fallback("/p/q".to_string()));
}

#[test]
fn registry_text_reads_back_trimmed_nonblank_lines() {
    assert_eq!(
        parse_executables_registry("/a/main\n  /b/app  \n\n \t\n/c/x\r\n"),
        strings(&["/a/main", "/b/app", "/c/x"])
    );
    let list = strings(&["/p/one", "/p/two"]);
    let text = registry_content(&list);
    assert_eq!(text, "/p/one\n/p/two\n");
    assert_eq!(parse_executables_registry(&text), list);
    assert_eq!(registry_content(&vec![]), "");
}

#[test]
fn cwd_registry_keeps_blank_lines() {
    assert_eq!(cwd_registry::get_executables_list_file_path(), ".pronto/executables.txt");
    assert_eq!(cwd_registry::parse_executables(" a \n\nb"), strings(&["a", "", "b"]));
    assert_eq!(cwd_registry::executables_file_content(&strings(&["a", "b"])), "a\nb\n");
    let written = strings(&["a", "", "c d"]);
    let text = cwd_registry::executables_file_content(&written);
    assert_eq!(cwd_registry::parse_executables(&text), written);
    let mut list = strings(&["a"]);
    assert!(cwd_registry::add_executable(&mut list, "b".to_string()));
    assert!(!cwd_registry::add_executable(&mut list, "b".to_string()));
    cwd_registry::remove_executable(&mut list, "a");
    assert_eq!(list, strings(&["b"]));
}

#[test]
fn adding_registers_a_path_once() {
    let mut list = strings(&["/p/one"]);
    assert!(add_executable(&mut list, "/p/two".to_string()));
    assert_eq!(list, strings(&["/p/one", "/p/two"]));
    assert!(!add_executable(&mut list, "/p/two".to_string()));
    assert!(!add_executable(&mut list, "/p//two".to_string()));
    assert_eq!(list, strings(&["/p/one", "/p/two"]));
}

#[test]
fn removing_drops_every_entry_for_the_path() {
    let mut list = strings(&["/p/one", "/p/two", "/p//one", "/q"]);
    remove_executable(&mut list, "/p/one");
    assert_eq!(list, strings(&["/p/two", "/q"]));
    remove_executable(&mut list, "/none");
    assert_eq!(list, strings(&["/p/two", "/q"]));
}

#[test]
fn gitignore_gets_a_pronto_block_once() {
    assert_eq!(gitignore_with_entry("", ".pronto"), Some("# Pronto\n.pronto/\n".to_string()));
    assert_eq!(
        gitignore_with_entry("target\n", ".pronto"),
        Some("target\n\n# Pronto\n.pronto/\n".to_string())
    );
    assert_eq!(
        gitignore_with_entry("target", ".pronto"),
        Some("target\n\n# Pronto\n.pronto/\n".to_string())
    );
    assert_eq!(
        gitignore_with_entry("# Pronto\nbuild/\n", ".pronto"),
        Some("# Pronto\nbuild/\n\n.pronto/\n".to_string())
    );
    let once = gitignore_with_entry("node_modules\n", ".pronto").unwrap();
    assert_eq!(gitignore_with_entry(&once, ".pronto"), None);
    assert_eq!(gitignore_with_entry("x/.pronto/y", ".pronto"), None);
}

#[test]
fn build_dir_decision_table() {
    assert_eq!(build_dir_action(false, false), BuildDirAction::Create);
    assert_eq!(build_dir_action(true, true), BuildDirAction::UseExisting);
    assert_eq!(build_dir_action(true, false), BuildDirAction::NotAFolder);
}

#[test]
fn clean_decision_table() {
    assert_eq!(clean_action(true, true), CleanAction::DeleteFile);
    assert_eq!(clean_action(true, false), CleanAction::Unregister);
    assert_eq!(clean_action(false, false), CleanAction::Unregister);
}

#[test]
fn layout_paths_end_in_their_names() {
    let t = Some("/pronto_no_such_dir/app/src/main.c");
    let name = |p: &str| Path::new(p).file_name().and_then(|n| n.to_str()).map(String::from);
    assert_eq!(name(&resolve_pronto_dir(t)), Some(".pronto".to_string()));
    assert_eq!(name(&resolve_build_dir(t)), Some("build".to_string()));
    assert!(resolve_build_dir(t).ends_with(".pronto/build"));
    assert_eq!(name(&get_executables_list_file_path(t)), Some("executables.txt".to_string()));
    assert_eq!(name(&get_layout::get_pronto_dir(t)), Some(".pronto".to_string()));
    assert_eq!(name(&get_layout::get_build_dir(t)), Some("build".to_string()));
    assert!(get_layout::get_build_dir(None).ends_with(".pronto/build"));
}
