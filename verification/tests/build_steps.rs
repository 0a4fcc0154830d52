use pronto::build_dir::compiler::{needs_recompilation, ObjectWalk};
use pronto::build_dir::dependencies::{dot_d_is_readable, implementation_if_present, parse_dot_d_dependencies, Dependency};
use pronto::build_dir::linker::{executable_path, is_c_target, link_arguments, link_precheck, LinkRefusal};
use pronto::helpers::gcc::dependencies::analyzer::analyse_dot_d_file;
use pronto::helpers::gcc::dependencies::Dependency as AnalyzerDependency;
use pronto::toolchain::gcc::{
    compile_object_arguments, dependency_file_path, gcc_outcome, object_file_path, GccError,
};
use pronto::versionning::{get_pronto_version, has_update_available, release_tag, PRONTO_TAG};

fn strings(ws: &[&str]) -> Vec<String> {
    ws.iter().map(|w| w.to_string()).collect()
}

const DOT_D: &str = "# generated\n.pronto/build/main.o: main.c /pronto_no_such_dir/util.h \\\n  /pronto_no_such_dir/io.h notes.txt\n\n";

#[test]
fn dependency_file_lists_sources_and_headers() {
    assert!(dot_d_is_readable(DOT_D));
    let scan = parse_dot_d_dependencies(DOT_D);
    assert_eq!(
        scan.dependencies,
        vec![
            Dependency::Source { file: "main.c".to_string() },
            Dependency::Header { file: "/pronto_no_such_dir/util.h".to_string(), source_file: None },
            Dependency::Header { file: "/pronto_no_such_dir/io.h".to_string(), source_file: None },
        ]
    );
    assert_eq!(scan.unsupported, strings(&["notes.txt"]));
    let analysed = analyse_dot_d_file(DOT_D);
    assert_eq!(analysed.dependencies.len(), 3);
    assert_eq!(analysed.dependencies[0], AnalyzerDependency::Source { file: "main.c".to_string() });
    assert_eq!(analysed.unsupported, strings(&["notes.txt"]));
}

#[test]
fn words_after_a_backslash_are_dropped_and_later_lines_continue() {
    let text = "a.o: x.c \\ y.c\nz.h: w.c\n";
    let scan = parse_dot_d_dependencies(text);
    assert_eq!(
        scan.dependencies,
        vec![
            Dependency::Source { file: "x.c".to_string() },
            Dependency::Header { file: "z.h".to_string(), source_file: None },
        ]
    );
}

#[test]
fn a_rule_line_without_separator_cannot_be_read() {
    assert!(!dot_d_is_readable("main.o:main.c\n"));
    assert!(dot_d_is_readable(""));
    assert!(dot_d_is_readable("# only a comment\n"));
}

#[test]
fn dependencies_are_described() {
    assert_eq!(Dependency::Source { file: "a.c".to_string() }.describe(), "[Source] a.c");
    assert_eq!(
        Dependency::Header { file: "a.h".to_string(), source_file: Some("a.c".to_string()) }.describe(),
        "[Header] a.h (Implementation: a.c)"
    );
    assert_eq!(
        Dependency::Header { file: "a.h".to_string(), source_file: None }.describe(),
        "[Header] a.h (Implementation: None)"
    );
    assert_eq!(
        AnalyzerDependency::Header { file: "b.h".to_string(), source_file: None }.describe(),
        "[Header] b.h (Implementation: None)"
    );
}

#[test]
fn gcc_failures_are_reported() {
    let e = GccError { code: Some(1), stderr: "  \n".to_string() };
    assert_eq!(e.message(), "gcc failed with exit code 1");
    let e = GccError { code: Some(-42), stderr: String::new() };
    assert_eq!(e.message(), "gcc failed with exit code -42");
    let e = GccError { code: None, stderr: String::new() };
    assert_eq!(e.message(), "gcc failed");
    let e = GccError { code: Some(1), stderr: " main.c:1: error\n".to_string() };
    assert_eq!(e.message(), "main.c:1: error");
    assert_eq!(gcc_outcome(true, Some(0), "warning"), Ok(()));
    assert_eq!(
        gcc_outcome(false, Some(2), " boom \n"),
        Err(GccError { code: Some(2), stderr: "boom".to_string() })
    );
}

#[test]
fn object_and_dependency_files_mirror_the_target() {
    assert_eq!(object_file_path("src/main.c", ".pronto/build"), ".pronto/build/src/main.o");
    assert_eq!(dependency_file_path("src/main.c", ".pronto/build"), ".pronto/build/src/main.d");
    assert_eq!(
        compile_object_arguments("src/main.c", ".pronto/build/src/main.o"),
        strings(&["-MMD", "src/main.c", "-c", "-o", ".pronto/build/src/main.o"])
    );
}

#[test]
fn linking_names_the_executable_after_the_target() {
    assert!(is_c_target("src/main.c"));
    assert!(!is_c_target("src/main.h"));
    assert_eq!(executable_path("src/main.c"), "src/main");
    assert_eq!(
        link_arguments(&strings(&["a.o", "b.o"]), &strings(&["-lm"]), "src/main"),
        strings(&["a.o", "b.o", "-lm", "-o", "src/main"])
    );
    assert_eq!(link_arguments(&vec![], &vec![], "x"), strings(&["-o", "x"]));
}

#[test]
fn the_walk_hands_out_each_source_once_depth_first() {
    let mut walk = ObjectWalk::new("main.c".to_string());
    assert_eq!(walk.next_target(), Some("main.c".to_string()));
    walk.record(
        "main.o".to_string(),
        &vec![
            Dependency::Header { file: "a.h".to_string(), source_file: Some("a.c".to_string()) },
            Dependency::Source { file: "main.c".to_string() },
            Dependency::Header { file: "b.h".to_string(), source_file: Some("b.c".to_string()) },
            Dependency::Header { file: "c.h".to_string(), source_file: None },
        ],
    );
    assert_eq!(walk.next_target(), Some("a.c".to_string()));
    walk.record(
        "a.o".to_string(),
        &vec![
            Dependency::Header { file: "b.h".to_string(), source_file: Some("b.c".to_string()) },
            Dependency::Header { file: "m.h".to_string(), source_file: Some("main.c".to_string()) },
        ],
    );
    assert_eq!(walk.next_target(), Some("b.c".to_string()));
    walk.record("b.o".to_string(), &vec![]);
    assert_eq!(walk.next_target(), None);
    assert_eq!(walk.into_objects(), strings(&["main.o", "a.o", "b.o"]));
}

#[test]
fn recompilation_is_skipped_only_for_fresh_artifacts() {
    assert!(needs_recompilation(false, None));
    assert!(needs_recompilation(false, Some(false)));
    assert!(needs_recompilation(true, None));
    assert!(needs_recompilation(true, Some(true)));
    assert!(!needs_recompilation(true, Some(false)));
}

#[test]
fn release_tags_and_updates() {
    assert_eq!(get_pronto_version(), PRONTO_TAG);
    assert_eq!(
        release_tag("https://github.com/bengaudry/pronto/releases/tag/v1.2.0\n"),
        "v1.2.0"
    );
    assert_eq!(release_tag("v9"), "v9");
    assert_eq!(release_tag("https://x/"), "");
    assert!(!has_update_available(None));
    assert!(!has_update_available(Some(PRONTO_TAG.to_string())));
    assert!(has_update_available(Some("v99.0.0".to_string())));
}

#[test]
fn an_implementation_is_reported_only_when_present() {
    assert_eq!(implementation_if_present("a.c".to_string(), true), Some("a.c".to_string()));
    assert_eq!(implementation_if_present("a.c".to_string(), false), None);
}

#[test]
fn link_checks_come_in_order() {
    assert_eq!(link_precheck("main.h", false), Err(LinkRefusal::NotCSource));
    assert_eq!(link_precheck("main.h", true), Err(LinkRefusal::NotCSource));
    assert_eq!(link_precheck("main.c", false), Err(LinkRefusal::GccUnavailable));
    assert_eq!(link_precheck("main.c", true), Ok(()));
    assert_eq!(LinkRefusal::NotCSource.message(), "Expected a C file as argument.");
    assert_eq!(LinkRefusal::GccUnavailable.message(), "gcc not available.");
}

#[test]
fn exit_codes_are_written_in_decimal() {
    for code in [0, 7, 10, 99, 100, 255, -1, -10, i32::MAX, i32::MIN] {
        let e = GccError { code: Some(code), stderr: String::new() };
        assert_eq!(e.message(), format!("gcc failed with exit code {}", code));
    }
}
