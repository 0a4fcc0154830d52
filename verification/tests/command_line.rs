use pronto::cli::args::{parse_args, pick_run_target, resolve_run_target, ArgsError, CliContext};
use pronto::helpers::cli::argparser;
use pronto::helpers::cli::argparser::{ArgparseError, CliContext as Old};

fn words(ws: &[&str]) -> Vec<String> {
    ws.iter().map(|w| w.to_string()).collect()
}

#[test]
fn program_name_alone_is_missing_a_command() {
    let r = parse_args(words(&["pronto"]));
    assert_eq!(r, Err(ArgsError::MissingCommand { program: "pronto".to_string() }));
    assert_eq!(
        r.unwrap_err().message(),
        "Missing command. Please run pronto --help to know more."
    );
}

#[test]
fn a_c_file_is_compiled() {
    assert_eq!(
        parse_args(words(&["pronto", "src/main.c"])),
        Ok(CliContext::Compile { target: "src/main.c".to_string() })
    );
}

#[test]
fn keywords_select_commands() {
    assert_eq!(parse_args(words(&["p", "init"])), Ok(CliContext::Init));
    assert_eq!(parse_args(words(&["p", "-h"])), Ok(CliContext::Help));
    assert_eq!(parse_args(words(&["p", "--help"])), Ok(CliContext::Help));
    assert_eq!(parse_args(words(&["p", "-v"])), Ok(CliContext::Version));
    assert_eq!(parse_args(words(&["p", "--version"])), Ok(CliContext::Version));
    assert_eq!(parse_args(words(&["p", "clean"])), Ok(CliContext::Clean));
    assert_eq!(parse_args(words(&["p", "full-clean"])), Ok(CliContext::FullClean));
    assert_eq!(parse_args(words(&["p", "update"])), Ok(CliContext::Update));
}

#[test]
fn run_forwards_the_words_after_the_separator() {
    assert_eq!(
        parse_args(words(&["pronto", "run", "main.c", "--", "foo", "bar"])),
        Ok(CliContext::Run {
            target: Some("main.c".to_string()),
            program_args: words(&["foo", "bar"]),
        })
    );
    assert_eq!(
        parse_args(words(&["pronto", "run", "--", "--help"])),
        Ok(CliContext::Run { target: None, program_args: words(&["--help"]) })
    );
    assert_eq!(
        parse_args(words(&["pronto", "run"])),
        Ok(CliContext::Run { target: None, program_args: vec![] })
    );
    assert_eq!(
        parse_args(words(&["pronto", "run", "main.c", "--", "a", "--", "b"])),
        Ok(CliContext::Run {
            target: Some("main.c".to_string()),
            program_args: words(&["a", "--", "b"]),
        })
    );
}

#[test]
fn only_run_accepts_program_arguments() {
    for cmd in ["main.c", "init", "-h", "--version", "clean", "full-clean", "update"] {
        let r = parse_args(words(&["pronto", cmd, "--", "x"]));
        assert_eq!(r, Err(ArgsError::ProgramArgsNotSupported), "{}", cmd);
    }
    assert_eq!(
        ArgsError::ProgramArgsNotSupported.message(),
        "Only `pronto run` supports program arguments after `--`."
    );
    assert_eq!(parse_args(words(&["pronto", "init", "--"])), Ok(CliContext::Init));
}

#[test]
fn other_command_lines_are_refused() {
    let r = parse_args(words(&["pronto", "build"]));
    assert_eq!(r, Err(ArgsError::UnknownCommand { command: "build".to_string() }));
    assert_eq!(r.unwrap_err().message(), "Unknown command `build`");
    assert_eq!(parse_args(words(&["pronto", "clean", "x"])), Err(ArgsError::InvalidArgument));
    assert_eq!(parse_args(vec![]), Err(ArgsError::InvalidArgument));
    assert_eq!(parse_args(words(&["pronto", "a", "b", "c"])), Err(ArgsError::InvalidArgument));
    assert_eq!(parse_args(words(&["--", "x"])), Err(ArgsError::InvalidArgument));
    assert_eq!(ArgsError::InvalidArgument.message(), "Invalid argument provided.");
}

#[test]
fn a_given_run_target_is_kept() {
    assert_eq!(resolve_run_target(Some("x.c".to_string())), Some("x.c".to_string()));
}

#[test]
fn grammar_without_program_words_parses_targets_and_keywords() {
    assert_eq!(
        argparser::parse_args(words(&["pronto", "a.c"])),
        Ok(Old::Compile { target: "a.c".to_string() })
    );
    assert_eq!(
        argparser::parse_args(words(&["pronto", "run", "a.c"])),
        Ok(Old::Run { target: "a.c".to_string() })
    );
    assert_eq!(argparser::parse_args(words(&["pronto", "-h"])), Ok(Old::Help));
    assert_eq!(argparser::parse_args(words(&["pronto", "--version"])), Ok(Old::Version));
    assert_eq!(argparser::parse_args(words(&["pronto", "clean"])), Ok(Old::Clean));
    assert_eq!(argparser::parse_args(words(&["pronto", "update"])), Ok(Old::Update));
    let r = argparser::parse_args(words(&["pronto", "run"]));
    assert_eq!(r, Err(ArgparseError::RunWithoutTarget));
    assert_eq!(
        r.unwrap_err().message(),
        "run expects at least one argument (the path of the c file to compile)."
    );
    let r = argparser::parse_args(words(&["pronto"]));
    assert_eq!(
        r.unwrap_err().message(),
        "At least one arg is requred (a path, or run, clean...). Please run pronto help to know more."
    );
    assert_eq!(
        argparser::parse_args(words(&["pronto", "init"])),
        Err(ArgparseError::UnknownCommand { command: "init".to_string() })
    );
    assert_eq!(argparser::parse_args(words(&["pronto", "x", "y"])), Err(ArgparseError::InvalidArgument));
}

#[test]
fn help_word_asks_for_help() {
    assert_eq!(parse_args(words(&["pronto", "help"])), Ok(CliContext::Help));
    assert_eq!(
        parse_args(words(&["pronto", "help", "--", "x"])),
        Err(ArgsError::ProgramArgsNotSupported)
    );
}

#[test]
fn clean_full_removes_everything() {
    assert_eq!(parse_args(words(&["pronto", "clean", "--full"])), Ok(CliContext::FullClean));
    assert_eq!(
        parse_args(words(&["pronto", "clean", "--full", "--", "x"])),
        Err(ArgsError::ProgramArgsNotSupported)
    );
    assert_eq!(parse_args(words(&["pronto", "clean", "--fast"])), Err(ArgsError::InvalidArgument));
}

#[test]
fn run_target_prefers_main_c() {
    assert_eq!(pick_run_target(None, true, true), Some("main.c".to_string()));
    assert_eq!(pick_run_target(None, true, false), Some("main.c".to_string()));
    assert_eq!(pick_run_target(None, false, true), Some("src/main.c".to_string()));
    assert_eq!(pick_run_target(None, false, false), None);
    assert_eq!(pick_run_target(Some("a.c".to_string()), false, false), Some("a.c".to_string()));
    assert_eq!(pick_run_target(Some("a.c".to_string()), true, true), Some("a.c".to_string()));
}
