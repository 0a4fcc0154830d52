//! Command-line parsing: the words after the program name select a command,
//! and the words after the first `--` are handed to the program that `run` starts.
use vstd::prelude::*;

use crate::paths::is_file;
use crate::text::{ends_with, str_ends_with, str_eq, views};

verus! {

/// What the command line asks for.
#[derive(Debug, Clone, PartialEq, Eq)]
pub enum CliContext {
    Init,
    Compile { target: String },
    Run { target: Option<String>, program_args: Vec<String> },
    Clean,
    FullClean,
    Version,
    Help,
    Update,
}

/// Why a command line was refused; every refusal is an invalid-input error.
#[derive(Debug, Clone, PartialEq, Eq)]
pub enum ArgsError {
    /// Only the program name was given.
    MissingCommand { program: String },
    /// Words after `--` were given to a command other than `run`.
    ProgramArgsNotSupported,
    /// A single word that names no command.
    UnknownCommand { command: String },
    /// Any other shape of command line.
    InvalidArgument,
}

/// Index of the first `--` in `args` at or after `i`, or -1.
pub open spec fn separator_from(args: Seq<Seq<char>>, i: int) -> int
    decreases args.len() - i,
{
    if i < 0 || i >= args.len() {
        -1
    } else if args[i] == "--"@ {
        i
    } else {
        separator_from(args, i + 1)
    }
}

pub open spec fn separator_index(args: Seq<Seq<char>>) -> int {
    separator_from(args, 0)
}

/// The words before the first `--` (all words when there is none).
pub open spec fn cli_part(args: Seq<Seq<char>>) -> Seq<Seq<char>> {
    let p = separator_index(args);
    if p < 0 {
        args
    } else {
        args.take(p)
    }
}

/// The words after the first `--` (none when there is no `--`).
pub open spec fn program_part(args: Seq<Seq<char>>) -> Seq<Seq<char>> {
    let p = separator_index(args);
    if p < 0 {
        Seq::empty()
    } else {
        args.skip(p + 1)
    }
}

/// The command that a single keyword names, other than `run` and a `.c` target.
pub open spec fn keyword_command(w: Seq<char>) -> Option<CliContext> {
    if w == "init"@ {
        Some(CliContext::Init)
    } else if w == "help"@ || w == "-h"@ || w == "--help"@ {
        Some(CliContext::Help)
    } else if w == "-v"@ || w == "--version"@ {
        Some(CliContext::Version)
    } else if w == "clean"@ {
        Some(CliContext::Clean)
    } else if w == "full-clean"@ {
        Some(CliContext::FullClean)
    } else if w == "update"@ {
        Some(CliContext::Update)
    } else {
        None
    }
}

/// `r` is what the command line `args` (program name first) asks for.
pub open spec fn parses_to(args: Seq<Seq<char>>, r: Result<CliContext, ArgsError>) -> bool {
    let cli = cli_part(args);
    let prog = program_part(args);
    if cli.len() == 1 {
        r matches Err(ArgsError::MissingCommand { program }) && program@ == cli[0]
    } else if cli.len() == 2 {
        let w = cli[1];
        if ends_with(w, ".c"@) {
            if prog.len() > 0 {
                r == Err::<CliContext, ArgsError>(ArgsError::ProgramArgsNotSupported)
            } else {
                r matches Ok(CliContext::Compile { target }) && target@ == w
            }
        } else if w == "run"@ {
            r matches Ok(CliContext::Run { target, program_args }) && target is None
                && views(program_args@) == prog
        } else if keyword_command(w) is Some {
            if prog.len() > 0 {
                r == Err::<CliContext, ArgsError>(ArgsError::ProgramArgsNotSupported)
            } else {
                r == Ok::<CliContext, ArgsError>(keyword_command(w).unwrap())
            }
        } else {
            r matches Err(ArgsError::UnknownCommand { command }) && command@ == w
        }
    } else if cli.len() == 3 && cli[1] == "run"@ {
        r matches Ok(CliContext::Run { target, program_args }) && target matches Some(t)
            && t@ == cli[2] && views(program_args@) == prog
    } else if cli.len() == 3 && cli[1] == "clean"@ && cli[2] == "--full"@ {
        if prog.len() > 0 {
            r == Err::<CliContext, ArgsError>(ArgsError::ProgramArgsNotSupported)
        } else {
            r == Ok::<CliContext, ArgsError>(CliContext::FullClean)
        }
    } else {
        r == Err::<CliContext, ArgsError>(ArgsError::InvalidArgument)
    }
}

/// The command that one keyword names, if it is one of `keyword_command`'s.
fn keyword(w: &str) -> (r: Option<CliContext>)
    ensures
        r == keyword_command(w@),
{
    if str_eq(w, "init") {
        Some(CliContext::Init)
    } else if str_eq(w, "help") || str_eq(w, "-h") || str_eq(w, "--help") {
        Some(CliContext::Help)
    } else if str_eq(w, "-v") || str_eq(w, "--version") {
        Some(CliContext::Version)
    } else if str_eq(w, "clean") {
        Some(CliContext::Clean)
    } else if str_eq(w, "full-clean") {
        Some(CliContext::FullClean)
    } else if str_eq(w, "update") {
        Some(CliContext::Update)
    } else {
        None
    }
}

/// Parses a command line (program name first). Everything after the first `--`
/// is forwarded to the program, which only `run` accepts.
pub fn parse_args(args: Vec<String>) -> (r: Result<CliContext, ArgsError>)
    ensures
        parses_to(views(args@), r),
{
    let ghost a = views(args@);
    let mut pos: usize = 0;
    while pos < args.len() && !str_eq(args[pos].as_str(), "--")
        invariant
            a == views(args@),
            0 <= pos <= args.len(),
            separator_index(a) == separator_from(a, pos as int),
        decreases args.len() - pos,
    {
        pos = pos + 1;
    }
    let mut cli_args = args;
    let program_args: Vec<String>;
    if pos < cli_args.len() {
        program_args = cli_args.split_off(pos + 1);
        cli_args.pop();
        assert(views(cli_args@) =~= cli_part(a));
        assert(views(program_args@) =~= program_part(a));
    } else {
        program_args = Vec::new();
        assert(views(cli_args@) =~= cli_part(a));
        assert(views(program_args@) =~= program_part(a));
    }
    let ghost cli = cli_part(a);
    assert forall|i: int| 0 <= i < cli_args@.len() implies cli_args@[i]@ == cli[i] by {
        assert(views(cli_args@)[i] == cli_args@[i]@);
    }
    if cli_args.len() == 1 {
        return Err(ArgsError::MissingCommand { program: cli_args[0].clone() });
    }
    let has_program_args = program_args.len() > 0;
    if cli_args.len() == 2 {
        let first_arg = cli_args[1].clone();
        if str_ends_with(first_arg.as_str(), ".c") {
            if has_program_args {
                return Err(ArgsError::ProgramArgsNotSupported);
            }
            Ok(CliContext::Compile { target: first_arg })
        } else if str_eq(first_arg.as_str(), "run") {
            Ok(CliContext::Run { target: None, program_args })
        } else {
            match keyword(first_arg.as_str()) {
                Some(context) => {
                    if has_program_args {
                        Err(ArgsError::ProgramArgsNotSupported)
                    } else {
                        Ok(context)
                    }
                },
                None => Err(ArgsError::UnknownCommand { command: first_arg }),
            }
        }
    } else if cli_args.len() == 3 && str_eq(cli_args[1].as_str(), "run") {
        Ok(CliContext::Run { target: Some(cli_args[2].clone()), program_args })
    } else if cli_args.len() == 3 && str_eq(cli_args[1].as_str(), "clean") && str_eq(
        cli_args[2].as_str(),
        "--full",
    ) {
        if has_program_args {
            Err(ArgsError::ProgramArgsNotSupported)
        } else {
            Ok(CliContext::FullClean)
        }
    } else {
        Err(ArgsError::InvalidArgument)
    }
}

/// The file that `run` builds, given whether `main.c` and `src/main.c` are
/// files: the target given, else `main.c`, else `src/main.c`, as the help text
/// says; `None` when no target was given and neither file exists.
pub open spec fn run_target_choice(
    target: Option<Seq<char>>,
    main_exists: bool,
    src_main_exists: bool,
) -> Option<Seq<char>> {
    match target {
        Some(t) => Some(t),
        None => if main_exists {
            Some("main.c"@)
        } else if src_main_exists {
            Some("src/main.c"@)
        } else {
            None
        },
    }
}

/// The view of an optional string.
pub open spec fn opt_view(o: Option<String>) -> Option<Seq<char>> {
    match o {
        Some(s) => Some(s@),
        None => None,
    }
}

/// Picks the file that `run` builds from the target given (if any) and the
/// answers to whether `main.c` and `src/main.c` are files.
pub fn pick_run_target(target: Option<String>, main_exists: bool, src_main_exists: bool) -> (r:
    Option<String>)
    ensures
        opt_view(r) == run_target_choice(opt_view(target), main_exists, src_main_exists),
        target is Some ==> r == target,
{
    match target {
        Some(t) => Some(t),
        None => {
            if main_exists {
                Some("main.c".to_owned())
            } else if src_main_exists {
                Some("src/main.c".to_owned())
            } else {
                None
            }
        },
    }
}

/// The file that `run` builds: the target given; else, asking the file system,
/// `main.c` when it is a file, else `src/main.c` when it is one, else `None`.
/// The answers come from the disk, so the result is `pick_run_target`'s for
/// some pair of answers (the disk is asked only when no target is given).
pub fn resolve_run_target(target: Option<String>) -> (r: Option<String>)
    ensures
        target matches Some(t) ==> r == Some(t),
        exists|main_exists: bool, src_main_exists: bool|
            opt_view(r) == run_target_choice(opt_view(target), main_exists, src_main_exists),
{
    let (main_exists, src_main_exists) = match target {
        Some(_) => (false, false),
        None => {
            let main_exists = is_file("main.c");
            let src_main_exists = !main_exists && is_file("src/main.c");
            (main_exists, src_main_exists)
        },
    };
    let r = pick_run_target(target, main_exists, src_main_exists);
    assert(opt_view(r) == run_target_choice(opt_view(target), main_exists, src_main_exists));
    r
}

/// Only `run` takes words after `--`: a command line that parses to any other
/// command has none there, and `run` is handed exactly the words after the
/// first `--`.
pub proof fn law_program_args_only_for_run(args: Seq<Seq<char>>, r: Result<CliContext, ArgsError>)
    requires
        parses_to(args, r),
    ensures
        r matches Ok(c) && !(c is Run) ==> program_part(args).len() == 0,
        r matches Ok(CliContext::Run { target, program_args }) ==> views(program_args@)
            == program_part(args),
{
}

impl ArgsError {
    /// The text that the refusal is reported with.
    pub fn message(&self) -> (m: String)
        ensures
            m@ == match self {
                ArgsError::MissingCommand { program } => "Missing command. Please run "@ + program@
                    + " --help to know more."@,
                ArgsError::ProgramArgsNotSupported =>
                    "Only `pronto run` supports program arguments after `--`."@,
                ArgsError::UnknownCommand { command } => "Unknown command `"@ + command@ + "`"@,
                ArgsError::InvalidArgument => "Invalid argument provided."@,
            },
    {
        match self {
            ArgsError::MissingCommand { program } => {
                let mut m = "Missing command. Please run ".to_owned();
                m.append(program.as_str());
                m.append(" --help to know more.");
                m
            },
            ArgsError::ProgramArgsNotSupported =>
                "Only `pronto run` supports program arguments after `--`.".to_owned(),
            ArgsError::UnknownCommand { command } => {
                let mut m = "Unknown command `".to_owned();
                m.append(command.as_str());
                m.append("`");
                m
            },
            ArgsError::InvalidArgument => "Invalid argument provided.".to_owned(),
        }
    }
}

} // verus!
