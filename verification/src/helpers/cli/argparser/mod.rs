//! A command-line grammar without words for the program: a `.c` target,
//! `run <target>`, or one of the keywords `-h`/`--help`, `-v`/`--version`,
//! `clean` and `update`.
use vstd::prelude::*;

use crate::text::{ends_with, str_ends_with, str_eq, views};

verus! {

/// What the command line asks for.
#[derive(Debug, Clone, PartialEq, Eq)]
pub enum CliContext {
    Compile { target: String },
    Run { target: String },
    Clean,
    Version,
    Help,
    Update,
}

/// Why a command line was refused; every refusal is an invalid-input error.
#[derive(Debug, Clone, PartialEq, Eq)]
pub enum ArgparseError {
    /// Only the program name was given.
    MissingArgument { program: String },
    /// `run` without the file to compile.
    RunWithoutTarget,
    /// A single word that names no command.
    UnknownCommand { command: String },
    /// Any other shape of command line.
    InvalidArgument,
}

/// The command that a single keyword names, other than `run` and a `.c` target.
pub open spec fn keyword_command(w: Seq<char>) -> Option<CliContext> {
    if w == "-h"@ || w == "--help"@ {
        Some(CliContext::Help)
    } else if w == "-v"@ || w == "--version"@ {
        Some(CliContext::Version)
    } else if w == "clean"@ {
        Some(CliContext::Clean)
    } else if w == "update"@ {
        Some(CliContext::Update)
    } else {
        None
    }
}

/// `r` is what the command line `args` (program name first) asks for.
pub open spec fn parses_to(args: Seq<Seq<char>>, r: Result<CliContext, ArgparseError>) -> bool {
    if args.len() == 1 {
        r matches Err(ArgparseError::MissingArgument { program }) && program@ == args[0]
    } else if args.len() == 2 {
        let w = args[1];
        if ends_with(w, ".c"@) {
            r matches Ok(CliContext::Compile { target }) && target@ == w
        } else if w == "run"@ {
            r == Err::<CliContext, ArgparseError>(ArgparseError::RunWithoutTarget)
        } else if keyword_command(w) is Some {
            r == Ok::<CliContext, ArgparseError>(keyword_command(w).unwrap())
        } else {
            r matches Err(ArgparseError::UnknownCommand { command }) && command@ == w
        }
    } else if args.len() == 3 && args[1] == "run"@ {
        r matches Ok(CliContext::Run { target }) && target@ == args[2]
    } else {
        r == Err::<CliContext, ArgparseError>(ArgparseError::InvalidArgument)
    }
}

fn keyword(w: &str) -> (r: Option<CliContext>)
    ensures
        r == keyword_command(w@),
{
    if str_eq(w, "-h") || str_eq(w, "--help") {
        Some(CliContext::Help)
    } else if str_eq(w, "-v") || str_eq(w, "--version") {
        Some(CliContext::Version)
    } else if str_eq(w, "clean") {
        Some(CliContext::Clean)
    } else if str_eq(w, "update") {
        Some(CliContext::Update)
    } else {
        None
    }
}

/// Parses a command line (program name first).
pub fn parse_args(args: Vec<String>) -> (r: Result<CliContext, ArgparseError>)
    ensures
        parses_to(views(args@), r),
{
    assert forall|i: int| 0 <= i < args@.len() implies views(args@)[i] == args@[i]@ by {}
    if args.len() == 1 {
        return Err(ArgparseError::MissingArgument { program: args[0].clone() });
    }
    if args.len() == 2 {
        let first_arg = args[1].clone();
        if str_ends_with(first_arg.as_str(), ".c") {
            Ok(CliContext::Compile { target: first_arg })
        } else if str_eq(first_arg.as_str(), "run") {
            Err(ArgparseError::RunWithoutTarget)
        } else {
            match keyword(first_arg.as_str()) {
                Some(context) => Ok(context),
                None => Err(ArgparseError::UnknownCommand { command: first_arg }),
            }
        }
    } else if args.len() == 3 && str_eq(args[1].as_str(), "run") {
        Ok(CliContext::Run { target: args[2].clone() })
    } else {
        Err(ArgparseError::InvalidArgument)
    }
}

impl ArgparseError {
    /// The text that the refusal is reported with.
    pub fn message(&self) -> (m: String)
        ensures
            m@ == match self {
                ArgparseError::MissingArgument { program } =>
                    "At least one arg is requred (a path, or run, clean...). Please run "@ + program@
                        + " help to know more."@,
                ArgparseError::RunWithoutTarget =>
                    "run expects at least one argument (the path of the c file to compile)."@,
                ArgparseError::UnknownCommand { command } => "Unknown command `"@ + command@
                    + "`"@,
                ArgparseError::InvalidArgument => "Invalid argument provided."@,
            },
    {
        match self {
            ArgparseError::MissingArgument { program } => {
                let mut m = "At least one arg is requred (a path, or run, clean...). Please run ".to_owned();
                m.append(program.as_str());
                m.append(" help to know more.");
                m
            },
            ArgparseError::RunWithoutTarget =>
                "run expects at least one argument (the path of the c file to compile).".to_owned(),
            ArgparseError::UnknownCommand { command } => {
                let mut m = "Unknown command `".to_owned();
                m.append(command.as_str());
                m.append("`");
                m
            },
            ArgparseError::InvalidArgument => "Invalid argument provided.".to_owned(),
        }
    }
}

} // verus!
