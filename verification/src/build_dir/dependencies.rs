//! The prerequisites that a dependency file lists: `.c` sources, and `.h`
//! headers with the `.c` file beside them that implements them, if any.
use vstd::prelude::*;

use crate::depfile::{dot_d_lines_readable, dot_d_readable, dot_d_words, prerequisite_words};
use crate::paths::{path_exists, path_with_extension, with_extension};
use crate::text::{ends_with, lines, split_lines, str_ends_with, views};

verus! {

/// One prerequisite of an object file.
#[derive(Debug, Clone, PartialEq, Eq)]
pub enum Dependency {
    Header { file: String, source_file: Option<String> },
    Source { file: String },
}

/// A word that names a C source file.
pub open spec fn is_source_word(w: Seq<char>) -> bool {
    ends_with(w, ".c"@)
}

/// A word that names a C header.
pub open spec fn is_header_word(w: Seq<char>) -> bool {
    !ends_with(w, ".c"@) && ends_with(w, ".h"@)
}

/// Among the first `n` words, those that name a source or a header, in order.
pub open spec fn supported_upto(ws: Seq<Seq<char>>, n: int) -> Seq<Seq<char>>
    decreases n,
{
    if n <= 0 || n > ws.len() {
        Seq::empty()
    } else if is_source_word(ws[n - 1]) || is_header_word(ws[n - 1]) {
        supported_upto(ws, n - 1).push(ws[n - 1])
    } else {
        supported_upto(ws, n - 1)
    }
}

/// Among the first `n` words, those that name neither, in order.
pub open spec fn unsupported_upto(ws: Seq<Seq<char>>, n: int) -> Seq<Seq<char>>
    decreases n,
{
    if n <= 0 || n > ws.len() {
        Seq::empty()
    } else if is_source_word(ws[n - 1]) || is_header_word(ws[n - 1]) {
        unsupported_upto(ws, n - 1)
    } else {
        unsupported_upto(ws, n - 1).push(ws[n - 1])
    }
}

/// `d` is the dependency for word `w`: a source for a `.c` word; for a `.h`
/// word a header whose implementation, when one is given, is the word with
/// extension `c`.
pub open spec fn describes(d: Dependency, w: Seq<char>) -> bool {
    match d {
        Dependency::Source { file } => file@ == w && is_source_word(w),
        Dependency::Header { file, source_file } => file@ == w && is_header_word(w) && (
        source_file matches Some(s) ==> s@ == path_with_extension(w, "c"@)),
    }
}

/// What a dependency file holds: its prerequisites, and the words that name
/// neither a source nor a header (which are reported as not supported).
#[derive(Debug)]
pub struct DependencyScan {
    pub dependencies: Vec<Dependency>,
    pub unsupported: Vec<String>,
}

/// `scan` is what the dependency file `content` holds.
pub open spec fn scans_to(content: Seq<char>, scan: DependencyScan) -> bool {
    let ws = prerequisite_words(lines(content));
    let sup = supported_upto(ws, ws.len() as int);
    &&& scan.dependencies@.len() == sup.len()
    &&& forall|i: int| 0 <= i < sup.len() ==> describes(#[trigger] scan.dependencies@[i], sup[i])
    &&& views(scan.unsupported@) == unsupported_upto(ws, ws.len() as int)
}

/// The implementation to report for a header, given the candidate `.c` path
/// and whether a file exists there: the candidate when it does, else nothing.
pub fn implementation_if_present(candidate: String, present: bool) -> (r: Option<String>)
    ensures
        present ==> r == Some(candidate),
        !present ==> r is None,
{
    if present {
        Some(candidate)
    } else {
        None
    }
}

/// The `.c` file that implements a header: the header's path with extension
/// `c`, when a file exists there. Whether one exists is asked of the file
/// system, so no input is owed a `Some`; `implementation_if_present` states
/// the answer for each outcome of that question.
pub fn resolve_header_implementation(header_file_path: &str) -> (r: Option<String>)
    ensures
        r matches Some(s) ==> s@ == path_with_extension(header_file_path@, "c"@),
{
    proof {
        reveal_strlit("c");
    }
    let potential_source_file_path = with_extension(header_file_path, "c");
    let present = path_exists(potential_source_file_path.as_str());
    implementation_if_present(potential_source_file_path, present)
}

/// Whether every line of the dependency file `content` can be read (a line
/// that starts a rule must hold `": "`).
pub fn dot_d_is_readable(content: &str) -> (r: bool)
    ensures
        r == dot_d_readable(lines(content@)),
{
    let ls = split_lines(content);
    dot_d_lines_readable(&ls)
}

/// The prerequisites that the dependency file `content` lists, in order, and
/// the words it holds that name neither a source nor a header.
pub fn parse_dot_d_dependencies(content: &str) -> (scan: DependencyScan)
    requires
        dot_d_readable(lines(content@)),
    ensures
        scans_to(content@, scan),
{
    let ls = split_lines(content);
    let ws = dot_d_words(&ls);
    let ghost w = views(ws@);
    let mut dependencies: Vec<Dependency> = Vec::new();
    let mut unsupported: Vec<String> = Vec::new();
    let mut i: usize = 0;
    while i < ws.len()
        invariant
            w == views(ws@),
            w == prerequisite_words(lines(content@)),
            0 <= i <= ws.len(),
            dependencies@.len() == supported_upto(w, i as int).len(),
            forall|k: int|
                0 <= k < dependencies@.len() ==> describes(
                    #[trigger] dependencies@[k],
                    supported_upto(w, i as int)[k],
                ),
            views(unsupported@) == unsupported_upto(w, i as int),
        decreases ws.len() - i,
    {
        let obj = ws[i].clone();
        assert(w[i as int] == obj@);
        let ghost deps_before = dependencies@;
        if str_ends_with(obj.as_str(), ".c") {
            dependencies.push(Dependency::Source { file: obj });
        } else if str_ends_with(obj.as_str(), ".h") {
            let source_file = resolve_header_implementation(obj.as_str());
            dependencies.push(Dependency::Header { file: obj, source_file });
        } else {
            let ghost before = unsupported@;
            unsupported.push(obj);
            assert(views(unsupported@) =~= views(before).push(w[i as int]));
        }
        assert forall|k: int| 0 <= k < dependencies@.len() implies describes(
            #[trigger] dependencies@[k],
            supported_upto(w, i + 1)[k],
        ) by {
            if k < deps_before.len() {
                assert(dependencies@[k] == deps_before[k]);
            }
        }
        i = i + 1;
    }
    DependencyScan { dependencies, unsupported }
}

impl Dependency {
    /// How the dependency is shown to the user.
    pub fn describe(&self) -> (s: String)
        ensures
            s@ == match self {
                Dependency::Header { file, source_file } => match source_file {
                    Some(src) => "[Header] "@ + file@ + " (Implementation: "@ + src@ + ")"@,
                    None => "[Header] "@ + file@ + " (Implementation: None)"@,
                },
                Dependency::Source { file } => "[Source] "@ + file@,
            },
    {
        match self {
            Dependency::Header { file, source_file } => match source_file {
                Some(src) => {
                    let mut s = "[Header] ".to_owned();
                    s.append(file.as_str());
                    s.append(" (Implementation: ");
                    s.append(src.as_str());
                    s.append(")");
                    s
                },
                None => {
                    let mut s = "[Header] ".to_owned();
                    s.append(file.as_str());
                    s.append(" (Implementation: None)");
                    s
                },
            },
            Dependency::Source { file } => {
                let mut s = "[Source] ".to_owned();
                s.append(file.as_str());
                s
            },
        }
    }
}

} // verus!
