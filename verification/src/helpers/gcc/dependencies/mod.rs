//! The prerequisites of an object file, as `analyzer` reports them.
use vstd::prelude::*;

use crate::paths::path_with_extension;

pub mod analyzer;

verus! {

/// One prerequisite of an object file.
#[derive(Debug, Clone, PartialEq, Eq)]
pub enum Dependency {
    Header { file: String, source_file: Option<String> },
    Source { file: String },
}

/// `d` is the dependency for word `w`: a source for a `.c` word; for a `.h`
/// word a header whose implementation, when one is given, is the word with
/// extension `c`.
pub open spec fn describes(d: Dependency, w: Seq<char>) -> bool {
    match d {
        Dependency::Source { file } => file@ == w && crate::build_dir::dependencies::is_source_word(w),
        Dependency::Header { file, source_file } => file@ == w
            && crate::build_dir::dependencies::is_header_word(w) && (source_file matches Some(s)
            ==> s@ == path_with_extension(w, "c"@)),
    }
}

impl Dependency {
    /// How the dependency is shown to the user.
    pub fn describe(&self) -> (s: String)
        ensures
            s@ == match self {
                Dependency::Header { file, source_file } => match source_file {
                    Some(src) => "[Header] "@ + file@ + " (Implementation: "@ + src@ + ")"@,
                    None => "[Header] "@ + file@ + " (Implementation: None)"@,
                },
                Dependency::Source { file } => "[Source] "@ + file@,
            },
    {
        match self {
            Dependency::Header { file, source_file } => match source_file {
                Some(src) => {
                    let mut s = "[Header] ".to_owned();
                    s.append(file.as_str());
                    s.append(" (Implementation: ");
                    s.append(src.as_str());
                    s.append(")");
                    s
                },
                None => {
                    let mut s = "[Header] ".to_owned();
                    s.append(file.as_str());
                    s.append(" (Implementation: None)");
                    s
                },
            },
            Dependency::Source { file } => {
                let mut s = "[Source] ".to_owned();
                s.append(file.as_str());
                s
            },
        }
    }
}

} // verus!
