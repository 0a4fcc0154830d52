//! Reads the prerequisites out of a dependency file, as `Dependency` values of
//! this module.
use vstd::prelude::*;

use super::{describes, Dependency};
use crate::build_dir::dependencies::{
    describes as scan_describes, parse_dot_d_dependencies, resolve_header_implementation, scans_to,
    supported_upto, unsupported_upto, Dependency as ScanDependency,
};
use crate::depfile::{dot_d_readable, prerequisite_words};
use crate::paths::path_with_extension;
use crate::text::{lines, views};

verus! {

/// What a dependency file holds: its prerequisites, and the words that name
/// neither a source nor a header.
#[derive(Debug)]
pub struct DotDAnalysis {
    pub dependencies: Vec<Dependency>,
    pub unsupported: Vec<String>,
}

/// `a` is what the dependency file `content` holds.
pub open spec fn analyses_to(content: Seq<char>, a: DotDAnalysis) -> bool {
    let ws = prerequisite_words(lines(content));
    let sup = supported_upto(ws, ws.len() as int);
    &&& a.dependencies@.len() == sup.len()
    &&& forall|i: int| 0 <= i < sup.len() ==> describes(#[trigger] a.dependencies@[i], sup[i])
    &&& views(a.unsupported@) == unsupported_upto(ws, ws.len() as int)
}

/// The `.c` file beside a header: the header's path with extension `c`, when
/// a file exists there. Whether one exists is asked of the file system, so no
/// input is owed a `Some`; `implementation_if_present` states the answer for
/// each outcome of that question.
pub fn find_source_file_for_header_file(header_file_path: &str) -> (r: Option<String>)
    ensures
        r matches Some(s) ==> s@ == path_with_extension(header_file_path@, "c"@),
{
    resolve_header_implementation(header_file_path)
}

/// A copy of `s`.
fn copy_opt(s: &Option<String>) -> (r: Option<String>)
    ensures
        r matches Some(x) ==> (s matches Some(y) && x@ == y@),
        r is None <==> s is None,
{
    match s {
        Some(x) => Some(x.clone()),
        None => None,
    }
}

/// The same prerequisite as this module's `Dependency`.
fn convert(d: &ScanDependency) -> (r: Dependency)
    ensures
        forall|w: Seq<char>| scan_describes(*d, w) ==> describes(r, w),
{
    match d {
        ScanDependency::Source { file } => Dependency::Source { file: file.clone() },
        ScanDependency::Header { file, source_file } => Dependency::Header {
            file: file.clone(),
            source_file: copy_opt(source_file),
        },
    }
}

/// The prerequisites that the dependency file `content` lists, in order, and
/// the words it holds that name neither a source nor a header.
pub fn analyse_dot_d_file(content: &str) -> (a: DotDAnalysis)
    requires
        dot_d_readable(lines(content@)),
    ensures
        analyses_to(content@, a),
{
    let scan = parse_dot_d_dependencies(content);
    let ghost ws = prerequisite_words(lines(content@));
    let ghost sup = supported_upto(ws, ws.len() as int);
    let mut dependencies: Vec<Dependency> = Vec::new();
    let mut i: usize = 0;
    while i < scan.dependencies.len()
        invariant
            scans_to(content@, scan),
            ws == prerequisite_words(lines(content@)),
            sup == supported_upto(ws, ws.len() as int),
            0 <= i <= scan.dependencies.len(),
            dependencies@.len() == i,
            forall|k: int| 0 <= k < i ==> describes(#[trigger] dependencies@[k], sup[k]),
        decreases scan.dependencies.len() - i,
    {
        let d = convert(&scan.dependencies[i]);
        assert(scan_describes(scan.dependencies@[i as int], sup[i as int]));
        dependencies.push(d);
        i = i + 1;
    }
    DotDAnalysis { dependencies, unsupported: scan.unsupported }
}

} // verus!
