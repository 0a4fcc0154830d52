//! A registry of built executables kept in `.pronto/executables.txt` under the
//! current directory: one path per line, every line kept (trimmed), blank
//! ones too.
use vstd::prelude::*;

use crate::project::executables::{
    lemma_registry_lines, one_line, registered, registry_content, registry_text, without,
};
use crate::text::{is_white_space, lemma_trimmed_fixed};
use crate::text::{lines, split_lines, trim, trimmed, views};

verus! {

/// The registry file, relative to the current directory.
pub fn get_executables_list_file_path() -> (r: String)
    ensures
        r@ == ".pronto/executables.txt"@,
{
    ".pronto/executables.txt".to_owned()
}

/// The entries of a registry file with text `content`: every line, trimmed.
pub fn parse_executables(content: &str) -> (r: Vec<String>)
    ensures
        views(r@) == lines(content@).map_values(|l: Seq<char>| trimmed(l)),
{
    let ls = split_lines(content);
    let ghost l = views(ls@);
    let mut out: Vec<String> = Vec::new();
    let mut i: usize = 0;
    while i < ls.len()
        invariant
            l == views(ls@),
            l == lines(content@),
            0 <= i <= ls.len(),
            views(out@) == l.take(i as int).map_values(|x: Seq<char>| trimmed(x)),
        decreases ls.len() - i,
    {
        assert(l[i as int] == ls@[i as int]@);
        let t = trim(ls[i].as_str());
        let ghost before = out@;
        out.push(t);
        assert(views(out@) =~= views(before).push(t@));
        assert(l.take(i + 1).map_values(|x: Seq<char>| trimmed(x)) =~= l.take(i as int).map_values(
            |x: Seq<char>| trimmed(x),
        ).push(trimmed(l[i as int])));
        i = i + 1;
    }
    assert(l.take(ls.len() as int) =~= l);
    out
}

/// The text of a registry file that lists `executables_list`.
pub fn executables_file_content(executables_list: &Vec<String>) -> (r: String)
    ensures
        r@ == registry_text(views(executables_list@)),
{
    registry_content(executables_list)
}

/// Registers `executable_path` unless the registry already holds the same
/// path; says whether it was added (and the registry needs saving).
pub fn add_executable(executables_list: &mut Vec<String>, executable_path: String) -> (added: bool)
    ensures
        added == !registered(views(old(executables_list)@), executable_path@),
        added ==> views(final(executables_list)@) == views(old(executables_list)@).push(
            executable_path@,
        ),
        !added ==> final(executables_list)@ == old(executables_list)@,
{
    crate::project::executables::add_executable(executables_list, executable_path)
}

/// Removes every entry that is the same path as `executable_path`.
pub fn remove_executable(executables_list: &mut Vec<String>, executable_path: &str)
    ensures
        views(final(executables_list)@) == without(views(old(executables_list)@), executable_path@),
{
    crate::project::executables::remove_executable(executables_list, executable_path)
}

/// Reading back what was written: the registry file written for `entries`
/// reads as `entries` again, when each entry is on one line and has no
/// whitespace at its ends (an empty entry reads back as an empty line).
pub proof fn law_cwd_registry_round_trip(entries: Seq<Seq<char>>)
    requires
        forall|i: int|
            0 <= i < entries.len() ==> trimmed(#[trigger] entries[i]) == entries[i] && forall|k: int|
                0 <= k < entries[i].len() ==> entries[i][k] != '\n',
    ensures
        lines(registry_text(entries)).map_values(|l: Seq<char>| trimmed(l)) == entries,
{
    assert forall|i: int| 0 <= i < entries.len() implies one_line(#[trigger] entries[i]) by {
        if entries[i].len() > 0 {
            lemma_trimmed_fixed(entries[i]);
            assert(is_white_space('\r'));
        }
    }
    lemma_registry_lines(entries);
    assert(lines(registry_text(entries)).map_values(|l: Seq<char>| trimmed(l)) =~= entries);
}

} // verus!
