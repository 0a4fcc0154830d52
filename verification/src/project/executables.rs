//! The registry of built executables: one path per line in
//! `<project>/.pronto/executables.txt`. Reading keeps every non-blank line,
//! trimmed; writing puts each path on a line of its own.
use vstd::prelude::*;

use crate::paths::{join, path_file_name, same_path, same_path_spec};
use crate::project::{is_project_root, pronto_dir_of, registry_file_of, resolve_pronto_dir, target_view};
use crate::text::{
    is_white_space, lemma_lines_append, lemma_lines_single, lemma_trimmed_fixed, lines, split_lines,
    trim, trimmed, views,
};

verus! {

pub const EXECUTABLES_FILENAME: &'static str = "executables.txt";

/// The registry file of the target's project.
pub fn get_executables_list_file_path(target_path: Option<&str>) -> (r: String)
    ensures
        exists|root: Seq<char>|
            is_project_root(target_view(target_path), root) && r@ == registry_file_of(root)
                && path_file_name(pronto_dir_of(root)) == Some(".pronto"@),
        path_file_name(r@) == Some("executables.txt"@),
{
    proof {
        reveal_strlit("executables.txt");
    }
    let pronto = resolve_pronto_dir(target_path);
    let ghost root = choose|root: Seq<char>|
        is_project_root(target_view(target_path), root) && pronto@ == pronto_dir_of(root);
    let r = join(pronto.as_str(), EXECUTABLES_FILENAME);
    assert(is_project_root(target_view(target_path), root) && r@ == registry_file_of(root)
        && path_file_name(pronto_dir_of(root)) == Some(".pronto"@));
    r
}

/// What cleaning does with one registry entry.
#[derive(Debug, Clone, Copy, PartialEq, Eq)]
pub enum CleanAction {
    /// The executable is a file: delete it.
    DeleteFile,
    /// Nothing (or no file) is there: drop the entry from the registry.
    Unregister,
}

/// Decides about one registry entry when cleaning, given whether its path
/// exists and whether it is a file.
pub fn clean_action(exists: bool, is_file: bool) -> (a: CleanAction)
    ensures
        a == (if exists && is_file {
            CleanAction::DeleteFile
        } else {
            CleanAction::Unregister
        }),
{
    if exists && is_file {
        CleanAction::DeleteFile
    } else {
        CleanAction::Unregister
    }
}

/// The entries that the first `n` lines of a registry file give: each
/// non-blank line, trimmed.
pub open spec fn entries_upto(ls: Seq<Seq<char>>, n: int) -> Seq<Seq<char>>
    decreases n,
{
    if n <= 0 || n > ls.len() {
        Seq::empty()
    } else if trimmed(ls[n - 1]).len() > 0 {
        entries_upto(ls, n - 1).push(trimmed(ls[n - 1]))
    } else {
        entries_upto(ls, n - 1)
    }
}

/// The entries of a registry file with these lines.
pub open spec fn registry_entries(ls: Seq<Seq<char>>) -> Seq<Seq<char>> {
    entries_upto(ls, ls.len() as int)
}

/// The text of a registry file that lists `entries`: each entry and a line break.
pub open spec fn registry_text(entries: Seq<Seq<char>>) -> Seq<char>
    decreases entries.len(),
{
    if entries.len() == 0 {
        Seq::empty()
    } else {
        registry_text(entries.drop_last()) + entries.last() + "\n"@
    }
}

/// Some entry of `entries` is the same path as `p`.
pub open spec fn registered(entries: Seq<Seq<char>>, p: Seq<char>) -> bool {
    exists|i: int| 0 <= i < entries.len() && same_path_spec(entries[i], p)
}

/// The first `n` entries, without those that are the same path as `p`.
pub open spec fn retained_upto(entries: Seq<Seq<char>>, p: Seq<char>, n: int) -> Seq<Seq<char>>
    decreases n,
{
    if n <= 0 || n > entries.len() {
        Seq::empty()
    } else if same_path_spec(entries[n - 1], p) {
        retained_upto(entries, p, n - 1)
    } else {
        retained_upto(entries, p, n - 1).push(entries[n - 1])
    }
}

/// `entries` without those that are the same path as `p`.
pub open spec fn without(entries: Seq<Seq<char>>, p: Seq<char>) -> Seq<Seq<char>> {
    retained_upto(entries, p, entries.len() as int)
}

/// The entries that a registry file's text holds.
pub fn parse_executables_registry(content: &str) -> (r: Vec<String>)
    ensures
        views(r@) == registry_entries(lines(content@)),
{
    let ls = split_lines(content);
    let ghost l = views(ls@);
    let mut out: Vec<String> = Vec::new();
    let mut i: usize = 0;
    while i < ls.len()
        invariant
            l == views(ls@),
            0 <= i <= ls.len(),
            l == lines(content@),
            views(out@) == entries_upto(l, i as int),
        decreases ls.len() - i,
    {
        let t = trim(ls[i].as_str());
        assert(l[i as int] == ls@[i as int]@);
        if !t.as_str().is_empty() {
            let ghost before = out@;
            out.push(t);
            assert(views(out@) =~= views(before).push(t@));
        }
        i = i + 1;
    }
    out
}

/// The text of a registry file that lists `entries`.
pub fn registry_content(entries: &Vec<String>) -> (r: String)
    ensures
        r@ == registry_text(views(entries@)),
{
    let mut text = String::new();
    let mut i: usize = 0;
    while i < entries.len()
        invariant
            0 <= i <= entries.len(),
            text@ == registry_text(views(entries@).take(i as int)),
        decreases entries.len() - i,
    {
        text.append(entries[i].as_str());
        text.append("\n");
        assert(views(entries@).take(i + 1).drop_last() =~= views(entries@).take(i as int));
        i = i + 1;
    }
    assert(views(entries@).take(entries.len() as int) =~= views(entries@));
    text
}

/// Whether some entry is the same path as `p`.
fn is_registered(entries: &Vec<String>, p: &str) -> (r: bool)
    ensures
        r == registered(views(entries@), p@),
{
    let mut i: usize = 0;
    while i < entries.len()
        invariant
            0 <= i <= entries.len(),
            forall|k: int| 0 <= k < i ==> !same_path_spec(#[trigger] views(entries@)[k], p@),
        decreases entries.len() - i,
    {
        if same_path(entries[i].as_str(), p) {
            assert(views(entries@)[i as int] == entries@[i as int]@);
            return true;
        }
        assert(views(entries@)[i as int] == entries@[i as int]@);
        i = i + 1;
    }
    false
}

/// Registers `executable_path` unless the registry already holds the same
/// path; says whether it was added (and the registry needs saving).
pub fn add_executable(registry: &mut Vec<String>, executable_path: String) -> (added: bool)
    ensures
        added == !registered(views(old(registry)@), executable_path@),
        added ==> views(final(registry)@) == views(old(registry)@).push(executable_path@),
        !added ==> final(registry)@ == old(registry)@,
{
    if is_registered(registry, executable_path.as_str()) {
        return false;
    }
    let ghost before = registry@;
    registry.push(executable_path);
    assert(views(registry@) =~= views(before).push(registry@.last()@));
    true
}

/// Removes every entry that is the same path as `executable_path`.
pub fn remove_executable(registry: &mut Vec<String>, executable_path: &str)
    ensures
        views(final(registry)@) == without(views(old(registry)@), executable_path@),
{
    let ghost l = views(registry@);
    let mut kept: Vec<String> = Vec::new();
    let mut i: usize = 0;
    while i < registry.len()
        invariant
            l == views(registry@),
            0 <= i <= registry.len(),
            views(kept@) == retained_upto(l, executable_path@, i as int),
        decreases registry.len() - i,
    {
        assert(l[i as int] == registry@[i as int]@);
        if !same_path(registry[i].as_str(), executable_path) {
            let ghost before = kept@;
            kept.push(registry[i].clone());
            assert(views(kept@) =~= views(before).push(l[i as int]));
        }
        i = i + 1;
    }
    *registry = kept;
}

/// An entry that the registry file stores faithfully: a non-empty path on one
/// line, with no whitespace at either end.
pub open spec fn storable(e: Seq<char>) -> bool {
    &&& e.len() > 0
    &&& trimmed(e) == e
    &&& forall|k: int| 0 <= k < e.len() ==> e[k] != '\n'
}

/// A path that the registry file holds on a line of its own: no line break
/// in it, and no carriage return at its end.
pub open spec fn one_line(e: Seq<char>) -> bool {
    &&& forall|k: int| 0 <= k < e.len() ==> e[k] != '\n'
    &&& (e.len() == 0 || e.last() != '\r')
}

/// The registry text of entries that each fit on a line splits back into them.
pub proof fn lemma_registry_lines(entries: Seq<Seq<char>>)
    requires
        forall|i: int| 0 <= i < entries.len() ==> one_line(#[trigger] entries[i]),
    ensures
        lines(registry_text(entries)) == entries,
        registry_text(entries).len() == 0 || registry_text(entries).last() == '\n',
    decreases entries.len(),
{
    if entries.len() > 0 {
        let rest = entries.drop_last();
        let e = entries.last();
        assert(one_line(entries[entries.len() - 1]));
        assert forall|i: int| 0 <= i < rest.len() implies one_line(#[trigger] rest[i]) by {
            assert(rest[i] == entries[i]);
        }
        lemma_registry_lines(rest);
        reveal_strlit("\n");
        let x = registry_text(rest);
        assert(registry_text(entries) =~= x + (e + seq!['\n']));
        lemma_lines_append(x, e + seq!['\n'], 0);
        lemma_lines_single(e);
        assert(lines(registry_text(entries)) =~= rest + seq![e]);
        assert(entries =~= rest + seq![e]);
    }
}

/// A storable entry fits on a line.
pub proof fn lemma_storable_one_line(e: Seq<char>)
    requires
        storable(e),
    ensures
        one_line(e),
{
    lemma_trimmed_fixed(e);
    assert(is_white_space('\r'));
}

proof fn lemma_entries_upto_storable(ls: Seq<Seq<char>>, n: int)
    requires
        0 <= n <= ls.len(),
        forall|i: int| 0 <= i < ls.len() ==> storable(#[trigger] ls[i]),
    ensures
        entries_upto(ls, n) == ls.take(n),
    decreases n,
{
    if n > 0 {
        lemma_entries_upto_storable(ls, n - 1);
        assert(storable(ls[n - 1]));
        assert(ls.take(n - 1).push(ls[n - 1]) =~= ls.take(n));
    } else {
        assert(ls.take(0) =~= Seq::<Seq<char>>::empty());
    }
}

/// Reading back what was written: the registry file written for `entries`
/// reads as `entries` again, when each entry is a non-empty path on one line
/// without whitespace at its ends.
pub proof fn law_registry_round_trip(entries: Seq<Seq<char>>)
    requires
        forall|i: int| 0 <= i < entries.len() ==> storable(#[trigger] entries[i]),
    ensures
        registry_entries(lines(registry_text(entries))) == entries,
{
    assert forall|i: int| 0 <= i < entries.len() implies one_line(#[trigger] entries[i]) by {
        lemma_storable_one_line(entries[i]);
    }
    lemma_registry_lines(entries);
    lemma_entries_upto_storable(entries, entries.len() as int);
    assert(entries.take(entries.len() as int) =~= entries);
}

/// Adding a path registers it: after `add_executable` the path is registered
/// whether or not it was before, so adding it again changes nothing.
pub proof fn law_add_registers(entries: Seq<Seq<char>>, p: Seq<char>)
    ensures
        registered(if registered(entries, p) { entries } else { entries.push(p) }, p),
{
    if !registered(entries, p) {
        assert(entries.push(p)[entries.len() as int] == p);
    }
}

proof fn lemma_without_upto(entries: Seq<Seq<char>>, p: Seq<char>, n: int)
    requires
        0 <= n <= entries.len(),
    ensures
        !registered(retained_upto(entries, p, n), p),
        forall|i: int|
            0 <= i < retained_upto(entries, p, n).len() ==> exists|k: int|
                0 <= k < n && #[trigger] retained_upto(entries, p, n)[i] == entries[k],
    decreases n,
{
    if n > 0 {
        lemma_without_upto(entries, p, n - 1);
        let prev = retained_upto(entries, p, n - 1);
        if !same_path_spec(entries[n - 1], p) {
            let cur = prev.push(entries[n - 1]);
            assert forall|i: int| 0 <= i < cur.len() implies !same_path_spec(cur[i], p) by {
                if i < prev.len() {
                    assert(cur[i] == prev[i]);
                }
            }
            assert forall|i: int| 0 <= i < cur.len() implies exists|k: int|
                0 <= k < n && #[trigger] cur[i] == entries[k] by {
                if i < prev.len() {
                    assert(cur[i] == prev[i]);
                } else {
                    assert(cur[i] == entries[n - 1]);
                }
            }
        }
    }
}

/// Removing a path leaves no entry that is the same path, and every entry that
/// stays was there before.
pub proof fn law_remove_unregisters(entries: Seq<Seq<char>>, p: Seq<char>)
    ensures
        !registered(without(entries, p), p),
        forall|i: int|
            0 <= i < without(entries, p).len() ==> entries.contains(#[trigger] without(entries, p)[i]),
{
    lemma_without_upto(entries, p, entries.len() as int);
    assert forall|i: int| 0 <= i < without(entries, p).len() implies entries.contains(
        #[trigger] without(entries, p)[i],
    ) by {
        let k = choose|k: int| 0 <= k < entries.len() && without(entries, p)[i] == entries[k];
        assert(entries[k] == without(entries, p)[i]);
    }
}

} // verus!
