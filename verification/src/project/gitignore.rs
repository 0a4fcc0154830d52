//! The `.gitignore` entry for a directory: appended under a `# Pronto` header
//! unless the file already mentions it.
use vstd::prelude::*;

use crate::text::{contains, ends_with, occurs_at, str_contains};

verus! {

pub const GITIGNORE_FILE_NAME: &'static str = ".gitignore";

/// `contents` followed by the blank line that separates a new block: nothing
/// for an empty file, else a line break if the last line lacks one, then an
/// empty line.
pub open spec fn padded(contents: Seq<char>) -> Seq<char> {
    if contents.len() == 0 {
        contents
    } else if contents.last() == '\n' {
        contents + "\n"@
    } else {
        contents + "\n\n"@
    }
}

/// The new `.gitignore` text that ignores directory `name`, or `None` when
/// `contents` already mentions `name` and is left as it is.
pub open spec fn gitignore_update(contents: Seq<char>, name: Seq<char>) -> Option<Seq<char>> {
    if contains(contents, name) {
        None
    } else {
        let p = padded(contents);
        let header = if contains(p, "# Pronto"@) {
            Seq::empty()
        } else {
            "# Pronto\n"@
        };
        Some(p + header + name + "/\n"@)
    }
}

/// The `.gitignore` text `contents` with directory `file_name` added to it, or
/// `None` when it already mentions `file_name`.
pub fn gitignore_with_entry(contents: &str, file_name: &str) -> (r: Option<String>)
    ensures
        match r {
            Some(t) => gitignore_update(contents@, file_name@) == Some(t@),
            None => gitignore_update(contents@, file_name@) is None,
        },
        r is None <==> contains(contents@, file_name@),
        r matches Some(t) ==> adds_entry(contents@, file_name@, t@),
{
    proof {
        law_gitignore_leaves_mentioned(contents@, file_name@);
        law_gitignore_adds_entry(contents@, file_name@);
    }
    if str_contains(contents, file_name) {
        return None;
    }
    proof {
        reveal_strlit("\n");
        reveal_strlit("\n\n");
    }
    let mut text = contents.to_owned();
    if !contents.is_empty() {
        let v = crate::text::chars_of(contents);
        if v[v.len() - 1] != '\n' {
            text.append("\n");
        }
        text.append("\n");
        assert(text@ =~= padded(contents@));
    }
    assert(text@ == padded(contents@));
    if !str_contains(text.as_str(), "# Pronto") {
        text.append("# Pronto\n");
    }
    text.append(file_name);
    text.append("/\n");
    Some(text)
}

/// `t` is `contents` with an entry for directory `name` added at its end: it
/// starts with all of `contents`, ends with the line `name/`, and holds a
/// `# Pronto` header.
pub open spec fn adds_entry(contents: Seq<char>, name: Seq<char>, t: Seq<char>) -> bool {
    &&& contents.len() <= t.len()
    &&& t.subrange(0, contents.len() as int) == contents
    &&& ends_with(t, name + "/\n"@)
    &&& contains(t, "# Pronto"@)
}

/// What occurs in a prefix of `t` occurs in `t`.
proof fn lemma_contains_in_prefix(t: Seq<char>, p: Seq<char>, needle: Seq<char>)
    requires
        p.len() <= t.len(),
        t.subrange(0, p.len() as int) == p,
        contains(p, needle),
    ensures
        contains(t, needle),
{
    let k = choose|k: int| occurs_at(p, needle, k);
    assert(t.subrange(k, k + needle.len()) =~= p.subrange(k, k + needle.len()));
    assert(occurs_at(t, needle, k));
}

/// A `.gitignore` that already mentions the directory anywhere is left as it
/// is: no update is made.
pub proof fn law_gitignore_leaves_mentioned(contents: Seq<char>, name: Seq<char>)
    ensures
        contains(contents, name) <==> gitignore_update(contents, name) is None,
{
}

/// A `.gitignore` that does not mention the directory gets an entry for it:
/// the old text is kept as it was, the new text ends with the line `name/`,
/// and it holds a `# Pronto` header.
pub proof fn law_gitignore_adds_entry(contents: Seq<char>, name: Seq<char>)
    ensures
        gitignore_update(contents, name) matches Some(t) ==> adds_entry(contents, name, t),
{
    reveal_strlit("# Pronto");
    reveal_strlit("# Pronto\n");
    reveal_strlit("\n");
    reveal_strlit("\n\n");
    reveal_strlit("/\n");
    if let Some(t) = gitignore_update(contents, name) {
        let p = padded(contents);
        let header = if contains(p, "# Pronto"@) {
            Seq::<char>::empty()
        } else {
            "# Pronto\n"@
        };
        assert(t =~= p + header + name + "/\n"@);
        assert(p.subrange(0, contents.len() as int) =~= contents);
        assert(t.subrange(0, contents.len() as int) =~= contents);
        assert(t.subrange(t.len() - (name.len() + 2), t.len() as int) =~= name + "/\n"@);
        if contains(p, "# Pronto"@) {
            assert(t.subrange(0, p.len() as int) =~= p);
            lemma_contains_in_prefix(t, p, "# Pronto"@);
        } else {
            let k = p.len() as int;
            assert(t.subrange(k, k + 8) =~= "# Pronto"@);
            assert(occurs_at(t, "# Pronto"@, k));
        }
    }
}

/// Adding a directory to `.gitignore` keeps what the file held, makes the file
/// mention the directory, and so adding it a second time changes nothing.
pub proof fn law_gitignore_idempotent(contents: Seq<char>, name: Seq<char>)
    ensures
        gitignore_update(contents, name) matches Some(t) ==> {
            &&& t.subrange(0, contents.len() as int) == contents
            &&& contains(t, name)
            &&& gitignore_update(t, name) is None
        },
{
    if let Some(t) = gitignore_update(contents, name) {
        let p = padded(contents);
        let header = if contains(p, "# Pronto"@) {
            Seq::<char>::empty()
        } else {
            "# Pronto\n"@
        };
        let k: int = (p.len() + header.len()) as int;
        assert(t =~= p + header + name + "/\n"@);
        assert(t.subrange(k, k + name.len()) =~= name);
        assert(occurs_at(t, name, k));
        assert(p.subrange(0, contents.len() as int) =~= contents);
        assert(t.subrange(0, contents.len() as int) =~= contents);
    }
}

} // verus!
