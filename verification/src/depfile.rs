//! The dependency files that `gcc -MMD` writes (`target.o: a.c b.h \` and
//! continuation lines): the words that name the prerequisites.
//!
//! Each line is trimmed; empty lines and `#` comments are skipped. On a line
//! that starts a rule, the text after the first `": "` holds the words; once a
//! line has ended with a `\` word, every later line is taken as a continuation
//! and the text before its first `": "` (all of it, when there is none) holds
//! the words. The words of a line stop at a `\`.
use vstd::prelude::*;

use crate::text::{
    split, split_on, split_whitespace, str_eq, trim, trimmed, views, words,
};

verus! {

/// A trimmed line that holds no words: empty, or a comment.
pub open spec fn is_skipped(t: Seq<char>) -> bool {
    t.len() == 0 || t[0] == '#'
}

/// The text of trimmed line `t` that holds its words.
pub open spec fn dep_field(continuation: bool, t: Seq<char>) -> Seq<char> {
    if continuation {
        split(t, ": "@)[0]
    } else {
        split(t, ": "@)[1]
    }
}

/// Index of the first `\` word in `ws` at or after `i`, or `ws.len()`.
pub open spec fn backslash_from(ws: Seq<Seq<char>>, i: int) -> int
    decreases ws.len() - i,
{
    if i < 0 || i >= ws.len() {
        ws.len() as int
    } else if ws[i] == "\\"@ {
        i
    } else {
        backslash_from(ws, i + 1)
    }
}

/// The words of line `line`'s field, before any `\`.
pub open spec fn field_words(continuation: bool, line: Seq<char>) -> Seq<Seq<char>> {
    words(dep_field(continuation, trimmed(line)))
}

/// A line that can be read: a rule line must have a `": "`.
pub open spec fn line_ok(continuation: bool, line: Seq<char>) -> bool {
    let t = trimmed(line);
    is_skipped(t) || continuation || split(t, ": "@).len() >= 2
}

/// The prerequisite words of one line.
pub open spec fn line_words(continuation: bool, line: Seq<char>) -> Seq<Seq<char>> {
    if is_skipped(trimmed(line)) {
        Seq::empty()
    } else {
        let ws = field_words(continuation, line);
        ws.take(backslash_from(ws, 0))
    }
}

/// Whether the lines after this one are continuation lines.
pub open spec fn line_continues(continuation: bool, line: Seq<char>) -> bool {
    continuation || (!is_skipped(trimmed(line)) && backslash_from(
        field_words(continuation, line),
        0,
    ) < field_words(continuation, line).len())
}

/// Whether the line after the first `n` lines is a continuation line.
pub open spec fn continues_after(ls: Seq<Seq<char>>, n: int) -> bool
    decreases n,
{
    if n <= 0 || n > ls.len() {
        false
    } else {
        line_continues(continues_after(ls, n - 1), ls[n - 1])
    }
}

/// The prerequisite words of the first `n` lines.
pub open spec fn words_upto(ls: Seq<Seq<char>>, n: int) -> Seq<Seq<char>>
    decreases n,
{
    if n <= 0 || n > ls.len() {
        Seq::empty()
    } else {
        words_upto(ls, n - 1) + line_words(continues_after(ls, n - 1), ls[n - 1])
    }
}

/// Every line can be read.
pub open spec fn dot_d_readable(ls: Seq<Seq<char>>) -> bool {
    forall|n: int| 0 <= n < ls.len() ==> line_ok(#[trigger] continues_after(ls, n), ls[n])
}

/// The prerequisite words of a dependency file with these lines.
pub open spec fn prerequisite_words(ls: Seq<Seq<char>>) -> Seq<Seq<char>> {
    words_upto(ls, ls.len() as int)
}

/// Whether trimmed text `t` is skipped (empty or a comment).
fn skipped(t: &str) -> (r: bool)
    ensures
        r == is_skipped(t@),
{
    if t.is_empty() {
        true
    } else {
        t.get_char(0) == '#'
    }
}

/// Whether every line of a dependency file can be read.
pub fn dot_d_lines_readable(ls: &Vec<String>) -> (r: bool)
    ensures
        r == dot_d_readable(views(ls@)),
{
    let ghost l = views(ls@);
    let mut continuation = false;
    let mut i: usize = 0;
    while i < ls.len()
        invariant
            l == views(ls@),
            0 <= i <= ls.len(),
            continuation == continues_after(l, i as int),
            forall|n: int| 0 <= n < i ==> line_ok(#[trigger] continues_after(l, n), l[n]),
        decreases ls.len() - i,
    {
        assert(l[i as int] == ls@[i as int]@);
        let t = trim(ls[i].as_str());
        if !skipped(t.as_str()) {
            proof {
                reveal_strlit(": ");
            }
            let parts = split_on(t.as_str(), ": ");
            if !continuation && parts.len() < 2 {
                assert(!line_ok(continues_after(l, i as int), l[i as int]));
                return false;
            }
            let field = if continuation { &parts[0] } else { &parts[1] };
            assert(field@ == dep_field(continuation, t@));
            let ws = split_whitespace(field.as_str());
            let ghost w = views(ws@);
            let mut j: usize = 0;
            let mut found = false;
            while j < ws.len()
                invariant_except_break
                    w == views(ws@),
                    0 <= j <= ws.len(),
                    !found,
                    backslash_from(w, 0) == backslash_from(w, j as int),
                ensures
                    j == backslash_from(w, 0),
                    found == (j < ws.len()),
                decreases ws.len() - j,
            {
                assert(w[j as int] == ws@[j as int]@);
                if str_eq(ws[j].as_str(), "\\") {
                    found = true;
                    break;
                }
                j = j + 1;
            }
            if found {
                continuation = true;
            }
        }
        i = i + 1;
    }
    true
}

/// The prerequisite words of a dependency file with these lines, in order.
pub fn dot_d_words(ls: &Vec<String>) -> (r: Vec<String>)
    requires
        dot_d_readable(views(ls@)),
    ensures
        views(r@) == prerequisite_words(views(ls@)),
{
    let ghost l = views(ls@);
    let mut out: Vec<String> = Vec::new();
    let mut continuation = false;
    let mut i: usize = 0;
    while i < ls.len()
        invariant
            l == views(ls@),
            dot_d_readable(l),
            0 <= i <= ls.len(),
            continuation == continues_after(l, i as int),
            views(out@) == words_upto(l, i as int),
        decreases ls.len() - i,
    {
        assert(l[i as int] == ls@[i as int]@);
        assert(line_ok(continues_after(l, i as int), l[i as int]));
        let t = trim(ls[i].as_str());
        let ghost before = views(out@);
        if !skipped(t.as_str()) {
            proof {
                reveal_strlit(": ");
            }
            let parts = split_on(t.as_str(), ": ");
            let field = if continuation { &parts[0] } else { &parts[1] };
            assert(field@ == dep_field(continuation, t@));
            let ws = split_whitespace(field.as_str());
            let ghost w = views(ws@);
            let mut j: usize = 0;
            let mut found = false;
            while j < ws.len()
                invariant_except_break
                    w == views(ws@),
                    0 <= j <= ws.len(),
                    !found,
                    backslash_from(w, 0) == backslash_from(w, j as int),
                    views(out@) == before + w.take(j as int),
                ensures
                    w == views(ws@),
                    0 <= j <= ws.len(),
                    j == backslash_from(w, 0),
                    found == (j < ws.len()),
                    views(out@) == before + w.take(j as int),
                decreases ws.len() - j,
            {
                assert(w[j as int] == ws@[j as int]@);
                if str_eq(ws[j].as_str(), "\\") {
                    found = true;
                    break;
                }
                let ghost prev = out@;
                out.push(ws[j].clone());
                assert(views(out@) =~= views(prev).push(w[j as int]));
                assert(w.take(j + 1) =~= w.take(j as int).push(w[j as int]));
                j = j + 1;
            }
            if found {
                continuation = true;
            }
        }
        i = i + 1;
    }
    assert(views(ls@).len() == ls.len());
    out
}

} // verus!
