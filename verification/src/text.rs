//! Character-level text utilities, each specified over the `Seq<char>` view of
//! its arguments: whitespace trimming and splitting, substring search, separator
//! splitting and line splitting.
use vstd::prelude::*;

verus! {

/// Unicode `White_Space` property: the characters that `char::is_whitespace` accepts.
pub open spec fn is_white_space(c: char) -> bool {
    ||| ('\u{9}' <= c && c <= '\u{D}')
    ||| c == ' '
    ||| c == '\u{85}'
    ||| c == '\u{A0}'
    ||| c == '\u{1680}'
    ||| ('\u{2000}' <= c && c <= '\u{200A}')
    ||| c == '\u{2028}'
    ||| c == '\u{2029}'
    ||| c == '\u{202F}'
    ||| c == '\u{205F}'
    ||| c == '\u{3000}'
}

/// The views of a sequence of strings.
pub open spec fn views(v: Seq<String>) -> Seq<Seq<char>> {
    v.map_values(|w: String| w@)
}

/// Index of the first non-whitespace character at or after `i` (or `s.len()`).
pub open spec fn skip_ws(s: Seq<char>, i: int) -> int
    decreases s.len() - i,
{
    if 0 <= i < s.len() && is_white_space(s[i]) {
        skip_ws(s, i + 1)
    } else {
        i
    }
}

/// Index just past the last non-whitespace character before `j` (or 0).
pub open spec fn back_ws(s: Seq<char>, j: int) -> int
    decreases j,
{
    if 0 < j <= s.len() && is_white_space(s[j - 1]) {
        back_ws(s, j - 1)
    } else {
        j
    }
}

/// `s` without its leading and trailing whitespace (`str::trim`).
pub open spec fn trimmed(s: Seq<char>) -> Seq<char> {
    let a = skip_ws(s, 0);
    let b = back_ws(s, s.len() as int);
    if b <= a {
        Seq::empty()
    } else {
        s.subrange(a, b)
    }
}

/// End of the run of non-whitespace characters that starts at `i`.
pub open spec fn word_end(s: Seq<char>, i: int) -> int
    decreases s.len() - i,
{
    if 0 <= i < s.len() && !is_white_space(s[i]) {
        word_end(s, i + 1)
    } else {
        i
    }
}

pub proof fn lemma_word_end_bounds(s: Seq<char>, i: int)
    requires
        0 <= i <= s.len(),
    ensures
        i <= word_end(s, i) <= s.len(),
        forall|k: int| i <= k < word_end(s, i) ==> !is_white_space(#[trigger] s[k]),
        word_end(s, i) < s.len() ==> is_white_space(s[word_end(s, i)]),
    decreases s.len() - i,
{
    if i < s.len() && !is_white_space(s[i]) {
        lemma_word_end_bounds(s, i + 1);
    }
}

/// The whitespace-separated words of `s` from index `i` on (`str::split_whitespace`).
pub open spec fn words_from(s: Seq<char>, i: int) -> Seq<Seq<char>>
    decreases s.len() - i,
{
    if i < 0 || i >= s.len() {
        Seq::empty()
    } else if is_white_space(s[i]) {
        words_from(s, i + 1)
    } else {
        let j = word_end(s, i);
        proof {
            lemma_word_end_bounds(s, i + 1);
        }
        seq![s.subrange(i, j)] + words_from(s, j)
    }
}

pub open spec fn words(s: Seq<char>) -> Seq<Seq<char>> {
    words_from(s, 0)
}

/// `needle` occurs in `hay` starting at index `k`.
pub open spec fn occurs_at(hay: Seq<char>, needle: Seq<char>, k: int) -> bool {
    0 <= k && k + needle.len() <= hay.len() && hay.subrange(k, k + needle.len()) == needle
}

/// `needle` occurs somewhere in `hay` (`str::contains`).
pub open spec fn contains(hay: Seq<char>, needle: Seq<char>) -> bool {
    exists|k: int| occurs_at(hay, needle, k)
}

/// `s` ends with `suffix` (`str::ends_with`).
pub open spec fn ends_with(s: Seq<char>, suffix: Seq<char>) -> bool {
    suffix.len() <= s.len() && s.subrange(s.len() - suffix.len(), s.len() as int) == suffix
}

/// First occurrence of `sep` in `s` at or after `i`, or -1.
pub open spec fn find_from(s: Seq<char>, sep: Seq<char>, i: int) -> int
    decreases s.len() - i,
{
    if i < 0 || i + sep.len() > s.len() {
        -1
    } else if occurs_at(s, sep, i) {
        i
    } else if i >= s.len() {
        -1
    } else {
        find_from(s, sep, i + 1)
    }
}

pub proof fn lemma_find_from(s: Seq<char>, sep: Seq<char>, i: int)
    requires
        0 <= i,
    ensures
        find_from(s, sep, i) == -1 || (i <= find_from(s, sep, i) && occurs_at(s, sep, find_from(s, sep, i))),
        forall|k: int| i <= k && (find_from(s, sep, i) == -1 || k < find_from(s, sep, i)) ==> !occurs_at(s, sep, k),
    decreases s.len() - i,
{
    if i + sep.len() > s.len() {
    } else if occurs_at(s, sep, i) {
    } else if i >= s.len() {
    } else {
        lemma_find_from(s, sep, i + 1);
    }
}

/// The pieces of `s` from index `i` on, cut at each occurrence of the non-empty
/// separator `sep`, leftmost first (`str::split` with a string pattern).
pub open spec fn pieces_from(s: Seq<char>, sep: Seq<char>, i: int) -> Seq<Seq<char>>
    decreases s.len() - i,
{
    if sep.len() == 0 || i < 0 || i > s.len() {
        Seq::empty()
    } else {
        let k = find_from(s, sep, i);
        if k < 0 {
            seq![s.subrange(i, s.len() as int)]
        } else {
            proof {
                lemma_find_from(s, sep, i);
            }
            seq![s.subrange(i, k)] + pieces_from(s, sep, k + sep.len())
        }
    }
}

pub open spec fn split(s: Seq<char>, sep: Seq<char>) -> Seq<Seq<char>> {
    pieces_from(s, sep, 0)
}

/// Index of the first `'\n'` at or after `i`, or `s.len()`.
pub open spec fn line_end(s: Seq<char>, i: int) -> int
    decreases s.len() - i,
{
    if 0 <= i < s.len() && s[i] != '\n' {
        line_end(s, i + 1)
    } else {
        i
    }
}

pub proof fn lemma_line_end_bounds(s: Seq<char>, i: int)
    requires
        0 <= i <= s.len(),
    ensures
        i <= line_end(s, i) <= s.len(),
        forall|k: int| i <= k < line_end(s, i) ==> #[trigger] s[k] != '\n',
        line_end(s, i) < s.len() ==> s[line_end(s, i)] == '\n',
    decreases s.len() - i,
{
    if i < s.len() && s[i] != '\n' {
        lemma_line_end_bounds(s, i + 1);
    }
}

/// One line as `BufRead::lines` yields it: the text up to the newline at `j`,
/// without a `'\r'` that stands just before that newline.
pub open spec fn line_text(s: Seq<char>, i: int, j: int) -> Seq<char> {
    if j < s.len() && i < j && s[j - 1] == '\r' {
        s.subrange(i, j - 1)
    } else {
        s.subrange(i, j)
    }
}

/// The lines of `s` from index `i` on, as `BufRead::lines` yields them: cut at
/// each `'\n'`, CR-LF endings removed, no empty line after a final newline.
pub open spec fn lines_from(s: Seq<char>, i: int) -> Seq<Seq<char>>
    decreases s.len() - i,
{
    if i < 0 || i >= s.len() {
        Seq::empty()
    } else {
        let j = line_end(s, i);
        proof {
            lemma_line_end_bounds(s, i);
        }
        if j >= s.len() {
            seq![line_text(s, i, j)]
        } else {
            seq![line_text(s, i, j)] + lines_from(s, j + 1)
        }
    }
}

pub open spec fn lines(s: Seq<char>) -> Seq<Seq<char>> {
    lines_from(s, 0)
}

pub proof fn lemma_line_end_shift(a: Seq<char>, b: Seq<char>, i: int)
    requires
        0 <= i <= b.len(),
    ensures
        line_end(a + b, a.len() + i) == a.len() + line_end(b, i),
    decreases b.len() - i,
{
    if i < b.len() {
        assert((a + b)[a.len() + i] == b[i]);
        if b[i] != '\n' {
            lemma_line_end_shift(a, b, i + 1);
        }
    }
}

pub proof fn lemma_lines_shift(a: Seq<char>, b: Seq<char>, i: int)
    requires
        0 <= i <= b.len(),
    ensures
        lines_from(a + b, a.len() + i) == lines_from(b, i),
    decreases b.len() - i,
{
    if i < b.len() {
        let j = line_end(b, i);
        lemma_line_end_shift(a, b, i);
        lemma_line_end_bounds(b, i);
        if j < b.len() && i < j {
            assert((a + b)[a.len() + j - 1] == b[j - 1]);
        }
        assert(line_text(a + b, a.len() + i, a.len() + j) =~= line_text(b, i, j));
        if j < b.len() {
            lemma_lines_shift(a, b, j + 1);
        }
    }
}

/// Where a line break occurs in `x` at or after `i`, the line that starts at
/// `i` ends at the same place in `x + y` as in `x`.
pub proof fn lemma_line_end_prefix(x: Seq<char>, y: Seq<char>, i: int)
    requires
        0 <= i < x.len(),
        x.last() == '\n',
    ensures
        line_end(x + y, i) == line_end(x, i),
        line_end(x, i) < x.len(),
    decreases x.len() - i,
{
    assert((x + y)[i] == x[i]);
    if x[i] != '\n' {
        lemma_line_end_prefix(x, y, i + 1);
    }
}

/// The lines of `x + y` are those of `x` followed by those of `y`, when `x` is
/// empty or ends with a line break.
pub proof fn lemma_lines_append(x: Seq<char>, y: Seq<char>, i: int)
    requires
        0 <= i <= x.len(),
        x.len() == 0 || x.last() == '\n',
    ensures
        lines_from(x + y, i) == lines_from(x, i) + lines(y),
    decreases x.len() - i,
{
    if i == x.len() {
        lemma_lines_shift(x, y, 0);
        assert(lines_from(x, i) =~= Seq::<Seq<char>>::empty());
        assert(lines_from(x + y, i) =~= lines_from(x, i) + lines(y));
    } else {
        lemma_line_end_prefix(x, y, i);
        lemma_line_end_bounds(x, i);
        let j = line_end(x, i);
        assert(line_text(x + y, i, j) =~= line_text(x, i, j));
        lemma_lines_append(x, y, j + 1);
        assert(lines_from(x + y, i) =~= lines_from(x, i) + lines(y));
    }
}

/// A line without line breaks, followed by one, reads back as that line,
/// unless it ends with a carriage return.
pub proof fn lemma_lines_single(e: Seq<char>)
    requires
        forall|k: int| 0 <= k < e.len() ==> e[k] != '\n',
        e.len() == 0 || e.last() != '\r',
    ensures
        lines(e + seq!['\n']) == seq![e],
{
    let y = e + seq!['\n'];
    assert forall|k: int| 0 <= k < e.len() implies y[k] != '\n' by {
        assert(y[k] == e[k]);
    }
    assert(y[e.len() as int] == '\n');
    lemma_line_end_to(y, 0, e.len() as int);
    if e.len() > 0 {
        assert(y[e.len() - 1] == e.last());
    }
    assert(line_text(y, 0, e.len() as int) =~= e);
    assert(lines_from(y, e.len() + 1int) =~= Seq::<Seq<char>>::empty());
    assert(lines_from(y, 0) =~= seq![e]);
}

/// A line that starts at `i` ends at the first line break, at `t`.
pub proof fn lemma_line_end_to(s: Seq<char>, i: int, t: int)
    requires
        0 <= i <= t < s.len(),
        s[t] == '\n',
        forall|k: int| i <= k < t ==> s[k] != '\n',
    ensures
        line_end(s, i) == t,
    decreases t - i,
{
    if i < t {
        lemma_line_end_to(s, i + 1, t);
    }
}

pub proof fn lemma_ws_bounds(s: Seq<char>, i: int, j: int)
    requires
        0 <= i <= s.len(),
        0 <= j <= s.len(),
    ensures
        i <= skip_ws(s, i) <= s.len(),
        back_ws(s, j) <= j,
        0 <= back_ws(s, j),
    decreases s.len() - i + j,
{
    if i < s.len() && is_white_space(s[i]) {
        lemma_ws_bounds(s, i + 1, j);
    } else if 0 < j && is_white_space(s[j - 1]) {
        lemma_ws_bounds(s, i, j - 1);
    }
}

/// A non-empty text that trimming leaves unchanged starts and ends with a
/// character that is not whitespace.
pub proof fn lemma_trimmed_fixed(s: Seq<char>)
    requires
        s.len() > 0,
        trimmed(s) == s,
    ensures
        !is_white_space(s[0]),
        !is_white_space(s.last()),
{
    lemma_ws_bounds(s, 0, s.len() as int);
    if is_white_space(s[0]) {
        lemma_ws_bounds(s, 1, s.len() as int);
        assert(trimmed(s).len() < s.len());
    }
    if is_white_space(s.last()) {
        lemma_ws_bounds(s, 0, s.len() - 1);
        assert(trimmed(s).len() < s.len());
    }
}

/// Whether `c` has the Unicode `White_Space` property (as `char::is_whitespace`).
pub fn is_whitespace_char(c: char) -> (b: bool)
    ensures
        b == is_white_space(c),
{
    ('\u{9}' <= c && c <= '\u{D}') || c == ' ' || c == '\u{85}' || c == '\u{A0}' || c
        == '\u{1680}' || ('\u{2000}' <= c && c <= '\u{200A}') || c == '\u{2028}' || c == '\u{2029}'
        || c == '\u{202F}' || c == '\u{205F}' || c == '\u{3000}'
}

/// The characters of `s`, in order.
pub fn chars_of(s: &str) -> (v: Vec<char>)
    ensures
        v@ == s@,
{
    let mut v: Vec<char> = Vec::new();
    for c in it: s.chars()
        invariant
            v@ == it.seq().take(it.index() as int),
    {
        v.push(c);
    }
    v
}

/// The part of `s` between character positions `from` and `to`, as a `String`.
pub fn slice(s: &str, from: usize, to: usize) -> (r: String)
    requires
        from <= to <= s@.len(),
    ensures
        r@ == s@.subrange(from as int, to as int),
{
    s.substring_char(from, to).to_owned()
}

/// Whether two strings hold the same characters.
pub fn str_eq(a: &str, b: &str) -> (r: bool)
    ensures
        r == (a@ == b@),
{
    let va = chars_of(a);
    let vb = chars_of(b);
    if va.len() != vb.len() {
        return false;
    }
    let mut i: usize = 0;
    while i < va.len()
        invariant
            va@ == a@,
            vb@ == b@,
            va.len() == vb.len(),
            0 <= i <= va.len(),
            forall|k: int| 0 <= k < i ==> va@[k] == vb@[k],
        decreases va.len() - i,
    {
        if va[i] != vb[i] {
            return false;
        }
        i = i + 1;
    }
    assert(va@ =~= vb@);
    true
}

/// Whether `needle` occurs in `hay` at character position `k` (over char vectors).
fn occurs_at_exec(hay: &Vec<char>, needle: &Vec<char>, k: usize) -> (r: bool)
    ensures
        r == occurs_at(hay@, needle@, k as int),
{
    if k > hay.len() || needle.len() > hay.len() - k {
        return false;
    }
    let mut i: usize = 0;
    while i < needle.len()
        invariant
            k + needle.len() <= hay.len(),
            0 <= i <= needle.len(),
            forall|m: int| 0 <= m < i ==> hay@[k + m] == needle@[m],
        decreases needle.len() - i,
    {
        if hay[k + i] != needle[i] {
            assert(hay@.subrange(k as int, k + needle@.len())[i as int] != needle@[i as int]);
            return false;
        }
        i = i + 1;
    }
    assert(hay@.subrange(k as int, k + needle@.len()) =~= needle@);
    true
}

/// First occurrence of `needle` in `hay` at or after `from` (over char vectors).
fn find_exec(hay: &Vec<char>, needle: &Vec<char>, from: usize) -> (r: Option<usize>)
    ensures
        match r {
            Some(k) => k == find_from(hay@, needle@, from as int),
            None => find_from(hay@, needle@, from as int) == -1,
        },
{
    if needle.len() == 0 {
        if from <= hay.len() {
            assert(hay@.subrange(from as int, from as int) =~= needle@);
            return Some(from);
        }
        return None;
    }
    let mut k = from;
    while k <= hay.len() && needle.len() <= hay.len() - k
        invariant
            from <= k,
            needle.len() > 0,
            find_from(hay@, needle@, from as int) == find_from(hay@, needle@, k as int),
        decreases hay.len() + 1 - k,
    {
        if occurs_at_exec(hay, needle, k) {
            return Some(k);
        }
        k = k + 1;
    }
    None
}

/// `hay` contains `needle` (`str::contains`).
pub fn str_contains(hay: &str, needle: &str) -> (r: bool)
    ensures
        r == contains(hay@, needle@),
{
    let h = chars_of(hay);
    let n = chars_of(needle);
    let k = find_exec(&h, &n, 0);
    proof {
        lemma_find_from(h@, n@, 0);
        if contains(h@, n@) {
            let w = choose|w: int| occurs_at(h@, n@, w);
            assert(occurs_at(h@, n@, w));
        }
    }
    k.is_some()
}

/// `s` ends with `suffix` (`str::ends_with`).
pub fn str_ends_with(s: &str, suffix: &str) -> (r: bool)
    ensures
        r == ends_with(s@, suffix@),
{
    let v = chars_of(s);
    let x = chars_of(suffix);
    if x.len() > v.len() {
        return false;
    }
    let r = occurs_at_exec(&v, &x, v.len() - x.len());
    r
}

/// `s` without leading and trailing whitespace (`str::trim`).
pub fn trim(s: &str) -> (r: String)
    ensures
        r@ == trimmed(s@),
{
    let v = chars_of(s);
    let n = v.len();
    let mut a: usize = 0;
    while a < n && is_whitespace_char(v[a])
        invariant
            v@ == s@,
            n == v.len(),
            0 <= a <= n,
            skip_ws(v@, 0) == skip_ws(v@, a as int),
        decreases n - a,
    {
        a = a + 1;
    }
    let mut b: usize = n;
    while b > 0 && is_whitespace_char(v[b - 1])
        invariant
            v@ == s@,
            n == v.len(),
            0 <= b <= n,
            back_ws(v@, n as int) == back_ws(v@, b as int),
        decreases b,
    {
        b = b - 1;
    }
    if b <= a {
        String::new()
    } else {
        slice(s, a, b)
    }
}

/// The whitespace-separated words of `s` (`str::split_whitespace`).
pub fn split_whitespace(s: &str) -> (r: Vec<String>)
    ensures
        views(r@) == words(s@),
{
    let v = chars_of(s);
    let n = v.len();
    let mut out: Vec<String> = Vec::new();
    let mut i: usize = 0;
    while i < n
        invariant
            v@ == s@,
            n == v.len(),
            0 <= i <= n,
            words(v@) == views(out@) + words_from(v@, i as int),
        decreases n - i,
    {
        if is_whitespace_char(v[i]) {
            i = i + 1;
        } else {
            let start = i;
            proof {
                lemma_word_end_bounds(v@, start as int + 1);
            }
            i = i + 1;
            while i < n && !is_whitespace_char(v[i])
                invariant
                    v@ == s@,
                    n == v.len(),
                    start < i <= n,
                    word_end(v@, start as int) == word_end(v@, i as int),
                decreases n - i,
            {
                i = i + 1;
            }
            let w = slice(s, start, i);
            let ghost before = out@;
            out.push(w);
            assert(views(out@) =~= views(before) + seq![v@.subrange(start as int, i as int)]);
            assert(words_from(v@, start as int) == seq![v@.subrange(start as int, i as int)] + words_from(v@, i as int));
            assert(views(out@) + words_from(v@, i as int) =~= views(before) + words_from(v@, start as int));
        }
    }
    assert(words_from(v@, n as int) =~= Seq::<Seq<char>>::empty());
    assert(views(out@) + words_from(v@, n as int) =~= views(out@));
    out
}

/// The pieces of `s` cut at each occurrence of `sep` (`str::split` with a
/// non-empty string pattern).
pub fn split_on(s: &str, sep: &str) -> (r: Vec<String>)
    requires
        sep@.len() > 0,
    ensures
        views(r@) == split(s@, sep@),
        r@.len() >= 1,
{
    let v = chars_of(s);
    let p = chars_of(sep);
    let n = v.len();
    let mut out: Vec<String> = Vec::new();
    let mut i: usize = 0;
    loop
        invariant
            v@ == s@,
            p@ == sep@,
            n == v.len(),
            p.len() > 0,
            0 <= i <= n,
            split(v@, p@) == views(out@) + pieces_from(v@, p@, i as int),
        decreases n - i,
    {
        let k = find_exec(&v, &p, i);
        proof {
            lemma_find_from(v@, p@, i as int);
        }
        let ghost before = out@;
        if k.is_none() {
            let w = slice(s, i, n);
            out.push(w);
            assert(views(out@) =~= views(before) + pieces_from(v@, p@, i as int));
            return out;
        }
        let k = k.unwrap();
        let w = slice(s, i, k);
        out.push(w);
        assert(views(out@) + pieces_from(v@, p@, (k + p.len()) as int) =~= views(before)
            + pieces_from(v@, p@, i as int));
        i = k + p.len();
    }
}

/// The lines of `text` as `BufRead::lines` yields them.
pub fn split_lines(text: &str) -> (r: Vec<String>)
    ensures
        views(r@) == lines(text@),
{
    let v = chars_of(text);
    let n = v.len();
    let mut out: Vec<String> = Vec::new();
    let mut i: usize = 0;
    while i < n
        invariant
            v@ == text@,
            n == v.len(),
            0 <= i <= n,
            lines(v@) == views(out@) + lines_from(v@, i as int),
        decreases n - i,
    {
        let start = i;
        proof {
            lemma_line_end_bounds(v@, start as int);
        }
        while i < n && v[i] != '\n'
            invariant
                v@ == text@,
                n == v.len(),
                start <= i <= n,
                line_end(v@, start as int) == line_end(v@, i as int),
            decreases n - i,
        {
            i = i + 1;
        }
        let end = if i < n && i > start && v[i - 1] == '\r' { i - 1 } else { i };
        let w = slice(text, start, end);
        let ghost before = out@;
        out.push(w);
        assert(views(out@) + lines_from(v@, i + 1) =~= views(before) + lines_from(v@, start as int));
        if i < n {
            i = i + 1;
        } else {
            assert(lines_from(v@, (i + 1) as int) =~= Seq::<Seq<char>>::empty());
            assert(lines_from(v@, i as int) =~= Seq::<Seq<char>>::empty());
        }
    }
    assert(views(out@) + lines_from(v@, n as int) =~= views(out@));
    out
}

} // verus!
