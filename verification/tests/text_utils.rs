use std::io::BufRead;

use pronto::text::{is_whitespace_char, split_lines, split_on, split_whitespace, str_contains, str_ends_with, str_eq, trim};

const SAMPLES: [&str; 12] = [
    "",
    "   ",
    "abc",
    "  abc  ",
    "\t a b\tc \n",
    "\u{A0}x\u{2003}y\u{3000}",
    "a: b: c",
    ": : ",
    "x::y: z",
    "one\ntwo\r\nthree",
    "trailing\n",
    "\n\n\r\n",
];

#[test]
fn trim_agrees_with_std() {
    for s in SAMPLES {
        assert_eq!(trim(s), s.trim(), "input {:?}", s);
    }
}

#[test]
fn split_whitespace_agrees_with_std() {
    for s in SAMPLES {
        let expected: Vec<String> = s.split_whitespace().map(|w| w.to_string()).collect();
        assert_eq!(split_whitespace(s), expected, "input {:?}", s);
    }
}

#[test]
fn split_on_agrees_with_std() {
    for s in SAMPLES {
        for sep in [": ", "/", "\n", "ab"] {
            let expected: Vec<String> = s.split(sep).map(|w| w.to_string()).collect();
            assert_eq!(split_on(s, sep), expected, "input {:?} sep {:?}", s, sep);
        }
    }
}

#[test]
fn split_lines_agrees_with_bufread() {
    for s in SAMPLES {
        let expected: Vec<String> = std::io::Cursor::new(s).lines().map(|l| l.unwrap()).collect();
        assert_eq!(split_lines(s), expected, "input {:?}", s);
    }
}

#[test]
fn contains_ends_with_and_eq_agree_with_std() {
    for s in SAMPLES {
        for n in ["", "a", "b: ", "\n", "abc", "three", "c"] {
            assert_eq!(str_contains(s, n), s.contains(n), "{:?} contains {:?}", s, n);
            assert_eq!(str_ends_with(s, n), s.ends_with(n), "{:?} ends with {:?}", s, n);
            assert_eq!(str_eq(s, n), s == n);
        }
    }
}

#[test]
fn split_lines_drops_only_crlf_carriage_returns() {
    assert_eq!(split_lines("a\r\nb\r"), vec!["a".to_string(), "b\r".to_string()]);
}

#[test]
fn whitespace_agrees_with_std() {
    for code in 0u32..0x3100 {
        if let Some(c) = char::from_u32(code) {
            assert_eq!(is_whitespace_char(c), c.is_whitespace(), "{:?}", c);
        }
    }
    assert!(!is_whitespace_char('\u{10FFFF}'));
}
