//! Driving gcc: the arguments that compile one source to an object file while
//! writing its dependency file, and what a failed run is reported as.
use vstd::prelude::*;

use crate::paths::{join, path_join, path_with_extension, with_extension};
use crate::text::{trim, trimmed};

verus! {

/// A gcc run that exited with a non-zero status: a compile or link error in the
/// user's C code, not a fault of this tool.
#[derive(Debug, Clone, PartialEq, Eq)]
pub struct GccError {
    pub code: Option<i32>,
    pub stderr: String,
}

/// The character of decimal digit `d`.
pub open spec fn digit_char(d: int) -> char {
    (('0' as int) + d) as char
}

/// The decimal digits of `n`, most significant first, without leading zeros.
pub open spec fn decimal_digits(n: nat) -> Seq<char>
    decreases n,
{
    if n < 10 {
        seq![digit_char(n as int)]
    } else {
        decimal_digits(n / 10).push(digit_char((n % 10) as int))
    }
}

/// The decimal text of `n`, with a leading `-` when it is negative.
pub open spec fn decimal(n: int) -> Seq<char> {
    if n < 0 {
        seq!['-'] + decimal_digits((-n) as nat)
    } else {
        decimal_digits(n as nat)
    }
}

/// The one-character text of decimal digit `d`.
fn digit_text(d: u32) -> (t: &'static str)
    requires
        d < 10,
    ensures
        t@ == seq![digit_char(d as int)],
{
    proof {
        reveal_strlit("0");
        reveal_strlit("1");
        reveal_strlit("2");
        reveal_strlit("3");
        reveal_strlit("4");
        reveal_strlit("5");
        reveal_strlit("6");
        reveal_strlit("7");
        reveal_strlit("8");
        reveal_strlit("9");
    }
    match d {
        0 => "0",
        1 => "1",
        2 => "2",
        3 => "3",
        4 => "4",
        5 => "5",
        6 => "6",
        7 => "7",
        8 => "8",
        _ => "9",
    }
}

/// Appends the decimal digits of `n` to `s`.
fn append_decimal_digits(s: &mut String, n: u32)
    ensures
        final(s)@ == old(s)@ + decimal_digits(n as nat),
    decreases n,
{
    if n >= 10 {
        append_decimal_digits(s, n / 10);
    }
    s.append(digit_text(n % 10));
    assert(n < 10 ==> decimal_digits(n as nat) =~= seq![digit_char(n as int)]);
}

/// The decimal text of `n`, with a leading `-` when it is negative (as `i32`'s
/// `to_string`).
fn i32_to_string(n: i32) -> (s: String)
    ensures
        s@ == decimal(n as int),
{
    proof {
        reveal_strlit("-");
        reveal_strlit("");
    }
    if n < 0 {
        let mut s = "-".to_owned();
        let m: u32 = (0i64 - (n as i64)) as u32;
        append_decimal_digits(&mut s, m);
        s
    } else {
        let mut s = "".to_owned();
        append_decimal_digits(&mut s, n as u32);
        assert(s@ =~= decimal(n as int));
        s
    }
}

/// The report of a failed gcc run: its error output, trimmed; or, when that is
/// empty, the exit code.
pub open spec fn gcc_error_text(code: Option<i32>, stderr: Seq<char>) -> Seq<char> {
    if trimmed(stderr).len() == 0 {
        match code {
            Some(c) => "gcc failed with exit code "@ + decimal(c as int),
            None => "gcc failed"@,
        }
    } else {
        trimmed(stderr)
    }
}

impl GccError {
    /// How the failure is shown to the user.
    pub fn message(&self) -> (m: String)
        ensures
            m@ == gcc_error_text(self.code, self.stderr@),
    {
        let stderr = trim(self.stderr.as_str());
        if stderr.as_str().is_empty() {
            match self.code {
                Some(code) => {
                    let mut m = "gcc failed with exit code ".to_owned();
                    let digits = i32_to_string(code);
                    m.append(digits.as_str());
                    m
                },
                None => "gcc failed".to_owned(),
            }
        } else {
            stderr
        }
    }
}

/// What a finished gcc run amounts to: nothing on success; else a `GccError`
/// with the exit code (if any) and the error output, trimmed.
pub fn gcc_outcome(success: bool, code: Option<i32>, stderr: &str) -> (r: Result<(), GccError>)
    ensures
        success ==> r is Ok,
        !success ==> (r matches Err(e) && e.code == code && e.stderr@ == trimmed(stderr@)),
{
    if success {
        Ok(())
    } else {
        Err(GccError { code, stderr: trim(stderr) })
    }
}

/// Where the object file of `target_path` goes: the target mirrored under the
/// build directory, with extension `o`.
pub fn object_file_path(target_path: &str, build_path: &str) -> (r: String)
    ensures
        r@ == path_with_extension(path_join(build_path@, target_path@), "o"@),
{
    let mirrored = join(build_path, target_path);
    proof {
        reveal_strlit("o");
    }
    with_extension(mirrored.as_str(), "o")
}

/// Where gcc writes the dependency file of `target_path`: beside its object
/// file, with extension `d`.
pub fn dependency_file_path(target_path: &str, build_path: &str) -> (r: String)
    ensures
        r@ == path_with_extension(path_join(build_path@, target_path@), "d"@),
{
    let mirrored = join(build_path, target_path);
    proof {
        reveal_strlit("d");
    }
    with_extension(mirrored.as_str(), "d")
}

/// The gcc arguments that compile `target_path` to `object_path` and write its
/// dependency file: `-MMD <target> -c -o <object>`.
pub fn compile_object_arguments(target_path: &str, object_path: &str) -> (r: Vec<String>)
    ensures
        r@.len() == 5,
        r@[0]@ == "-MMD"@,
        r@[1]@ == target_path@,
        r@[2]@ == "-c"@,
        r@[3]@ == "-o"@,
        r@[4]@ == object_path@,
{
    let mut args: Vec<String> = Vec::new();
    args.push("-MMD".to_owned());
    args.push(target_path.to_owned());
    args.push("-c".to_owned());
    args.push("-o".to_owned());
    args.push(object_path.to_owned());
    args
}

} // verus!
