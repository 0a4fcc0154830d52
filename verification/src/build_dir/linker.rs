//! Linking: the executable sits beside the target, without its extension, and
//! gcc gets the object files, the extra flags, then `-o <executable>`.
use vstd::prelude::*;

use crate::paths::{path_with_extension, with_extension};
use crate::text::{ends_with, str_ends_with, views};

verus! {

/// Only C sources can be built.
pub fn is_c_target(target: &str) -> (r: bool)
    ensures
        r == ends_with(target@, ".c"@),
{
    str_ends_with(target, ".c")
}

/// Why a target cannot be linked, before anything is built.
#[derive(Debug, Clone, Copy, PartialEq, Eq)]
pub enum LinkRefusal {
    /// The target is not a C source.
    NotCSource,
    /// gcc cannot be run.
    GccUnavailable,
}

impl LinkRefusal {
    /// The message that reports the refusal.
    pub fn message(&self) -> (m: String)
        ensures
            m@ == (match self {
                LinkRefusal::NotCSource => "Expected a C file as argument."@,
                LinkRefusal::GccUnavailable => "gcc not available."@,
            }),
    {
        match self {
            LinkRefusal::NotCSource => "Expected a C file as argument.".to_owned(),
            LinkRefusal::GccUnavailable => "gcc not available.".to_owned(),
        }
    }
}

/// The checks made before linking `target`, in order: it must be a C source,
/// then gcc must be there (`gcc_available` is the answer to that question).
pub fn link_precheck(target: &str, gcc_available: bool) -> (r: Result<(), LinkRefusal>)
    ensures
        r == (if !ends_with(target@, ".c"@) {
            Err(LinkRefusal::NotCSource)
        } else if !gcc_available {
            Err(LinkRefusal::GccUnavailable)
        } else {
            Ok(())
        }),
{
    if !is_c_target(target) {
        return Err(LinkRefusal::NotCSource);
    }
    if !gcc_available {
        return Err(LinkRefusal::GccUnavailable);
    }
    Ok(())
}

/// The executable built from `target`: the target's path without extension.
pub fn executable_path(target: &str) -> (r: String)
    ensures
        r@ == path_with_extension(target@, ""@),
{
    proof {
        reveal_strlit("");
    }
    with_extension(target, "")
}

/// The gcc arguments that link `objects` into `executable`: the objects, the
/// extra flags, then `-o <executable>`.
pub fn link_arguments(objects: &Vec<String>, cflags: &Vec<String>, executable: &str) -> (r: Vec<
    String,
>)
    ensures
        views(r@) == views(objects@) + views(cflags@) + seq!["-o"@, executable@],
{
    let mut args: Vec<String> = Vec::new();
    let mut i: usize = 0;
    while i < objects.len()
        invariant
            0 <= i <= objects.len(),
            views(args@) == views(objects@).take(i as int),
        decreases objects.len() - i,
    {
        let ghost before = args@;
        args.push(objects[i].clone());
        assert(views(args@) =~= views(before).push(objects@[i as int]@));
        assert(views(objects@)[i as int] == objects@[i as int]@);
        assert(views(objects@).take(i + 1) =~= views(objects@).take(i as int).push(objects@[i as int]@));
        i = i + 1;
    }
    assert(views(objects@).take(objects.len() as int) =~= views(objects@));
    let mut j: usize = 0;
    while j < cflags.len()
        invariant
            0 <= j <= cflags.len(),
            views(args@) == views(objects@) + views(cflags@).take(j as int),
        decreases cflags.len() - j,
    {
        let ghost before = args@;
        args.push(cflags[j].clone());
        assert(views(args@) =~= views(before).push(cflags@[j as int]@));
        assert(views(cflags@)[j as int] == cflags@[j as int]@);
        assert(views(cflags@).take(j + 1) =~= views(cflags@).take(j as int).push(cflags@[j as int]@));
        assert(views(args@) =~= views(objects@) + views(cflags@).take(j + 1));
        j = j + 1;
    }
    assert(views(cflags@).take(cflags.len() as int) =~= views(cflags@));
    let ghost before = args@;
    args.push("-o".to_owned());
    args.push(executable.to_owned());
    assert(views(args@) =~= views(before) + seq!["-o"@, executable@]);
    assert(views(args@) =~= views(objects@) + views(cflags@) + seq!["-o"@, executable@]);
    args
}

} // verus!
