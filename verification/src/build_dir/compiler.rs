//! Which sources to compile: starting from the target, every source that
//! implements a header it includes, depth first, each at most once.
//!
//! `ObjectWalk` holds the decisions; the caller compiles each target that
//! `next_target` hands out, then `record`s its object file and the
//! dependencies read from its dependency file.
use vstd::prelude::*;

use crate::build_dir::dependencies::Dependency;
use crate::paths::{same_path, same_path_spec};
use crate::text::views;

verus! {

/// Some entry of `visited` is the same path as `p`.
pub open spec fn visited_by(visited: Seq<Seq<char>>, p: Seq<char>) -> bool {
    exists|k: int| 0 <= k < visited.len() && same_path_spec(visited[k], p)
}

/// No two entries of `visited` are the same path.
pub open spec fn distinct_paths(visited: Seq<Seq<char>>) -> bool {
    forall|i: int, j: int|
        0 <= i < j < visited.len() ==> !same_path_spec(#[trigger] visited[i], #[trigger] visited[j])
}

/// The implementation of a dependency that leads further: a header's source file.
pub open spec fn next_source(d: Dependency) -> Seq<Seq<char>> {
    match d {
        Dependency::Header { file, source_file } => match source_file {
            Some(s) => seq![s@],
            None => Seq::empty(),
        },
        Dependency::Source { file } => Seq::empty(),
    }
}

/// The header implementations of `deps[i..]`, last one first.
pub open spec fn sources_reversed_from(deps: Seq<Dependency>, i: int) -> Seq<Seq<char>>
    decreases deps.len() - i,
{
    if i < 0 || i >= deps.len() {
        Seq::empty()
    } else {
        sources_reversed_from(deps, i + 1) + next_source(deps[i])
    }
}

/// Adding a path that no entry is the same path as keeps the entries distinct.
proof fn lemma_push_keeps_distinct(v: Seq<Seq<char>>, p: Seq<char>)
    requires
        distinct_paths(v),
        !visited_by(v, p),
    ensures
        distinct_paths(v.push(p)),
{
    assert forall|a: int, b: int| 0 <= a < b < v.push(p).len() implies !same_path_spec(
        #[trigger] v.push(p)[a],
        #[trigger] v.push(p)[b],
    ) by {
        assert(v.push(p)[a] == v[a]);
        if b < v.len() {
            assert(v.push(p)[b] == v[b]);
        } else {
            assert(v.push(p)[b] == p);
            if same_path_spec(v[a], p) {
                assert(visited_by(v, p));
            }
        }
    }
}

/// The state of the walk: targets still to look at (a stack, its top last),
/// targets handed out so far, and their object files.
pub struct ObjectWalk {
    pending: Vec<String>,
    visited: Vec<String>,
    objects: Vec<String>,
}

impl ObjectWalk {
    pub closed spec fn pending(&self) -> Seq<Seq<char>> {
        views(self.pending@)
    }

    pub closed spec fn visited(&self) -> Seq<Seq<char>> {
        views(self.visited@)
    }

    pub closed spec fn objects(&self) -> Seq<Seq<char>> {
        views(self.objects@)
    }

    /// No target is handed out twice: the targets handed out are distinct paths.
    #[verifier::type_invariant]
    spec fn visited_distinct(&self) -> bool {
        distinct_paths(views(self.visited@))
    }

    /// A walk that starts at `root`.
    pub fn new(root: String) -> (w: Self)
        ensures
            w.pending() == seq![root@],
            w.visited() == Seq::<Seq<char>>::empty(),
            w.objects() == Seq::<Seq<char>>::empty(),
            distinct_paths(w.visited()),
    {
        let mut pending: Vec<String> = Vec::new();
        pending.push(root);
        let visited: Vec<String> = Vec::new();
        assert(views(visited@) =~= Seq::<Seq<char>>::empty());
        let w = ObjectWalk { pending, visited, objects: Vec::new() };
        assert(w.pending() =~= seq![w.pending@[0]@]);
        assert(w.visited() =~= Seq::<Seq<char>>::empty());
        assert(w.objects() =~= Seq::<Seq<char>>::empty());
        w
    }

    fn is_visited(&self, p: &str) -> (r: bool)
        ensures
            r == visited_by(self.visited(), p@),
    {
        let mut i: usize = 0;
        while i < self.visited.len()
            invariant
                0 <= i <= self.visited.len(),
                forall|k: int| 0 <= k < i ==> !same_path_spec(#[trigger] self.visited()[k], p@),
            decreases self.visited.len() - i,
        {
            assert(self.visited()[i as int] == self.visited@[i as int]@);
            if same_path(self.visited[i].as_str(), p) {
                return true;
            }
            i = i + 1;
        }
        false
    }

    /// The next target to compile: the top of the stack, once the targets
    /// already handed out are dropped from it. A target is never handed out
    /// twice: the one returned is the same path as none handed out before.
    pub fn next_target(&mut self) -> (t: Option<String>)
        ensures
            final(self).objects() == old(self).objects(),
            distinct_paths(final(self).visited()),
            match t {
                Some(x) => {
                    let i = final(self).pending().len() as int;
                    &&& 0 <= i < old(self).pending().len()
                    &&& final(self).pending() == old(self).pending().take(i)
                    &&& x@ == old(self).pending()[i]
                    &&& !visited_by(old(self).visited(), x@)
                    &&& forall|j: int|
                        i < j < old(self).pending().len() ==> visited_by(
                            old(self).visited(),
                            #[trigger] old(self).pending()[j],
                        )
                    &&& final(self).visited() == old(self).visited().push(x@)
                },
                None => {
                    &&& final(self).pending().len() == 0
                    &&& final(self).visited() == old(self).visited()
                    &&& forall|j: int|
                        0 <= j < old(self).pending().len() ==> visited_by(
                            old(self).visited(),
                            #[trigger] old(self).pending()[j],
                        )
                },
            },
    {
        let ghost p0 = self.pending();
        proof {
            use_type_invariant(&*self);
        }
        let mut pending: Vec<String> = Vec::new();
        std::mem::swap(&mut pending, &mut self.pending);
        loop
            invariant
                distinct_paths(self.visited()),
                self.visited() == old(self).visited(),
                self.objects() == old(self).objects(),
                p0 == old(self).pending(),
                pending.len() <= p0.len(),
                views(pending@) == p0.take(pending.len() as int),
                forall|j: int|
                    pending.len() <= j < p0.len() ==> visited_by(self.visited(), #[trigger] p0[j]),
            decreases pending.len(),
        {
            let ghost before = pending@;
            match pending.pop() {
                None => {
                    self.pending = pending;
                    return None;
                },
                Some(candidate) => {
                    assert(views(before)[before.len() - 1] == candidate@);
                    assert(views(pending@) =~= p0.take(pending.len() as int));
                    if !self.is_visited(candidate.as_str()) {
                        let ghost v = self.visited();
                        proof {
                            lemma_push_keeps_distinct(v, candidate@);
                        }
                        let mut visited: Vec<String> = Vec::new();
                        std::mem::swap(&mut visited, &mut self.visited);
                        visited.push(candidate.clone());
                        assert(views(visited@) =~= v.push(candidate@));
                        self.visited = visited;
                        self.pending = pending;
                        return Some(candidate);
                    }
                },
            }
        }
    }

    /// Records the object file of the target just handed out, and stacks the
    /// header implementations among its dependencies so that the first of
    /// them comes out next.
    pub fn record(&mut self, object: String, dependencies: &Vec<Dependency>)
        ensures
            final(self).objects() == old(self).objects().push(object@),
            final(self).visited() == old(self).visited(),
            final(self).pending() == old(self).pending() + sources_reversed_from(dependencies@, 0),
            distinct_paths(final(self).visited()),
    {
        proof {
            use_type_invariant(&*self);
        }
        let ghost o = self.objects();
        let mut objects: Vec<String> = Vec::new();
        std::mem::swap(&mut objects, &mut self.objects);
        objects.push(object);
        assert(views(objects@) =~= o.push(object@));
        self.objects = objects;
        let ghost p0 = self.pending();
        let mut pending: Vec<String> = Vec::new();
        std::mem::swap(&mut pending, &mut self.pending);
        let mut i: usize = dependencies.len();
        assert(sources_reversed_from(dependencies@, i as int) =~= Seq::<Seq<char>>::empty());
        assert(p0 + sources_reversed_from(dependencies@, i as int) =~= p0);
        while i > 0
            invariant
                0 <= i <= dependencies.len(),
                views(pending@) == p0 + sources_reversed_from(dependencies@, i as int),
            decreases i,
        {
            i = i - 1;
            let ghost before = pending@;
            match &dependencies[i] {
                Dependency::Header { file: _, source_file } => match source_file {
                    Some(s) => {
                        pending.push(s.clone());
                        assert(views(pending@) =~= views(before).push(s@));
                    },
                    None => {},
                },
                Dependency::Source { file: _ } => {},
            }
            assert(views(pending@) =~= p0 + sources_reversed_from(dependencies@, i as int));
        }
        self.pending = pending;
    }

    /// The object files recorded so far, in the order their targets came out.
    pub fn into_objects(self) -> (r: Vec<String>)
        ensures
            views(r@) == self.objects(),
    {
        self.objects
    }
}

/// Whether a target must be compiled again: always, unless its object and
/// dependency files are both there and the source is not newer than the
/// object (`source_newer`, consulted only then; `None` when the times could
/// not be compared).
pub fn needs_recompilation(artifacts_present: bool, source_newer: Option<bool>) -> (r: bool)
    ensures
        r == (!artifacts_present || source_newer != Some(false)),
{
    let mut is_newer = true;
    if artifacts_present {
        match source_newer {
            Some(newer_state) => is_newer = newer_state,
            None => {},
        }
    }
    is_newer
}

} // verus!
