//! Selecting the commits to edit.
//!
//! The linear walk ([`walk_linear`]) is a pure function over a
//! parent-lookup closure, so its boundary / limit / merge-abort logic is
//! specified and proved independently of any repository: the lookup says
//! which parents a commit has, and the walk follows first parents from
//! the tip. Reading the repository itself happens outside the library.

use vstd::prelude::*;
use vstd::laws_eq::obeys_concrete_eq;
use vstd::std_specs::cmp::PartialEqSpec;
use crate::error::RedateError;
use crate::text::{chars_of, string_of};

verus! {

/// Error from the linear walk.
#[derive(Debug, PartialEq, Eq)]
pub enum WalkError<Id> {
    /// A commit with more than one parent was reached.
    Merge(Id),
    /// The walk selected no commits.
    Empty,
    /// A boundary was given but never reached (not an ancestor).
    BoundaryNotAncestor(Id),
}

/// `parents` is a lookup: it accepts every id, and gives the same
/// parents each time it is asked about the same id.
pub open spec fn is_lookup<Id, F: Fn(Id) -> Vec<Id>>(parents: F) -> bool {
    &&& forall|id: Id| #[trigger] parents.requires((id,))
    &&& forall|id: Id, a: Vec<Id>, b: Vec<Id>|
        #[trigger] parents.ensures((id,), a) && #[trigger] parents.ensures((id,), b) ==> a@ == b@
}

/// The parents the lookup gives for `id`.
pub open spec fn parents_of<Id, F: Fn(Id) -> Vec<Id>>(parents: F, id: Id) -> Seq<Id> {
    (choose|v: Vec<Id>| parents.ensures((id,), v))@
}

/// The lookup as a function from ids to parent lists.
pub open spec fn lookup_fn<Id, F: Fn(Id) -> Vec<Id>>(parents: F) -> spec_fn(Id) -> Seq<Id> {
    |id: Id| parents_of(parents, id)
}

/// How a walk that stopped ends: a boundary that was given but not met
/// is an error, and so is selecting nothing.
pub open spec fn walk_end<Id>(boundary: Option<Id>, hit: bool, taken: Seq<Id>) -> Result<
    Seq<Id>,
    WalkError<Id>,
> {
    if boundary is Some && !hit {
        Err(WalkError::BoundaryNotAncestor(boundary->0))
    } else if taken.len() == 0 {
        Err(WalkError::Empty)
    } else {
        Ok(taken)
    }
}

/// The walk from `cur`, with `taken` already selected (newest first),
/// over the parent lists `pl`: stop before the boundary, take no more
/// than `limit` commits (none at all for a limit of 0), abort on a
/// merge, and stop after taking the root.
pub open spec fn walk_from<Id>(
    pl: spec_fn(Id) -> Seq<Id>,
    cur: Id,
    boundary: Option<Id>,
    limit: Option<usize>,
    taken: Seq<Id>,
) -> Result<Seq<Id>, WalkError<Id>>
    decreases usize::MAX + 1 - taken.len(),
{
    if boundary == Some(cur) {
        walk_end(boundary, true, taken)
    } else if limit is Some && taken.len() >= limit->0 {
        walk_end(boundary, false, taken)
    } else if pl(cur).len() > 1 {
        Err(WalkError::Merge(cur))
    } else if (limit is Some && taken.len() + 1 >= limit->0) || pl(cur).len() == 0 {
        walk_end(boundary, false, taken.push(cur))
    } else if taken.len() >= usize::MAX {
        // A walk longer than a vector can hold: never reached.
        walk_end(boundary, false, taken.push(cur))
    } else {
        walk_from(pl, pl(cur)[0], boundary, limit, taken.push(cur))
    }
}

/// The walk from the tip.
pub open spec fn walk_spec<Id>(
    pl: spec_fn(Id) -> Seq<Id>,
    tip: Id,
    boundary: Option<Id>,
    limit: Option<usize>,
) -> Result<Seq<Id>, WalkError<Id>> {
    walk_from(pl, tip, boundary, limit, Seq::empty())
}

/// The abstract value of a walk's result.
pub open spec fn walk_view<Id>(r: Result<Vec<Id>, WalkError<Id>>) -> Result<Seq<Id>, WalkError<Id>> {
    match r {
        Ok(v) => Ok(v@),
        Err(e) => Err(e),
    }
}

/// Each id of `s` after the first is the only parent of the one before.
pub open spec fn first_parent_chain<Id>(pl: spec_fn(Id) -> Seq<Id>, s: Seq<Id>) -> bool {
    forall|k: int| #![trigger pl(s[k])] 0 <= k < s.len() - 1 ==> pl(s[k]).len() == 1 && pl(s[k])[0] == s[k + 1]
}

/// What a successful walk selects: at least one commit, starting at the
/// tip and following single parents, with no merge; without the
/// boundary, ending right above it when one is given; at most `limit`
/// commits; and, with no boundary, running to the root unless the limit
/// stopped it.
pub open spec fn selected_run<Id>(
    pl: spec_fn(Id) -> Seq<Id>,
    tip: Id,
    boundary: Option<Id>,
    limit: Option<usize>,
    out: Seq<Id>,
) -> bool {
    &&& out.len() >= 1
    &&& out[0] == tip
    &&& first_parent_chain(pl, out)
    &&& pl(out.last()).len() <= 1
    &&& boundary is Some ==> !out.contains(boundary->0) && pl(out.last()) == seq![boundary->0]
    &&& limit is Some ==> out.len() <= limit->0
    &&& boundary is None ==> pl(out.last()).len() == 0 || (limit is Some && out.len() >= limit->0)
}

/// The lookup's answer is the one [`parents_of`] names.
proof fn lemma_lookup_gives<Id, F: Fn(Id) -> Vec<Id>>(parents: F, id: Id, ps: Vec<Id>)
    requires
        is_lookup(parents),
        parents.ensures((id,), ps),
    ensures
        lookup_fn(parents)(id) == ps@,
{
    let w = choose|v: Vec<Id>| parents.ensures((id,), v);
    assert(parents.ensures((id,), w));
}

/// The end of a stopped walk.
fn finish<Id: Copy>(boundary: Option<Id>, hit: bool, out: Vec<Id>) -> (r: Result<Vec<Id>, WalkError<Id>>)
    ensures
        walk_view(r) == walk_end(boundary, hit, out@),
{
    if let Some(b) = boundary {
        if !hit {
            return Err(WalkError::BoundaryNotAncestor(b));
        }
    }
    if out.len() == 0 {
        Err(WalkError::Empty)
    } else {
        Ok(out)
    }
}

/// Walk from `tip` toward its first parent, returning the selected ids
/// newest-first. Stops before `boundary` (exclusive), at `limit`
/// commits, or at the parentless root. Aborts on a merge (>1 parent).
/// A limit of 0 takes no commit, so the walk fails with `Empty` (or,
/// with a boundary other than the tip, finds the boundary unreached).
///
/// `parents` returns a commit's parent ids (empty for the root).
pub fn walk_linear<Id, F>(tip: Id, boundary: Option<Id>, limit: Option<usize>, parents: F) -> (r: Result<
    Vec<Id>,
    WalkError<Id>,
>) where Id: Copy + Eq, F: Fn(Id) -> Vec<Id>
    requires
        obeys_concrete_eq::<Id>(),
        is_lookup(parents),
    ensures
        walk_view(r) == walk_spec(lookup_fn(parents), tip, boundary, limit),
        (r matches Ok(out) ==> selected_run(lookup_fn(parents), tip, boundary, limit, out@)),
        (r matches Err(WalkError::Merge(m)) ==> lookup_fn(parents)(m).len() > 1),
        (r matches Err(WalkError::BoundaryNotAncestor(b)) ==> boundary == Some(b)),
        (r == Err::<Vec<Id>, WalkError<Id>>(WalkError::Empty)) <==> (boundary == Some(tip) || (boundary is None
            && limit == Some(0usize))),
{
    let ghost pl = lookup_fn(parents);
    proof {
        reveal(obeys_concrete_eq);
    }
    let mut out: Vec<Id> = Vec::new();
    let mut cur = tip;
    loop
        invariant
            obeys_concrete_eq::<Id>(),
            Id::obeys_eq_spec(),
            forall|x: Id, y: Id| x.eq_spec(&y) <==> (x == y),
            is_lookup(parents),
            pl == lookup_fn(parents),
            out@.len() <= usize::MAX,
            walk_from(pl, cur, boundary, limit, out@) == walk_spec(pl, tip, boundary, limit),
            out@.len() == 0 ==> cur == tip,
            out@.len() > 0 ==> out@[0] == tip,
            first_parent_chain(pl, out@.push(cur)),
            boundary is Some ==> !out@.contains(boundary->0),
            limit is Some ==> out@.len() < limit->0 || out@.len() == 0,
        decreases usize::MAX - out@.len(),
    {
        let at_boundary = match boundary {
            Some(b) => b == cur,
            None => false,
        };
        if at_boundary {
            proof {
                let s = out@.push(cur);
                assert(first_parent_chain(pl, s));
                if out@.len() > 0 {
                    let k = out@.len() - 1;
                    assert(pl(s[k]).len() == 1 && pl(s[k])[0] == s[k + 1]);
                    assert(pl(out@.last()) =~= seq![boundary->0]);
                    assert forall|j: int| 0 <= j < out@.len() - 1 implies #[trigger] pl(out@[j]).len() == 1
                        && pl(out@[j])[0] == out@[j + 1] by {
                        assert(pl(s[j]).len() == 1 && pl(s[j])[0] == s[j + 1]);
                    }
                }
            }
            return finish(boundary, true, out);
        }
        let full = match limit {
            Some(lim) => out.len() >= lim,
            None => false,
        };
        if full {
            return finish(boundary, false, out);
        }
        let ps = parents(cur);
        proof {
            lemma_lookup_gives(parents, cur, ps);
        }
        if ps.len() > 1 {
            return Err(WalkError::Merge(cur));
        }
        let ghost before = out@;
        out.push(cur);
        let n = out.len();
        let stop = match limit {
            Some(lim) => n >= lim,
            None => false,
        };
        if stop || ps.len() == 0 {
            proof {
                assert(out@ == before.push(cur));
                assert(out@.last() == cur);
                if boundary is Some {
                    assert(!out@.contains(boundary->0)) by {
                        if out@.contains(boundary->0) {
                            let j = choose|j: int| 0 <= j < out@.len() && out@[j] == boundary->0;
                            if j < before.len() {
                                assert(before.contains(boundary->0));
                            }
                        }
                    }
                }
            }
            return finish(boundary, false, out);
        }
        let next = ps[0];
        proof {
            let s = out@.push(next);
            assert(out@ == before.push(cur));
            assert forall|j: int| 0 <= j < s.len() - 1 implies #[trigger] pl(s[j]).len() == 1 && pl(s[j])[0]
                == s[j + 1] by {
                if j < out@.len() - 1 {
                    assert(s[j] == before.push(cur)[j]);
                    assert(s[j + 1] == before.push(cur)[j + 1]);
                }
            }
            if boundary is Some {
                assert(!out@.contains(boundary->0)) by {
                    if out@.contains(boundary->0) {
                        let j = choose|j: int| 0 <= j < out@.len() && out@[j] == boundary->0;
                        if j < before.len() {
                            assert(before.contains(boundary->0));
                        }
                    }
                }
            }
        }
        cur = next;
    }
}

/// The first `n` characters of `s` (all of it when shorter): how a
/// commit id is abbreviated for display.
pub fn abbreviate(s: &str, n: usize) -> (r: String)
    ensures
        r@ == s@.take(if n < s@.len() { n as int } else { s@.len() as int }),
{
    let cs = chars_of(s);
    let mut out: Vec<char> = Vec::new();
    let mut i: usize = 0;
    while i < n && i < cs.len()
        invariant
            cs@ == s@,
            i <= cs@.len(),
            i <= n,
            out@ == cs@.take(i as int),
        decreases cs@.len() - i,
    {
        out.push(cs[i]);
        i = i + 1;
        assert(out@ =~= cs@.take(i as int));
    }
    string_of(&out)
}

/// The error the user sees for a failed walk: `Merge` carries the merge
/// commit's hex id, shown abbreviated to ten characters, and a boundary
/// that is not an ancestor is reported as the user typed it.
pub fn walk_error(e: WalkError<String>, boundary: Option<String>) -> (r: RedateError)
    ensures
        r == match e {
            WalkError::Empty => RedateError::EmptyRange,
            WalkError::Merge(h) => RedateError::MergeInRange(r->MergeInRange_0),
            WalkError::BoundaryNotAncestor(_) => RedateError::NotAnAncestor(r->NotAnAncestor_0),
        },
        (e matches WalkError::Merge(h) ==> r->MergeInRange_0@ == h@.take(
            if 10 < h@.len() { 10 } else { h@.len() as int },
        )),
        (e is BoundaryNotAncestor ==> r->NotAnAncestor_0@ == match boundary {
            Some(b) => b@,
            None => Seq::<char>::empty(),
        }),
{
    match e {
        WalkError::Empty => RedateError::EmptyRange,
        WalkError::Merge(h) => RedateError::MergeInRange(abbreviate(h.as_str(), 10)),
        WalkError::BoundaryNotAncestor(_) => match boundary {
            Some(b) => RedateError::NotAnAncestor(b),
            None => RedateError::NotAnAncestor(String::new()),
        },
    }
}

} // verus!
