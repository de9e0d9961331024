//! The edit model and its pure operations.
//!
//! Commits are held oldest-first: index 0 is the oldest commit in the
//! range ("the first commit"), the last index is the tip. The cascade
//! "shift" edit therefore moves commit `i` and every *newer* commit
//! (higher index) by the same delta, preserving the gaps between them.

use vstd::prelude::*;
use crate::datetime::{
    add_delta, add_delta_spec, bump_spec, bump_steps_ok, Component, Stamp,
};

verus! {

/// A read-only snapshot of a commit selected for editing.
#[derive(Debug, Clone, PartialEq, Eq)]
pub struct Commit {
    /// Full hex object id (the rewrite key).
    pub id: String,
    /// Abbreviated id for display.
    pub short_id: String,
    /// First line of the commit message.
    pub summary: String,
    pub author: Stamp,
    pub committer: Stamp,
}

/// A commit plus its in-progress edits.
#[derive(Debug, Clone, PartialEq, Eq)]
pub struct EditableCommit {
    /// The pristine snapshot, for diffing and reset.
    pub original: Commit,
    /// Current (possibly edited) author time.
    pub author: Stamp,
    /// Current (possibly edited) committer time.
    pub committer: Stamp,
    /// Author/committer rows are shown separately.
    pub expanded: bool,
    /// Edits apply to both author and committer together.
    pub linked: bool,
}

/// Which timestamp(s) an edit targets.
#[derive(Clone, Copy, Debug, PartialEq, Eq, Structural)]
pub enum Target {
    /// Author and committer together (the default, linked view).
    Both,
    Author,
    Committer,
}

impl EditableCommit {
    /// Whether either timestamp differs from the snapshot.
    pub open spec fn is_changed(self) -> bool {
        self.author != self.original.author || self.committer != self.original.committer
    }

    /// The field a delta is measured against for `target`.
    pub open spec fn primary_spec(self, target: Target) -> Stamp {
        match target {
            Target::Committer => self.committer,
            _ => self.author,
        }
    }

    /// The commit with `f` applied to the timestamp(s) that `target` names.
    pub open spec fn map_target(self, target: Target, author: Stamp, committer: Stamp) -> Self {
        match target {
            Target::Author => EditableCommit { author, ..self },
            Target::Committer => EditableCommit { committer, ..self },
            Target::Both => EditableCommit { author, committer, ..self },
        }
    }

    /// The commit after bumping `component` of its `target` stamp(s). A
    /// linked edit (`Both`) bumps the author date and gives the committer
    /// the same date, so the two agree afterwards.
    pub open spec fn with_bump(self, target: Target, component: Component, steps: int) -> Self {
        match target {
            Target::Committer => EditableCommit { committer: bump_spec(self.committer, component, steps), ..self },
            _ => self.map_target(
                target,
                bump_spec(self.author, component, steps),
                bump_spec(self.author, component, steps),
            ),
        }
    }

    /// The commit after setting its `target` stamp(s) to `stamp`.
    pub open spec fn with_set(self, target: Target, stamp: Stamp) -> Self {
        self.map_target(target, stamp, stamp)
    }

    /// The commit after shifting its `target` stamp(s) by `delta` seconds;
    /// a linked shift (`Both`) gives the committer the shifted author date.
    pub open spec fn with_delta(self, target: Target, delta: int) -> Self {
        match target {
            Target::Committer => EditableCommit { committer: add_delta_spec(self.committer, delta), ..self },
            _ => self.map_target(target, add_delta_spec(self.author, delta), add_delta_spec(self.author, delta)),
        }
    }

    /// The step counts a bump of `target` accepts.
    pub open spec fn bump_ok(self, target: Target, component: Component, steps: int) -> bool {
        bump_steps_ok(self.primary_spec(target), component, steps)
    }

    /// Start editing a commit: times mirror the snapshot, linked, and
    /// collapsed.
    pub fn new(original: Commit) -> (r: Self)
        ensures
            r.original == original,
            r.author == original.author,
            r.committer == original.committer,
            !r.expanded,
            r.linked,
            !r.is_changed(),
    {
        let author = original.author;
        let committer = original.committer;
        EditableCommit { original, author, committer, expanded: false, linked: true }
    }

    /// Whether either timestamp differs from the snapshot.
    pub fn changed(&self) -> (b: bool)
        ensures
            b == self.is_changed(),
    {
        self.author != self.original.author || self.committer != self.original.committer
    }

    /// The field a delta is measured against for `target`.
    fn primary(&self, target: Target) -> (s: Stamp)
        ensures
            s == self.primary_spec(target),
    {
        match target {
            Target::Committer => self.committer,
            Target::Both | Target::Author => self.author,
        }
    }

    fn apply_bump(&mut self, target: Target, component: Component, steps: i64)
        requires
            old(self).bump_ok(target, component, steps as int),
        ensures
            *final(self) == old(self).with_bump(target, component, steps as int),
    {
        match target {
            Target::Author => self.author = crate::datetime::bump(self.author, component, steps),
            Target::Committer => self.committer = crate::datetime::bump(
                self.committer,
                component,
                steps,
            ),
            Target::Both => {
                let bumped = crate::datetime::bump(self.author, component, steps);
                self.author = bumped;
                self.committer = bumped;
            },
        }
    }

    fn apply_set(&mut self, target: Target, stamp: Stamp)
        ensures
            *final(self) == old(self).with_set(target, stamp),
    {
        match target {
            Target::Author => self.author = stamp,
            Target::Committer => self.committer = stamp,
            Target::Both => {
                self.author = stamp;
                self.committer = stamp;
            },
        }
    }

    fn apply_delta(&mut self, target: Target, delta: i64)
        ensures
            *final(self) == old(self).with_delta(target, delta as int),
    {
        match target {
            Target::Author => self.author = add_delta(self.author, delta),
            Target::Committer => self.committer = add_delta(self.committer, delta),
            Target::Both => {
                let shifted = add_delta(self.author, delta);
                self.author = shifted;
                self.committer = shifted;
            },
        }
    }
}

/// Whether some commit has unsaved edits.
pub open spec fn some_changed(commits: Seq<EditableCommit>) -> bool {
    exists|j: int| 0 <= j < commits.len() && #[trigger] commits[j].is_changed()
}

/// Whether any commit has unsaved edits.
pub fn any_changed(commits: &[EditableCommit]) -> (b: bool)
    ensures
        b == some_changed(commits@),
{
    let mut j: usize = 0;
    while j < commits.len()
        invariant
            j <= commits@.len(),
            forall|k: int| 0 <= k < j ==> !(#[trigger] commits@[k]).is_changed(),
        decreases commits@.len() - j,
    {
        if commits[j].changed() {
            return true;
        }
        j = j + 1;
    }
    false
}

/// The commits with every commit newer than `i` shifted by `delta`.
pub open spec fn cascade_spec(commits: Seq<EditableCommit>, i: int, target: Target, delta: int) -> Seq<
    EditableCommit,
> {
    Seq::new(
        commits.len(),
        |j: int|
            if j > i {
                commits[j].with_delta(target, delta)
            } else {
                commits[j]
            },
    )
}

/// The commits after commit `i` was replaced by `edited`: in cascade mode
/// the change of its `target` stamp also shifts every newer commit.
pub open spec fn edit_spec(
    commits: Seq<EditableCommit>,
    i: int,
    target: Target,
    edited: EditableCommit,
    cascade: bool,
) -> Seq<EditableCommit> {
    let delta = edited.primary_spec(target).seconds - commits[i].primary_spec(target).seconds;
    let updated = commits.update(i, edited);
    if cascade && delta != 0 {
        cascade_spec(updated, i, target, delta)
    } else {
        updated
    }
}

/// What [`bump`] leaves.
pub open spec fn bump_all_spec(
    commits: Seq<EditableCommit>,
    i: int,
    target: Target,
    component: Component,
    steps: int,
    cascade: bool,
) -> Seq<EditableCommit> {
    if i < 0 || i >= commits.len() {
        commits
    } else {
        edit_spec(commits, i, target, commits[i].with_bump(target, component, steps), cascade)
    }
}

/// What [`set`] leaves.
pub open spec fn set_all_spec(
    commits: Seq<EditableCommit>,
    i: int,
    target: Target,
    stamp: Stamp,
    cascade: bool,
) -> Seq<EditableCommit> {
    if i < 0 || i >= commits.len() {
        commits
    } else {
        edit_spec(commits, i, target, commits[i].with_set(target, stamp), cascade)
    }
}

/// The seconds delta of an edit of commit `i` fits in an `i64`.
pub open spec fn delta_fits(commits: Seq<EditableCommit>, i: int, target: Target, edited: EditableCommit) -> bool {
    i64::MIN <= edited.primary_spec(target).seconds - commits[i].primary_spec(target).seconds
        <= i64::MAX
}

/// The inputs [`bump`] accepts: the steps suit jiff and the seconds
/// delta of commit `i` fits in an `i64`.
pub open spec fn bump_accepts(
    commits: Seq<EditableCommit>,
    i: int,
    target: Target,
    component: Component,
    steps: int,
) -> bool {
    0 <= i < commits.len() ==> {
        &&& commits[i].bump_ok(target, component, steps)
        &&& delta_fits(commits, i, target, commits[i].with_bump(target, component, steps))
    }
}

/// The inputs [`set`] accepts: the seconds delta of commit `i` fits in
/// an `i64`.
pub open spec fn set_accepts(commits: Seq<EditableCommit>, i: int, target: Target, stamp: Stamp) -> bool {
    0 <= i < commits.len() ==> delta_fits(commits, i, target, commits[i].with_set(target, stamp))
}

/// Increment/decrement a field of commit `i` by `steps`. In `cascade`
/// mode the resulting seconds delta also shifts every newer commit's
/// same field, preserving the gaps.
pub fn bump(
    commits: &mut [EditableCommit],
    i: usize,
    target: Target,
    component: Component,
    steps: i64,
    cascade: bool,
)
    requires
        bump_accepts(old(commits)@, i as int, target, component, steps as int),
    ensures
        final(commits)@ == bump_all_spec(old(commits)@, i as int, target, component, steps as int, cascade),
{
    if i >= commits.len() {
        return;
    }
    let before = commits[i].primary(target).seconds;
    commits[i].apply_bump(target, component, steps);
    let delta = commits[i].primary(target).seconds - before;
    if cascade && delta != 0 {
        cascade_delta(commits, i, target, delta);
    }
    assert(final(commits)@ =~= bump_all_spec(old(commits)@, i as int, target, component, steps as int, cascade));
}

/// Set commit `i`'s field(s) to an absolute stamp (from text entry). In
/// `cascade` mode the delta from the old value shifts newer commits.
pub fn set(commits: &mut [EditableCommit], i: usize, target: Target, stamp: Stamp, cascade: bool)
    requires
        set_accepts(old(commits)@, i as int, target, stamp),
    ensures
        final(commits)@ == set_all_spec(old(commits)@, i as int, target, stamp, cascade),
{
    if i >= commits.len() {
        return;
    }
    let before = commits[i].primary(target).seconds;
    commits[i].apply_set(target, stamp);
    let delta = commits[i].primary(target).seconds - before;
    if cascade && delta != 0 {
        cascade_delta(commits, i, target, delta);
    }
    assert(final(commits)@ =~= set_all_spec(old(commits)@, i as int, target, stamp, cascade));
}

/// Add `delta` seconds to `target` field(s) of every commit newer than
/// `i` (higher index), preserving their offsets.
fn cascade_delta(commits: &mut [EditableCommit], i: usize, target: Target, delta: i64)
    ensures
        final(commits)@ == cascade_spec(old(commits)@, i as int, target, delta as int),
{
    let n = commits.len();
    if i >= n {
        assert(final(commits)@ =~= cascade_spec(old(commits)@, i as int, target, delta as int));
        return;
    }
    let mut j: usize = i + 1;
    while j < n
        invariant
            n == commits@.len(),
            n == old(commits)@.len(),
            i < j <= n,
            forall|k: int|
                0 <= k < n ==> #[trigger] commits@[k] == if k > i && k < j {
                    old(commits)@[k].with_delta(target, delta as int)
                } else {
                    old(commits)@[k]
                },
        decreases n - j,
    {
        commits[j].apply_delta(target, delta);
        j = j + 1;
    }
    assert(final(commits)@ =~= cascade_spec(old(commits)@, i as int, target, delta as int));
}

/// What [`copy_from_previous`] leaves.
pub open spec fn copy_from_previous_spec(commits: Seq<EditableCommit>, i: int) -> Seq<EditableCommit> {
    if i <= 0 || i >= commits.len() {
        commits
    } else {
        commits.update(
            i,
            EditableCommit {
                author: commits[i - 1].author,
                committer: commits[i - 1].committer,
                ..commits[i]
            },
        )
    }
}

/// Copy the older neighbour's (index `i-1`) author and committer times
/// onto commit `i`. No-op at the oldest commit.
pub fn copy_from_previous(commits: &mut [EditableCommit], i: usize)
    ensures
        final(commits)@ == copy_from_previous_spec(old(commits)@, i as int),
{
    if i == 0 || i >= commits.len() {
        return;
    }
    let author = commits[i - 1].author;
    let committer = commits[i - 1].committer;
    commits[i].author = author;
    commits[i].committer = committer;
    assert(final(commits)@ =~= copy_from_previous_spec(old(commits)@, i as int));
}

/// `a / b` rounded toward zero, as Rust's integer division does (`b > 0`).
pub open spec fn trunc_div(a: int, b: int) -> int {
    if a >= 0 {
        a / b
    } else {
        -((-a) / b)
    }
}

/// The sign of `x`: -1, 0 or 1.
pub open spec fn sign(x: int) -> int {
    if x > 0 {
        1
    } else if x < 0 {
        -1
    } else {
        0
    }
}

/// `start + (end - start) * k / steps`, rounded to the nearest second
/// (halves away from zero).
pub open spec fn interpolate_spec(start: int, end: int, k: int, steps: int) -> int {
    let span = end - start;
    start + trunc_div(span * k + sign(span) * (steps / 2), steps)
}

/// How far [`interpolate_spec`] lies from `start`, computed in i128 to
/// avoid overflow and rounded to the nearest second.
pub fn interpolation_share(start: i64, end: i64, k: usize, steps: usize) -> (r: i128)
    requires
        0 < k < steps,
        steps <= i64::MAX,
    ensures
        r == interpolate_spec(start as int, end as int, k as int, steps as int) - start,
{
    let span: i128 = end as i128 - start as i128;
    let ghost sp = span as int;
    assert(-0xffff_ffff_ffff_ffff <= sp <= 0xffff_ffff_ffff_ffff);
    assert(-0xffff_ffff_ffff_ffff * 0x7fff_ffff_ffff_ffff <= sp * (k as int) <= 0xffff_ffff_ffff_ffff
        * 0x7fff_ffff_ffff_ffff) by (nonlinear_arith)
        requires
            -0xffff_ffff_ffff_ffff <= sp <= 0xffff_ffff_ffff_ffff,
            0 < k <= 0x7fff_ffff_ffff_ffff,
    ;
    let num = span * (k as i128);
    let steps = steps as i128;
    // Round to nearest rather than truncating toward zero.
    let bias: i128 = if span > 0 {
        steps / 2
    } else if span < 0 {
        -(steps / 2)
    } else {
        0
    };
    assert(num == sp * k);
    assert(bias == sign(sp) * (steps / 2)) by {
        let h = steps / 2;
        if sp > 0 {
            assert(sign(sp) * h == h) by (nonlinear_arith) requires sign(sp) == 1;
        } else if sp < 0 {
            assert(sign(sp) * h == -h) by (nonlinear_arith) requires sign(sp) == -1;
        } else {
            assert(sign(sp) * h == 0) by (nonlinear_arith) requires sign(sp) == 0;
        }
    }
    let biased = num + bias;
    biased / steps
}

/// `start + (end - start) * k / steps`, computed in i128 to avoid
/// overflow and rounded to the nearest second.
fn interpolate(start: i64, end: i64, k: usize, steps: usize) -> (r: i64)
    requires
        0 < k < steps,
        steps <= i64::MAX,
        i64::MIN <= interpolate_spec(start as int, end as int, k as int, steps as int) - start
            <= i64::MAX,
    ensures
        r == interpolate_spec(start as int, end as int, k as int, steps as int),
{
    let rounded = interpolation_share(start, end, k, steps);
    proof {
        lemma_interpolate_bounds(end - start, k as int, steps as int);
    }
    start + rounded as i64
}

proof fn lemma_interpolate_bounds(span: int, k: int, steps: int)
    requires
        0 < k < steps,
    ensures
        span >= 0 ==> 0 <= trunc_div(span * k + sign(span) * (steps / 2), steps) <= span,
        span < 0 ==> span <= trunc_div(span * k + sign(span) * (steps / 2), steps) <= 0,
{
    if span > 0 {
        let b = span * k + steps / 2;
        assert(0 <= b / steps <= span) by (nonlinear_arith)
            requires
                b == span * k + steps / 2,
                0 < k < steps,
                span > 0,
        ;
    } else if span < 0 {
        let b = (-span) * k + steps / 2;
        assert(span * k - steps / 2 == -b) by (nonlinear_arith)
            requires b == (-span) * k + steps / 2;
        assert(0 <= b / steps <= -span) by (nonlinear_arith)
            requires
                b == (-span) * k + steps / 2,
                0 < k < steps,
                span < 0,
        ;
    }
}

proof fn lemma_round_half(b: int, steps: int, half: int)
    requires
        steps > 0,
        b >= 0,
        half == steps / 2,
    ensures
        2 * (b - half - (b / steps) * steps) <= steps,
        -steps <= 2 * (b - half - (b / steps) * steps),
{
    let q = b / steps;
    let rem = b % steps;
    assert(b == q * steps + rem && 0 <= rem < steps) by (nonlinear_arith)
        requires
            steps > 0,
            q == b / steps,
            rem == b % steps,
    ;
}

/// [`interpolate_spec`] lies between its endpoints and is the nearest
/// whole second to the exact point: `|span * k - (r - start) * steps|` is
/// at most half a step.
pub proof fn lemma_interpolate_nearest(start: int, end: int, k: int, steps: int)
    requires
        0 < k < steps,
    ensures
        start <= end ==> start <= interpolate_spec(start, end, k, steps) <= end,
        end < start ==> end <= interpolate_spec(start, end, k, steps) <= start,
        2 * ((end - start) * k - (interpolate_spec(start, end, k, steps) - start) * steps) <= steps,
        -steps <= 2 * ((end - start) * k - (interpolate_spec(start, end, k, steps) - start) * steps),
{
    let span = end - start;
    lemma_interpolate_bounds(span, k, steps);
    let r = interpolate_spec(start, end, k, steps) - start;
    let sk = span * k;
    if span > 0 {
        assert(sk > 0) by (nonlinear_arith)
            requires sk == span * k, span > 0, k > 0;
        let b = sk + steps / 2;
        assert(r == b / steps);
        lemma_round_half(b, steps, steps / 2);
        assert(2 * (sk - r * steps) <= steps && -steps <= 2 * (sk - r * steps));
    } else if span == 0 {
        assert(sk == 0) by (nonlinear_arith)
            requires sk == span * k, span == 0;
        assert(r == 0);
        assert(r * steps == 0) by (nonlinear_arith)
            requires r == 0;
        assert(2 * (sk - r * steps) <= steps && -steps <= 2 * (sk - r * steps));
    } else {
        let nk = (-span) * k;
        assert(sk == -nk && nk > 0) by (nonlinear_arith)
            requires sk == span * k, nk == (-span) * k, span < 0, k > 0;
        let b = nk + steps / 2;
        let q = b / steps;
        assert(r == -q);
        lemma_round_half(b, steps, steps / 2);
        assert(r * steps == -(q * steps)) by (nonlinear_arith)
            requires r == -q;
        assert(2 * (sk - r * steps) <= steps && -steps <= 2 * (sk - r * steps));
    }
}

/// What [`distribute`] leaves.
pub open spec fn distribute_spec(commits: Seq<EditableCommit>) -> Seq<EditableCommit> {
    let n = commits.len();
    if n < 3 {
        commits
    } else {
        Seq::new(
            n,
            |j: int|
                if 0 < j < n - 1 {
                    EditableCommit {
                        author: Stamp {
                            seconds: interpolate_spec(
                                commits[0].author.seconds as int,
                                commits[n - 1].author.seconds as int,
                                j,
                                n - 1,
                            ) as i64,
                            offset: commits[j].author.offset,
                        },
                        committer: Stamp {
                            seconds: interpolate_spec(
                                commits[0].committer.seconds as int,
                                commits[n - 1].committer.seconds as int,
                                j,
                                n - 1,
                            ) as i64,
                            offset: commits[j].committer.offset,
                        },
                        ..commits[j]
                    }
                } else {
                    commits[j]
                },
        )
    }
}

/// The interpolated points of [`distribute`] stay within `i64` reach of
/// the first commit (the arithmetic otherwise overflows).
pub open spec fn distribute_fits(commits: Seq<EditableCommit>) -> bool {
    let n = commits.len();
    let a0 = commits[0].author.seconds as int;
    let a1 = commits[n - 1].author.seconds as int;
    let c0 = commits[0].committer.seconds as int;
    let c1 = commits[n - 1].committer.seconds as int;
    n >= 3 ==> forall|j: int|
        0 < j < n - 1 ==> {
            &&& i64::MIN <= #[trigger] interpolate_spec(a0, a1, j, n - 1) - a0 <= i64::MAX
            &&& i64::MIN <= interpolate_spec(c0, c1, j, n - 1) - c0 <= i64::MAX
        }
}

/// Whether [`distribute`] accepts `commits`: its arithmetic stays in
/// range for them.
pub fn can_distribute(commits: &[EditableCommit]) -> (b: bool)
    ensures
        b == (commits@.len() <= i64::MAX && distribute_fits(commits@)),
{
    let n = commits.len();
    if n as u64 > i64::MAX as u64 {
        return false;
    }
    if n < 3 {
        return true;
    }
    let a0 = commits[0].author.seconds;
    let a1 = commits[n - 1].author.seconds;
    let c0 = commits[0].committer.seconds;
    let c1 = commits[n - 1].committer.seconds;
    let mut k: usize = 1;
    while k < n - 1
        invariant
            n == commits@.len(),
            3 <= n <= i64::MAX,
            1 <= k <= n - 1,
            a0 == commits@[0].author.seconds,
            a1 == commits@[n - 1].author.seconds,
            c0 == commits@[0].committer.seconds,
            c1 == commits@[n - 1].committer.seconds,
            forall|j: int|
                0 < j < k ==> {
                    &&& i64::MIN <= #[trigger] interpolate_spec(a0 as int, a1 as int, j, n - 1) - a0
                        <= i64::MAX
                    &&& i64::MIN <= interpolate_spec(c0 as int, c1 as int, j, n - 1) - c0 <= i64::MAX
                },
        decreases n - k,
    {
        let a = interpolation_share(a0, a1, k, n - 1);
        let c = interpolation_share(c0, c1, k, n - 1);
        if a < i64::MIN as i128 || a > i64::MAX as i128 || c < i64::MIN as i128 || c > i64::MAX
            as i128 {
            return false;
        }
        k = k + 1;
    }
    true
}

/// Space the interior commits evenly in time between the fixed first
/// and last commits (author and committer independently), keeping each
/// commit's own offset. No-op with fewer than three commits.
pub fn distribute(commits: &mut [EditableCommit])
    requires
        old(commits)@.len() <= i64::MAX,
        distribute_fits(old(commits)@),
    ensures
        final(commits)@ == distribute_spec(old(commits)@),
{
    let n = commits.len();
    if n < 3 {
        return;
    }
    let a0 = commits[0].author.seconds;
    let a1 = commits[n - 1].author.seconds;
    let c0 = commits[0].committer.seconds;
    let c1 = commits[n - 1].committer.seconds;
    let mut k: usize = 1;
    while k < n - 1
        invariant
            n == commits@.len(),
            n == old(commits)@.len(),
            3 <= n <= i64::MAX,
            1 <= k <= n - 1,
            a0 == old(commits)@[0].author.seconds,
            a1 == old(commits)@[n - 1].author.seconds,
            c0 == old(commits)@[0].committer.seconds,
            c1 == old(commits)@[n - 1].committer.seconds,
            distribute_fits(old(commits)@),
            forall|j: int|
                0 <= j < n ==> #[trigger] commits@[j] == if 0 < j < k {
                    distribute_spec(old(commits)@)[j]
                } else {
                    old(commits)@[j]
                },
        decreases n - k,
    {
        assert(i64::MIN <= interpolate_spec(a0 as int, a1 as int, k as int, n - 1) - a0 <= i64::MAX);
        let a = interpolate(a0, a1, k, n - 1);
        let c = interpolate(c0, c1, k, n - 1);
        let ao = commits[k].author.offset;
        let co = commits[k].committer.offset;
        commits[k].author = Stamp::new(a, ao);
        commits[k].committer = Stamp::new(c, co);
        k = k + 1;
    }
    assert(final(commits)@ =~= distribute_spec(old(commits)@));
}

/// What [`reset`] leaves.
pub open spec fn reset_spec(commits: Seq<EditableCommit>, i: int) -> Seq<EditableCommit> {
    if i < 0 || i >= commits.len() {
        commits
    } else {
        commits.update(
            i,
            EditableCommit {
                author: commits[i].original.author,
                committer: commits[i].original.committer,
                ..commits[i]
            },
        )
    }
}

/// Reset commit `i` to its snapshot.
pub fn reset(commits: &mut [EditableCommit], i: usize)
    ensures
        final(commits)@ == reset_spec(old(commits)@, i as int),
{
    if i >= commits.len() {
        return;
    }
    let author = commits[i].original.author;
    let committer = commits[i].original.committer;
    commits[i].author = author;
    commits[i].committer = committer;
    assert(final(commits)@ =~= reset_spec(old(commits)@, i as int));
}

/// The seconds that an edit of commit `i` to `edited` moves its `target`
/// stamp.
pub open spec fn edit_delta(commits: Seq<EditableCommit>, i: int, target: Target, edited: EditableCommit) -> int {
    edited.primary_spec(target).seconds - commits[i].primary_spec(target).seconds
}

/// No newer commit's `target` stamp saturates when shifted by `delta`.
pub open spec fn no_saturation(commits: Seq<EditableCommit>, i: int, target: Target, delta: int) -> bool {
    forall|j: int|
        i < j < commits.len() ==> i64::MIN <= #[trigger] commits[j].primary_spec(target).seconds
            + delta <= i64::MAX
}

proof fn lemma_edit_gaps(commits: Seq<EditableCommit>, i: int, target: Target, edited: EditableCommit)
    requires
        0 <= i < commits.len(),
        no_saturation(commits, i, target, edit_delta(commits, i, target, edited)),
    ensures
        edit_spec(commits, i, target, edited, true).len() == commits.len(),
        edit_spec(commits, i, target, edited, true)[i] == edited,
        forall|j: int| 0 <= j < i ==> #[trigger] edit_spec(commits, i, target, edited, true)[j] == commits[j],
        forall|j: int|
            i < j < commits.len() ==> #[trigger] edit_spec(commits, i, target, edited, true)[j].primary_spec(
                target,
            ) == (Stamp {
                seconds: (commits[j].primary_spec(target).seconds + edit_delta(commits, i, target, edited)) as i64,
                offset: commits[j].primary_spec(target).offset,
            }),
{
    let r = edit_spec(commits, i, target, edited, true);
    let delta = edit_delta(commits, i, target, edited);
    assert forall|j: int| i < j < commits.len() implies #[trigger] r[j].primary_spec(target) == (Stamp {
        seconds: (commits[j].primary_spec(target).seconds + delta) as i64,
        offset: commits[j].primary_spec(target).offset,
    }) by {
        assert(i64::MIN <= commits[j].primary_spec(target).seconds + delta <= i64::MAX);
        if delta != 0 {
            assert(r[j] == commits[j].with_delta(target, delta));
        }
    }
}

/// Shift mode preserves the gaps: bumping commit `i` in cascade mode
/// moves its `target` stamp and the same stamp of every newer commit by
/// one delta (each keeping its offset), and leaves older commits as they
/// were; so the distance from commit `i` to every newer commit is
/// unchanged (barring saturation at the ends of `i64`).
pub proof fn lemma_bump_shift_preserves_gaps(
    commits: Seq<EditableCommit>,
    i: int,
    target: Target,
    component: Component,
    steps: int,
)
    requires
        0 <= i < commits.len(),
        no_saturation(
            commits,
            i,
            target,
            edit_delta(commits, i, target, commits[i].with_bump(target, component, steps)),
        ),
    ensures
        ({
            let r = bump_all_spec(commits, i, target, component, steps, true);
            &&& r.len() == commits.len()
            &&& forall|j: int| 0 <= j < i ==> #[trigger] r[j] == commits[j]
            &&& forall|j: int|
                i < j < commits.len() ==> #[trigger] r[j].primary_spec(target).seconds - r[i].primary_spec(
                    target,
                ).seconds == commits[j].primary_spec(target).seconds - commits[i].primary_spec(
                    target,
                ).seconds
            &&& forall|j: int|
                i < j < commits.len() ==> #[trigger] r[j].primary_spec(target).offset
                    == commits[j].primary_spec(target).offset
        }),
{
    let edited = commits[i].with_bump(target, component, steps);
    lemma_edit_gaps(commits, i, target, edited);
    let r = bump_all_spec(commits, i, target, component, steps, true);
    assert forall|j: int| i < j < commits.len() implies #[trigger] r[j].primary_spec(target).seconds
        - r[i].primary_spec(target).seconds == commits[j].primary_spec(target).seconds
        - commits[i].primary_spec(target).seconds by {
        assert(r[j] == edit_spec(commits, i, target, edited, true)[j]);
    }
}

/// Shift mode preserves the gaps for a typed absolute date too: setting
/// commit `i` in cascade mode moves every newer commit's `target` stamp by
/// the same delta and leaves older commits alone.
pub proof fn lemma_set_shift_preserves_gaps(commits: Seq<EditableCommit>, i: int, target: Target, stamp: Stamp)
    requires
        0 <= i < commits.len(),
        no_saturation(commits, i, target, edit_delta(commits, i, target, commits[i].with_set(target, stamp))),
    ensures
        ({
            let r = set_all_spec(commits, i, target, stamp, true);
            &&& r.len() == commits.len()
            &&& r[i].primary_spec(target) == stamp
            &&& forall|j: int| 0 <= j < i ==> #[trigger] r[j] == commits[j]
            &&& forall|j: int|
                i < j < commits.len() ==> #[trigger] r[j].primary_spec(target).seconds - r[i].primary_spec(
                    target,
                ).seconds == commits[j].primary_spec(target).seconds - commits[i].primary_spec(
                    target,
                ).seconds
            &&& forall|j: int|
                i < j < commits.len() ==> #[trigger] r[j].primary_spec(target).offset
                    == commits[j].primary_spec(target).offset
        }),
{
    let edited = commits[i].with_set(target, stamp);
    lemma_edit_gaps(commits, i, target, edited);
    let r = set_all_spec(commits, i, target, stamp, true);
    assert forall|j: int| i < j < commits.len() implies #[trigger] r[j].primary_spec(target).seconds
        - r[i].primary_spec(target).seconds == commits[j].primary_spec(target).seconds
        - commits[i].primary_spec(target).seconds by {
        assert(r[j] == edit_spec(commits, i, target, edited, true)[j]);
    }
}

/// Single mode edits only the selected commit: a bump or set without
/// cascade leaves every other commit as it was.
pub proof fn lemma_single_mode_touches_one(
    commits: Seq<EditableCommit>,
    i: int,
    target: Target,
    component: Component,
    steps: int,
    stamp: Stamp,
)
    ensures
        bump_all_spec(commits, i, target, component, steps, false).len() == commits.len(),
        set_all_spec(commits, i, target, stamp, false).len() == commits.len(),
        forall|j: int|
            0 <= j < commits.len() && j != i ==> #[trigger] bump_all_spec(
                commits,
                i,
                target,
                component,
                steps,
                false,
            )[j] == commits[j],
        forall|j: int|
            0 <= j < commits.len() && j != i ==> #[trigger] set_all_spec(commits, i, target, stamp, false)[j]
                == commits[j],
{
}

/// Whether every commit's author and committer times agree.
pub open spec fn all_unified(commits: Seq<EditableCommit>) -> bool {
    forall|j: int| 0 <= j < commits.len() ==> (#[trigger] commits[j]).author == commits[j].committer
}

/// Linked edits keep the author and committer equal: editing with the
/// `Both` target (the collapsed view), in either mode, keeps every
/// commit whose two dates agreed agreeing, and makes the edited commit's
/// two dates agree.
pub proof fn lemma_linked_edits_stay_unified(
    commits: Seq<EditableCommit>,
    i: int,
    component: Component,
    steps: int,
    stamp: Stamp,
    cascade: bool,
)
    requires
        all_unified(commits),
    ensures
        all_unified(bump_all_spec(commits, i, Target::Both, component, steps, cascade)),
        all_unified(set_all_spec(commits, i, Target::Both, stamp, cascade)),
        0 <= i < commits.len() ==> set_all_spec(commits, i, Target::Both, stamp, cascade)[i].author
            == stamp,
{
    let b = bump_all_spec(commits, i, Target::Both, component, steps, cascade);
    assert forall|j: int| 0 <= j < b.len() implies (#[trigger] b[j]).author == b[j].committer by {
        assert(commits[j].author == commits[j].committer);
        if 0 <= i < commits.len() {
            assert(commits[i].author == commits[i].committer);
        }
    }
    let s = set_all_spec(commits, i, Target::Both, stamp, cascade);
    assert forall|j: int| 0 <= j < s.len() implies (#[trigger] s[j]).author == s[j].committer by {
        assert(commits[j].author == commits[j].committer);
    }
}

/// A linked edit (the `Both` target of the collapsed view) unifies the
/// two dates: the edited commit's author and committer come out equal,
/// whether it was bumped or set, and every newer commit the shift cascade
/// moved has equal dates too (a commit it did not move is unchanged).
pub proof fn lemma_linked_edit_unifies(
    commits: Seq<EditableCommit>,
    i: int,
    component: Component,
    steps: int,
    stamp: Stamp,
    cascade: bool,
)
    requires
        0 <= i < commits.len(),
    ensures
        bump_all_spec(commits, i, Target::Both, component, steps, cascade)[i].author
            == bump_all_spec(commits, i, Target::Both, component, steps, cascade)[i].committer,
        set_all_spec(commits, i, Target::Both, stamp, cascade)[i].author == stamp,
        set_all_spec(commits, i, Target::Both, stamp, cascade)[i].committer == stamp,
        forall|j: int|
            i < j < commits.len() ==> {
                let r = #[trigger] bump_all_spec(commits, i, Target::Both, component, steps, cascade)[j];
                r == commits[j] || r.author == r.committer
            },
        forall|j: int|
            i < j < commits.len() ==> {
                let r = #[trigger] set_all_spec(commits, i, Target::Both, stamp, cascade)[j];
                r == commits[j] || r.author == r.committer
            },
{
}

/// Resetting a commit restores its snapshot and touches nothing else.
pub proof fn lemma_reset_restores(commits: Seq<EditableCommit>, i: int)
    requires
        0 <= i < commits.len(),
    ensures
        !reset_spec(commits, i)[i].is_changed(),
        reset_spec(commits, i).len() == commits.len(),
        forall|j: int| 0 <= j < commits.len() && j != i ==> #[trigger] reset_spec(commits, i)[j] == commits[j],
{
}

/// Spreading keeps the first and last commits and puts every interior
/// author time and, independently, every interior committer time between
/// those of the ends, at the nearest second to its even share, keeping
/// each date's offset.
pub proof fn lemma_distribute_spreads(commits: Seq<EditableCommit>)
    requires
        commits.len() >= 3,
    ensures
        ({
            let r = distribute_spec(commits);
            let n = commits.len();
            &&& r.len() == n
            &&& r[0] == commits[0]
            &&& r[n - 1] == commits[n - 1]
            &&& forall|j: int|
                0 < j < n - 1 ==> {
                    let a0 = commits[0].author.seconds as int;
                    let a1 = commits[n - 1].author.seconds as int;
                    let a = #[trigger] r[j].author.seconds as int;
                    &&& a0 <= a1 ==> a0 <= a <= a1
                    &&& a1 < a0 ==> a1 <= a <= a0
                    &&& 2 * ((a1 - a0) * j - (a - a0) * (n - 1)) <= n - 1
                    &&& -(n - 1) <= 2 * ((a1 - a0) * j - (a - a0) * (n - 1))
                    &&& r[j].author.offset == commits[j].author.offset
                }
            &&& forall|j: int|
                0 < j < n - 1 ==> {
                    let c0 = commits[0].committer.seconds as int;
                    let c1 = commits[n - 1].committer.seconds as int;
                    let c = #[trigger] r[j].committer.seconds as int;
                    &&& c0 <= c1 ==> c0 <= c <= c1
                    &&& c1 < c0 ==> c1 <= c <= c0
                    &&& 2 * ((c1 - c0) * j - (c - c0) * (n - 1)) <= n - 1
                    &&& -(n - 1) <= 2 * ((c1 - c0) * j - (c - c0) * (n - 1))
                    &&& r[j].committer.offset == commits[j].committer.offset
                }
            &&& forall|j: int|
                0 < j < n - 1 ==> (#[trigger] r[j]).original == commits[j].original
        }),
{
    let n = commits.len();
    let r = distribute_spec(commits);
    assert forall|j: int| 0 < j < n - 1 implies {
        let a0 = commits[0].author.seconds as int;
        let a1 = commits[n - 1].author.seconds as int;
        let a = #[trigger] r[j].author.seconds as int;
        &&& a0 <= a1 ==> a0 <= a <= a1
        &&& a1 < a0 ==> a1 <= a <= a0
        &&& 2 * ((a1 - a0) * j - (a - a0) * (n - 1)) <= n - 1
        &&& -(n - 1) <= 2 * ((a1 - a0) * j - (a - a0) * (n - 1))
        &&& r[j].author.offset == commits[j].author.offset
    } by {
        let a0 = commits[0].author.seconds as int;
        let a1 = commits[n - 1].author.seconds as int;
        lemma_interpolate_nearest(a0, a1, j, n - 1);
    }
    assert forall|j: int| 0 < j < n - 1 implies {
        let c0 = commits[0].committer.seconds as int;
        let c1 = commits[n - 1].committer.seconds as int;
        let c = #[trigger] r[j].committer.seconds as int;
        &&& c0 <= c1 ==> c0 <= c <= c1
        &&& c1 < c0 ==> c1 <= c <= c0
        &&& 2 * ((c1 - c0) * j - (c - c0) * (n - 1)) <= n - 1
        &&& -(n - 1) <= 2 * ((c1 - c0) * j - (c - c0) * (n - 1))
        &&& r[j].committer.offset == commits[j].committer.offset
    } by {
        let c0 = commits[0].committer.seconds as int;
        let c1 = commits[n - 1].committer.seconds as int;
        lemma_interpolate_nearest(c0, c1, j, n - 1);
    }
}

/// An edit of one date (the `Author` or `Committer` target of the
/// expanded view), in either mode, never touches the other date of any
/// commit, nor a commit's snapshot or display flags.
pub proof fn lemma_single_date_edit_keeps_the_other(
    commits: Seq<EditableCommit>,
    i: int,
    component: Component,
    steps: int,
    stamp: Stamp,
    cascade: bool,
)
    ensures
        forall|j: int|
            0 <= j < commits.len() ==> {
                let b = #[trigger] bump_all_spec(commits, i, Target::Author, component, steps, cascade)[j];
                &&& b.committer == commits[j].committer
                &&& b.original == commits[j].original
                &&& b.expanded == commits[j].expanded
                &&& b.linked == commits[j].linked
            },
        forall|j: int|
            0 <= j < commits.len() ==> {
                let b = #[trigger] bump_all_spec(commits, i, Target::Committer, component, steps, cascade)[j];
                &&& b.author == commits[j].author
                &&& b.original == commits[j].original
                &&& b.expanded == commits[j].expanded
                &&& b.linked == commits[j].linked
            },
        forall|j: int|
            0 <= j < commits.len() ==> {
                let b = #[trigger] set_all_spec(commits, i, Target::Author, stamp, cascade)[j];
                &&& b.committer == commits[j].committer
                &&& b.original == commits[j].original
            },
        forall|j: int|
            0 <= j < commits.len() ==> {
                let b = #[trigger] set_all_spec(commits, i, Target::Committer, stamp, cascade)[j];
                &&& b.author == commits[j].author
                &&& b.original == commits[j].original
            },
{
}

/// Copying the previous commit's dates gives commit `i` both dates of
/// commit `i - 1` and touches no other commit, nor commit `i`'s
/// snapshot; at the oldest commit (or off the range) it does nothing.
pub proof fn lemma_copy_takes_both_previous_dates(commits: Seq<EditableCommit>, i: int)
    ensures
        copy_from_previous_spec(commits, i).len() == commits.len(),
        0 < i < commits.len() ==> copy_from_previous_spec(commits, i)[i].author == commits[i - 1].author,
        0 < i < commits.len() ==> copy_from_previous_spec(commits, i)[i].committer
            == commits[i - 1].committer,
        0 < i < commits.len() ==> copy_from_previous_spec(commits, i)[i].original == commits[i].original,
        forall|j: int|
            0 <= j < commits.len() && j != i ==> #[trigger] copy_from_previous_spec(commits, i)[j]
                == commits[j],
        !(0 < i < commits.len()) ==> copy_from_previous_spec(commits, i) == commits,
{
}

} // verus!
