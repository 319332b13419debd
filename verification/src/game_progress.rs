//! The rules of a run: what clearing a problem unlocks, and when a run is
//! cleared.
//!
//! An instant is held as whole seconds since the Unix epoch and the
//! nanoseconds within that second; a duration as a number of nanoseconds.
use vstd::prelude::*;

verus! {

/// Whether a problem is locked, available or cleared in a run.
#[derive(Clone, Copy, Debug, PartialEq, Eq, Structural)]
pub enum ProblemStatus {
    Locked,
    Available,
    Cleared,
}

/// Whether a run is active or cleared.
#[derive(Clone, Copy, Debug, PartialEq, Eq, Structural)]
pub enum RunStatus {
    Active,
    Cleared,
}

/// Whether a user has not started, is working on, or has cleared a room.
#[derive(Clone, Copy, Debug, PartialEq, Eq, Structural)]
pub enum ProgressStatus {
    NotStarted,
    Active,
    Cleared,
}

/// An instant: seconds since the Unix epoch and nanoseconds within the
/// second.
#[derive(Clone, Copy, Debug, PartialEq, Eq, Structural)]
pub struct Instant {
    pub seconds: i64,
    pub subsec_nanos: u32,
}

impl Instant {
    /// Nanoseconds since the Unix epoch.
    pub open spec fn nanos(self) -> int {
        self.seconds * 1_000_000_000 + self.subsec_nanos
    }
}

/// A problem of a run and its status.
#[derive(Clone, Copy, Debug, PartialEq, Eq, Structural)]
pub struct ProblemState {
    pub problem_id: u128,
    pub room_id: u128,
    pub depends_on_problem_id: Option<u128>,
    pub is_required: bool,
    pub status: ProblemStatus,
}

/// The active run of a user in a room.
#[derive(Clone, Copy, Debug, PartialEq, Eq, Structural)]
pub struct ActiveRunState {
    pub run_id: u128,
    pub room_id: u128,
    pub started_at: Instant,
}

/// A user's progress in a room: its required problems and how many of them
/// are cleared.
#[derive(Clone, Copy, Debug, PartialEq, Eq, Structural)]
pub struct Progress {
    pub status: ProgressStatus,
    pub cleared_count: usize,
    pub required_count: usize,
}

/// The state changes caused by clearing one problem.
#[derive(Clone, Debug, PartialEq, Eq)]
pub struct ClearProblemPlan {
    pub target_problem_status: ProblemStatus,
    /// The instant to record as the problem's clear time; `None` when it was
    /// already cleared and is left as it is.
    pub problem_cleared_at: Option<Instant>,
    pub unlocked_problem_ids: Vec<u128>,
    pub progress: Progress,
    pub run_status: RunStatus,
    /// The instant to record as the run's clear time; `None` when the run
    /// stays active.
    pub run_cleared_at: Option<Instant>,
    /// Nanoseconds from the run's start to the decision.
    pub elapsed: i128,
}

/// Why a problem could not be cleared.
#[derive(Clone, Copy, Debug, PartialEq, Eq, Structural)]
pub enum ClearProblemError {
    ProblemNotFound,
    ProblemLocked,
    InvalidElapsed,
}

/// The number of problems in `ps` that satisfy `f`.
pub open spec fn count_where(ps: Seq<ProblemState>, f: spec_fn(ProblemState) -> bool) -> nat
    decreases ps.len(),
{
    if ps.len() == 0 {
        0
    } else {
        count_where(ps.drop_last(), f) + if f(ps.last()) {
            1nat
        } else {
            0nat
        }
    }
}

/// The IDs of the problems in `ps` that satisfy `f`, in order.
pub open spec fn ids_where(ps: Seq<ProblemState>, f: spec_fn(ProblemState) -> bool) -> Seq<u128>
    decreases ps.len(),
{
    if ps.len() == 0 {
        Seq::empty()
    } else if f(ps.last()) {
        ids_where(ps.drop_last(), f).push(ps.last().problem_id)
    } else {
        ids_where(ps.drop_last(), f)
    }
}

/// Whether problem `i` is the problem `target` of room `room`.
pub open spec fn is_target(ps: Seq<ProblemState>, i: int, room: u128, target: u128) -> bool {
    ps[i].problem_id == target && ps[i].room_id == room
}

/// Whether the run's room holds the problem `target`.
pub open spec fn has_target(ps: Seq<ProblemState>, room: u128, target: u128) -> bool {
    exists|i: int| 0 <= i < ps.len() && is_target(ps, i, room, target)
}

/// The index of the first problem that is the target.
pub open spec fn target_index(ps: Seq<ProblemState>, room: u128, target: u128) -> int {
    choose|i: int|
        0 <= i < ps.len() && is_target(ps, i, room, target) && forall|j: int|
            0 <= j < i ==> !is_target(ps, j, room, target)
}

/// A required problem of the room.
pub open spec fn required_in(room: u128) -> spec_fn(ProblemState) -> bool {
    |p: ProblemState| p.room_id == room && p.is_required
}

/// A required problem of the room that is cleared once `target` is, where
/// `newly` tells whether `target` is cleared now.
pub open spec fn cleared_in(room: u128, target: u128, newly: bool) -> spec_fn(ProblemState) -> bool {
    |p: ProblemState|
        p.room_id == room && p.is_required && (p.status == ProblemStatus::Cleared || (newly
            && p.problem_id == target))
}

/// A locked problem of the room that depends directly on `target`.
pub open spec fn unlocked_by(room: u128, target: u128) -> spec_fn(ProblemState) -> bool {
    |p: ProblemState|
        p.room_id == room && p.status == ProblemStatus::Locked && p.depends_on_problem_id == Some(
            target,
        )
}

/// Nanoseconds from `start` to `now`.
pub open spec fn elapsed_between(start: Instant, now: Instant) -> int {
    now.nanos() - start.nanos()
}

/// The plan for clearing `target` in `run`, given that the target was found
/// with status `status` and that the elapsed time is not negative.
pub open spec fn plan_matches(
    run: ActiveRunState,
    ps: Seq<ProblemState>,
    target: u128,
    now: Instant,
    status: ProblemStatus,
    plan: ClearProblemPlan,
) -> bool {
    let newly = status == ProblemStatus::Available;
    let required = count_where(ps, required_in(run.room_id));
    let cleared = count_where(ps, cleared_in(run.room_id, target, newly));
    let done = required > 0 && cleared == required;
    &&& plan.target_problem_status == ProblemStatus::Cleared
    &&& plan.problem_cleared_at == if newly {
        Some(now)
    } else {
        None
    }
    &&& plan.unlocked_problem_ids@ == if newly {
        ids_where(ps, unlocked_by(run.room_id, target))
    } else {
        Seq::empty()
    }
    &&& plan.progress.required_count == required
    &&& plan.progress.cleared_count == cleared
    &&& plan.progress.status == if done {
        ProgressStatus::Cleared
    } else {
        ProgressStatus::Active
    }
    &&& plan.run_status == if done {
        RunStatus::Cleared
    } else {
        RunStatus::Active
    }
    &&& plan.run_cleared_at == if done {
        Some(now)
    } else {
        None
    }
    &&& plan.elapsed == elapsed_between(run.started_at, now)
}

/// The number of problems among `ps` that satisfy `f`.
fn count_matching(ps: &[ProblemState], room: u128, target: u128, newly: bool, cleared_only: bool) -> (r:
    usize)
    ensures
        r == count_where(
            ps@,
            if cleared_only {
                cleared_in(room, target, newly)
            } else {
                required_in(room)
            },
        ),
{
    let ghost f = if cleared_only {
        cleared_in(room, target, newly)
    } else {
        required_in(room)
    };
    let mut count: usize = 0;
    let n = ps.len();
    for i in 0..n
        invariant
            n == ps@.len(),
            f == if cleared_only {
                cleared_in(room, target, newly)
            } else {
                required_in(room)
            },
            count == count_where(ps@.take(i as int), f),
            count <= i,
    {
        let p = ps[i];
        let hit = p.room_id == room && p.is_required && (!cleared_only || (p.status
            == ProblemStatus::Cleared || (newly && p.problem_id == target)));
        assert(ps@.take(i + 1).drop_last() =~= ps@.take(i as int));
        assert(ps@.take(i + 1).last() == ps@[i as int]);
        if cleared_only {
            assert(hit == cleared_in(room, target, newly)(ps@[i as int]));
        } else {
            assert(hit == required_in(room)(ps@[i as int]));
        }
        if hit {
            count += 1;
        }
    }
    assert(ps@.take(n as int) =~= ps@);
    count
}

/// The IDs of the locked problems of the room that depend directly on
/// `target`, in order.
fn unlocked_ids(ps: &[ProblemState], room: u128, target: u128) -> (r: Vec<u128>)
    ensures
        r@ == ids_where(ps@, unlocked_by(room, target)),
{
    let ghost f = unlocked_by(room, target);
    let mut out: Vec<u128> = Vec::new();
    let n = ps.len();
    for i in 0..n
        invariant
            n == ps@.len(),
            f == unlocked_by(room, target),
            out@ == ids_where(ps@.take(i as int), f),
    {
        let p = ps[i];
        assert(ps@.take(i + 1).drop_last() =~= ps@.take(i as int));
        assert(ps@.take(i + 1).last() == ps@[i as int]);
        assert(f(ps@[i as int]) == (p.room_id == room && p.status == ProblemStatus::Locked
            && p.depends_on_problem_id == Some(target)));
        if p.room_id == room && p.status == ProblemStatus::Locked && p.depends_on_problem_id
            == Some(target) {
            out.push(p.problem_id);
        }
    }
    assert(ps@.take(n as int) =~= ps@);
    out
}

/// Nanoseconds from `start` to `now`.
pub fn elapsed_nanos(start: Instant, now: Instant) -> (r: i128)
    ensures
        r == elapsed_between(start, now),
{
    (now.seconds as i128 - start.seconds as i128) * 1_000_000_000i128 + (now.subsec_nanos as i128
        - start.subsec_nanos as i128)
}

/// Computes the state changes caused by clearing problem `target` of the
/// run's room at `now`. Nothing is stored: the caller applies the plan in the
/// transaction that records the correct judgement.
///
/// The target must be a problem of the run's room that is not locked, and
/// `now` must not precede the run's start. A problem that was available is
/// cleared now and unlocks the locked problems of the room that depend
/// directly on it; one that was already cleared is left as it is and unlocks
/// nothing. Either way the progress counts the room's required problems and
/// how many of them are cleared, and the run is cleared once all of them (at
/// least one) are.
pub fn plan_problem_clear(
    run: &ActiveRunState,
    problems: &[ProblemState],
    target_problem_id: u128,
    now: Instant,
) -> (r: Result<ClearProblemPlan, ClearProblemError>)
    ensures
        !has_target(problems@, run.room_id, target_problem_id) ==> r == Err::<
            ClearProblemPlan,
            ClearProblemError,
        >(ClearProblemError::ProblemNotFound),
        has_target(problems@, run.room_id, target_problem_id) ==> ({
            let status = problems@[target_index(problems@, run.room_id, target_problem_id)].status;
            if status == ProblemStatus::Locked {
                r == Err::<ClearProblemPlan, ClearProblemError>(ClearProblemError::ProblemLocked)
            } else if elapsed_between(run.started_at, now) < 0 {
                r == Err::<ClearProblemPlan, ClearProblemError>(ClearProblemError::InvalidElapsed)
            } else {
                r matches Ok(plan) && plan_matches(
                    *run,
                    problems@,
                    target_problem_id,
                    now,
                    status,
                    plan,
                )
            }
        }),
{
    let n = problems.len();
    let mut found: Option<usize> = None;
    let mut i: usize = 0;
    while i < n
        invariant
            n == problems@.len(),
            i <= n,
            found is None ==> forall|j: int| 0 <= j < i ==> !is_target(
                problems@,
                j,
                run.room_id,
                target_problem_id,
            ),
            found matches Some(k) ==> k < n && is_target(problems@, k as int, run.room_id, target_problem_id)
                && forall|j: int| 0 <= j < k ==> !is_target(problems@, j, run.room_id, target_problem_id),
        decreases n - i,
    {
        if found.is_none() && problems[i].problem_id == target_problem_id && problems[i].room_id
            == run.room_id {
            found = Some(i);
        }
        i += 1;
    }
    let k = match found {
        None => {
            return Err(ClearProblemError::ProblemNotFound);
        },
        Some(k) => k,
    };
    proof {
        let t = target_index(problems@, run.room_id, target_problem_id);
        assert(0 <= t < n && is_target(problems@, t, run.room_id, target_problem_id) && forall|j: int|
            0 <= j < t ==> !is_target(problems@, j, run.room_id, target_problem_id));
        if t < k {
        } else if k < t {
        }
        assert(t == k);
    }
    let target = problems[k];
    if target.status == ProblemStatus::Locked {
        return Err(ClearProblemError::ProblemLocked);
    }
    let elapsed = elapsed_nanos(run.started_at, now);
    if elapsed < 0 {
        return Err(ClearProblemError::InvalidElapsed);
    }
    let newly = target.status == ProblemStatus::Available;
    let problem_cleared_at = if newly {
        Some(now)
    } else {
        None
    };
    let unlocked_problem_ids = if newly {
        unlocked_ids(problems, run.room_id, target_problem_id)
    } else {
        Vec::new()
    };
    let required_count = count_matching(problems, run.room_id, target_problem_id, newly, false);
    let cleared_count = count_matching(problems, run.room_id, target_problem_id, newly, true);
    let should_clear_run = required_count > 0 && cleared_count == required_count;
    let (run_status, run_cleared_at, progress_status) = if should_clear_run {
        (RunStatus::Cleared, Some(now), ProgressStatus::Cleared)
    } else {
        (RunStatus::Active, None, ProgressStatus::Active)
    };
    Ok(ClearProblemPlan {
        target_problem_status: ProblemStatus::Cleared,
        problem_cleared_at,
        unlocked_problem_ids,
        progress: Progress { status: progress_status, cleared_count, required_count },
        run_status,
        run_cleared_at,
        elapsed,
    })
}

/// `n / d` rounded toward zero, as Rust's integer division does (`d > 0`).
pub open spec fn div_toward_zero(n: int, d: int) -> int {
    if n >= 0 {
        n / d
    } else {
        -((-n) / d)
    }
}

/// Converts an elapsed duration in nanoseconds to whole milliseconds, rounded
/// toward zero; a negative number of milliseconds, or one beyond `u64`, is an
/// invalid elapsed time.
pub fn duration_to_elapsed_ms(elapsed: i128) -> (r: Result<u64, ClearProblemError>)
    ensures
        ({
            let ms = div_toward_zero(elapsed as int, 1_000_000);
            if 0 <= ms <= u64::MAX {
                r == Ok::<u64, ClearProblemError>(ms as u64)
            } else {
                r == Err::<u64, ClearProblemError>(ClearProblemError::InvalidElapsed)
            }
        }),
{
    let ms: i128 = elapsed / 1_000_000i128;
    if ms < 0 || ms > 18446744073709551615i128 {
        return Err(ClearProblemError::InvalidElapsed);
    }
    Ok(ms as u64)
}

// ---------------------------------------------------------------------------
// Laws
// ---------------------------------------------------------------------------

/// Counting with predicates that agree on corresponding elements gives the
/// same number.
proof fn lemma_count_pointwise(
    a: Seq<ProblemState>,
    b: Seq<ProblemState>,
    f: spec_fn(ProblemState) -> bool,
    g: spec_fn(ProblemState) -> bool,
)
    requires
        a.len() == b.len(),
        forall|i: int| 0 <= i < a.len() ==> f(a[i]) == g(b[i]),
    ensures
        count_where(a, f) == count_where(b, g),
    decreases a.len(),
{
    if a.len() > 0 {
        let (a1, b1) = (a.drop_last(), b.drop_last());
        assert forall|i: int| 0 <= i < a1.len() implies f(a1[i]) == g(b1[i]) by {
            assert(a1[i] == a[i] && b1[i] == b[i]);
        }
        lemma_count_pointwise(a1, b1, f, g);
        assert(f(a.last()) == g(b.last()));
    }
}

/// Counting with a stronger predicate gives no more; the counts are equal
/// only if every element satisfying the weaker one satisfies the stronger.
proof fn lemma_count_subset(ps: Seq<ProblemState>, f: spec_fn(ProblemState) -> bool, g: spec_fn(
    ProblemState,
) -> bool)
    requires
        forall|p: ProblemState| #[trigger] g(p) ==> f(p),
    ensures
        count_where(ps, g) <= count_where(ps, f),
        count_where(ps, g) == count_where(ps, f) ==> forall|i: int|
            0 <= i < ps.len() && f(ps[i]) ==> g(ps[i]),
    decreases ps.len(),
{
    if ps.len() > 0 {
        let rest = ps.drop_last();
        lemma_count_subset(rest, f, g);
        assert forall|i: int|
            0 <= i < ps.len() && f(ps[i]) && count_where(ps, g) == count_where(ps, f) implies g(
            ps[i],
        ) by {
            if i < ps.len() - 1 {
                assert(rest[i] == ps[i]);
            }
        }
    }
}

/// Whether `id` is among the IDs of the problems satisfying `f`.
proof fn lemma_ids_where_contains(ps: Seq<ProblemState>, f: spec_fn(ProblemState) -> bool, id: u128)
    ensures
        ids_where(ps, f).contains(id) <==> exists|i: int|
            0 <= i < ps.len() && f(ps[i]) && ps[i].problem_id == id,
    decreases ps.len(),
{
    if ps.len() > 0 {
        let rest = ps.drop_last();
        let r = ids_where(rest, f);
        let ids = ids_where(ps, f);
        lemma_ids_where_contains(rest, f, id);
        if ids.contains(id) {
            if f(ps.last()) && ps.last().problem_id == id {
                assert(f(ps[ps.len() - 1]) && ps[ps.len() - 1].problem_id == id);
            } else {
                let k = choose|k: int| 0 <= k < ids.len() && ids[k] == id;
                if f(ps.last()) {
                    assert(ids == r.push(ps.last().problem_id));
                    assert(k < r.len());
                    assert(r[k] == id);
                } else {
                    assert(ids == r);
                }
                assert(r.contains(id));
                let j = choose|j: int| 0 <= j < rest.len() && f(rest[j]) && rest[j].problem_id == id;
                assert(ps[j] == rest[j]);
            }
        }
        if exists|i: int| 0 <= i < ps.len() && f(ps[i]) && ps[i].problem_id == id {
            let i = choose|i: int| 0 <= i < ps.len() && f(ps[i]) && ps[i].problem_id == id;
            if i == ps.len() - 1 {
                assert(ids == r.push(id));
                assert(ids[r.len() as int] == id);
            } else {
                assert(rest[i] == ps[i]);
                assert(r.contains(id));
                let k = choose|k: int| 0 <= k < r.len() && r[k] == id;
                if f(ps.last()) {
                    assert(ids == r.push(ps.last().problem_id));
                    assert(ids[k] == id);
                } else {
                    assert(ids == r);
                }
            }
        }
    }
}

/// A plan never counts more cleared problems than required ones, and it
/// clears the run exactly when the room has required problems and every one
/// of them is cleared once the target is.
pub proof fn lemma_plan_progress(
    run: ActiveRunState,
    ps: Seq<ProblemState>,
    target: u128,
    now: Instant,
    status: ProblemStatus,
    plan: ClearProblemPlan,
)
    requires
        plan_matches(run, ps, target, now, status, plan),
    ensures
        plan.progress.cleared_count <= plan.progress.required_count,
        (plan.run_status == RunStatus::Cleared) <==> ((exists|i: int|
            0 <= i < ps.len() && ps[i].room_id == run.room_id && ps[i].is_required) && forall|i: int|
            0 <= i < ps.len() && ps[i].room_id == run.room_id && ps[i].is_required ==> (ps[i].status
                == ProblemStatus::Cleared || (status == ProblemStatus::Available && ps[i].problem_id
                == target))),
{
    let newly = status == ProblemStatus::Available;
    let f = required_in(run.room_id);
    let g = cleared_in(run.room_id, target, newly);
    lemma_count_subset(ps, f, g);
    lemma_count_positive(ps, f);
    if plan.run_status == RunStatus::Cleared {
        assert forall|i: int|
            0 <= i < ps.len() && ps[i].room_id == run.room_id && ps[i].is_required implies (
            ps[i].status == ProblemStatus::Cleared || (newly && ps[i].problem_id == target)) by {
            assert(f(ps[i]));
            assert(g(ps[i]));
        }
    } else if (exists|i: int| 0 <= i < ps.len() && ps[i].room_id == run.room_id && ps[i].is_required)
        && forall|i: int|
        0 <= i < ps.len() && ps[i].room_id == run.room_id && ps[i].is_required ==> (ps[i].status
            == ProblemStatus::Cleared || (newly && ps[i].problem_id == target)) {
        assert forall|i: int| 0 <= i < ps.len() implies f(ps[i]) == g(ps[i]) by {}
        lemma_count_pointwise(ps, ps, f, g);
    }
}

/// Some element satisfies `f` exactly when the count is positive.
proof fn lemma_count_positive(ps: Seq<ProblemState>, f: spec_fn(ProblemState) -> bool)
    ensures
        (count_where(ps, f) > 0) <==> exists|i: int| 0 <= i < ps.len() && f(ps[i]),
    decreases ps.len(),
{
    if ps.len() > 0 {
        let rest = ps.drop_last();
        lemma_count_positive(rest, f);
        if exists|i: int| 0 <= i < rest.len() && f(rest[i]) {
            let i = choose|i: int| 0 <= i < rest.len() && f(rest[i]);
            assert(ps[i] == rest[i]);
        }
        if exists|i: int| 0 <= i < ps.len() && f(ps[i]) {
            let i = choose|i: int| 0 <= i < ps.len() && f(ps[i]);
            if i < ps.len() - 1 {
                assert(rest[i] == ps[i]);
            }
        }
    }
}

/// A plan unlocks a problem exactly when the target was cleared now and the
/// problem is a locked problem of the room that depends directly on it.
pub proof fn lemma_plan_unlocks(
    run: ActiveRunState,
    ps: Seq<ProblemState>,
    target: u128,
    now: Instant,
    status: ProblemStatus,
    plan: ClearProblemPlan,
    id: u128,
)
    requires
        plan_matches(run, ps, target, now, status, plan),
    ensures
        plan.unlocked_problem_ids@.contains(id) <==> (status == ProblemStatus::Available && exists|i: int|
            0 <= i < ps.len() && ps[i].problem_id == id && ps[i].room_id == run.room_id
                && ps[i].status == ProblemStatus::Locked && ps[i].depends_on_problem_id == Some(
                target,
            )),
{
    lemma_ids_where_contains(ps, unlocked_by(run.room_id, target), id);
    if status == ProblemStatus::Available {
        if exists|i: int|
            0 <= i < ps.len() && ps[i].problem_id == id && ps[i].room_id == run.room_id
                && ps[i].status == ProblemStatus::Locked && ps[i].depends_on_problem_id == Some(
                target,
            ) {
            let i = choose|i: int|
                0 <= i < ps.len() && ps[i].problem_id == id && ps[i].room_id == run.room_id
                    && ps[i].status == ProblemStatus::Locked && ps[i].depends_on_problem_id
                    == Some(target);
            assert(unlocked_by(run.room_id, target)(ps[i]));
        }
    }
}

/// The problems once a plan for `target` is applied: the target cleared and,
/// when it was cleared now, its locked direct dependents available.
pub open spec fn apply_clear(ps: Seq<ProblemState>, room: u128, target: u128, newly: bool) -> Seq<
    ProblemState,
> {
    Seq::new(
        ps.len(),
        |i: int|
            if is_target(ps, i, room, target) {
                ProblemState { status: ProblemStatus::Cleared, ..ps[i] }
            } else if newly && unlocked_by(room, target)(ps[i]) {
                ProblemState { status: ProblemStatus::Available, ..ps[i] }
            } else {
                ps[i]
            },
    )
}

/// No two problems share an ID.
pub open spec fn ids_unique(ps: Seq<ProblemState>) -> bool {
    forall|i: int, j: int|
        0 <= i < ps.len() && 0 <= j < ps.len() && ps[i].problem_id == ps[j].problem_id ==> i == j
}

/// Clearing the same problem again, once a plan has been applied, records
/// nothing new: the problem keeps its clear time, nothing more is unlocked,
/// and the progress and the run's status come out as the first plan left
/// them.
pub proof fn lemma_clear_again_is_stable(
    run: ActiveRunState,
    ps: Seq<ProblemState>,
    target: u128,
    now: Instant,
    later: Instant,
    status: ProblemStatus,
    first: ClearProblemPlan,
    second: ClearProblemPlan,
)
    requires
        ids_unique(ps),
        has_target(ps, run.room_id, target),
        status == ps[target_index(ps, run.room_id, target)].status,
        status != ProblemStatus::Locked,
        plan_matches(run, ps, target, now, status, first),
        plan_matches(
            run,
            apply_clear(ps, run.room_id, target, status == ProblemStatus::Available),
            target,
            later,
            ProblemStatus::Cleared,
            second,
        ),
    ensures
        second.problem_cleared_at is None,
        second.unlocked_problem_ids@.len() == 0,
        second.progress == first.progress,
        second.run_status == first.run_status,
{
    let newly = status == ProblemStatus::Available;
    let room = run.room_id;
    let after = apply_clear(ps, room, target, newly);
    let t = target_index(ps, room, target);
    assert forall|i: int| 0 <= i < ps.len() implies required_in(room)(ps[i]) == required_in(room)(
        after[i],
    ) by {}
    lemma_count_pointwise(ps, after, required_in(room), required_in(room));
    assert forall|i: int| 0 <= i < ps.len() implies cleared_in(room, target, newly)(ps[i])
        == cleared_in(room, target, false)(after[i]) by {
        if is_target(ps, i, room, target) {
            assert(i == t);
        }
    }
    lemma_count_pointwise(ps, after, cleared_in(room, target, newly), cleared_in(room, target, false));
}

} // verus!
