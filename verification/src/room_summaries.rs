//! The room list with a user's progress: which rooms the user has started or
//! cleared, how far they got, and their best record and rank in each cleared
//! room. The store reads the rows; everything else is decided here.
use vstd::prelude::*;

use crate::game_progress::{Instant, div_toward_zero, duration_to_elapsed_ms, elapsed_between, elapsed_nanos};
use crate::repository::{RepositoryError, RoomBestRecordRecord};
use crate::text::str_eq;

verus! {

/// A published room and its problem counts, as the store reads them.
#[derive(Clone, Debug, PartialEq, Eq)]
pub struct RoomRow {
    pub room_id: u128,
    pub number: i32,
    pub name: String,
    pub genre: String,
    pub description: String,
    pub problem_count: i64,
    pub required_count: i64,
}

/// A run of the user in a published room.
#[derive(Clone, Debug, PartialEq, Eq)]
pub struct UserRunRow {
    pub run_id: u128,
    pub room_id: u128,
    pub status: String,
}

/// The number of cleared required problems of an active run of the user.
#[derive(Clone, Copy, Debug, PartialEq, Eq, Structural)]
pub struct ActiveProgressRow {
    pub room_id: u128,
    pub cleared_count: i64,
}

/// A cleared run, of any user, in a room the user has cleared.
#[derive(Clone, Copy, Debug, PartialEq, Eq, Structural)]
pub struct ClearedRunRow {
    pub user_id: u128,
    pub room_id: u128,
    pub started_at: Instant,
    pub cleared_at: Option<Instant>,
    pub query_count: i64,
}

/// What the store read about the signed-in user.
#[derive(Clone, Debug, PartialEq, Eq)]
pub struct UserRoomRows {
    pub user_id: u128,
    pub runs: Vec<UserRunRow>,
    pub active_progress: Vec<ActiveProgressRow>,
    pub cleared_runs: Vec<ClearedRunRow>,
}

/// A cleared run reduced to what ranks it.
#[derive(Clone, Copy, Debug, PartialEq, Eq, Structural)]
pub struct RankedRun {
    pub user_id: u128,
    pub room_id: u128,
    pub elapsed_ms: u64,
    pub query_count: u64,
    pub cleared_at: Instant,
}

/// A room in the list, with the user's progress in it.
#[derive(Clone, Debug, PartialEq, Eq)]
pub struct RoomSummaryRecord {
    pub room_id: u128,
    pub number: i32,
    pub name: String,
    pub genre: String,
    pub description: String,
    pub problem_count: u32,
    pub progress_status: String,
    pub cleared_count: u32,
    pub required_count: u32,
    pub best_record: Option<RoomBestRecordRecord>,
}

// ---------------------------------------------------------------------------
// The user's runs
// ---------------------------------------------------------------------------

/// Whether the user has a run with status `status` in `room`.
pub open spec fn has_run(runs: Seq<UserRunRow>, room: u128, status: Seq<char>) -> bool {
    exists|i: int| 0 <= i < runs.len() && runs[i].room_id == room && runs[i].status@ == status
}

/// Whether some room holds both an active and a cleared run of the user.
pub open spec fn run_conflict(runs: Seq<UserRunRow>) -> bool {
    exists|i: int, j: int|
        0 <= i < runs.len() && 0 <= j < runs.len() && runs[i].room_id == runs[j].room_id
            && runs[i].status@ == "active"@ && runs[j].status@ == "cleared"@
}

/// Whether the user has a run with status `status` in `room`.
fn find_run(runs: &Vec<UserRunRow>, room: u128, status: &str) -> (r: bool)
    ensures
        r == has_run(runs@, room, status@),
{
    let n = runs.len();
    for i in 0..n
        invariant
            n == runs@.len(),
            forall|j: int| 0 <= j < i ==> !(runs@[j].room_id == room && runs@[j].status@ == status@),
    {
        if runs[i].room_id == room && str_eq(runs[i].status.as_str(), status) {
            return true;
        }
    }
    false
}

/// Fails when some room holds both an active and a cleared run of the user.
fn check_run_conflicts(runs: &Vec<UserRunRow>) -> (r: Result<(), RepositoryError>)
    ensures
        run_conflict(runs@) ==> (r matches Err(RepositoryError::InvalidRunStatus { status: s }) && s@
            == "active and cleared run conflict"@),
        !run_conflict(runs@) ==> r is Ok,
{
    let n = runs.len();
    for i in 0..n
        invariant
            n == runs@.len(),
            forall|k: int, j: int|
                0 <= k < i && 0 <= j < runs@.len() && runs@[k].room_id == runs@[j].room_id ==> !(
                runs@[k].status@ == "active"@ && runs@[j].status@ == "cleared"@),
    {
        if str_eq(runs[i].status.as_str(), "active") && find_run(runs, runs[i].room_id, "cleared") {
            return Err(
                RepositoryError::InvalidRunStatus {
                    status: String::from_str("active and cleared run conflict"),
                },
            );
        }
    }
    Ok(())
}

/// The rooms in which the user has a cleared run, each once, in the order of
/// their first cleared run.
pub fn cleared_rooms(runs: &Vec<UserRunRow>) -> (r: Vec<u128>)
    ensures
        forall|room: u128| r@.contains(room) <==> has_run(runs@, room, "cleared"@),
        forall|i: int, j: int| 0 <= i < j < r@.len() ==> r@[i] != r@[j],
{
    let mut out: Vec<u128> = Vec::new();
    let n = runs.len();
    for i in 0..n
        invariant
            n == runs@.len(),
            forall|room: u128| out@.contains(room) <==> exists|k: int|
                0 <= k < i && runs@[k].room_id == room && runs@[k].status@ == "cleared"@,
            forall|a: int, b: int| 0 <= a < b < out@.len() ==> out@[a] != out@[b],
    {
        let ghost before = out@;
        let is_cleared = str_eq(runs[i].status.as_str(), "cleared");
        let room = runs[i].room_id;
        if is_cleared {
            let mut seen = false;
            let m = out.len();
            for j in 0..m
                invariant
                    m == out@.len(),
                    seen == exists|k: int| 0 <= k < j && out@[k] == room,
            {
                if out[j] == room {
                    seen = true;
                }
            }
            if !seen {
                out.push(room);
                proof {
                    assert forall|a: int, b: int| 0 <= a < b < out@.len() implies out@[a] != out@[b] by {
                        if b == out@.len() - 1 {
                            assert(out@[a] == before[a]);
                        } else {
                            assert(out@[a] == before[a] && out@[b] == before[b]);
                        }
                    }
                }
            }
        }
        proof {
            assert forall|x: u128| out@.contains(x) <==> exists|k: int|
                0 <= k < i + 1 && runs@[k].room_id == x && runs@[k].status@ == "cleared"@ by {
                let old_side = exists|k: int|
                    0 <= k < i && runs@[k].room_id == x && runs@[k].status@ == "cleared"@;
                assert(before.contains(x) == old_side);
                if out@.contains(x) {
                    let a = choose|a: int| 0 <= a < out@.len() && out@[a] == x;
                    if a < before.len() {
                        assert(before[a] == x);
                        assert(before.contains(x));
                    } else {
                        assert(x == room && is_cleared);
                        assert(runs@[i as int].room_id == x && runs@[i as int].status@ == "cleared"@);
                    }
                }
                if exists|k: int| 0 <= k < i + 1 && runs@[k].room_id == x && runs@[k].status@ == "cleared"@ {
                    let k = choose|k: int|
                        0 <= k < i + 1 && runs@[k].room_id == x && runs@[k].status@ == "cleared"@;
                    if k < i {
                        assert(before.contains(x));
                        let a = choose|a: int| 0 <= a < before.len() && before[a] == x;
                        assert(out@[a] == x);
                    } else {
                        assert(x == room && is_cleared);
                        if out@ == before {
                            let a = choose|a: int| 0 <= a < out@.len() && out@[a] == room;
                            assert(out@[a] == x);
                        } else {
                            assert(out@.last() == x);
                            assert(out@[out@.len() - 1] == x);
                        }
                    }
                }
            }
        }
    }
    out
}

// ---------------------------------------------------------------------------
// Progress of active runs
// ---------------------------------------------------------------------------

/// Whether every active-run count fits in `u32`.
pub open spec fn active_counts_valid(rows: Seq<ActiveProgressRow>) -> bool {
    forall|i: int| 0 <= i < rows.len() ==> 0 <= #[trigger] rows[i].cleared_count <= u32::MAX
}

/// The count the last row for `room` holds, or 0.
pub open spec fn active_count(rows: Seq<ActiveProgressRow>, room: u128) -> int
    decreases rows.len(),
{
    if rows.len() == 0 {
        0
    } else if rows.last().room_id == room {
        rows.last().cleared_count as int
    } else {
        active_count(rows.drop_last(), room)
    }
}

/// Fails unless every active-run count fits in `u32`.
fn check_active_counts(rows: &Vec<ActiveProgressRow>) -> (r: Result<(), RepositoryError>)
    ensures
        active_counts_valid(rows@) ==> r is Ok,
        !active_counts_valid(rows@) ==> r == Err::<(), RepositoryError>(
            RepositoryError::InvalidProgressCount,
        ),
{
    let n = rows.len();
    for i in 0..n
        invariant
            n == rows@.len(),
            forall|k: int| 0 <= k < i ==> 0 <= #[trigger] rows@[k].cleared_count <= u32::MAX,
    {
        if rows[i].cleared_count < 0 || rows[i].cleared_count > 4294967295i64 {
            return Err(RepositoryError::InvalidProgressCount);
        }
    }
    Ok(())
}

/// The cleared count of the user's active run in `room`.
fn active_count_of(rows: &Vec<ActiveProgressRow>, room: u128) -> (r: u32)
    requires
        active_counts_valid(rows@),
    ensures
        r == active_count(rows@, room),
{
    let mut k = rows.len();
    assert(rows@.take(k as int) =~= rows@);
    while k > 0
        invariant
            k <= rows@.len(),
            active_counts_valid(rows@),
            active_count(rows@, room) == active_count(rows@.take(k as int), room),
        decreases k,
    {
        if rows[k - 1].room_id == room {
            assert(0 <= rows@[k - 1].cleared_count <= u32::MAX);
            return rows[k - 1].cleared_count as u32;
        }
        assert(rows@.take(k as int).drop_last() =~= rows@.take(k - 1));
        k -= 1;
    }
    0
}

// ---------------------------------------------------------------------------
// Cleared runs
// ---------------------------------------------------------------------------

/// Why a cleared run cannot be ranked, if it cannot: it has no clear time,
/// its elapsed time is negative or too long, or its query count is negative.
pub open spec fn cleared_run_error(row: ClearedRunRow) -> Option<RepositoryError> {
    match row.cleared_at {
        None => Some(RepositoryError::InvalidElapsed),
        Some(c) => {
            let e = elapsed_between(row.started_at, c);
            if e < 0 || div_toward_zero(e, 1_000_000) > u64::MAX {
                Some(RepositoryError::InvalidElapsed)
            } else if row.query_count < 0 {
                Some(RepositoryError::InvalidQueryCount)
            } else {
                None
            }
        },
    }
}

/// A cleared run that can be ranked, reduced to what ranks it.
pub open spec fn ranked_run_of(row: ClearedRunRow) -> RankedRun {
    RankedRun {
        user_id: row.user_id,
        room_id: row.room_id,
        elapsed_ms: div_toward_zero(elapsed_between(row.started_at, row.cleared_at->0), 1_000_000) as u64,
        query_count: row.query_count as u64,
        cleared_at: row.cleared_at->0,
    }
}

/// The error of the first cleared run from `i` on that cannot be ranked.
pub open spec fn first_cleared_run_error(rows: Seq<ClearedRunRow>, i: int) -> Option<RepositoryError>
    decreases rows.len() - i,
{
    if i < 0 || i >= rows.len() {
        None
    } else {
        match cleared_run_error(rows[i]) {
            Some(e) => Some(e),
            None => first_cleared_run_error(rows, i + 1),
        }
    }
}

/// The records of the cleared runs.
fn ranked_runs(rows: &Vec<ClearedRunRow>) -> (r: Result<Vec<RankedRun>, RepositoryError>)
    ensures
        match first_cleared_run_error(rows@, 0) {
            Some(e) => r == Err::<Vec<RankedRun>, RepositoryError>(e),
            None => r matches Ok(v) && v@ == Seq::new(rows@.len(), |i: int| ranked_run_of(rows@[i])),
        },
{
    let mut out: Vec<RankedRun> = Vec::new();
    let n = rows.len();
    for i in 0..n
        invariant
            n == rows@.len(),
            first_cleared_run_error(rows@, 0) == first_cleared_run_error(rows@, i as int),
            out@ == Seq::new(i as nat, |k: int| ranked_run_of(rows@[k])),
    {
        let row = rows[i];
        let cleared_at = match row.cleared_at {
            Some(c) => c,
            None => {
                return Err(RepositoryError::InvalidElapsed);
            },
        };
        let elapsed = elapsed_nanos(row.started_at, cleared_at);
        if elapsed < 0 {
            return Err(RepositoryError::InvalidElapsed);
        }
        let elapsed_ms = match duration_to_elapsed_ms(elapsed) {
            Ok(ms) => ms,
            Err(_) => {
                return Err(RepositoryError::InvalidElapsed);
            },
        };
        if row.query_count < 0 {
            return Err(RepositoryError::InvalidQueryCount);
        }
        out.push(
            RankedRun {
                user_id: row.user_id,
                room_id: row.room_id,
                elapsed_ms,
                query_count: row.query_count as u64,
                cleared_at,
            },
        );
        assert(out@ =~= Seq::new((i + 1) as nat, |k: int| ranked_run_of(rows@[k])));
    }
    assert(out@ =~= Seq::new(rows@.len(), |i: int| ranked_run_of(rows@[i])));
    Ok(out)
}

// ---------------------------------------------------------------------------
// Best records and ranks
// ---------------------------------------------------------------------------

/// Whether instant `a` precedes instant `b`.
pub open spec fn instant_before(a: Instant, b: Instant) -> bool {
    a.seconds < b.seconds || (a.seconds == b.seconds && a.subsec_nanos < b.subsec_nanos)
}

/// Whether record `a` ranks strictly above record `b`: less time, then fewer
/// queries, then an earlier clear.
pub open spec fn ranks_above(a: RankedRun, b: RankedRun) -> bool {
    a.elapsed_ms < b.elapsed_ms || (a.elapsed_ms == b.elapsed_ms && (a.query_count < b.query_count
        || (a.query_count == b.query_count && instant_before(a.cleared_at, b.cleared_at))))
}

/// Whether two records tie.
pub open spec fn ties(a: RankedRun, b: RankedRun) -> bool {
    a.elapsed_ms == b.elapsed_ms && a.query_count == b.query_count && a.cleared_at == b.cleared_at
}

/// Whether run `i` is its user's best run in `room`: no run of theirs there
/// ranks above it, and none before it ties with it.
pub open spec fn is_user_best(rs: Seq<RankedRun>, room: u128, i: int) -> bool {
    &&& 0 <= i < rs.len()
    &&& rs[i].room_id == room
    &&& forall|j: int|
        0 <= j < rs.len() && rs[j].room_id == room && rs[j].user_id == rs[i].user_id ==> !ranks_above(
            rs[j],
            rs[i],
        ) && (j < i ==> !ties(rs[j], rs[i]))
}

/// The number of users among runs `0..k` whose best run in `room` ranks
/// above run `me`.
pub open spec fn users_above(rs: Seq<RankedRun>, room: u128, me: int, k: int) -> nat
    decreases k,
{
    if k <= 0 {
        0
    } else {
        users_above(rs, room, me, k - 1) + if is_user_best(rs, room, k - 1) && ranks_above(
            rs[k - 1],
            rs[me],
        ) {
            1nat
        } else {
            0nat
        }
    }
}

/// A run of another room leaves every user's best run in `room` as it was.
proof fn lemma_user_best_ignores_other_room(rs: Seq<RankedRun>, room: u128, x: RankedRun, i: int)
    requires
        x.room_id != room,
        0 <= i < rs.len(),
    ensures
        is_user_best(rs.push(x), room, i) == is_user_best(rs, room, i),
{
    let t = rs.push(x);
    assert(t[i] == rs[i]);
    if is_user_best(rs, room, i) {
        assert forall|j: int|
            0 <= j < t.len() && t[j].room_id == room && t[j].user_id == t[i].user_id implies !ranks_above(
            t[j],
            t[i],
        ) && (j < i ==> !ties(t[j], t[i])) by {
            assert(j < rs.len());
            assert(t[j] == rs[j]);
        }
    }
    if is_user_best(t, room, i) {
        assert forall|j: int|
            0 <= j < rs.len() && rs[j].room_id == room && rs[j].user_id == rs[i].user_id implies !ranks_above(
            rs[j],
            rs[i],
        ) && (j < i ==> !ties(rs[j], rs[i])) by {
            assert(t[j] == rs[j]);
        }
    }
}

/// Counting only up to `k`, a run of another room appended at the end
/// changes nothing.
proof fn lemma_users_above_prefix_other_room(
    rs: Seq<RankedRun>,
    room: u128,
    me: int,
    x: RankedRun,
    k: int,
)
    requires
        x.room_id != room,
        0 <= me < rs.len(),
        k <= rs.len(),
    ensures
        users_above(rs.push(x), room, me, k) == users_above(rs, room, me, k),
    decreases k,
{
    if k > 0 {
        lemma_users_above_prefix_other_room(rs, room, me, x, k - 1);
        lemma_user_best_ignores_other_room(rs, room, x, k - 1);
        assert(rs.push(x)[k - 1] == rs[k - 1]);
        assert(rs.push(x)[me] == rs[me]);
    }
}

/// The rank of a user's best record in a room depends only on the runs of
/// that room: adding a cleared run of any other room, however good, leaves
/// the number of users ranking above unchanged.
pub proof fn lemma_rank_ignores_other_rooms(rs: Seq<RankedRun>, room: u128, me: int, x: RankedRun)
    requires
        x.room_id != room,
        0 <= me < rs.len(),
    ensures
        users_above(rs.push(x), room, me, rs.len() + 1 as int) == users_above(rs, room, me, rs.len() as int),
{
    lemma_users_above_prefix_other_room(rs, room, me, x, rs.len() as int);
    assert(!is_user_best(rs.push(x), room, rs.len() as int));
}

/// `record` is the best record of `user` in `room`: the user's best run there
/// and one more than the number of users whose best run ranks above it.
pub open spec fn is_best_record(
    rs: Seq<RankedRun>,
    room: u128,
    user: u128,
    record: RoomBestRecordRecord,
) -> bool {
    exists|m: int|
        is_user_best(rs, room, m) && rs[m].user_id == user && record.elapsed_ms == rs[m].elapsed_ms
            && record.query_count == rs[m].query_count && record.rank == ((users_above(
            rs,
            room,
            m,
            rs.len() as int,
        ) + 1) % 4294967296) as u32
}

/// Whether `user` has a run in `room`.
pub open spec fn has_record(rs: Seq<RankedRun>, room: u128, user: u128) -> bool {
    exists|i: int| 0 <= i < rs.len() && rs[i].room_id == room && rs[i].user_id == user
}

/// Whether record `a` ranks strictly above record `b`.
fn record_ranks_above(a: &RankedRun, b: &RankedRun) -> (r: bool)
    ensures
        r == ranks_above(*a, *b),
{
    a.elapsed_ms < b.elapsed_ms || (a.elapsed_ms == b.elapsed_ms && (a.query_count < b.query_count
        || (a.query_count == b.query_count && (a.cleared_at.seconds < b.cleared_at.seconds || (
    a.cleared_at.seconds == b.cleared_at.seconds && a.cleared_at.subsec_nanos
        < b.cleared_at.subsec_nanos)))))
}

/// Whether run `i` is its user's best run in `room`.
fn check_user_best(rs: &Vec<RankedRun>, room: u128, i: usize) -> (r: bool)
    requires
        i < rs@.len(),
    ensures
        r == is_user_best(rs@, room, i as int),
{
    if rs[i].room_id != room {
        return false;
    }
    let n = rs.len();
    for j in 0..n
        invariant
            n == rs@.len(),
            i < n,
            rs@[i as int].room_id == room,
            forall|k: int|
                0 <= k < j && rs@[k].room_id == room && rs@[k].user_id == rs@[i as int].user_id
                    ==> !ranks_above(rs@[k], rs@[i as int]) && (k < i ==> !ties(rs@[k], rs@[i as int])),
    {
        if rs[j].room_id == room && rs[j].user_id == rs[i].user_id {
            if record_ranks_above(&rs[j], &rs[i]) {
                return false;
            }
            if j < i && rs[j].elapsed_ms == rs[i].elapsed_ms && rs[j].query_count
                == rs[i].query_count && rs[j].cleared_at == rs[i].cleared_at {
                return false;
            }
        }
    }
    true
}

/// Two records that neither ranks above the other tie.
proof fn lemma_rank_total(a: RankedRun, b: RankedRun)
    ensures
        !ranks_above(a, b) && !ranks_above(b, a) ==> ties(a, b),
{
}

/// The best record of `user` in `room`, if the user has a run there.
#[verifier::loop_isolation(false)]
pub fn best_record(rs: &Vec<RankedRun>, room: u128, user: u128) -> (r: Option<RoomBestRecordRecord>)
    ensures
        match r {
            Some(record) => is_best_record(rs@, room, user, record),
            None => !has_record(rs@, room, user),
        },
{
    let n = rs.len();
    let mut best: Option<usize> = None;
    for j in 0..n
        invariant
            n == rs@.len(),
            best is None ==> forall|k: int|
                0 <= k < j ==> !(rs@[k].room_id == room && rs@[k].user_id == user),
            best matches Some(m) ==> m < j && rs@[m as int].room_id == room && rs@[m as int].user_id
                == user && forall|k: int|
                0 <= k < j && rs@[k].room_id == room && rs@[k].user_id == user ==> !ranks_above(
                    rs@[k],
                    rs@[m as int],
                ) && (k < m ==> !ties(rs@[k], rs@[m as int])),
    {
        if rs[j].room_id == room && rs[j].user_id == user {
            match best {
                None => {
                    best = Some(j);
                },
                Some(m) => {
                    if record_ranks_above(&rs[j], &rs[m]) {
                        proof {
                            assert forall|k: int|
                                0 <= k < j + 1 && rs@[k].room_id == room && rs@[k].user_id == user
                                    implies !ranks_above(rs@[k], rs@[j as int]) && (k < j ==> !ties(
                                rs@[k],
                                rs@[j as int],
                            )) by {
                                if k < j {
                                    assert(!ranks_above(rs@[k], rs@[m as int]));
                                }
                            }
                        }
                        best = Some(j);
                    } else {
                        proof {
                            lemma_rank_total(rs@[j as int], rs@[m as int]);
                        }
                    }
                },
            }
        }
    }
    let m = match best {
        None => {
            return None;
        },
        Some(m) => m,
    };
    assert(is_user_best(rs@, room, m as int));
    let mut above: usize = 0;
    for i in 0..n
        invariant
            n == rs@.len(),
            m < n,
            above == users_above(rs@, room, m as int, i as int),
            above <= i,
    {
        if check_user_best(rs, room, i) && record_ranks_above(&rs[i], &rs[m]) {
            above += 1;
        }
    }
    let above_wide = above as u64;
    let low = (above_wide % 4294967296u64) as u32;
    let rank = if low == 4294967295u32 {
        0u32
    } else {
        low + 1
    };
    assert(rank == ((above + 1) % 4294967296) as u32);
    Some(RoomBestRecordRecord { elapsed_ms: rs[m].elapsed_ms, rank, query_count: rs[m].query_count })
}

// ---------------------------------------------------------------------------
// The room list
// ---------------------------------------------------------------------------

/// Whether every room's counts fit in `u32`.
pub open spec fn room_counts_valid(rooms: Seq<RoomRow>) -> bool {
    forall|i: int|
        0 <= i < rooms.len() ==> 0 <= #[trigger] rooms[i].problem_count <= u32::MAX && 0
            <= rooms[i].required_count <= u32::MAX
}

/// `s` is the summary of `row` with the given status, cleared count and best
/// record.
pub open spec fn summary_of(
    row: RoomRow,
    status: Seq<char>,
    cleared: int,
    best: Option<RoomBestRecordRecord>,
    s: RoomSummaryRecord,
) -> bool {
    &&& s.room_id == row.room_id
    &&& s.number == row.number
    &&& s.name == row.name
    &&& s.genre == row.genre
    &&& s.description == row.description
    &&& s.problem_count == row.problem_count
    &&& s.required_count == row.required_count
    &&& s.progress_status@ == status
    &&& s.cleared_count == cleared
    &&& s.best_record == best
}

/// `s` is the summary of `row` for the user whose rows are `user`, given the
/// ranked records `rs` of the cleared runs: a room with a cleared run is
/// cleared, with all required problems and the user's best record; a room
/// with an active run is active, with that run's count; any other is not
/// started.
pub open spec fn user_summary_of(
    row: RoomRow,
    user: UserRoomRows,
    rs: Seq<RankedRun>,
    s: RoomSummaryRecord,
) -> bool {
    if has_run(user.runs@, row.room_id, "cleared"@) {
        summary_of(row, "cleared"@, row.required_count as int, s.best_record, s) && match s.best_record {
            Some(b) => is_best_record(rs, row.room_id, user.user_id, b),
            None => !has_record(rs, row.room_id, user.user_id),
        }
    } else if has_run(user.runs@, row.room_id, "active"@) {
        summary_of(row, "active"@, active_count(user.active_progress@, row.room_id), None, s)
    } else {
        summary_of(row, "not_started"@, 0, None, s)
    }
}

/// The records of the cleared runs that `user` holds, when all can be ranked.
pub open spec fn records_of(user: UserRoomRows) -> Seq<RankedRun> {
    Seq::new(user.cleared_runs@.len(), |i: int| ranked_run_of(user.cleared_runs@[i]))
}

/// The summary of a room for a signed-out visitor.
fn anonymous_summary(row: RoomRow) -> (r: Result<RoomSummaryRecord, RepositoryError>)
    ensures
        (0 <= row.problem_count <= u32::MAX && 0 <= row.required_count <= u32::MAX) ==> (r matches Ok(
            s,
        ) && summary_of(row, "not_started"@, 0, None, s)),
        !(0 <= row.problem_count <= u32::MAX && 0 <= row.required_count <= u32::MAX) ==> r == Err::<
            RoomSummaryRecord,
            RepositoryError,
        >(RepositoryError::InvalidProgressCount),
{
    if row.problem_count < 0 || row.problem_count > 4294967295i64 || row.required_count < 0
        || row.required_count > 4294967295i64 {
        return Err(RepositoryError::InvalidProgressCount);
    }
    Ok(
        RoomSummaryRecord {
            room_id: row.room_id,
            number: row.number,
            name: row.name,
            genre: row.genre,
            description: row.description,
            problem_count: row.problem_count as u32,
            progress_status: String::from_str("not_started"),
            cleared_count: 0,
            required_count: row.required_count as u32,
            best_record: None,
        },
    )
}

/// The summary of a room for the signed-in user.
fn user_summary(row: RoomRow, user: &UserRoomRows, rs: &Vec<RankedRun>) -> (r: Result<
    RoomSummaryRecord,
    RepositoryError,
>)
    requires
        active_counts_valid(user.active_progress@),
    ensures
        (0 <= row.problem_count <= u32::MAX && 0 <= row.required_count <= u32::MAX) ==> (r matches Ok(
            s,
        ) && user_summary_of(row, *user, rs@, s)),
        !(0 <= row.problem_count <= u32::MAX && 0 <= row.required_count <= u32::MAX) ==> r == Err::<
            RoomSummaryRecord,
            RepositoryError,
        >(RepositoryError::InvalidProgressCount),
{
    if row.problem_count < 0 || row.problem_count > 4294967295i64 || row.required_count < 0
        || row.required_count > 4294967295i64 {
        return Err(RepositoryError::InvalidProgressCount);
    }
    let problem_count = row.problem_count as u32;
    let required_count = row.required_count as u32;
    let (progress_status, cleared_count, best) = if find_run(&user.runs, row.room_id, "cleared") {
        (String::from_str("cleared"), required_count, best_record(rs, row.room_id, user.user_id))
    } else if find_run(&user.runs, row.room_id, "active") {
        (String::from_str("active"), active_count_of(&user.active_progress, row.room_id), None)
    } else {
        (String::from_str("not_started"), 0u32, None)
    };
    Ok(
        RoomSummaryRecord {
            room_id: row.room_id,
            number: row.number,
            name: row.name,
            genre: row.genre,
            description: row.description,
            problem_count,
            progress_status,
            cleared_count,
            required_count,
            best_record: best,
        },
    )
}

/// The room list with the progress of the signed-in user, if there is one.
///
/// Without a user every room is not started. With one, the store's rows must
/// agree: no room may hold both an active and a cleared run of the user,
/// every active-run count must fit in `u32`, and every cleared run must have
/// a clear time not before its start and a non-negative query count. Every
/// room's counts must fit in `u32`.
#[verifier::loop_isolation(false)]
pub fn summarize_rooms(rooms: Vec<RoomRow>, user: Option<UserRoomRows>) -> (r: Result<
    Vec<RoomSummaryRecord>,
    RepositoryError,
>)
    ensures
        rooms@.len() == 0 ==> (r matches Ok(v) && v@.len() == 0),
        rooms@.len() > 0 ==> match user {
            None => if room_counts_valid(rooms@) {
                r matches Ok(v) && v@.len() == rooms@.len() && forall|i: int|
                    0 <= i < v@.len() ==> summary_of(rooms@[i], "not_started"@, 0, None, #[trigger] v@[i])
            } else {
                r == Err::<Vec<RoomSummaryRecord>, RepositoryError>(RepositoryError::InvalidProgressCount)
            },
            Some(u) => if run_conflict(u.runs@) {
                r matches Err(RepositoryError::InvalidRunStatus { status: s }) && s@
                    == "active and cleared run conflict"@
            } else if !active_counts_valid(u.active_progress@) {
                r == Err::<Vec<RoomSummaryRecord>, RepositoryError>(RepositoryError::InvalidProgressCount)
            } else if first_cleared_run_error(u.cleared_runs@, 0) is Some {
                r == Err::<Vec<RoomSummaryRecord>, RepositoryError>(
                    first_cleared_run_error(u.cleared_runs@, 0)->0,
                )
            } else if room_counts_valid(rooms@) {
                r matches Ok(v) && v@.len() == rooms@.len() && forall|i: int|
                    0 <= i < v@.len() ==> user_summary_of(rooms@[i], u, records_of(u), #[trigger] v@[i])
            } else {
                r == Err::<Vec<RoomSummaryRecord>, RepositoryError>(RepositoryError::InvalidProgressCount)
            },
        },
{
    if rooms.len() == 0 {
        return Ok(Vec::new());
    }
    let ghost rows = rooms@;
    let mut out: Vec<RoomSummaryRecord> = Vec::new();
    match user {
        None => {
            for row in it: rooms
                invariant
                    it.seq() == rows,
                    out@.len() == it.index(),
                    forall|k: int| 0 <= k < it.index() ==> 0 <= #[trigger] rows[k].problem_count <= u32::MAX
                        && 0 <= rows[k].required_count <= u32::MAX,
                    forall|k: int|
                        0 <= k < out@.len() ==> summary_of(rows[k], "not_started"@, 0, None, #[trigger] out@[k]),
            {
                let s = anonymous_summary(row)?;
                out.push(s);
            }
            Ok(out)
        },
        Some(u) => {
            check_run_conflicts(&u.runs)?;
            check_active_counts(&u.active_progress)?;
            let rs = ranked_runs(&u.cleared_runs)?;
            for row in it: rooms
                invariant
                    it.seq() == rows,
                    out@.len() == it.index(),
                    active_counts_valid(u.active_progress@),
                    rs@ == records_of(u),
                    forall|k: int| 0 <= k < it.index() ==> 0 <= #[trigger] rows[k].problem_count <= u32::MAX
                        && 0 <= rows[k].required_count <= u32::MAX,
                    forall|k: int|
                        0 <= k < out@.len() ==> user_summary_of(rows[k], u, rs@, #[trigger] out@[k]),
            {
                let s = user_summary(row, &u, &rs)?;
                out.push(s);
            }
            Ok(out)
        },
    }
}

} // verus!
