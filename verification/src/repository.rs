//! What the store of users, runs and progress records and decides, apart from
//! the SQL that reads and writes it.
use vstd::prelude::*;

use crate::game_progress::{
    ClearProblemError, ClearProblemPlan, Instant, ProblemState, ProblemStatus, RunStatus,
    div_toward_zero, duration_to_elapsed_ms, elapsed_between, elapsed_nanos,
};
use crate::problem::answer::AnswerJudgeError;
use crate::problem::model::{Hint, Operation};
use crate::text::str_eq;

verus! {

/// Who vouches for a user: the demo sign-in or NeoShowcase.
#[derive(Clone, Copy, Debug, PartialEq, Eq, Structural)]
pub enum AuthProvider {
    Demo,
    NeoShowcase,
}

/// The name of a provider as the database stores it.
pub open spec fn provider_name(p: AuthProvider) -> Seq<char> {
    match p {
        AuthProvider::Demo => "demo"@,
        AuthProvider::NeoShowcase => "neoshowcase"@,
    }
}

/// The provider a stored name denotes.
pub open spec fn provider_of(name: Seq<char>) -> Option<AuthProvider> {
    if name == "demo"@ {
        Some(AuthProvider::Demo)
    } else if name == "neoshowcase"@ {
        Some(AuthProvider::NeoShowcase)
    } else {
        None
    }
}

/// The provider a stored name denotes, or the error for an unknown one.
pub open spec fn provider_result(name: Seq<char>) -> Result<AuthProvider, RepositoryError> {
    match provider_of(name) {
        Some(p) => Ok(p),
        None => Err(RepositoryError::InvalidAuthProvider),
    }
}

impl AuthProvider {
    /// The name of the provider as the database stores it.
    pub fn as_db_str(self) -> (r: &'static str)
        ensures
            r@ == provider_name(self),
    {
        match self {
            AuthProvider::Demo => "demo",
            AuthProvider::NeoShowcase => "neoshowcase",
        }
    }

    /// The provider a stored name denotes.
    pub fn from_db_str(value: &str) -> (r: Result<AuthProvider, RepositoryError>)
        ensures
            r == provider_result(value@),
    {
        if str_eq(value, "demo") {
            Ok(AuthProvider::Demo)
        } else if str_eq(value, "neoshowcase") {
            Ok(AuthProvider::NeoShowcase)
        } else {
            Err(RepositoryError::InvalidAuthProvider)
        }
    }
}

impl<'a> std::convert::TryFrom<&'a str> for AuthProvider {
    type Error = RepositoryError;

    fn try_from(value: &'a str) -> (r: Result<AuthProvider, RepositoryError>) {
        AuthProvider::from_db_str(value)
    }
}

impl<'a> vstd::std_specs::convert::TryFromSpecImpl<&'a str> for AuthProvider {
    open spec fn obeys_try_from_spec() -> bool {
        true
    }

    open spec fn try_from_spec(value: &'a str) -> Result<AuthProvider, RepositoryError> {
        provider_result(value@)
    }
}

/// Why a store operation failed.
#[derive(Debug, PartialEq, Eq)]
pub enum RepositoryError {
    /// The database failed; its message.
    Database(String),
    UserNotFoundAfterUpsert,
    RunNotFound,
    ProblemNotFound,
    ProblemLocked,
    ProblemAlreadyCleared,
    InvalidQueryCount,
    InvalidLeaderboardRank,
    EmptyAnswer,
    AnswerLengthExceeded,
    WrongAnswerSubmissionType,
    InvalidStoredAnswerConfig,
    InvalidAnswerAttemptCount,
    InvalidProgressCount,
    InvalidElapsed,
    InvalidProblemStatus { status: String },
    InvalidRunStatus { status: String },
    ProblemProgressUpdateConflict,
    RunUpdateConflict,
    InvalidAuthProvider,
    RoomNotFound,
    PublishedRoomImmutable,
    ProblemNumberConflict,
    InvalidProblemDependency,
}

/// The store error for a refused clear.
pub fn clear_error(error: ClearProblemError) -> (r: RepositoryError)
    ensures
        r == match error {
            ClearProblemError::ProblemNotFound => RepositoryError::ProblemNotFound,
            ClearProblemError::ProblemLocked => RepositoryError::ProblemLocked,
            ClearProblemError::InvalidElapsed => RepositoryError::InvalidElapsed,
        },
{
    match error {
        ClearProblemError::ProblemNotFound => RepositoryError::ProblemNotFound,
        ClearProblemError::ProblemLocked => RepositoryError::ProblemLocked,
        ClearProblemError::InvalidElapsed => RepositoryError::InvalidElapsed,
    }
}

/// The store error for a refused answer.
pub fn answer_error(error: AnswerJudgeError) -> (r: RepositoryError)
    ensures
        r == match error {
            AnswerJudgeError::EmptyAnswer => RepositoryError::EmptyAnswer,
            AnswerJudgeError::AnswerLengthExceeded => RepositoryError::AnswerLengthExceeded,
            AnswerJudgeError::WrongSubmissionType => RepositoryError::WrongAnswerSubmissionType,
            AnswerJudgeError::InvalidStoredConfig => RepositoryError::InvalidStoredAnswerConfig,
        },
{
    match error {
        AnswerJudgeError::EmptyAnswer => RepositoryError::EmptyAnswer,
        AnswerJudgeError::AnswerLengthExceeded => RepositoryError::AnswerLengthExceeded,
        AnswerJudgeError::WrongSubmissionType => RepositoryError::WrongAnswerSubmissionType,
        AnswerJudgeError::InvalidStoredConfig => RepositoryError::InvalidStoredAnswerConfig,
    }
}

/// The status a stored name denotes.
pub open spec fn problem_status_of(name: Seq<char>) -> Option<ProblemStatus> {
    if name == "locked"@ {
        Some(ProblemStatus::Locked)
    } else if name == "available"@ {
        Some(ProblemStatus::Available)
    } else if name == "cleared"@ {
        Some(ProblemStatus::Cleared)
    } else {
        None
    }
}

/// The name a status is stored under.
pub open spec fn problem_status_name(status: ProblemStatus) -> Seq<char> {
    match status {
        ProblemStatus::Locked => "locked"@,
        ProblemStatus::Available => "available"@,
        ProblemStatus::Cleared => "cleared"@,
    }
}

/// The name a status is stored under reads back as that same status, so a
/// locked problem is stored as locked and no two statuses share a name.
pub proof fn lemma_status_name_round_trip(s: ProblemStatus, other: ProblemStatus)
    ensures
        problem_status_of(problem_status_name(s)) == Some(s),
        problem_status_name(s) == problem_status_name(other) ==> s == other,
{
    reveal_strlit("locked");
    reveal_strlit("available");
    reveal_strlit("cleared");
    assert("locked"@.len() != "available"@.len());
    assert("locked"@.len() != "cleared"@.len());
    assert("available"@.len() != "cleared"@.len());
}

/// Reads a stored problem status.
pub fn parse_problem_status(status: &str) -> (r: Result<ProblemStatus, RepositoryError>)
    ensures
        match problem_status_of(status@) {
            Some(s) => r == Ok::<ProblemStatus, RepositoryError>(s),
            None => r matches Err(RepositoryError::InvalidProblemStatus { status: s }) && s@
                == status@,
        },
{
    if str_eq(status, "locked") {
        Ok(ProblemStatus::Locked)
    } else if str_eq(status, "available") {
        Ok(ProblemStatus::Available)
    } else if str_eq(status, "cleared") {
        Ok(ProblemStatus::Cleared)
    } else {
        Err(RepositoryError::InvalidProblemStatus { status: String::from_str(status) })
    }
}

/// The name a status is stored under.
pub fn status_name(status: ProblemStatus) -> (r: &'static str)
    ensures
        r@ == problem_status_name(status),
{
    match status {
        ProblemStatus::Locked => "locked",
        ProblemStatus::Available => "available",
        ProblemStatus::Cleared => "cleared",
    }
}

/// A problem of a run as the store reads it, before its status is checked.
#[derive(Clone, Debug, PartialEq, Eq)]
pub struct GameProgressProblemRow {
    pub problem_id: u128,
    pub room_id: u128,
    pub depends_on_problem_id: Option<u128>,
    pub is_required: bool,
    pub status: String,
}

/// The problem states of stored rows, in order; the first row whose status
/// is not a known one stops the reading.
pub fn problem_states(rows: &Vec<GameProgressProblemRow>) -> (r: Result<
    Vec<ProblemState>,
    RepositoryError,
>)
    ensures
        match r {
            Ok(states) => states@.len() == rows@.len() && forall|i: int|
                0 <= i < rows@.len() ==> {
                    let row = #[trigger] rows@[i];
                    let s = states@[i];
                    &&& problem_status_of(row.status@) == Some(s.status)
                    &&& s.problem_id == row.problem_id
                    &&& s.room_id == row.room_id
                    &&& s.depends_on_problem_id == row.depends_on_problem_id
                    &&& s.is_required == row.is_required
                },
            Err(e) => exists|i: int|
                0 <= i < rows@.len() && problem_status_of(rows@[i].status@) is None && (forall|j: int|
                    0 <= j < i ==> problem_status_of(rows@[j].status@) is Some) && (e
                    matches RepositoryError::InvalidProblemStatus { status: s } && s@
                    == rows@[i].status@),
        },
{
    let mut states: Vec<ProblemState> = Vec::new();
    let n = rows.len();
    for i in 0..n
        invariant
            n == rows@.len(),
            states@.len() == i,
            forall|k: int|
                0 <= k < i ==> {
                    let row = #[trigger] rows@[k];
                    let s = states@[k];
                    &&& problem_status_of(row.status@) == Some(s.status)
                    &&& s.problem_id == row.problem_id
                    &&& s.room_id == row.room_id
                    &&& s.depends_on_problem_id == row.depends_on_problem_id
                    &&& s.is_required == row.is_required
                },
    {
        let row = &rows[i];
        let status = match parse_problem_status(row.status.as_str()) {
            Ok(s) => s,
            Err(e) => {
                assert(forall|j: int| 0 <= j < i ==> problem_status_of(rows@[j].status@) is Some);
                return Err(e);
            },
        };
        states.push(
            ProblemState {
                problem_id: row.problem_id,
                room_id: row.room_id,
                depends_on_problem_id: row.depends_on_problem_id,
                is_required: row.is_required,
                status,
            },
        );
    }
    Ok(states)
}

/// Checks that a problem may be judged: it must be available.
pub fn require_available(status: &str) -> (r: Result<(), RepositoryError>)
    ensures
        match problem_status_of(status@) {
            Some(ProblemStatus::Available) => r is Ok,
            Some(ProblemStatus::Locked) => r == Err::<(), RepositoryError>(
                RepositoryError::ProblemLocked,
            ),
            Some(ProblemStatus::Cleared) => r == Err::<(), RepositoryError>(
                RepositoryError::ProblemAlreadyCleared,
            ),
            None => r matches Err(RepositoryError::InvalidProblemStatus { status: s }) && s@
                == status@,
        },
{
    match parse_problem_status(status)? {
        ProblemStatus::Available => Ok(()),
        ProblemStatus::Locked => Err(RepositoryError::ProblemLocked),
        ProblemStatus::Cleared => Err(RepositoryError::ProblemAlreadyCleared),
    }
}

/// The attempt count after one more attempt; a stored count that is negative,
/// or at the top of `i32`, is invalid.
pub fn next_attempt_count(count: i32) -> (r: Result<i32, RepositoryError>)
    ensures
        0 <= count < i32::MAX ==> r == Ok::<i32, RepositoryError>((count + 1) as i32),
        !(0 <= count < i32::MAX) ==> r == Err::<i32, RepositoryError>(
            RepositoryError::InvalidAnswerAttemptCount,
        ),
{
    if count < 0 || count == i32::MAX {
        return Err(RepositoryError::InvalidAnswerAttemptCount);
    }
    Ok(count + 1)
}

/// What recording a judged answer does to the store.
#[derive(Clone, Copy, Debug, PartialEq, Eq, Structural)]
pub enum AnswerStoreAction {
    /// Clear the problem by its clear plan.
    ApplyClear,
    /// Count one more attempt: set the attempt count from `expected` to
    /// `next`, where it still holds `expected`.
    CountAttempt { expected: i32, next: i32 },
}

/// The store action for a judged answer: a correct answer clears the
/// problem, and a wrong one counts one more attempt, which must fit.
pub fn answer_store_action(correct: bool, attempt_count: i32) -> (r: Result<
    AnswerStoreAction,
    RepositoryError,
>)
    ensures
        correct ==> r == Ok::<AnswerStoreAction, RepositoryError>(AnswerStoreAction::ApplyClear),
        !correct && 0 <= attempt_count < i32::MAX ==> r == Ok::<AnswerStoreAction, RepositoryError>(
            AnswerStoreAction::CountAttempt { expected: attempt_count, next: (attempt_count + 1) as i32 },
        ),
        !correct && !(0 <= attempt_count < i32::MAX) ==> r == Err::<AnswerStoreAction, RepositoryError>(
            RepositoryError::InvalidAnswerAttemptCount,
        ),
{
    if correct {
        return Ok(AnswerStoreAction::ApplyClear);
    }
    let next = next_attempt_count(attempt_count)?;
    Ok(AnswerStoreAction::CountAttempt { expected: attempt_count, next })
}

/// The result of a wrong answer once its attempt was counted: exactly one
/// row must have been updated, and the new count is returned.
pub fn incorrect_answer_result(next: i32, rows_affected: u64) -> (r: Result<
    AnswerSubmissionResult,
    RepositoryError,
>)
    ensures
        rows_affected == 1 ==> r == Ok::<AnswerSubmissionResult, RepositoryError>(
            AnswerSubmissionResult::Incorrect { answer_attempt_count: next },
        ),
        rows_affected != 1 ==> r == Err::<AnswerSubmissionResult, RepositoryError>(
            RepositoryError::ProblemProgressUpdateConflict,
        ),
{
    expect_one_row(rows_affected, RepositoryError::ProblemProgressUpdateConflict)?;
    Ok(AnswerSubmissionResult::Incorrect { answer_attempt_count: next })
}

/// Fails with `conflict` unless exactly one row was updated.
pub fn expect_one_row(rows_affected: u64, conflict: RepositoryError) -> (r: Result<(), RepositoryError>)
    ensures
        rows_affected == 1 ==> r is Ok,
        rows_affected != 1 ==> r == Err::<(), RepositoryError>(conflict),
{
    if rows_affected != 1 {
        return Err(conflict);
    }
    Ok(())
}

/// A signed-in user as the store holds it.
#[derive(Clone, Debug, PartialEq, Eq)]
pub struct AuthUserRecord {
    pub user_id: u128,
    pub display_name: String,
    pub auth_provider: AuthProvider,
}

/// A user read from the store, whose provider is stored as its name; an
/// unknown provider name is refused.
pub fn auth_user_record(user_id: u128, display_name: String, auth_provider: &str) -> (r: Result<
    AuthUserRecord,
    RepositoryError,
>)
    ensures
        match provider_result(auth_provider@) {
            Ok(p) => r == Ok::<AuthUserRecord, RepositoryError>(
                AuthUserRecord { user_id, display_name, auth_provider: p },
            ),
            Err(e) => r == Err::<AuthUserRecord, RepositoryError>(e),
        },
{
    let provider = AuthProvider::from_db_str(auth_provider)?;
    Ok(AuthUserRecord { user_id, display_name, auth_provider: provider })
}

/// A room.
#[derive(Clone, Debug, PartialEq, Eq)]
pub struct RoomRecord {
    pub id: u128,
    pub number: i32,
    pub name: String,
    pub genre: String,
    pub description: String,
    pub is_published: bool,
    pub created_at: Instant,
}

/// A run of a user in a room.
#[derive(Clone, Debug, PartialEq, Eq)]
pub struct RunRecord {
    pub id: u128,
    pub user_id: u128,
    pub room_id: u128,
    pub status: String,
    pub started_at: Instant,
    pub cleared_at: Option<Instant>,
}

/// A problem as the store holds it, its structured parts as JSON.
#[derive(Debug)]
pub struct ProblemRecord {
    pub id: u128,
    pub room_id: u128,
    pub number: i32,
    pub problem_type: String,
    pub title: String,
    pub body_markdown: String,
    pub submission_type: String,
    pub assets: serde_json::Value,
    pub input_schema: serde_json::Value,
    pub hints: serde_json::Value,
    pub judge_config: serde_json::Value,
    pub depends_on_problem_id: Option<u128>,
    pub is_required: bool,
}

/// A problem's progress in a run.
#[derive(Clone, Debug, PartialEq, Eq)]
pub struct ProblemProgressRecord {
    pub run_id: u128,
    pub problem_id: u128,
    pub status: String,
    pub answer_attempt_count: i32,
    pub max_hint_level: i32,
    pub cleared_at: Option<Instant>,
}

/// A judged query to record.
#[derive(Clone, Debug, PartialEq, Eq)]
pub struct QuerySubmission {
    pub query_id: u128,
    pub run_id: u128,
    pub problem_id: u128,
    pub source: String,
    pub operations: Vec<Operation>,
    pub normalized_operations: Vec<Operation>,
    pub remaining_pattern_count: i32,
    pub is_correct: bool,
}

/// An answer to judge and record.
#[derive(Clone, Debug, PartialEq, Eq)]
pub struct AnswerSubmission {
    pub run_id: u128,
    pub problem_id: u128,
    pub answer: String,
}

/// The result of recording a query.
#[derive(Clone, Debug, PartialEq, Eq)]
pub struct QuerySubmissionResult {
    pub query_count: u64,
    pub problem_status: String,
}

/// The result of a recorded query: the query count is the new attempt count,
/// and the problem's status is what clearing it left (when the query was
/// correct) or `available`.
pub fn query_submission_result(next_count: i32, cleared_status: Option<ProblemStatus>) -> (r: Result<
    QuerySubmissionResult,
    RepositoryError,
>)
    ensures
        next_count < 0 ==> r == Err::<QuerySubmissionResult, RepositoryError>(
            RepositoryError::InvalidQueryCount,
        ),
        next_count >= 0 ==> (r matches Ok(q) && q.query_count == next_count && q.problem_status@
            == match cleared_status {
            Some(s) => problem_status_name(s),
            None => "available"@,
        }),
{
    let problem_status = match cleared_status {
        Some(s) => String::from_str(status_name(s)),
        None => String::from_str("available"),
    };
    if next_count < 0 {
        return Err(RepositoryError::InvalidQueryCount);
    }
    Ok(QuerySubmissionResult { query_count: next_count as u64, problem_status })
}

/// Whether a run that answered is still active or cleared.
#[derive(Clone, Copy, Debug, PartialEq, Eq, Structural)]
pub enum AnswerRunStatus {
    Active,
    Cleared,
}

/// The result of recording an answer.
#[derive(Clone, Debug, PartialEq, Eq)]
pub enum AnswerSubmissionResult {
    Incorrect { answer_attempt_count: i32 },
    Correct {
        unlocked_problem_ids: Vec<u128>,
        run_status: AnswerRunStatus,
        cleared_count: u32,
        required_count: u32,
        elapsed_ms: u64,
    },
}

/// The result of a correct answer once its clear plan has been applied: the
/// counts must fit in `u32` and the elapsed time must be a valid number of
/// milliseconds.
pub fn correct_answer_result(plan: ClearProblemPlan) -> (r: Result<
    AnswerSubmissionResult,
    RepositoryError,
>)
    ensures
        ({
            let ms = div_toward_zero(plan.elapsed as int, 1_000_000);
            if plan.progress.cleared_count > u32::MAX || plan.progress.required_count > u32::MAX {
                r == Err::<AnswerSubmissionResult, RepositoryError>(
                    RepositoryError::InvalidProgressCount,
                )
            } else if !(0 <= ms <= u64::MAX) {
                r == Err::<AnswerSubmissionResult, RepositoryError>(RepositoryError::InvalidElapsed)
            } else {
                r matches Ok(
                    AnswerSubmissionResult::Correct {
                        unlocked_problem_ids: u,
                        run_status: s,
                        cleared_count: c,
                        required_count: q,
                        elapsed_ms: e,
                    },
                ) && u@ == plan.unlocked_problem_ids@ && c == plan.progress.cleared_count && q
                    == plan.progress.required_count && e == ms && s == match plan.run_status {
                    RunStatus::Active => AnswerRunStatus::Active,
                    RunStatus::Cleared => AnswerRunStatus::Cleared,
                }
            }
        }),
{
    if plan.progress.cleared_count > 4294967295usize || plan.progress.required_count
        > 4294967295usize {
        return Err(RepositoryError::InvalidProgressCount);
    }
    let cleared_count = plan.progress.cleared_count as u32;
    let required_count = plan.progress.required_count as u32;
    let elapsed_ms = match duration_to_elapsed_ms(plan.elapsed) {
        Ok(ms) => ms,
        Err(e) => {
            return Err(clear_error(e));
        },
    };
    let run_status = match plan.run_status {
        RunStatus::Active => AnswerRunStatus::Active,
        RunStatus::Cleared => AnswerRunStatus::Cleared,
    };
    Ok(
        AnswerSubmissionResult::Correct {
            unlocked_problem_ids: plan.unlocked_problem_ids,
            run_status,
            cleared_count,
            required_count,
            elapsed_ms,
        },
    )
}

/// A user's progress over all rooms.
#[derive(Clone, Debug, PartialEq, Eq)]
pub struct UserProgressRecord {
    pub cleared_room_count: u32,
    pub total_room_count: u32,
    pub by_genre: Vec<GenreProgressRecord>,
}

/// A user's progress in one genre.
#[derive(Clone, Debug, PartialEq, Eq)]
pub struct GenreProgressRecord {
    pub genre: String,
    pub cleared_room_count: u32,
    pub total_room_count: u32,
}

/// A genre's progress as the store counts it.
#[derive(Clone, Debug, PartialEq, Eq)]
pub struct GenreProgressRow {
    pub genre: String,
    pub cleared_room_count: i64,
    pub total_room_count: i64,
}

/// A count that must fit in `u32`.
fn progress_count(count: i64) -> (r: Result<u32, RepositoryError>)
    ensures
        0 <= count <= u32::MAX ==> r == Ok::<u32, RepositoryError>(count as u32),
        !(0 <= count <= u32::MAX) ==> r == Err::<u32, RepositoryError>(
            RepositoryError::InvalidProgressCount,
        ),
{
    if count < 0 || count > 4294967295i64 {
        return Err(RepositoryError::InvalidProgressCount);
    }
    Ok(count as u32)
}

/// A genre's progress, with its counts checked to fit in `u32`.
pub fn genre_progress(row: GenreProgressRow) -> (r: Result<GenreProgressRecord, RepositoryError>)
    ensures
        (0 <= row.cleared_room_count <= u32::MAX && 0 <= row.total_room_count <= u32::MAX) ==> (r
            matches Ok(g) && g.genre == row.genre && g.cleared_room_count == row.cleared_room_count
            && g.total_room_count == row.total_room_count),
        !(0 <= row.cleared_room_count <= u32::MAX && 0 <= row.total_room_count <= u32::MAX) ==> r
            == Err::<GenreProgressRecord, RepositoryError>(RepositoryError::InvalidProgressCount),
{
    let cleared_room_count = progress_count(row.cleared_room_count)?;
    let total_room_count = progress_count(row.total_room_count)?;
    Ok(GenreProgressRecord { genre: row.genre, cleared_room_count, total_room_count })
}

/// Whether a genre's counts fit in `u32`.
pub open spec fn progress_row_fits(row: GenreProgressRow) -> bool {
    0 <= row.cleared_room_count <= u32::MAX && 0 <= row.total_room_count <= u32::MAX
}

/// The rooms cleared over the genres.
pub open spec fn cleared_sum(rows: Seq<GenreProgressRow>) -> int
    decreases rows.len(),
{
    if rows.len() == 0 {
        0
    } else {
        cleared_sum(rows.drop_last()) + rows.last().cleared_room_count
    }
}

/// The rooms over the genres.
pub open spec fn total_sum(rows: Seq<GenreProgressRow>) -> int
    decreases rows.len(),
{
    if rows.len() == 0 {
        0
    } else {
        total_sum(rows.drop_last()) + rows.last().total_room_count
    }
}

/// The rooms cleared over checked genres.
pub open spec fn record_cleared_sum(records: Seq<GenreProgressRecord>) -> int
    decreases records.len(),
{
    if records.len() == 0 {
        0
    } else {
        record_cleared_sum(records.drop_last()) + records.last().cleared_room_count
    }
}

/// The rooms over checked genres.
pub open spec fn record_total_sum(records: Seq<GenreProgressRecord>) -> int
    decreases records.len(),
{
    if records.len() == 0 {
        0
    } else {
        record_total_sum(records.drop_last()) + records.last().total_room_count
    }
}

/// A user's progress over all rooms from the per-genre counts: each genre's
/// counts must fit in `u32`, and so must the sums over the genres.
pub fn user_progress(rows: &Vec<GenreProgressRow>) -> (r: Result<UserProgressRecord, RepositoryError>)
    ensures
        ({
            let fits = (forall|i: int| 0 <= i < rows@.len() ==> progress_row_fits(#[trigger] rows@[i]))
                && cleared_sum(rows@) <= u32::MAX && total_sum(rows@) <= u32::MAX;
            &&& fits ==> (r matches Ok(p) && p.cleared_room_count == cleared_sum(rows@)
                && p.total_room_count == total_sum(rows@) && p.by_genre@.len() == rows@.len() && forall|
                i: int,
            |
                0 <= i < rows@.len() ==> {
                    &&& (#[trigger] p.by_genre@[i]).genre == rows@[i].genre
                    &&& p.by_genre@[i].cleared_room_count == rows@[i].cleared_room_count
                    &&& p.by_genre@[i].total_room_count == rows@[i].total_room_count
                })
            &&& !fits ==> r == Err::<UserProgressRecord, RepositoryError>(
                RepositoryError::InvalidProgressCount,
            )
        }),
{
    let n = rows.len();
    let mut by_genre: Vec<GenreProgressRecord> = Vec::new();
    for i in 0..n
        invariant
            n == rows@.len(),
            by_genre@.len() == i,
            forall|j: int| 0 <= j < i ==> progress_row_fits(#[trigger] rows@[j]),
            forall|j: int|
                0 <= j < i ==> {
                    &&& (#[trigger] by_genre@[j]).genre == rows@[j].genre
                    &&& by_genre@[j].cleared_room_count == rows@[j].cleared_room_count
                    &&& by_genre@[j].total_room_count == rows@[j].total_room_count
                },
    {
        let row = GenreProgressRow {
            genre: rows[i].genre.clone(),
            cleared_room_count: rows[i].cleared_room_count,
            total_room_count: rows[i].total_room_count,
        };
        match genre_progress(row) {
            Ok(g) => by_genre.push(g),
            Err(e) => return Err(e),
        }
    }
    proof {
        lemma_sums_match(rows@, by_genre@);
    }
    let mut cleared_room_count: u32 = 0;
    for i in 0..n
        invariant
            n == by_genre@.len(),
            cleared_room_count == record_cleared_sum(by_genre@.take(i as int)),
            record_cleared_sum(by_genre@) == cleared_sum(rows@),
    {
        proof {
            assert(by_genre@.take(i + 1).drop_last() =~= by_genre@.take(i as int));
            assert(by_genre@.take(i + 1).last() == by_genre@[i as int]);
            lemma_record_sums_grow(by_genre@, i + 1);
        }
        match cleared_room_count.checked_add(by_genre[i].cleared_room_count) {
            Some(c) => cleared_room_count = c,
            None => return Err(RepositoryError::InvalidProgressCount),
        }
    }
    assert(by_genre@.take(n as int) =~= by_genre@);
    let mut total_room_count: u32 = 0;
    for i in 0..n
        invariant
            n == by_genre@.len(),
            total_room_count == record_total_sum(by_genre@.take(i as int)),
            cleared_room_count == record_cleared_sum(by_genre@),
            record_cleared_sum(by_genre@) == cleared_sum(rows@),
            record_total_sum(by_genre@) == total_sum(rows@),
    {
        proof {
            assert(by_genre@.take(i + 1).drop_last() =~= by_genre@.take(i as int));
            assert(by_genre@.take(i + 1).last() == by_genre@[i as int]);
            lemma_record_sums_grow(by_genre@, i + 1);
        }
        match total_room_count.checked_add(by_genre[i].total_room_count) {
            Some(c) => total_room_count = c,
            None => return Err(RepositoryError::InvalidProgressCount),
        }
    }
    assert(by_genre@.take(n as int) =~= by_genre@);
    Ok(UserProgressRecord { cleared_room_count, total_room_count, by_genre })
}

/// Checked genres have the sums of the rows they were checked from.
proof fn lemma_sums_match(rows: Seq<GenreProgressRow>, records: Seq<GenreProgressRecord>)
    requires
        rows.len() == records.len(),
        forall|j: int|
            0 <= j < rows.len() ==> {
                &&& (#[trigger] records[j]).cleared_room_count == rows[j].cleared_room_count
                &&& records[j].total_room_count == rows[j].total_room_count
            },
    ensures
        record_cleared_sum(records) == cleared_sum(rows),
        record_total_sum(records) == total_sum(rows),
    decreases rows.len(),
{
    if rows.len() > 0 {
        lemma_sums_match(rows.drop_last(), records.drop_last());
    }
}

/// The sums over a prefix of the genres are no more than those over all,
/// and they grow by each genre's counts.
proof fn lemma_record_sums_grow(records: Seq<GenreProgressRecord>, k: int)
    requires
        0 <= k <= records.len(),
    ensures
        record_cleared_sum(records.take(k)) <= record_cleared_sum(records),
        record_total_sum(records.take(k)) <= record_total_sum(records),
    decreases records.len(),
{
    if k < records.len() {
        assert(records.drop_last().take(k) =~= records.take(k));
        lemma_record_sums_grow(records.drop_last(), k);
    } else {
        assert(records.take(k) =~= records);
    }
}

/// A hint of a problem.
#[derive(Clone, Debug, PartialEq, Eq)]
pub struct HintRecord {
    pub level: i32,
    pub body_markdown: String,
}

/// The status a problem starts a run in: available when it depends on no
/// other problem, locked behind its dependency otherwise.
pub fn initial_problem_status(depends_on_problem_id: Option<u128>) -> (r: ProblemStatus)
    ensures
        depends_on_problem_id is None ==> r == ProblemStatus::Available,
        depends_on_problem_id is Some ==> r == ProblemStatus::Locked,
{
    match depends_on_problem_id {
        None => ProblemStatus::Available,
        Some(_) => ProblemStatus::Locked,
    }
}

/// The hint a player asked for, at `level` (counted from 1), of a problem
/// whose progress status is `status` and whose hints are `hints`: a locked
/// problem is refused; a level below 1 or past the last hint has none.
pub fn select_hint(status: &str, hints: &Vec<Hint>, level: i32) -> (r: Result<
    Option<HintRecord>,
    RepositoryError,
>)
    ensures
        status@ == "locked"@ ==> r == Err::<Option<HintRecord>, RepositoryError>(
            RepositoryError::ProblemLocked,
        ),
        status@ != "locked"@ ==> match r {
            Ok(Some(h)) => 1 <= level <= hints@.len() && h.level == level && h.body_markdown
                == hints@[level - 1].body_markdown,
            Ok(None) => level < 1 || level > hints@.len(),
            Err(_) => false,
        },
{
    if str_eq(status, "locked") {
        return Err(RepositoryError::ProblemLocked);
    }
    if level < 1 {
        return Ok(None);
    }
    let index = (level - 1) as usize;
    if index >= hints.len() {
        return Ok(None);
    }
    Ok(Some(HintRecord { level, body_markdown: hints[index].body_markdown.clone() }))
}

/// A user's best cleared run of a room and its rank.
#[derive(Clone, Copy, Debug, PartialEq, Eq, Structural)]
pub struct RoomBestRecordRecord {
    pub elapsed_ms: u64,
    pub rank: u32,
    pub query_count: u64,
}

/// A cleared run on a room's leaderboard as the store reads it.
#[derive(Clone, Debug, PartialEq, Eq)]
pub struct LeaderboardRow {
    pub rank: i64,
    pub user_id: u128,
    pub display_name: String,
    pub started_at: Instant,
    pub query_count: i64,
    pub cleared_at: Instant,
}

/// A cleared run on a room's leaderboard.
#[derive(Clone, Debug, PartialEq, Eq)]
pub struct LeaderboardRecord {
    pub rank: u32,
    pub user_id: u128,
    pub display_name: String,
    pub elapsed_ms: u64,
    pub query_count: u64,
    pub cleared_at: Instant,
}

/// A leaderboard entry, with its rank, elapsed time and query count checked:
/// the rank must fit in `u32`, the elapsed milliseconds must not be negative
/// and the query count must not be negative.
pub fn leaderboard_record(row: LeaderboardRow) -> (r: Result<LeaderboardRecord, RepositoryError>)
    ensures
        ({
            let ms = div_toward_zero(elapsed_between(row.started_at, row.cleared_at), 1_000_000);
            if !(0 <= row.rank <= u32::MAX) {
                r == Err::<LeaderboardRecord, RepositoryError>(RepositoryError::InvalidLeaderboardRank)
            } else if !(0 <= ms <= u64::MAX) {
                r == Err::<LeaderboardRecord, RepositoryError>(RepositoryError::InvalidElapsed)
            } else if row.query_count < 0 {
                r == Err::<LeaderboardRecord, RepositoryError>(RepositoryError::InvalidQueryCount)
            } else {
                r matches Ok(l) && l.rank == row.rank && l.user_id == row.user_id && l.display_name
                    == row.display_name && l.elapsed_ms == ms && l.query_count == row.query_count
                    && l.cleared_at == row.cleared_at
            }
        }),
{
    if row.rank < 0 || row.rank > 4294967295i64 {
        return Err(RepositoryError::InvalidLeaderboardRank);
    }
    let rank = row.rank as u32;
    let elapsed = elapsed_nanos(row.started_at, row.cleared_at);
    let elapsed_ms = match duration_to_elapsed_ms(elapsed) {
        Ok(ms) => ms,
        Err(e) => {
            return Err(clear_error(e));
        },
    };
    if row.query_count < 0 {
        return Err(RepositoryError::InvalidQueryCount);
    }
    Ok(
        LeaderboardRecord {
            rank,
            user_id: row.user_id,
            display_name: row.display_name,
            elapsed_ms,
            query_count: row.query_count as u64,
            cleared_at: row.cleared_at,
        },
    )
}

} // verus!
