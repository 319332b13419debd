//! What the HTTP handlers decide between their reads and writes: checking
//! path parameters and sign-in data, choosing what a run request does, and
//! building reply bodies from what the store returned.
use vstd::prelude::*;

use crate::config::AuthMode;
use crate::error::AppError;
use crate::form::{i32_from_str, i32_from_str_of};
use crate::game_progress::{Instant, div_toward_zero, elapsed_between, elapsed_nanos};
use crate::ids::{parse_uuid_text, uuid_parse_of};
use crate::openapi;
use crate::problem::model::Operation;
use crate::problem::query::QueryJudgement;
use crate::repository::{
    AnswerRunStatus,
    AuthUserRecord,
    AnswerSubmissionResult,
    LeaderboardRecord,
    QuerySubmissionResult,
};
use crate::room_summaries::RoomSummaryRecord;
use crate::text::{all_white_space, concat_str, from_chars, str_eq, to_chars, trim_chars, trim_seq};

verus! {

/// The name of the demo session cookie.
pub const SESSION_COOKIE_NAME: &'static str = "demo_session";
/// The header NeoShowcase names the signed-in user in.
pub const X_FORWARDED_USER_HEADER: &'static str = "x-forwarded-user";
/// The provider name of NeoShowcase users.
pub const NEOSHOWCASE_PROVIDER: &'static str = "neoshowcase";
/// Where NeoShowcase users sign in.
pub const LOGIN_URL: &'static str = "/_oauth/login?redirect=/";
/// Where NeoShowcase users sign out.
pub const LOGOUT_URL: &'static str = "/_oauth/logout?redirect=/";
/// The longest display name of a guest, in characters.
pub const DISPLAY_NAME_MAX_LENGTH: usize = 32;

/// The signed-in user of a request.
#[derive(Clone, Debug, PartialEq, Eq)]
pub struct CurrentUser {
    pub user_id: u128,
    pub display_name: String,
}

impl From<AuthUserRecord> for CurrentUser {
    /// The signed-in user a stored user is.
    fn from(user: AuthUserRecord) -> (r: CurrentUser) {
        CurrentUser { user_id: user.user_id, display_name: user.display_name }
    }
}

impl vstd::std_specs::convert::FromSpecImpl<AuthUserRecord> for CurrentUser {
    open spec fn obeys_from_spec() -> bool {
        true
    }

    open spec fn from_spec(user: AuthUserRecord) -> CurrentUser {
        CurrentUser { user_id: user.user_id, display_name: user.display_name }
    }
}

/// Checks that the guest sign-in routes exist: only in the demo mode; in
/// another mode they are not found.
pub fn require_demo_mode(auth_mode: AuthMode) -> (r: Result<(), AppError>)
    ensures
        auth_mode == AuthMode::Demo ==> r is Ok,
        auth_mode != AuthMode::Demo ==> (r matches Err(AppError::NotFound(m)) && m@
            == "route not found"@),
{
    match auth_mode {
        AuthMode::Demo => Ok(()),
        _ => Err(AppError::NotFound(String::from_str("route not found"))),
    }
}

/// The ID in a path parameter; "invalid `what`" when it is not a UUID.
pub fn parse_path_id(value: &str, what: &str) -> (r: Result<u128, AppError>)
    ensures
        match uuid_parse_of(value@) {
            Some(id) => r == Ok::<u128, AppError>(id),
            None => r matches Err(AppError::BadRequest(m)) && m@ == "invalid "@ + what@,
        },
{
    match parse_uuid_text(value) {
        Some(id) => Ok(id),
        None => Err(AppError::BadRequest(concat_str("invalid ", what))),
    }
}

/// The hint level in a path parameter: a positive `i32`.
pub fn parse_hint_level(value: &str) -> (r: Result<i32, AppError>)
    ensures
        match i32_from_str_of(value@) {
            Ok(level) => if level > 0 {
                r == Ok::<i32, AppError>(level)
            } else {
                r matches Err(AppError::BadRequest(m)) && m@ == "invalid hint level"@
            },
            Err(_) => r matches Err(AppError::BadRequest(m)) && m@ == "invalid hint level"@,
        },
{
    match i32_from_str(value) {
        Ok(level) => {
            if level <= 0 {
                return Err(AppError::BadRequest(String::from_str("invalid hint level")));
            }
            Ok(level)
        },
        Err(_) => Err(AppError::BadRequest(String::from_str("invalid hint level"))),
    }
}

/// The session a demo cookie names: its value read as a UUID; no cookie, or
/// a value that is not a UUID, names none.
pub fn demo_session_id(cookie: Option<&str>) -> (r: Option<u128>)
    ensures
        r == match cookie {
            Some(v) => uuid_parse_of(v@),
            None => None,
        },
{
    match cookie {
        Some(v) => parse_uuid_text(v),
        None => None,
    }
}

/// The NeoShowcase subject a forwarded-user header names: none without the
/// header, or when it is not text, or empty.
pub fn forwarded_subject(header: Option<&str>) -> (r: Option<String>)
    ensures
        match header {
            Some(v) => if v@.len() == 0 {
                r is None
            } else {
                r matches Some(s) && s@ == v@
            },
            None => r is None,
        },
{
    match header {
        Some(v) => {
            if crate::text::char_count(v) == 0 {
                None
            } else {
                Some(String::from_str(v))
            }
        },
        None => None,
    }
}

/// Why a guest's display name was refused.
#[derive(Clone, Copy, Debug, PartialEq, Eq, Structural)]
pub enum DisplayNameError {
    Required,
    TooLong,
}

/// A guest's display name, trimmed: it must not be empty and may hold at
/// most 32 characters.
pub fn normalize_display_name(display_name: &str) -> (r: Result<String, DisplayNameError>)
    ensures
        trim_seq(display_name@).len() == 0 ==> r == Err::<String, DisplayNameError>(
            DisplayNameError::Required,
        ),
        trim_seq(display_name@).len() > DISPLAY_NAME_MAX_LENGTH ==> r == Err::<
            String,
            DisplayNameError,
        >(DisplayNameError::TooLong),
        0 < trim_seq(display_name@).len() <= DISPLAY_NAME_MAX_LENGTH ==> (r matches Ok(s) && s@
            == trim_seq(display_name@)),
{
    let chars = to_chars(display_name);
    let trimmed = trim_chars(&chars);
    if trimmed.len() == 0 {
        return Err(DisplayNameError::Required);
    }
    if trimmed.len() > DISPLAY_NAME_MAX_LENGTH {
        return Err(DisplayNameError::TooLong);
    }
    Ok(from_chars(&trimmed))
}

/// A display name that was accepted is accepted again as it is: its
/// normalization is a fixed point.
pub proof fn lemma_display_name_stable(display_name: Seq<char>)
    requires
        0 < trim_seq(display_name).len() <= DISPLAY_NAME_MAX_LENGTH,
    ensures
        trim_seq(trim_seq(display_name)) == trim_seq(display_name),
        0 < trim_seq(trim_seq(display_name)).len() <= DISPLAY_NAME_MAX_LENGTH,
{
    crate::text::lemma_trim_idempotent(display_name);
}

/// The error a refused display name ends the request in.
pub fn display_name_error(e: DisplayNameError) -> (r: AppError)
    ensures
        match e {
            DisplayNameError::Required => r matches AppError::BadRequest(m) && m@
                == "display_name is required"@,
            DisplayNameError::TooLong => r matches AppError::BadRequest(m) && m@
                == "display_name must be at most 32 characters"@,
        },
{
    match e {
        DisplayNameError::Required => AppError::BadRequest(String::from_str("display_name is required")),
        DisplayNameError::TooLong => AppError::BadRequest(
            String::from_str("display_name must be at most 32 characters"),
        ),
    }
}

/// Checks that a problem may be shown: it must not be locked.
pub fn require_unlocked(status: &str) -> (r: Result<(), AppError>)
    ensures
        status@ == "locked"@ ==> r == Err::<(), AppError>(AppError::ProblemLocked),
        status@ != "locked"@ ==> r is Ok,
{
    if str_eq(status, "locked") {
        return Err(AppError::ProblemLocked);
    }
    Ok(())
}

/// Checks that a problem may be queried: it must be neither locked nor
/// cleared.
pub fn require_queryable(status: &str) -> (r: Result<(), AppError>)
    ensures
        status@ == "locked"@ ==> r == Err::<(), AppError>(AppError::ProblemLocked),
        status@ != "locked"@ && status@ == "cleared"@ ==> r == Err::<(), AppError>(
            AppError::ProblemAlreadyCleared,
        ),
        status@ != "locked"@ && status@ != "cleared"@ ==> r is Ok,
{
    if str_eq(status, "locked") {
        return Err(AppError::ProblemLocked);
    }
    if str_eq(status, "cleared") {
        return Err(AppError::ProblemAlreadyCleared);
    }
    Ok(())
}

/// What a request to start or resume a run does.
#[derive(Clone, Copy, Debug, PartialEq, Eq, Structural)]
pub enum RunStart {
    /// Resume the active run.
    Resume,
    /// Start a new run.
    Create,
}

/// Decides a request to start or resume a run: an active run is resumed; a
/// room already cleared refuses a new run; otherwise a run is started.
pub fn start_or_resume(has_active_run: bool, has_cleared_run: bool) -> (r: Result<RunStart, AppError>)
    ensures
        has_active_run ==> r == Ok::<RunStart, AppError>(RunStart::Resume),
        !has_active_run && has_cleared_run ==> (r matches Err(AppError::Conflict(m)) && m@
            == "room already cleared"@),
        !has_active_run && !has_cleared_run ==> r == Ok::<RunStart, AppError>(RunStart::Create),
{
    if has_active_run {
        return Ok(RunStart::Resume);
    }
    if has_cleared_run {
        return Err(AppError::Conflict(String::from_str("room already cleared")));
    }
    Ok(RunStart::Create)
}

/// The milliseconds a run has been going: the time since its start, rounded
/// toward zero; 0 when the clock reads earlier than the start, and the
/// largest `u64` past it.
pub open spec fn running_elapsed_ms_of(started_at: Instant, now: Instant) -> u64 {
    let ms = div_toward_zero(elapsed_between(started_at, now), 1_000_000);
    if ms <= 0 {
        0
    } else if ms > u64::MAX {
        u64::MAX
    } else {
        ms as u64
    }
}

/// The milliseconds a run has been going: the time since its start, rounded
/// toward zero; 0 when the clock reads earlier than the start, and the
/// largest `u64` past it.
pub fn running_elapsed_ms(started_at: Instant, now: Instant) -> (r: u64)
    ensures
        r == running_elapsed_ms_of(started_at, now),
{
    let elapsed = elapsed_nanos(started_at, now);
    let ms: i128 = elapsed / 1_000_000i128;
    if ms <= 0 {
        0
    } else if ms > 18446744073709551615i128 {
        u64::MAX
    } else {
        ms as u64
    }
}

/// The reply that shows a player's active run: its start, the milliseconds
/// it has been going at `now`, and the problems cleared in it.
pub fn active_run_response(started_at: Instant, now: Instant, cleared_problem_ids: Vec<u128>) -> (r:
    openapi::ActiveRunResponse)
    ensures
        r.status@ == "active"@,
        r.started_at == started_at,
        r.elapsed_ms == running_elapsed_ms_of(started_at, now),
        r.cleared_problem_ids == cleared_problem_ids,
{
    openapi::ActiveRunResponse::new(
        String::from_str("active"),
        started_at,
        running_elapsed_ms(started_at, now),
        cleared_problem_ids,
    )
}

/// The reply to `/me`.
pub fn build_me_response(auth_mode: AuthMode, user: Option<CurrentUser>) -> (r: openapi::MeResponse)
    ensures
        match (auth_mode, user) {
            (AuthMode::Demo, Some(u)) => r matches openapi::MeResponse::MeDemoAuthenticated(m)
                && m.authenticated && m.auth_mode@ == "demo"@ && m.user.id == u.user_id
                && m.user.display_name == u.display_name,
            (AuthMode::Demo, None) => r matches openapi::MeResponse::MeDemoUnauthenticated(m)
                && !m.authenticated && m.auth_mode@ == "demo"@,
            (AuthMode::NeoShowcase, Some(u)) => r matches openapi::MeResponse::MeNeoshowcaseAuthenticated(m)
                && m.authenticated && m.auth_mode@ == "neoshowcase"@ && m.user.id == u.user_id
                && m.user.display_name == u.display_name && m.logout_url@ == LOGOUT_URL@,
            (AuthMode::NeoShowcase, None) => r matches openapi::MeResponse::MeNeoshowcaseUnauthenticated(m)
                && !m.authenticated && m.auth_mode@ == "neoshowcase"@ && m.login_url@ == LOGIN_URL@,
        },
{
    match (auth_mode, user) {
        (AuthMode::Demo, Some(u)) => openapi::MeResponse::MeDemoAuthenticated(
            openapi::MeDemoAuthenticated::new(
                true,
                String::from_str("demo"),
                openapi::User::new(u.user_id, u.display_name),
                openapi::NullValue,
                openapi::NullValue,
            ),
        ),
        (AuthMode::Demo, None) => openapi::MeResponse::MeDemoUnauthenticated(
            openapi::MeDemoUnauthenticated::new(
                false,
                String::from_str("demo"),
                openapi::NullValue,
                openapi::NullValue,
                openapi::NullValue,
            ),
        ),
        (AuthMode::NeoShowcase, Some(u)) => openapi::MeResponse::MeNeoshowcaseAuthenticated(
            openapi::MeNeoshowcaseAuthenticated::new(
                true,
                String::from_str("neoshowcase"),
                openapi::User::new(u.user_id, u.display_name),
                openapi::NullValue,
                String::from_str(LOGOUT_URL),
            ),
        ),
        (AuthMode::NeoShowcase, None) => openapi::MeResponse::MeNeoshowcaseUnauthenticated(
            openapi::MeNeoshowcaseUnauthenticated::new(
                false,
                String::from_str("neoshowcase"),
                openapi::NullValue,
                String::from_str(LOGIN_URL),
                openapi::NullValue,
            ),
        ),
    }
}

/// The public progress status a stored name denotes.
pub open spec fn progress_status_named(name: Seq<char>) -> Option<openapi::ProgressStatus> {
    openapi::ProgressStatus::from_name(name)
}

/// The room-list item of a room summary. The summary's progress status must
/// be a known name; the room number is carried over as `as u32` does.
pub fn room_item(summary: RoomSummaryRecord) -> (r: Result<openapi::RoomItem, AppError>)
    ensures
        match progress_status_named(summary.progress_status@) {
            None => r matches Err(AppError::Internal { source }) && source@
                == "stored run status is invalid: unexpected progress status: "@
                + summary.progress_status@,
            Some(status) => r matches Ok(item) && item.room_id == summary.room_id && item.number
                == summary.number as u32 && item.name == summary.name && item.genre
                == summary.genre && item.description == summary.description && item.problem_count
                == summary.problem_count && item.progress.status == status
                && item.progress.cleared_count == summary.cleared_count
                && item.progress.required_count == summary.required_count && match summary.best_record {
                Some(b) => item.best_record == openapi::Nullable::Present(
                    openapi::BestRecord { elapsed_ms: b.elapsed_ms, rank: b.rank, query_count: b.query_count },
                ),
                None => item.best_record == openapi::Nullable::<openapi::BestRecord>::Null,
            },
        },
{
    let status = match openapi::ProgressStatus::parse(summary.progress_status.as_str()) {
        Ok(s) => s,
        Err(_) => {
            let head = concat_str(
                "stored run status is invalid: unexpected progress status: ",
                summary.progress_status.as_str(),
            );
            return Err(AppError::Internal { source: head });
        },
    };
    let progress = openapi::Progress::new(status, summary.cleared_count, summary.required_count);
    let best_record = match summary.best_record {
        Some(b) => openapi::Nullable::Present(openapi::BestRecord::new(b.elapsed_ms, b.rank, b.query_count)),
        None => openapi::Nullable::Null,
    };
    Ok(
        openapi::RoomItem::new(
            summary.room_id,
            summary.number as u32,
            summary.name,
            summary.genre,
            summary.description,
            summary.problem_count,
            progress,
            best_record,
        ),
    )
}

/// The reply to an answer: an incorrect one leaves the problem available and
/// the run active; a correct one reports the cleared problem, what it
/// unlocked, the run's status and progress, and the elapsed time.
pub fn answer_response(result: AnswerSubmissionResult) -> (r: openapi::AnswerResponse)
    ensures
        match result {
            AnswerSubmissionResult::Incorrect { answer_attempt_count } => r matches openapi::AnswerResponse::IncorrectAnswerResponse(i)
                && !i.correct && i.answer_attempt_count == answer_attempt_count
                && i.problem_status@ == "available"@ && i.run_status@ == "active"@,
            AnswerSubmissionResult::Correct {
                unlocked_problem_ids,
                run_status,
                cleared_count,
                required_count,
                elapsed_ms,
            } => r matches openapi::AnswerResponse::CorrectAnswerResponse(c) && c.correct
                && c.problem_status@ == "cleared"@ && c.unlocked_problem_ids@
                == unlocked_problem_ids@ && c.elapsed_ms == elapsed_ms && c.progress.cleared_count
                == cleared_count && c.progress.required_count == required_count && match run_status {
                AnswerRunStatus::Active => c.run_status == openapi::RunStatus::Active
                    && c.progress.status == openapi::ProgressStatus::Active,
                AnswerRunStatus::Cleared => c.run_status == openapi::RunStatus::Cleared
                    && c.progress.status == openapi::ProgressStatus::Cleared,
            },
        },
{
    match result {
        AnswerSubmissionResult::Incorrect { answer_attempt_count } => openapi::AnswerResponse::IncorrectAnswerResponse(
            openapi::IncorrectAnswerResponse::new(
                false,
                answer_attempt_count,
                String::from_str("available"),
                String::from_str("active"),
            ),
        ),
        AnswerSubmissionResult::Correct {
            unlocked_problem_ids,
            run_status,
            cleared_count,
            required_count,
            elapsed_ms,
        } => {
            let (api_status, progress_status) = match run_status {
                AnswerRunStatus::Active => (openapi::RunStatus::Active, openapi::ProgressStatus::Active),
                AnswerRunStatus::Cleared => (openapi::RunStatus::Cleared, openapi::ProgressStatus::Cleared),
            };
            let progress = openapi::Progress::new(progress_status, cleared_count, required_count);
            openapi::AnswerResponse::CorrectAnswerResponse(
                openapi::CorrectAnswerResponse::new(
                    true,
                    String::from_str("cleared"),
                    unlocked_problem_ids,
                    api_status,
                    progress,
                    elapsed_ms,
                ),
            )
        },
    }
}

/// The reply to a query `query_id` that was judged and recorded.
pub fn query_response(query_id: u128, judgement: QueryJudgement, recorded: QuerySubmissionResult) -> (r:
    openapi::QueryResponse)
    ensures
        judgement.correct ==> (r matches openapi::QueryResponse::CorrectQueryResponse(c) && c.query_id
            == query_id && c.correct && c.normalized_operations@ == judgement.normalized_operations@
            && c.remaining_pattern_count == judgement.remaining_pattern_count && c.query_count
            == recorded.query_count && c.problem_status == recorded.problem_status),
        !judgement.correct ==> (r matches openapi::QueryResponse::IncorrectQueryResponse(c)
            && c.query_id == query_id && !c.correct && c.normalized_operations@
            == judgement.normalized_operations@ && c.remaining_pattern_count
            == judgement.remaining_pattern_count && c.query_count == recorded.query_count
            && c.problem_status == recorded.problem_status),
{
    if judgement.correct {
        openapi::QueryResponse::CorrectQueryResponse(
            openapi::CorrectQueryResponse::new(
                query_id,
                true,
                judgement.normalized_operations,
                judgement.remaining_pattern_count,
                recorded.query_count,
                recorded.problem_status,
            ),
        )
    } else {
        openapi::QueryResponse::IncorrectQueryResponse(
            openapi::IncorrectQueryResponse::new(
                query_id,
                false,
                judgement.normalized_operations,
                judgement.remaining_pattern_count,
                recorded.query_count,
                recorded.problem_status,
            ),
        )
    }
}

/// Checks that a room's leaderboard may be shown: the room must exist
/// (`Some`, with whether it is published) and be published.
pub fn require_published_room(is_published: Option<bool>) -> (r: Result<(), AppError>)
    ensures
        is_published == Some(true) ==> r is Ok,
        is_published != Some(true) ==> (r matches Err(AppError::NotFound(m)) && m@
            == "room not found"@),
{
    match is_published {
        Some(true) => Ok(()),
        _ => Err(AppError::NotFound(String::from_str("room not found"))),
    }
}

/// The signed-in user's own line on a leaderboard.
#[derive(Clone, Copy, Debug, PartialEq, Eq, Structural)]
pub struct LeaderboardMe {
    pub rank: u32,
    pub elapsed_ms: u64,
    pub query_count: u64,
}

/// The line of the signed-in user on a leaderboard: that of their first
/// record, and none for a visitor or a user without a record.
pub fn leaderboard_me(records: &Vec<LeaderboardRecord>, user_id: Option<u128>) -> (r: Option<
    LeaderboardMe,
>)
    ensures
        match user_id {
            None => r is None,
            Some(u) => match r {
                None => forall|i: int| 0 <= i < records@.len() ==> records@[i].user_id != u,
                Some(me) => exists|i: int|
                    0 <= i < records@.len() && records@[i].user_id == u && (forall|j: int|
                        0 <= j < i ==> records@[j].user_id != u) && me == (LeaderboardMe {
                        rank: records@[i].rank,
                        elapsed_ms: records@[i].elapsed_ms,
                        query_count: records@[i].query_count,
                    }),
            },
        },
{
    let u = match user_id {
        Some(u) => u,
        None => return None,
    };
    let mut i: usize = 0;
    while i < records.len()
        invariant
            i <= records@.len(),
            user_id == Some(u),
            forall|j: int| 0 <= j < i ==> records@[j].user_id != u,
        decreases records@.len() - i,
    {
        if records[i].user_id == u {
            let record = &records[i];
            return Some(
                LeaderboardMe {
                    rank: record.rank,
                    elapsed_ms: record.elapsed_ms,
                    query_count: record.query_count,
                },
            );
        }
        i += 1;
    }
    None
}

} // verus!
