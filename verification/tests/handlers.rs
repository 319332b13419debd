use server::config::AuthMode;
use server::error::AppError;
use server::game_progress::Instant;
use server::handlers::{
    CurrentUser, DisplayNameError, LeaderboardMe, RunStart, active_run_response, answer_response,
    build_me_response, demo_session_id, display_name_error, forwarded_subject, leaderboard_me,
    normalize_display_name, parse_hint_level, parse_path_id, query_response, require_demo_mode,
    require_published_room, require_queryable, require_unlocked, room_item, running_elapsed_ms,
    start_or_resume,
};
use server::openapi::{
    AnswerResponse, BestRecord, MeResponse, Nullable, ProgressStatus, QueryResponse, RunStatus,
};
use server::problem::model::Operation;
use server::problem::query::QueryJudgement;
use server::repository::{
    AnswerRunStatus, AnswerSubmissionResult, AuthProvider, AuthUserRecord, LeaderboardRecord,
    QuerySubmissionResult, RoomBestRecordRecord,
};
use server::room_summaries::RoomSummaryRecord;

const ROOM_TEXT: &str = "550e8400-e29b-41d4-a716-446655440000";
const ROOM_ID: u128 = 0x550e8400_e29b_41d4_a716_446655440000;

fn at(seconds: i64, subsec_nanos: u32) -> Instant {
    Instant { seconds, subsec_nanos }
}

#[test]
fn path_ids_must_be_uuids() {
    assert_eq!(parse_path_id(ROOM_TEXT, "room_id"), Ok(ROOM_ID));
    assert_eq!(
        parse_path_id("room-1", "room_id"),
        Err(AppError::BadRequest("invalid room_id".to_owned()))
    );
    assert_eq!(
        parse_path_id("", "problem_id"),
        Err(AppError::BadRequest("invalid problem_id".to_owned()))
    );
}

#[test]
fn hint_levels_are_positive_integers() {
    assert_eq!(parse_hint_level("1"), Ok(1));
    assert_eq!(parse_hint_level("12"), Ok(12));
    let invalid = Err(AppError::BadRequest("invalid hint level".to_owned()));
    assert_eq!(parse_hint_level("0"), invalid);
    assert_eq!(parse_hint_level("-3"), invalid);
    assert_eq!(parse_hint_level("one"), invalid);
    assert_eq!(parse_hint_level("99999999999"), invalid);
}

#[test]
fn demo_sessions_are_named_by_uuid_cookies() {
    assert_eq!(demo_session_id(None), None);
    assert_eq!(demo_session_id(Some("not-a-uuid")), None);
    assert_eq!(demo_session_id(Some(ROOM_TEXT)), Some(ROOM_ID));
}

#[test]
fn forwarded_subject_must_not_be_empty() {
    assert_eq!(forwarded_subject(None), None);
    assert_eq!(forwarded_subject(Some("")), None);
    assert_eq!(forwarded_subject(Some("alice")), Some("alice".to_owned()));
}

#[test]
fn display_names_are_trimmed_and_limited() {
    assert_eq!(normalize_display_name("  alice  "), Ok("alice".to_owned()));
    assert_eq!(normalize_display_name("   "), Err(DisplayNameError::Required));
    assert_eq!(normalize_display_name(""), Err(DisplayNameError::Required));
    let longest = "あ".repeat(32);
    assert_eq!(normalize_display_name(&longest), Ok(longest.clone()));
    assert_eq!(
        normalize_display_name(&"a".repeat(33)),
        Err(DisplayNameError::TooLong)
    );
    assert_eq!(
        display_name_error(DisplayNameError::Required),
        AppError::BadRequest("display_name is required".to_owned())
    );
    assert_eq!(
        display_name_error(DisplayNameError::TooLong),
        AppError::BadRequest("display_name must be at most 32 characters".to_owned())
    );
}

#[test]
fn problem_statuses_gate_showing_and_querying() {
    assert_eq!(require_unlocked("locked"), Err(AppError::ProblemLocked));
    assert_eq!(require_unlocked("available"), Ok(()));
    assert_eq!(require_unlocked("cleared"), Ok(()));
    assert_eq!(require_queryable("locked"), Err(AppError::ProblemLocked));
    assert_eq!(require_queryable("cleared"), Err(AppError::ProblemAlreadyCleared));
    assert_eq!(require_queryable("available"), Ok(()));
}

#[test]
fn runs_resume_start_or_refuse() {
    assert_eq!(start_or_resume(true, false), Ok(RunStart::Resume));
    assert_eq!(start_or_resume(true, true), Ok(RunStart::Resume));
    assert_eq!(start_or_resume(false, false), Ok(RunStart::Create));
    assert_eq!(
        start_or_resume(false, true),
        Err(AppError::Conflict("room already cleared".to_owned()))
    );
}

#[test]
fn elapsed_milliseconds_round_down_and_stop_at_zero() {
    assert_eq!(running_elapsed_ms(at(10, 0), at(12, 345_678_901)), 2_345);
    assert_eq!(running_elapsed_ms(at(10, 500_000_000), at(10, 500_999_999)), 0);
    assert_eq!(running_elapsed_ms(at(20, 0), at(10, 0)), 0);
}

#[test]
fn active_runs_report_their_time_and_cleared_problems() {
    let response = active_run_response(at(100, 0), at(101, 250_000_000), vec![1, 2]);
    assert_eq!(response.status, "active");
    assert_eq!(response.started_at, at(100, 0));
    assert_eq!(response.elapsed_ms, 1_250);
    assert_eq!(response.cleared_problem_ids, vec![1, 2]);
    assert_eq!(response.to_string(), "status,active,elapsed_ms,1250");
}

#[test]
fn me_reply_depends_on_mode_and_sign_in() {
    let alice = CurrentUser { user_id: 7, display_name: "alice".to_owned() };
    match build_me_response(AuthMode::Demo, Some(alice.clone())) {
        MeResponse::MeDemoAuthenticated(m) => {
            assert!(m.authenticated);
            assert_eq!(m.auth_mode, "demo");
            assert_eq!(m.user.id, 7);
            assert_eq!(m.user.display_name, "alice");
        }
        other => panic!("unexpected reply {other:?}"),
    }
    match build_me_response(AuthMode::Demo, None) {
        MeResponse::MeDemoUnauthenticated(m) => assert!(!m.authenticated),
        other => panic!("unexpected reply {other:?}"),
    }
    match build_me_response(AuthMode::NeoShowcase, Some(alice)) {
        MeResponse::MeNeoshowcaseAuthenticated(m) => {
            assert_eq!(m.auth_mode, "neoshowcase");
            assert_eq!(m.logout_url, "/_oauth/logout?redirect=/");
        }
        other => panic!("unexpected reply {other:?}"),
    }
    match build_me_response(AuthMode::NeoShowcase, None) {
        MeResponse::MeNeoshowcaseUnauthenticated(m) => {
            assert_eq!(m.login_url, "/_oauth/login?redirect=/");
        }
        other => panic!("unexpected reply {other:?}"),
    }
}

fn summary(status: &str, best: Option<RoomBestRecordRecord>) -> RoomSummaryRecord {
    RoomSummaryRecord {
        room_id: ROOM_ID,
        number: 3,
        name: "Room".to_owned(),
        genre: "logic".to_owned(),
        description: "desc".to_owned(),
        problem_count: 4,
        progress_status: status.to_owned(),
        cleared_count: 1,
        required_count: 3,
        best_record: best,
    }
}

#[test]
fn room_items_carry_progress_and_best_record() {
    let item = room_item(summary(
        "cleared",
        Some(RoomBestRecordRecord { elapsed_ms: 900, rank: 2, query_count: 5 }),
    ))
    .expect("known status");
    assert_eq!(item.room_id, ROOM_ID);
    assert_eq!(item.number, 3);
    assert_eq!(item.progress.status, ProgressStatus::Cleared);
    assert_eq!(item.progress.cleared_count, 1);
    assert_eq!(item.progress.required_count, 3);
    assert_eq!(
        item.best_record,
        Nullable::Present(BestRecord { elapsed_ms: 900, rank: 2, query_count: 5 })
    );
    assert_eq!(
        item.to_string(),
        "number,3,name,Room,genre,logic,description,desc,problem_count,4"
    );

    let item = room_item(summary("not_started", None)).expect("known status");
    assert_eq!(item.progress.status, ProgressStatus::NotStarted);
    assert_eq!(item.best_record, Nullable::Null);

    assert_eq!(
        room_item(summary("paused", None)),
        Err(AppError::Internal {
            source: "stored run status is invalid: unexpected progress status: paused".to_owned()
        })
    );
}

#[test]
fn answer_replies_follow_the_result() {
    match answer_response(AnswerSubmissionResult::Incorrect { answer_attempt_count: 2 }) {
        AnswerResponse::IncorrectAnswerResponse(i) => {
            assert!(!i.correct);
            assert_eq!(i.answer_attempt_count, 2);
            assert_eq!(i.problem_status, "available");
            assert_eq!(i.run_status, "active");
        }
        other => panic!("unexpected reply {other:?}"),
    }
    match answer_response(AnswerSubmissionResult::Correct {
        unlocked_problem_ids: vec![9],
        run_status: AnswerRunStatus::Cleared,
        cleared_count: 3,
        required_count: 3,
        elapsed_ms: 4_000,
    }) {
        AnswerResponse::CorrectAnswerResponse(c) => {
            assert!(c.correct);
            assert_eq!(c.problem_status, "cleared");
            assert_eq!(c.unlocked_problem_ids, vec![9]);
            assert_eq!(c.run_status, RunStatus::Cleared);
            assert_eq!(c.progress.status, ProgressStatus::Cleared);
            assert_eq!(c.elapsed_ms, 4_000);
        }
        other => panic!("unexpected reply {other:?}"),
    }
}

#[test]
fn query_replies_follow_the_judgement() {
    let ops = vec![Operation { control: "up".to_owned(), count: 2 }];
    let reply = query_response(
        5,
        QueryJudgement { normalized_operations: ops.clone(), correct: true, remaining_pattern_count: 1 },
        QuerySubmissionResult { query_count: 4, problem_status: "available".to_owned() },
    );
    match reply {
        QueryResponse::CorrectQueryResponse(c) => {
            assert_eq!(c.query_id, 5);
            assert_eq!(c.normalized_operations, ops);
            assert_eq!(c.remaining_pattern_count, 1);
            assert_eq!(c.query_count, 4);
        }
        other => panic!("unexpected reply {other:?}"),
    }
    let reply = query_response(
        6,
        QueryJudgement { normalized_operations: vec![], correct: false, remaining_pattern_count: 3 },
        QuerySubmissionResult { query_count: 1, problem_status: "available".to_owned() },
    );
    assert!(matches!(reply, QueryResponse::IncorrectQueryResponse(ref c) if !c.correct && c.query_id == 6));
}

#[test]
fn leaderboards_need_a_published_room() {
    assert_eq!(require_published_room(Some(true)), Ok(()));
    let missing = Err(AppError::NotFound("room not found".to_owned()));
    assert_eq!(require_published_room(Some(false)), missing);
    assert_eq!(require_published_room(None), missing);
}

fn record(rank: u32, user_id: u128) -> LeaderboardRecord {
    LeaderboardRecord {
        rank,
        user_id,
        display_name: format!("user{user_id}"),
        elapsed_ms: 1000 * u64::from(rank),
        query_count: u64::from(rank) + 1,
        cleared_at: at(0, 0),
    }
}

#[test]
fn leaderboard_me_is_the_first_record_of_the_user() {
    let records = vec![record(1, 10), record(2, 20), record(3, 20)];
    assert_eq!(
        leaderboard_me(&records, Some(20)),
        Some(LeaderboardMe { rank: 2, elapsed_ms: 2000, query_count: 3 })
    );
    assert_eq!(leaderboard_me(&records, Some(30)), None);
    assert_eq!(leaderboard_me(&records, None), None);
    assert_eq!(leaderboard_me(&Vec::new(), Some(10)), None);
}

#[test]
fn guest_routes_exist_only_in_demo_mode() {
    assert_eq!(require_demo_mode(AuthMode::Demo), Ok(()));
    assert_eq!(
        require_demo_mode(AuthMode::NeoShowcase),
        Err(AppError::NotFound("route not found".to_owned()))
    );
}

#[test]
fn stored_users_become_current_users() {
    let user = CurrentUser::from(AuthUserRecord {
        user_id: 3,
        display_name: "bob".to_owned(),
        auth_provider: AuthProvider::Demo,
    });
    assert_eq!(user, CurrentUser { user_id: 3, display_name: "bob".to_owned() });
}
