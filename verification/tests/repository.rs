use server::repository::{AnswerStoreAction, answer_store_action, incorrect_answer_result};
use server::repository::initial_problem_status;
use server::problem::model::Hint;
use server::repository::{HintRecord, select_hint};
use server::repository::user_progress;
use server::repository::{AuthUserRecord, auth_user_record};
use server::game_progress::{
    ClearProblemError, ClearProblemPlan, Instant, ProblemStatus, Progress, ProgressStatus,
    RunStatus,
};
use server::problem::answer::AnswerJudgeError;
use server::repository::{
    AnswerRunStatus, AnswerSubmissionResult, AuthProvider, GameProgressProblemRow,
    GenreProgressRow, LeaderboardRow, RepositoryError, answer_error, clear_error,
    correct_answer_result, expect_one_row, genre_progress, leaderboard_record,
    next_attempt_count, parse_problem_status, problem_states, query_submission_result,
    require_available,
};

#[test]
fn auth_provider_decodes_known_values() {
    let demo = AuthProvider::try_from("demo").expect("demo should decode as an auth provider");
    let neoshowcase = AuthProvider::try_from("neoshowcase")
        .expect("neoshowcase should decode as an auth provider");

    assert_eq!(demo, AuthProvider::Demo);
    assert_eq!(neoshowcase, AuthProvider::NeoShowcase);
}

#[test]
fn auth_provider_rejects_unknown_value() {
    assert!(matches!(
        AuthProvider::try_from("unknown"),
        Err(RepositoryError::InvalidAuthProvider),
    ));
}

#[test]
fn auth_provider_names_round_trip() {
    for provider in [AuthProvider::Demo, AuthProvider::NeoShowcase] {
        assert_eq!(AuthProvider::try_from(provider.as_db_str()), Ok(provider));
    }
    assert_eq!(AuthProvider::Demo.as_db_str(), "demo");
}

#[test]
fn stored_problem_statuses_are_read() {
    assert_eq!(parse_problem_status("cleared"), Ok(ProblemStatus::Cleared));
    assert_eq!(
        parse_problem_status("done"),
        Err(RepositoryError::InvalidProblemStatus {
            status: "done".to_owned()
        })
    );
}

#[test]
fn only_available_problems_are_judged() {
    assert_eq!(require_available("available"), Ok(()));
    assert_eq!(require_available("locked"), Err(RepositoryError::ProblemLocked));
    assert_eq!(
        require_available("cleared"),
        Err(RepositoryError::ProblemAlreadyCleared)
    );
    assert_eq!(
        require_available("?"),
        Err(RepositoryError::InvalidProblemStatus {
            status: "?".to_owned()
        })
    );
}

#[test]
fn attempt_counts_grow_by_one_within_range() {
    assert_eq!(next_attempt_count(0), Ok(1));
    assert_eq!(next_attempt_count(41), Ok(42));
    assert_eq!(
        next_attempt_count(-1),
        Err(RepositoryError::InvalidAnswerAttemptCount)
    );
    assert_eq!(
        next_attempt_count(i32::MAX),
        Err(RepositoryError::InvalidAnswerAttemptCount)
    );
}

#[test]
fn updates_must_touch_exactly_one_row() {
    assert_eq!(expect_one_row(1, RepositoryError::RunUpdateConflict), Ok(()));
    assert_eq!(
        expect_one_row(0, RepositoryError::RunUpdateConflict),
        Err(RepositoryError::RunUpdateConflict)
    );
    assert_eq!(
        expect_one_row(2, RepositoryError::ProblemProgressUpdateConflict),
        Err(RepositoryError::ProblemProgressUpdateConflict)
    );
}

#[test]
fn query_results_report_the_problem_status() {
    let result = query_submission_result(3, Some(ProblemStatus::Cleared)).expect("valid count");
    assert_eq!(result.query_count, 3);
    assert_eq!(result.problem_status, "cleared");

    let result = query_submission_result(1, None).expect("valid count");
    assert_eq!(result.problem_status, "available");

    assert_eq!(
        query_submission_result(-1, None),
        Err(RepositoryError::InvalidQueryCount)
    );
}

fn plan(elapsed: i128, run_status: RunStatus) -> ClearProblemPlan {
    ClearProblemPlan {
        target_problem_status: ProblemStatus::Cleared,
        problem_cleared_at: None,
        unlocked_problem_ids: vec![7, 8],
        progress: Progress {
            status: ProgressStatus::Active,
            cleared_count: 2,
            required_count: 4,
        },
        run_status,
        run_cleared_at: None,
        elapsed,
    }
}

#[test]
fn correct_answers_report_the_plan() {
    assert_eq!(
        correct_answer_result(plan(5_001_000_000, RunStatus::Cleared)),
        Ok(AnswerSubmissionResult::Correct {
            unlocked_problem_ids: vec![7, 8],
            run_status: AnswerRunStatus::Cleared,
            cleared_count: 2,
            required_count: 4,
            elapsed_ms: 5_001,
        })
    );
    assert_eq!(
        correct_answer_result(plan(-2_000_000, RunStatus::Active)),
        Err(RepositoryError::InvalidElapsed)
    );
}

#[test]
fn errors_of_the_rules_map_to_store_errors() {
    assert_eq!(
        clear_error(ClearProblemError::ProblemLocked),
        RepositoryError::ProblemLocked
    );
    assert_eq!(
        answer_error(AnswerJudgeError::WrongSubmissionType),
        RepositoryError::WrongAnswerSubmissionType
    );
}

#[test]
fn stored_problem_rows_become_states_until_an_unknown_status() {
    let rows = vec![
        GameProgressProblemRow {
            problem_id: 1,
            room_id: 9,
            depends_on_problem_id: None,
            is_required: true,
            status: "available".to_owned(),
        },
        GameProgressProblemRow {
            problem_id: 2,
            room_id: 9,
            depends_on_problem_id: Some(1),
            is_required: false,
            status: "locked".to_owned(),
        },
    ];
    let states = problem_states(&rows).expect("rows should be valid");
    assert_eq!(states.len(), 2);
    assert_eq!(states[1].status, ProblemStatus::Locked);
    assert_eq!(states[1].depends_on_problem_id, Some(1));

    let mut broken = rows.clone();
    broken[1].status = "open".to_owned();
    assert_eq!(
        problem_states(&broken),
        Err(RepositoryError::InvalidProblemStatus {
            status: "open".to_owned()
        })
    );
}

#[test]
fn genre_counts_must_fit() {
    let ok = genre_progress(GenreProgressRow {
        genre: "謎".to_owned(),
        cleared_room_count: 1,
        total_room_count: 3,
    })
    .expect("counts should fit");
    assert_eq!((ok.cleared_room_count, ok.total_room_count), (1, 3));

    assert_eq!(
        genre_progress(GenreProgressRow {
            genre: "謎".to_owned(),
            cleared_room_count: -1,
            total_room_count: 3,
        }),
        Err(RepositoryError::InvalidProgressCount)
    );
}

#[test]
fn leaderboard_rows_are_checked() {
    let row = LeaderboardRow {
        rank: 2,
        user_id: 5,
        display_name: "guest".to_owned(),
        started_at: Instant { seconds: 100, subsec_nanos: 0 },
        query_count: 12,
        cleared_at: Instant { seconds: 161, subsec_nanos: 500_000_000 },
    };
    let record = leaderboard_record(row.clone()).expect("row should be valid");
    assert_eq!(record.rank, 2);
    assert_eq!(record.elapsed_ms, 61_500);
    assert_eq!(record.query_count, 12);

    let mut bad_rank = row.clone();
    bad_rank.rank = -3;
    assert_eq!(
        leaderboard_record(bad_rank),
        Err(RepositoryError::InvalidLeaderboardRank)
    );

    let mut early = row.clone();
    early.cleared_at = Instant { seconds: 99, subsec_nanos: 0 };
    assert_eq!(leaderboard_record(early), Err(RepositoryError::InvalidElapsed));

    let mut bad_count = row;
    bad_count.query_count = -1;
    assert_eq!(
        leaderboard_record(bad_count),
        Err(RepositoryError::InvalidQueryCount)
    );
}

#[test]
fn hints_are_picked_by_level_from_one() {
    let hints = vec![
        Hint { body_markdown: "first".to_owned() },
        Hint { body_markdown: "second".to_owned() },
    ];
    assert_eq!(
        select_hint("available", &hints, 2),
        Ok(Some(HintRecord { level: 2, body_markdown: "second".to_owned() }))
    );
    assert_eq!(
        select_hint("cleared", &hints, 1),
        Ok(Some(HintRecord { level: 1, body_markdown: "first".to_owned() }))
    );
    assert_eq!(select_hint("available", &hints, 3), Ok(None));
    assert_eq!(select_hint("available", &hints, 0), Ok(None));
    assert_eq!(select_hint("available", &hints, i32::MIN), Ok(None));
    assert_eq!(select_hint("locked", &hints, 1), Err(RepositoryError::ProblemLocked));
}

#[test]
fn user_progress_sums_the_genres() {
    let row = |genre: &str, cleared: i64, total: i64| GenreProgressRow {
        genre: genre.to_owned(),
        cleared_room_count: cleared,
        total_room_count: total,
    };
    let progress = user_progress(&vec![row("logic", 1, 3), row("word", 2, 2)]).expect("fits");
    assert_eq!(progress.cleared_room_count, 3);
    assert_eq!(progress.total_room_count, 5);
    assert_eq!(progress.by_genre.len(), 2);
    assert_eq!(progress.by_genre[1].genre, "word");
    let empty = user_progress(&vec![]).expect("no genres");
    assert_eq!((empty.cleared_room_count, empty.total_room_count), (0, 0));
    assert_eq!(
        user_progress(&vec![row("logic", -1, 3)]),
        Err(RepositoryError::InvalidProgressCount)
    );
    assert_eq!(
        user_progress(&vec![row("a", 0, 4_000_000_000), row("b", 0, 4_000_000_000)]),
        Err(RepositoryError::InvalidProgressCount)
    );
}

#[test]
fn stored_users_need_a_known_provider() {
    assert_eq!(
        auth_user_record(4, "carol".to_owned(), "neoshowcase"),
        Ok(AuthUserRecord {
            user_id: 4,
            display_name: "carol".to_owned(),
            auth_provider: AuthProvider::NeoShowcase,
        })
    );
    assert_eq!(
        auth_user_record(4, "carol".to_owned(), "github"),
        Err(RepositoryError::InvalidAuthProvider)
    );
}

#[test]
fn problems_start_locked_only_behind_a_dependency() {
    assert_eq!(initial_problem_status(None), ProblemStatus::Available);
    assert_eq!(initial_problem_status(Some(3)), ProblemStatus::Locked);
}

#[test]
fn judged_answers_clear_or_count_an_attempt() {
    assert_eq!(answer_store_action(true, -5), Ok(AnswerStoreAction::ApplyClear));
    assert_eq!(
        answer_store_action(false, 2),
        Ok(AnswerStoreAction::CountAttempt { expected: 2, next: 3 })
    );
    assert_eq!(
        answer_store_action(false, i32::MAX),
        Err(RepositoryError::InvalidAnswerAttemptCount)
    );
    assert_eq!(answer_store_action(false, -1), Err(RepositoryError::InvalidAnswerAttemptCount));
    assert_eq!(
        incorrect_answer_result(3, 1),
        Ok(AnswerSubmissionResult::Incorrect { answer_attempt_count: 3 })
    );
    assert_eq!(incorrect_answer_result(3, 0), Err(RepositoryError::ProblemProgressUpdateConflict));
}
