use chrono::{TimeZone, Utc};

use server::game_progress::{
    ActiveRunState, ClearProblemError, Instant, ProblemState, ProblemStatus, Progress,
    ProgressStatus, RunStatus, duration_to_elapsed_ms, plan_problem_clear,
};

const NANOS_PER_MILLI: i128 = 1_000_000;
const NANOS_PER_SECOND: i128 = 1_000_000_000;

fn id(value: u128) -> u128 {
    value
}

fn room_id() -> u128 {
    id(1)
}

fn instant(year: i32, month: u32, day: u32, hour: u32, minute: u32, second: u32) -> Instant {
    let time = Utc
        .with_ymd_and_hms(year, month, day, hour, minute, second)
        .single()
        .expect("test time should be valid");
    Instant {
        seconds: time.timestamp(),
        subsec_nanos: time.timestamp_subsec_nanos(),
    }
}

fn started_at() -> Instant {
    instant(2026, 8, 24, 10, 0, 0)
}

fn decision_time() -> Instant {
    instant(2026, 8, 24, 10, 0, 5)
}

fn active_run() -> ActiveRunState {
    ActiveRunState {
        run_id: id(10),
        room_id: room_id(),
        started_at: started_at(),
    }
}

fn problem(
    problem_id: u128,
    room_id: u128,
    depends_on_problem_id: Option<u128>,
    is_required: bool,
    status: ProblemStatus,
) -> ProblemState {
    ProblemState {
        problem_id,
        room_id,
        depends_on_problem_id,
        is_required,
        status,
    }
}

fn problem_chain() -> Vec<ProblemState> {
    let first_problem_id = id(101);
    let second_problem_id = id(102);
    let third_problem_id = id(103);
    let final_problem_id = id(104);

    vec![
        problem(first_problem_id, room_id(), None, true, ProblemStatus::Available),
        problem(second_problem_id, room_id(), Some(first_problem_id), true, ProblemStatus::Locked),
        problem(third_problem_id, room_id(), Some(second_problem_id), true, ProblemStatus::Locked),
        problem(final_problem_id, room_id(), None, true, ProblemStatus::Available),
    ]
}

#[test]
fn available_problem_is_cleared() {
    let run = active_run();
    let problems = problem_chain();

    let plan = plan_problem_clear(&run, &problems, id(101), decision_time())
        .expect("available problem should be cleared");

    assert_eq!(plan.target_problem_status, ProblemStatus::Cleared);
    assert_eq!(plan.problem_cleared_at, Some(decision_time()));
    assert_eq!(plan.elapsed, 5 * NANOS_PER_SECOND);
}

#[test]
fn direct_locked_dependent_is_unlocked() {
    let run = active_run();
    let problems = problem_chain();

    let plan = plan_problem_clear(&run, &problems, id(101), decision_time())
        .expect("available problem should be cleared");

    assert_eq!(plan.unlocked_problem_ids, vec![id(102)]);
}

#[test]
fn indirect_dependent_remains_locked() {
    let run = active_run();
    let problems = problem_chain();

    let plan = plan_problem_clear(&run, &problems, id(101), decision_time())
        .expect("available problem should be cleared");

    assert!(!plan.unlocked_problem_ids.contains(&id(103)));
}

#[test]
fn locked_problem_is_rejected() {
    let run = active_run();
    let problems = problem_chain();

    let error = plan_problem_clear(&run, &problems, id(102), decision_time())
        .expect_err("locked problem should be rejected");

    assert_eq!(error, ClearProblemError::ProblemLocked);
}

#[test]
fn missing_problem_is_rejected() {
    let run = active_run();
    let problems = problem_chain();

    let error = plan_problem_clear(&run, &problems, id(999), decision_time())
        .expect_err("missing problem should be rejected");

    assert_eq!(error, ClearProblemError::ProblemNotFound);
}

#[test]
fn problem_from_another_room_is_not_found() {
    let run = active_run();
    let mut problems = problem_chain();
    let other_room_problem_id = id(201);

    problems.push(problem(other_room_problem_id, id(2), None, true, ProblemStatus::Available));

    let error = plan_problem_clear(&run, &problems, other_room_problem_id, decision_time())
        .expect_err("problem from another room should be rejected");

    assert_eq!(error, ClearProblemError::ProblemNotFound);
}

#[test]
fn already_cleared_problem_is_not_updated() {
    let run = active_run();
    let mut problems = problem_chain();
    problems[0].status = ProblemStatus::Cleared;

    let plan = plan_problem_clear(&run, &problems, id(101), decision_time())
        .expect("cleared problem should be handled successfully");

    assert_eq!(plan.target_problem_status, ProblemStatus::Cleared);
    assert_eq!(plan.problem_cleared_at, None);
    assert_eq!(
        plan.progress,
        Progress {
            status: ProgressStatus::Active,
            cleared_count: 1,
            required_count: 4,
        }
    );
    assert_eq!(plan.run_status, RunStatus::Active);
    assert_eq!(plan.elapsed, 5 * NANOS_PER_SECOND);
}

#[test]
fn already_cleared_problem_unlocks_nothing() {
    let run = active_run();
    let mut problems = problem_chain();
    problems[0].status = ProblemStatus::Cleared;

    let plan = plan_problem_clear(&run, &problems, id(101), decision_time())
        .expect("cleared problem should be handled successfully");

    assert!(plan.unlocked_problem_ids.is_empty());
}

#[test]
fn progress_counts_only_required_problems() {
    let run = active_run();
    let mut problems = problem_chain();

    problems.push(problem(id(105), room_id(), None, false, ProblemStatus::Cleared));

    let plan = plan_problem_clear(&run, &problems, id(101), decision_time())
        .expect("available problem should be cleared");

    assert_eq!(
        plan.progress,
        Progress {
            status: ProgressStatus::Active,
            cleared_count: 1,
            required_count: 4,
        }
    );
    assert_eq!(plan.run_status, RunStatus::Active);
}

#[test]
fn final_problem_cleared_first_keeps_run_active() {
    let run = active_run();
    let problems = problem_chain();

    let plan = plan_problem_clear(&run, &problems, id(104), decision_time())
        .expect("final problem should be available initially");

    assert_eq!(
        plan.progress,
        Progress {
            status: ProgressStatus::Active,
            cleared_count: 1,
            required_count: 4,
        }
    );
    assert_eq!(plan.run_status, RunStatus::Active);
    assert_eq!(plan.run_cleared_at, None);
    assert!(plan.unlocked_problem_ids.is_empty());
}

#[test]
fn all_required_problems_clear_the_run() {
    let run = active_run();
    let mut problems = problem_chain();

    problems[0].status = ProblemStatus::Cleared;
    problems[1].status = ProblemStatus::Cleared;
    problems[2].status = ProblemStatus::Available;
    problems[3].status = ProblemStatus::Cleared;

    let plan = plan_problem_clear(&run, &problems, id(103), decision_time())
        .expect("last required problem should be cleared");

    assert_eq!(
        plan.progress,
        Progress {
            status: ProgressStatus::Cleared,
            cleared_count: 4,
            required_count: 4,
        }
    );
    assert_eq!(plan.run_status, RunStatus::Cleared);
    assert_eq!(plan.run_cleared_at, Some(decision_time()));
}

#[test]
fn negative_elapsed_is_rejected() {
    let run = active_run();
    let problems = problem_chain();
    let start = started_at();
    let time_before_start = Instant {
        seconds: start.seconds - 1,
        subsec_nanos: 999_000_000,
    };

    let error = plan_problem_clear(&run, &problems, id(101), time_before_start)
        .expect_err("negative elapsed duration should be rejected");

    assert_eq!(error, ClearProblemError::InvalidElapsed);
}

#[test]
fn elapsed_milliseconds_accept_zero_and_positive_values() {
    assert_eq!(
        duration_to_elapsed_ms(0).expect("zero duration should be valid"),
        0
    );
    assert_eq!(
        duration_to_elapsed_ms(5_001 * NANOS_PER_MILLI).expect("positive duration should be valid"),
        5_001
    );
}

#[test]
fn elapsed_milliseconds_reject_negative_values() {
    let error = duration_to_elapsed_ms(-NANOS_PER_MILLI)
        .expect_err("negative duration should be rejected");

    assert_eq!(error, ClearProblemError::InvalidElapsed);
}

#[test]
fn already_cleared_problem_rechecks_run_completion() {
    let run = active_run();
    let mut problems = problem_chain();

    for problem in &mut problems {
        problem.status = ProblemStatus::Cleared;
    }

    let plan = plan_problem_clear(&run, &problems, id(101), decision_time())
        .expect("cleared problem should trigger state re-evaluation");

    assert_eq!(plan.problem_cleared_at, None);
    assert!(plan.unlocked_problem_ids.is_empty());
    assert_eq!(
        plan.progress,
        Progress {
            status: ProgressStatus::Cleared,
            cleared_count: 4,
            required_count: 4,
        }
    );
    assert_eq!(plan.run_status, RunStatus::Cleared);
    assert_eq!(plan.run_cleared_at, Some(decision_time()));
    assert_eq!(plan.elapsed, 5 * NANOS_PER_SECOND);
}

#[test]
fn only_locked_direct_dependents_are_unlocked() {
    let run = active_run();
    let mut problems = problem_chain();

    let available_direct_dependent_id = id(105);
    let cleared_direct_dependent_id = id(106);

    problems.push(problem(
        available_direct_dependent_id,
        room_id(),
        Some(id(101)),
        false,
        ProblemStatus::Available,
    ));

    problems.push(problem(
        cleared_direct_dependent_id,
        room_id(),
        Some(id(101)),
        false,
        ProblemStatus::Cleared,
    ));

    let plan = plan_problem_clear(&run, &problems, id(101), decision_time())
        .expect("available problem should be cleared");

    assert_eq!(plan.unlocked_problem_ids, vec![id(102)]);
    assert!(!plan.unlocked_problem_ids.contains(&available_direct_dependent_id));
    assert!(!plan.unlocked_problem_ids.contains(&cleared_direct_dependent_id));
}

#[test]
fn sub_millisecond_negative_elapsed_truncates_to_zero() {
    assert_eq!(duration_to_elapsed_ms(-1), Ok(0));
    assert_eq!(duration_to_elapsed_ms(1_999_999), Ok(1));
    assert_eq!(duration_to_elapsed_ms(-1_000_000), Err(ClearProblemError::InvalidElapsed));
}

#[test]
fn clearing_again_after_applying_a_plan_changes_nothing() {
    let run = active_run();
    let problems = problem_chain();

    let first = plan_problem_clear(&run, &problems, id(101), decision_time())
        .expect("available problem should be cleared");

    let mut applied = problems.clone();
    applied[0].status = ProblemStatus::Cleared;
    for problem in &mut applied {
        if first.unlocked_problem_ids.contains(&problem.problem_id) {
            problem.status = ProblemStatus::Available;
        }
    }

    let second = plan_problem_clear(&run, &applied, id(101), decision_time())
        .expect("cleared problem should be re-evaluated");

    assert_eq!(second.problem_cleared_at, None);
    assert!(second.unlocked_problem_ids.is_empty());
    assert_eq!(second.progress, first.progress);
    assert_eq!(second.run_status, first.run_status);
}

#[test]
fn room_without_required_problems_stays_active() {
    let run = active_run();
    let problems = vec![problem(id(301), room_id(), None, false, ProblemStatus::Available)];

    let plan = plan_problem_clear(&run, &problems, id(301), decision_time())
        .expect("available problem should be cleared");

    assert_eq!(plan.progress.required_count, 0);
    assert_eq!(plan.run_status, RunStatus::Active);
    assert_eq!(plan.run_cleared_at, None);
}
