use server::problem::ProblemDataError;
use server::problem::judge::normalize_answer;
use server::problem::model::{
    Candidate, JudgeConfig, Operation, StringNormalization, UnicodeNormalization,
};
use server::problem::validation::{
    validate_operation_judge_config, validate_operations, validate_string_judge_config,
};

fn operation(control: &str, count: i32) -> Operation {
    Operation {
        control: control.to_owned(),
        count,
    }
}

fn candidate(candidate_id: &str, operations: Vec<Operation>) -> Candidate {
    Candidate {
        candidate_id: candidate_id.to_owned(),
        operations,
    }
}

fn string_normalization() -> StringNormalization {
    StringNormalization {
        unicode: UnicodeNormalization::Nfkc,
        trim_outer_whitespace: true,
        collapse_internal_whitespace: true,
        case_sensitive: false,
    }
}

fn assert_problem_data_error(
    error: ProblemDataError,
    expected_field: &str,
    expected_message: &str,
) {
    match error {
        ProblemDataError::Validation { field, message } => {
            assert_eq!(field, expected_field);
            assert_eq!(message, expected_message);
        }
        other => panic!("unexpected error: {other:?}"),
    }
}

#[test]
fn adjacent_operations_are_normalized() {
    let operations = vec![
        operation("down", 1),
        operation("down", 2),
        operation("right", 1),
    ];

    let allowed_controls = vec!["down".to_owned(), "right".to_owned()];

    let normalized = validate_operations(operations, &allowed_controls, 4, "operations")
        .expect("operations should be valid");

    assert_eq!(
        normalized,
        vec![operation("down", 3), operation("right", 1)]
    );
}

#[test]
fn validation_empty_operations_are_rejected() {
    let error = validate_operations(Vec::new(), &vec!["down".to_owned()], 100, "operations")
        .expect_err("empty operations should be rejected");

    assert_problem_data_error(error, "operations", "operation sequence must not be empty");
}

#[test]
fn non_positive_operation_count_is_rejected() {
    let error = validate_operations(
        vec![operation("down", 0)],
        &vec!["down".to_owned()],
        100,
        "operations",
    )
    .expect_err("zero count should be rejected");

    assert_problem_data_error(
        error,
        "operations[0].count",
        "operation count must be greater than zero",
    );
}

#[test]
fn unknown_operation_control_is_rejected() {
    let error = validate_operations(
        vec![operation("left", 1)],
        &vec!["down".to_owned()],
        100,
        "operations",
    )
    .expect_err("unknown control should be rejected");

    assert_problem_data_error(
        error,
        "operations[0].control",
        "operation control must be allowed by input schema",
    );
}

#[test]
fn validation_operation_total_over_limit_is_rejected() {
    let error = validate_operations(
        vec![operation("down", 3), operation("right", 2)],
        &vec!["down".to_owned(), "right".to_owned()],
        4,
        "operations",
    )
    .expect_err("operation total over limit should be rejected");

    assert_problem_data_error(
        error,
        "operations",
        "operation count total must not exceed max operations",
    );
}

#[test]
fn empty_candidates_are_rejected() {
    let error = validate_operation_judge_config(
        vec![operation("down", 1)],
        Vec::new(),
        &vec!["down".to_owned()],
        100,
        "judge_config",
    )
    .expect_err("empty candidates should be rejected");

    assert_problem_data_error(
        error,
        "judge_config.candidates",
        "at least one candidate is required",
    );
}

#[test]
fn duplicate_candidate_id_is_rejected_after_trimming() {
    let error = validate_operation_judge_config(
        vec![operation("down", 1)],
        vec![
            candidate("pattern-a", vec![operation("down", 1)]),
            candidate(" pattern-a ", vec![operation("down", 2)]),
        ],
        &vec!["down".to_owned()],
        100,
        "judge_config",
    )
    .expect_err("duplicate candidate IDs should be rejected");

    assert_problem_data_error(
        error,
        "judge_config.candidates[1].candidate_id",
        "candidate ID must not be duplicated",
    );
}

#[test]
fn duplicate_normalized_candidate_operations_are_rejected() {
    let error = validate_operation_judge_config(
        vec![operation("down", 2)],
        vec![
            candidate(
                "pattern-a",
                vec![operation("down", 1), operation("down", 1)],
            ),
            candidate("pattern-b", vec![operation("down", 2)]),
        ],
        &vec!["down".to_owned()],
        100,
        "judge_config",
    )
    .expect_err("duplicate normalized candidates should be rejected");

    assert_problem_data_error(
        error,
        "judge_config.candidates[1].operations",
        "normalized candidate operations must not be duplicated",
    );
}

#[test]
fn correct_operations_must_match_a_candidate() {
    let error = validate_operation_judge_config(
        vec![operation("down", 1)],
        vec![candidate("pattern-a", vec![operation("up", 1)])],
        &vec!["down".to_owned(), "up".to_owned()],
        100,
        "judge_config",
    )
    .expect_err("unknown correct operations should be rejected");

    assert_problem_data_error(
        error,
        "judge_config.correct_operations",
        "correct operations must match one candidate",
    );
}

#[test]
fn string_answer_is_normalized_in_documented_order() {
    let normalization = string_normalization();

    let normalized = normalize_answer("  Ａ　\tB  ", &normalization);

    assert_eq!(normalized, "a b");
}

#[test]
fn empty_accepted_answers_are_rejected() {
    let error =
        validate_string_judge_config(Vec::new(), string_normalization(), 50, "judge_config")
            .expect_err("empty accepted answers should be rejected");

    assert_problem_data_error(
        error,
        "judge_config.accepted_answers",
        "at least one accepted answer is required",
    );
}

#[test]
fn validation_normalized_empty_answer_is_rejected() {
    let error = validate_string_judge_config(
        vec!["　 \t".to_owned()],
        string_normalization(),
        50,
        "judge_config",
    )
    .expect_err("whitespace-only answer should be rejected");

    assert_problem_data_error(
        error,
        "judge_config.accepted_answers[0]",
        "normalized answer must not be empty",
    );
}

#[test]
fn answer_length_is_checked_before_normalization() {
    let error = validate_string_judge_config(
        vec!["ＡＢＣＤ".to_owned()],
        string_normalization(),
        3,
        "judge_config",
    )
    .expect_err("answer over max length should be rejected");

    assert_problem_data_error(
        error,
        "judge_config.accepted_answers[0]",
        "accepted answer must not exceed max length",
    );
}

#[test]
fn validation_answer_length_uses_unicode_scalar_count() {
    let judge_config = validate_string_judge_config(
        vec!["日本語".to_owned()],
        string_normalization(),
        3,
        "judge_config",
    )
    .expect("three Japanese characters should fit max length three");

    match judge_config {
        JudgeConfig::String {
            accepted_answers, ..
        } => {
            assert_eq!(accepted_answers, vec!["日本語".to_owned()]);
        }
        _ => panic!("string judge config should be returned"),
    }
}

#[test]
fn answers_duplicated_after_normalization_are_rejected() {
    let error = validate_string_judge_config(
        vec!["Ａ".to_owned(), "a".to_owned()],
        string_normalization(),
        50,
        "judge_config",
    )
    .expect_err("normalized duplicate answers should be rejected");

    assert_problem_data_error(
        error,
        "judge_config.accepted_answers[1]",
        "normalized accepted answers must not be duplicated",
    );
}
