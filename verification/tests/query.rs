use server::problem::model::{
    AnswerInputSchema, AnswerInputType, Candidate, InputSchema, JudgeConfig, JudgeConfigInput,
    Operation, QueryInputSchema, QueryInputType, StringNormalization, UnicodeNormalization,
};
use server::problem::judge::judge_operation_sequence;
use server::problem::query::{QueryJudgeError, QueryJudgement, decode_stored_judge_config, judge_query};

fn operation(control: &str, count: i32) -> Operation {
    Operation {
        control: control.to_owned(),
        count,
    }
}

fn input_schema(max_operations: i32) -> InputSchema {
    InputSchema {
        query: QueryInputSchema {
            input_type: QueryInputType::OperationSequence,
            allowed_controls: vec!["down".to_owned(), "right".to_owned(), "up".to_owned()],
            max_operations,
        },
        answer: AnswerInputSchema {
            input_type: AnswerInputType::String,
            max_length: 50,
        },
    }
}

fn candidate(candidate_id: &str, operations: Vec<Operation>) -> Candidate {
    Candidate {
        candidate_id: candidate_id.to_owned(),
        operations,
    }
}

fn operation_judge_config() -> JudgeConfig {
    JudgeConfig::OperationSequence {
        correct_operations: vec![operation("down", 2), operation("right", 1)],
        candidates: vec![
            candidate("correct", vec![operation("down", 2), operation("right", 1)]),
            candidate("another", vec![operation("down", 3), operation("right", 1)]),
            candidate("different", vec![operation("up", 1)]),
        ],
    }
}

fn expect_error(result: Result<QueryJudgement, QueryJudgeError>) -> QueryJudgeError {
    match result {
        Err(error) => error,
        Ok(_) => panic!("query judgement should fail"),
    }
}

fn expect_decode_error(result: Result<JudgeConfig, QueryJudgeError>) -> QueryJudgeError {
    match result {
        Err(error) => error,
        Ok(_) => {
            panic!("stored judge config should be rejected")
        }
    }
}

#[test]
fn allowed_sources_are_accepted() {
    let schema = input_schema(10);
    let judge_config = operation_judge_config();
    let operations = vec![operation("down", 1)];

    for source in ["keyboard", "mouse", "serial"] {
        assert!(judge_query(source, &operations, &schema, &judge_config,).is_ok());
    }
}

#[test]
fn unknown_source_is_rejected() {
    let error = expect_error(judge_query(
        "vr",
        &[operation("down", 1)],
        &input_schema(10),
        &operation_judge_config(),
    ));

    assert_eq!(error, QueryJudgeError::InvalidSource);
}
#[test]
fn adjacent_operations_are_normalized_and_judged() {
    let result = judge_query(
        "serial",
        &[
            operation("down", 1),
            operation("down", 1),
            operation("right", 1),
        ],
        &input_schema(10),
        &operation_judge_config(),
    )
    .expect("valid query should be judged");

    assert!(result.normalized_operations == vec![operation("down", 2), operation("right", 1),]);
    assert!(result.correct);
    assert_eq!(result.remaining_pattern_count, 1);
}

#[test]
fn partial_sequence_keeps_matching_candidates() {
    let result = judge_query(
        "mouse",
        &[operation("down", 1)],
        &input_schema(10),
        &operation_judge_config(),
    )
    .expect("valid query should be judged");

    assert!(!result.correct);
    assert_eq!(result.remaining_pattern_count, 2);
}

#[test]
fn sequence_longer_than_candidates_keeps_no_candidates() {
    let result = judge_query(
        "keyboard",
        &[operation("down", 4)],
        &input_schema(10),
        &operation_judge_config(),
    )
    .expect("valid query should be judged");

    assert!(!result.correct);
    assert_eq!(result.remaining_pattern_count, 0);
}
#[test]
fn query_empty_operations_are_rejected() {
    let error = expect_error(judge_query(
        "serial",
        &[],
        &input_schema(10),
        &operation_judge_config(),
    ));

    assert_eq!(error, QueryJudgeError::EmptyOperations);
}

#[test]
fn non_positive_count_is_rejected() {
    for count in [0, -1] {
        let error = expect_error(judge_query(
            "serial",
            &[operation("down", count)],
            &input_schema(10),
            &operation_judge_config(),
        ));

        assert_eq!(error, QueryJudgeError::NonPositiveCount);
    }
}

#[test]
fn unknown_control_is_rejected() {
    let error = expect_error(judge_query(
        "serial",
        &[operation("left", 1)],
        &input_schema(10),
        &operation_judge_config(),
    ));

    assert_eq!(error, QueryJudgeError::UnknownControl);
}

#[test]
fn query_operation_total_over_limit_is_rejected() {
    let error = expect_error(judge_query(
        "serial",
        &[operation("down", 3), operation("right", 2)],
        &input_schema(4),
        &operation_judge_config(),
    ));

    assert_eq!(error, QueryJudgeError::OperationLimitExceeded);
}
#[test]
fn string_problem_is_rejected() {
    let judge_config = JudgeConfig::String {
        accepted_answers: vec!["answer".to_owned()],
        normalization: StringNormalization {
            unicode: UnicodeNormalization::Nfkc,
            trim_outer_whitespace: true,
            collapse_internal_whitespace: true,
            case_sensitive: false,
        },
    };

    let error = expect_error(judge_query(
        "serial",
        &[operation("down", 1)],
        &input_schema(10),
        &judge_config,
    ));

    assert_eq!(error, QueryJudgeError::WrongSubmissionType);
}

#[test]
fn stored_operation_judge_config_is_decoded() {
    let schema = input_schema(10);

    let stored = JudgeConfigInput::OperationSequence {
        correct_operations: vec![operation("down", 2), operation("right", 1)],
        candidates: vec![candidate(
            "correct",
            vec![operation("down", 2), operation("right", 1)],
        )],
    };

    let judge_config = decode_stored_judge_config("operation_sequence", stored, &schema)
        .expect("stored judge config should be valid");

    let result = judge_query(
        "serial",
        &[operation("down", 2), operation("right", 1)],
        &schema,
        &judge_config,
    )
    .expect("query should be judged");

    assert!(result.correct);
    assert_eq!(result.remaining_pattern_count, 1);
}

#[test]
fn stored_judge_config_type_mismatch_is_rejected() {
    let stored = JudgeConfigInput::String {
        accepted_answers: vec!["answer".to_owned()],
        normalization: StringNormalization {
            unicode: UnicodeNormalization::Nfkc,
            trim_outer_whitespace: true,
            collapse_internal_whitespace: true,
            case_sensitive: false,
        },
    };

    let error = expect_decode_error(decode_stored_judge_config(
        "operation_sequence",
        stored,
        &input_schema(10),
    ));

    assert_eq!(error, QueryJudgeError::InvalidStoredJudgeConfig);
}

#[test]
fn invalid_stored_operation_config_is_rejected() {
    let stored = JudgeConfigInput::OperationSequence {
        correct_operations: vec![operation("down", 1)],
        candidates: vec![],
    };

    let error = expect_decode_error(decode_stored_judge_config(
        "operation_sequence",
        stored,
        &input_schema(10),
    ));

    assert_eq!(error, QueryJudgeError::InvalidStoredJudgeConfig);
}

#[test]
fn query_and_sequence_judges_agree_on_normalized_candidates() {
    let schema = input_schema(100);
    let config = operation_judge_config();
    for ops in [
        vec![operation("down", 1)],
        vec![operation("down", 1), operation("down", 1)],
        vec![operation("down", 2), operation("right", 1)],
        vec![operation("down", 4)],
        vec![operation("up", 1), operation("down", 1)],
    ] {
        let q = judge_query("keyboard", &ops, &schema, &config).expect("valid query");
        let o = judge_operation_sequence(&schema, &config, &ops).expect("valid sequence");
        assert_eq!(q.normalized_operations, o.normalized_operations);
        assert_eq!(q.correct, o.correct);
        assert_eq!(q.remaining_pattern_count as usize, o.remaining_pattern_count);
    }
}
