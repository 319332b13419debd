use server::problem::judge::{
    JudgeInputError, judge_operation_sequence, judge_string_answer, normalize_operations,
};
use server::problem::model::{
    AnswerInputSchema, AnswerInputType, Candidate, InputSchema, JudgeConfig, Operation,
    QueryInputSchema, QueryInputType, StringNormalization, UnicodeNormalization,
};

fn operation(control: &str, count: i32) -> Operation {
    Operation::new(control.to_owned(), count)
}

fn schema() -> InputSchema {
    InputSchema {
        query: QueryInputSchema {
            input_type: QueryInputType::OperationSequence,
            allowed_controls: vec!["down".to_owned(), "right".to_owned()],
            max_operations: 100,
        },
        answer: AnswerInputSchema {
            input_type: AnswerInputType::String,
            max_length: 50,
        },
    }
}

fn birthday() -> JudgeConfig {
    JudgeConfig::OperationSequence {
        correct_operations: vec![operation("down", 1), operation("right", 2)],
        candidates: vec![
            Candidate {
                candidate_id: "correct".to_owned(),
                operations: vec![operation("down", 1), operation("right", 2)],
            },
            Candidate {
                candidate_id: "other".to_owned(),
                operations: vec![operation("down", 2)],
            },
        ],
    }
}

fn passwords() -> JudgeConfig {
    JudgeConfig::String {
        accepted_answers: vec!["顔文字くん".to_owned(), "かおもじくん".to_owned()],
        normalization: StringNormalization {
            unicode: UnicodeNormalization::Nfkc,
            trim_outer_whitespace: true,
            collapse_internal_whitespace: true,
            case_sensitive: false,
        },
    }
}

#[test]
fn operation_sequences_are_normalized_and_matched() {
    let result = judge_operation_sequence(
        &schema(),
        &birthday(),
        &[operation("down", 1), operation("right", 1), operation("right", 1)],
    )
    .expect("valid sequence");
    assert!(result.correct);
    assert_eq!(result.normalized_operations, vec![operation("down", 1), operation("right", 2)]);
    assert_eq!(result.remaining_pattern_count, 1);

    let prefix = judge_operation_sequence(&schema(), &birthday(), &[operation("down", 1)])
        .expect("valid sequence");
    assert!(!prefix.correct);
    assert_eq!(prefix.remaining_pattern_count, 2);

    let none = judge_operation_sequence(&schema(), &birthday(), &[operation("right", 1)])
        .expect("valid sequence");
    assert_eq!(none.remaining_pattern_count, 0);
}

#[test]
fn invalid_sequences_are_rejected() {
    assert_eq!(
        judge_operation_sequence(&schema(), &birthday(), &[operation("down", 0)]).map(|_| ()),
        Err(JudgeInputError::InvalidOperationCount { index: 0 })
    );
    assert_eq!(
        judge_operation_sequence(&schema(), &birthday(), &[operation("down", 101)]).map(|_| ()),
        Err(JudgeInputError::TooManyOperations)
    );
    assert_eq!(
        judge_operation_sequence(&schema(), &passwords(), &[operation("down", 1)]).map(|_| ()),
        Err(JudgeInputError::JudgeConfigTypeMismatch)
    );
}

#[test]
fn string_answers_are_judged_after_normalization() {
    assert_eq!(judge_string_answer(&schema(), &passwords(), "　顔文字くん "), Ok(true));
    assert_eq!(judge_string_answer(&schema(), &passwords(), "違う答え"), Ok(false));
    assert_eq!(
        judge_string_answer(&schema(), &passwords(), &"あ".repeat(51)),
        Err(JudgeInputError::AnswerTooLong)
    );
}

/// The problems the judging tests use, by title: the birthday puzzle takes
/// operation sequences, the other two take string answers.
fn problem(title: &str) -> (InputSchema, JudgeConfig) {
    match title {
        "生年月日" => (schema(), birthday()),
        "大なぞ" => (
            schema(),
            JudgeConfig::String {
                accepted_answers: vec!["ワンマンソン".to_owned()],
                normalization: StringNormalization {
                    unicode: UnicodeNormalization::Nfkc,
                    trim_outer_whitespace: true,
                    collapse_internal_whitespace: true,
                    case_sensitive: false,
                },
            },
        ),
        "合言葉" => (schema(), passwords()),
        _ => panic!("requested problem should exist"),
    }
}

#[test]
fn correct_operation_sequence_is_accepted() {
    let (input_schema, judge_config) = problem("生年月日");
    let result = judge_operation_sequence(
        &input_schema,
        &judge_config,
        &[operation("down", 1), operation("right", 2)],
    )
    .expect("operation sequence should be valid");
    assert!(result.correct);
    assert_eq!(result.remaining_pattern_count, 1);
}

#[test]
fn adjacent_operations_are_normalized_before_judging() {
    let (input_schema, judge_config) = problem("生年月日");
    let result = judge_operation_sequence(
        &input_schema,
        &judge_config,
        &[operation("down", 1), operation("right", 1), operation("right", 1)],
    )
    .expect("operation sequence should be valid");
    assert!(result.correct);
    assert_eq!(result.normalized_operations, vec![operation("down", 1), operation("right", 2)]);
}

#[test]
fn operation_prefix_keeps_matching_candidates() {
    let (input_schema, judge_config) = problem("生年月日");
    let result = judge_operation_sequence(&input_schema, &judge_config, &[operation("down", 1)])
        .expect("operation sequence should be valid");
    assert!(!result.correct);
    assert_eq!(result.remaining_pattern_count, 2);
}

#[test]
fn non_matching_prefix_removes_all_candidates() {
    let (input_schema, judge_config) = problem("生年月日");
    let result = judge_operation_sequence(&input_schema, &judge_config, &[operation("right", 1)])
        .expect("operation sequence should be valid");
    assert!(!result.correct);
    assert_eq!(result.remaining_pattern_count, 0);
}

#[test]
fn invalid_operation_input_is_rejected() {
    let (input_schema, judge_config) = problem("生年月日");
    let error = judge_operation_sequence(&input_schema, &judge_config, &[operation("down", 0)])
        .expect_err("zero count should be rejected");
    assert_eq!(error, JudgeInputError::InvalidOperationCount { index: 0 });
}

#[test]
fn operation_limit_is_enforced_when_judging() {
    let (input_schema, judge_config) = problem("生年月日");
    let error = judge_operation_sequence(&input_schema, &judge_config, &[operation("down", 101)])
        .expect_err("operation limit should be enforced");
    assert_eq!(error, JudgeInputError::TooManyOperations);
}

#[test]
fn normalized_string_answer_is_accepted() {
    let (input_schema, judge_config) = problem("大なぞ");
    let correct = judge_string_answer(&input_schema, &judge_config, "　ﾜﾝﾏﾝｿﾝ　")
        .expect("answer should be valid");
    assert!(correct);
}

#[test]
fn alternate_string_answer_is_accepted() {
    let (input_schema, judge_config) = problem("合言葉");
    let correct = judge_string_answer(&input_schema, &judge_config, "顔文字くん")
        .expect("answer should be valid");
    assert!(correct);
}

#[test]
fn incorrect_string_answer_is_rejected() {
    let (input_schema, judge_config) = problem("合言葉");
    let correct = judge_string_answer(&input_schema, &judge_config, "違う答え")
        .expect("answer should be valid");
    assert!(!correct);
}

#[test]
fn string_length_is_checked_before_normalization() {
    let (input_schema, judge_config) = problem("合言葉");
    let answer = "あ".repeat(51);
    let error = judge_string_answer(&input_schema, &judge_config, &answer)
        .expect_err("long answer should be rejected");
    assert_eq!(error, JudgeInputError::AnswerTooLong);
}

#[test]
fn merging_adds_up_any_counts() {
    let merged = normalize_operations(&[
        operation("down", 2),
        operation("down", 0),
        operation("right", -1),
        operation("right", 3),
        operation("down", 1),
    ]);
    assert_eq!(merged, vec![operation("down", 2), operation("right", 2), operation("down", 1)]);
    assert_eq!(normalize_operations(&merged), merged);
}
