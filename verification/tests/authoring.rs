use server::openapi::{
    AnswerInputSchema, CreateCandidate, CreateOperationSequenceJudgeConfig, CreateProblemHint,
    CreateProblemJudgeConfig, CreateProblemRequest, CreateStringJudgeConfig,
    CreateStringNormalization, Nullable, Operation, ProblemInputSchema,
    ProblemType as ApiProblemType, QueryInputSchema, SubmissionType as ApiSubmissionType,
};
use server::problem::authoring::{ProblemAuthoringError, validate_problem_draft};
use server::problem::model::{JudgeConfig, ProblemType, SubmissionType};

fn room_id() -> u128 {
    uuid::Uuid::parse_str("11111111-1111-4111-8111-111111111111")
        .expect("room UUID should be valid")
        .as_u128()
}

fn operation(control: &str, count: i32) -> Operation {
    Operation::new(control.to_owned(), count)
}

fn input_schema() -> ProblemInputSchema {
    ProblemInputSchema::new(
        QueryInputSchema::new(
            "operation_sequence".to_owned(),
            vec!["down".to_owned(), "right".to_owned(), "up".to_owned()],
            100,
        ),
        AnswerInputSchema::new("string".to_owned(), 50),
    )
}

fn operation_request() -> CreateProblemRequest {
    CreateProblemRequest {
        number: 3,
        problem_type: ApiProblemType::Small,
        title: "生年月日".to_owned(),
        body_markdown: "誕生日を入力してください".to_owned(),
        submission_type: ApiSubmissionType::OperationSequence,
        input_schema: input_schema(),
        hints: vec![CreateProblemHint {
            body_markdown: "カレンダーを見よう".to_owned(),
        }],
        judge_config: CreateProblemJudgeConfig::CreateOperationSequenceJudgeConfig(
            CreateOperationSequenceJudgeConfig {
                r_type: "operation_sequence".to_owned(),
                correct_operations: vec![operation("down", 1), operation("right", 2)],
                candidates: vec![
                    CreateCandidate {
                        candidate_id: "pattern-a".to_owned(),
                        operations: vec![operation("down", 1), operation("right", 2)],
                    },
                    CreateCandidate {
                        candidate_id: "pattern-b".to_owned(),
                        operations: vec![operation("down", 1), operation("up", 1)],
                    },
                ],
            },
        ),
        depends_on_problem_id: Nullable::Present(
            uuid::Uuid::parse_str("22222222-2222-4222-8222-222222222221")
                .expect("dependency UUID should be valid")
                .as_u128(),
        ),
        is_required: true,
    }
}

fn string_request() -> CreateProblemRequest {
    CreateProblemRequest {
        number: 4,
        problem_type: ApiProblemType::Final,
        title: "大なぞ".to_owned(),
        body_markdown: "答えは？".to_owned(),
        submission_type: ApiSubmissionType::String,
        input_schema: input_schema(),
        hints: vec![],
        judge_config: CreateProblemJudgeConfig::CreateStringJudgeConfig(CreateStringJudgeConfig {
            r_type: "string".to_owned(),
            accepted_answer: "ワンマンソン".to_owned(),
            normalization: CreateStringNormalization {
                unicode: "nfkc".to_owned(),
                trim_outer_whitespace: true,
                collapse_internal_whitespace: true,
                case_sensitive: false,
            },
        }),
        depends_on_problem_id: Nullable::Null,
        is_required: true,
    }
}

fn validation(field: &str, message: &'static str) -> ProblemAuthoringError {
    ProblemAuthoringError::Validation {
        field: field.to_owned(),
        message,
    }
}

#[test]
fn operation_sequence_request_is_converted() {
    let draft = validate_problem_draft(room_id(), operation_request())
        .expect("operation sequence request should be valid");

    assert_eq!(draft.room_id, room_id());
    assert_eq!(draft.number, 3);
    assert_eq!(draft.problem_type, ProblemType::Small);
    assert_eq!(draft.submission_type, SubmissionType::OperationSequence);
    assert_eq!(draft.input_schema.query.max_operations, 100);
    assert_eq!(draft.hints.len(), 1);
    assert!(draft.depends_on_problem_id.is_some());

    let JudgeConfig::OperationSequence {
        correct_operations,
        candidates,
    } = draft.judge_config
    else {
        panic!("operation request should produce operation judge config");
    };

    assert_eq!(correct_operations.len(), 2);
    assert_eq!(candidates.len(), 2);
    assert_eq!(candidates[0].candidate_id, "pattern-a");
}

#[test]
fn string_request_is_converted_to_one_accepted_answer() {
    let draft = validate_problem_draft(room_id(), string_request())
        .expect("string request should be valid");

    assert_eq!(draft.problem_type, ProblemType::Final);
    assert_eq!(draft.submission_type, SubmissionType::String);
    assert_eq!(draft.depends_on_problem_id, None);

    let JudgeConfig::String {
        accepted_answers,
        normalization,
    } = draft.judge_config
    else {
        panic!("string request should produce string judge config");
    };

    assert_eq!(accepted_answers, vec!["ワンマンソン"]);
    assert!(normalization.trim_outer_whitespace);
    assert!(!normalization.case_sensitive);
}

#[test]
fn submission_type_and_judge_config_must_match() {
    let mut request = operation_request();
    request.submission_type = ApiSubmissionType::String;

    let error = validate_problem_draft(room_id(), request)
        .expect_err("mismatched judge config should be rejected");

    assert_eq!(
        error,
        ProblemAuthoringError::Validation {
            field: "judge_config".to_owned(),
            message: "type must match submission_type",
        }
    );
}

#[test]
fn authoring_final_problem_dependency_is_rejected() {
    let mut request = operation_request();
    request.problem_type = ApiProblemType::Final;

    let error = validate_problem_draft(room_id(), request)
        .expect_err("final problem dependency should be rejected");

    assert_eq!(
        error,
        ProblemAuthoringError::Validation {
            field: "depends_on_problem_id".to_owned(),
            message: "final problem must not have a dependency",
        }
    );
}

#[test]
fn generated_judge_config_variants_are_distinguishable() {
    let operation_request = operation_request();
    assert!(matches!(
        operation_request.judge_config,
        CreateProblemJudgeConfig::CreateOperationSequenceJudgeConfig(_)
    ));

    let string_request = string_request();
    assert!(matches!(
        string_request.judge_config,
        CreateProblemJudgeConfig::CreateStringJudgeConfig(_)
    ));
}

#[test]
fn number_must_fit_in_i32() {
    let mut request = operation_request();
    request.number = i64::from(i32::MAX) + 1;
    assert_eq!(
        validate_problem_draft(room_id(), request),
        Err(validation("number", "must fit in a signed 32-bit integer"))
    );
}

#[test]
fn title_limits_are_checked() {
    let mut request = operation_request();
    request.title = " \u{3000}".to_owned();
    assert_eq!(
        validate_problem_draft(room_id(), request),
        Err(validation("title", "must not be empty"))
    );

    let mut request = operation_request();
    request.title = "謎".repeat(255);
    assert!(validate_problem_draft(room_id(), request).is_ok());

    let mut request = operation_request();
    request.title = "謎".repeat(256);
    assert_eq!(
        validate_problem_draft(room_id(), request),
        Err(validation("title", "must be at most 255 characters"))
    );
}

#[test]
fn input_schema_is_checked() {
    let mut request = operation_request();
    request.input_schema.query.r_type = "keys".to_owned();
    assert_eq!(
        validate_problem_draft(room_id(), request),
        Err(validation("input_schema.query.type", "must be operation_sequence"))
    );

    let mut request = operation_request();
    request.input_schema.query.allowed_controls = vec!["down".to_owned(), "down".to_owned()];
    assert_eq!(
        validate_problem_draft(room_id(), request),
        Err(validation(
            "input_schema.query.allowed_controls[1]",
            "controls must not be duplicated"
        ))
    );

    let mut request = operation_request();
    request.input_schema.answer.max_length = 0;
    assert_eq!(
        validate_problem_draft(room_id(), request),
        Err(validation("input_schema.answer.max_length", "must be greater than zero"))
    );
}

#[test]
fn blank_hints_and_bad_configs_are_rejected() {
    let mut request = operation_request();
    request.hints.push(CreateProblemHint {
        body_markdown: "\n".to_owned(),
    });
    assert_eq!(
        validate_problem_draft(room_id(), request),
        Err(validation("hints[1].body_markdown", "must not be empty"))
    );

    let mut request = string_request();
    if let CreateProblemJudgeConfig::CreateStringJudgeConfig(config) = &mut request.judge_config {
        config.normalization.unicode = "nfc".to_owned();
    }
    assert_eq!(
        validate_problem_draft(room_id(), request),
        Err(validation("judge_config.normalization.unicode", "must be nfkc"))
    );

    let mut request = operation_request();
    if let CreateProblemJudgeConfig::CreateOperationSequenceJudgeConfig(config) =
        &mut request.judge_config
    {
        config.candidates.clear();
    }
    assert_eq!(
        validate_problem_draft(room_id(), request),
        Err(validation("judge_config.candidates", "at least one candidate is required"))
    );
}
