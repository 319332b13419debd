use std::sync::Mutex;

use server::openapi::{ProblemStatus, ProblemType, SubmissionType};
use server::problem::asset_url::{
    AssetUrlResolveError, AssetUrlResolver, UnconfiguredAssetUrlResolver,
};
use server::problem::model::{
    AnswerInputSchema, AnswerInputType, Asset, InputSchema, QueryInputSchema, QueryInputType,
};
use server::problem::public::{
    ProblemDetailRecord, ProblemProjectionError, build_problem_response, projection_error_message,
};

#[derive(Default)]
struct RecordingAssetUrlResolver {
    object_keys: Mutex<Vec<String>>,
}

impl AssetUrlResolver for RecordingAssetUrlResolver {
    fn resolve(&self, object_key: &str) -> Result<String, AssetUrlResolveError> {
        self.object_keys
            .lock()
            .expect("resolver call log should not be poisoned")
            .push(object_key.to_owned());

        Ok("/assets/problems/birthday.png".to_owned())
    }
}

struct FailingAssetUrlResolver;

impl AssetUrlResolver for FailingAssetUrlResolver {
    fn resolve(&self, _object_key: &str) -> Result<String, AssetUrlResolveError> {
        Err(AssetUrlResolveError)
    }
}

fn valid_record() -> ProblemDetailRecord {
    ProblemDetailRecord {
        id: uuid::Uuid::parse_str("22222222-2222-4222-8222-222222222221")
            .expect("fixture problem ID should be valid")
            .as_u128(),
        number: 1,
        problem_type: "small".to_owned(),
        title: "生年月日".to_owned(),
        body_markdown: "問題文です".to_owned(),
        submission_type: "operation_sequence".to_owned(),
        assets: vec![Asset {
            asset_type: "image".to_owned(),
            object_key: "private/problem-assets/birthday.png".to_owned(),
            alt: "問題資料".to_owned(),
        }],
        input_schema: InputSchema {
            query: QueryInputSchema {
                input_type: QueryInputType::OperationSequence,
                allowed_controls: vec!["down".to_owned(), "right".to_owned(), "up".to_owned()],
                max_operations: 100,
            },
            answer: AnswerInputSchema {
                input_type: AnswerInputType::String,
                max_length: 50,
            },
        },
        status: "available".to_owned(),
        hint_count: 2,
    }
}

#[test]
fn public_problem_matches_openapi_fixture() {
    let resolver = RecordingAssetUrlResolver::default();

    let response = build_problem_response(valid_record(), &resolver)
        .expect("valid problem should be projected");

    assert_eq!(response.id, 0x22222222_2222_4222_8222_222222222221u128);
    assert_eq!(response.number, 1);
    assert_eq!(response.r_type, ProblemType::Small);
    assert_eq!(response.title, "生年月日");
    assert_eq!(response.body_markdown, "問題文です");
    assert_eq!(response.submission_type, SubmissionType::OperationSequence);
    assert_eq!(response.assets.len(), 1);
    assert_eq!(response.assets[0].r_type, "image");
    assert_eq!(response.assets[0].url, "/assets/problems/birthday.png");
    assert_eq!(response.assets[0].alt, "問題資料");
    assert_eq!(response.status, ProblemStatus::Available);
    assert_eq!(response.input_schema.query.r_type, "operation_sequence");
    assert_eq!(
        response.input_schema.query.allowed_controls,
        vec!["down".to_owned(), "right".to_owned(), "up".to_owned()]
    );
    assert_eq!(response.input_schema.query.max_operations, 100);
    assert_eq!(response.input_schema.answer.r_type, "string");
    assert_eq!(response.input_schema.answer.max_length, 50);
    assert_eq!(response.hint_count, 2);

    assert_eq!(
        *resolver
            .object_keys
            .lock()
            .expect("resolver call log should not be poisoned"),
        vec!["private/problem-assets/birthday.png".to_owned()],
    );
}

#[test]
fn invalid_stored_type_does_not_expose_its_value() {
    let resolver = RecordingAssetUrlResolver::default();
    let forbidden_value = "private-invalid-problem-type";
    let mut record = valid_record();
    record.problem_type = forbidden_value.to_owned();

    let error = build_problem_response(record, &resolver)
        .expect_err("invalid problem type should be rejected");

    assert!(matches!(
        error,
        ProblemProjectionError::InvalidStoredField {
            field: "problem_type"
        }
    ));
    assert!(!projection_error_message(&error).contains(forbidden_value));
    assert!(!format!("{error:?}").contains(forbidden_value));
}

#[test]
fn invalid_hint_counts_are_rejected() {
    let resolver = RecordingAssetUrlResolver::default();

    for invalid_hint_count in [-1, i64::from(i32::MAX) + 1] {
        let mut record = valid_record();
        record.hint_count = invalid_hint_count;

        let error = build_problem_response(record, &resolver)
            .expect_err("invalid hint count should be rejected");

        assert!(matches!(
            error,
            ProblemProjectionError::InvalidStoredField {
                field: "hint_count"
            }
        ));
    }
}

#[test]
fn resolver_error_does_not_expose_object_key() {
    let forbidden_object_key = "private/problem-assets/do-not-log.png";

    let mut record = valid_record();
    record.assets[0].object_key = forbidden_object_key.to_owned();

    let error = build_problem_response(record, &FailingAssetUrlResolver)
        .expect_err("resolver failure should be returned");

    assert!(matches!(error, ProblemProjectionError::AssetUrl(_)));
    assert!(!projection_error_message(&error).contains(forbidden_object_key));
    assert!(!format!("{error:?}").contains(forbidden_object_key));
}

#[test]
fn unknown_submission_type_and_status_are_rejected_in_order() {
    let resolver = RecordingAssetUrlResolver::default();

    let mut record = valid_record();
    record.submission_type = "image".to_owned();
    record.status = "gone".to_owned();
    let error = build_problem_response(record, &resolver).expect_err("should be rejected");
    assert!(matches!(
        error,
        ProblemProjectionError::InvalidStoredField {
            field: "submission_type"
        }
    ));

    let mut record = valid_record();
    record.status = "gone".to_owned();
    let error = build_problem_response(record, &resolver).expect_err("should be rejected");
    assert!(matches!(
        error,
        ProblemProjectionError::InvalidStoredField { field: "status" }
    ));
    assert_eq!(
        projection_error_message(&error),
        "stored problem field is invalid: status"
    );
}

#[test]
fn hint_count_bounds_are_accepted() {
    let resolver = RecordingAssetUrlResolver::default();
    for hint_count in [0, i64::from(i32::MAX)] {
        let mut record = valid_record();
        record.hint_count = hint_count;
        let response = build_problem_response(record, &resolver).expect("bound should be valid");
        assert_eq!(i64::from(response.hint_count), hint_count);
    }
}

#[test]
fn asset_urls_are_resolved_before_the_hint_count_is_checked() {
    let mut record = valid_record();
    record.hint_count = -1;
    assert!(matches!(
        build_problem_response(record.clone(), &FailingAssetUrlResolver),
        Err(ProblemProjectionError::AssetUrl(_))
    ));
    record.assets.clear();
    assert!(matches!(
        build_problem_response(record, &FailingAssetUrlResolver),
        Err(ProblemProjectionError::InvalidStoredField { field: "hint_count" })
    ));
}

#[test]
fn a_problem_without_assets_needs_no_resolver() {
    let mut record = valid_record();
    record.assets.clear();
    let response = build_problem_response(
        record,
        &UnconfiguredAssetUrlResolver,
    )
    .expect("no URL has to be made");
    assert!(response.assets.is_empty());
    assert_eq!(response.hint_count, 2);
}
