use server::openapi::{check_xss_string, check_xss_vec_string};
use server::openapi::{
    BestRecord, ErrorResponse, ErrorResponseError, NullValue, Operation, ProblemStatus,
    ProgressStatus, RunStatus, SubmissionType, User, MeDemoUnauthenticated,
};

#[test]
fn constructors_keep_their_fields() {
    let record = BestRecord::new(1_500, 2, 9);
    assert_eq!((record.elapsed_ms, record.rank, record.query_count), (1_500, 2, 9));

    let user = User::new(5, "guest".to_owned());
    assert_eq!(user.id, 5);
    assert_eq!(user.display_name, "guest");

    let me = MeDemoUnauthenticated::new(false, "demo".to_owned(), NullValue, NullValue, NullValue);
    assert!(!me.authenticated);
    assert_eq!(me.auth_mode, "demo");

    let operation = Operation::new("down".to_owned(), 3);
    assert_eq!(operation.count, 3);

    let error = ErrorResponse::new(ErrorResponseError::new(
        "NOT_FOUND".to_owned(),
        "missing".to_owned(),
        serde_json::Value::Object(serde_json::Map::new()),
    ));
    assert_eq!(error.error.code, "NOT_FOUND");
    assert_eq!(error.error.details, serde_json::Value::Object(serde_json::Map::new()));
}

#[test]
fn enum_names_round_trip() {
    for status in [ProblemStatus::Locked, ProblemStatus::Available, ProblemStatus::Cleared] {
        assert_eq!(ProblemStatus::parse(status.as_str()), Ok(status));
    }
    assert_eq!(ProgressStatus::NotStarted.as_str(), "not_started");
    assert_eq!(SubmissionType::parse("operation_sequence"), Ok(SubmissionType::OperationSequence));
    assert_eq!(
        RunStatus::parse("paused"),
        Err("Value not valid: paused".to_owned())
    );
}

#[test]
fn texts_with_html_are_refused() {
    assert!(check_xss_string("plain name").is_ok());
    let refused = check_xss_string("<script>alert(1)</script>").expect_err("html");
    assert_eq!(refused.code, "xss detected");
    assert!(check_xss_string("<b>bold</b>").is_err());
    assert!(check_xss_vec_string(&vec!["one".to_owned(), "two".to_owned()]).is_ok());
    assert!(check_xss_vec_string(&vec!["one".to_owned(), "<i>two</i>".to_owned()]).is_err());
    assert!(check_xss_vec_string(&vec![]).is_ok());
}
