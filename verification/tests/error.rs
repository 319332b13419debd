use server::error::AppError;
use server::problem::public::ProblemProjectionError;
use server::problem::query::QueryJudgeError;
use server::repository::RepositoryError;

#[test]
fn store_errors_keep_their_meaning() {
    assert_eq!(AppError::from_repository(RepositoryError::RunNotFound), AppError::RunNotFound);
    assert_eq!(
        AppError::from_repository(RepositoryError::ProblemNotFound),
        AppError::NotFound("problem not found".to_owned())
    );
    assert_eq!(
        AppError::from_repository(RepositoryError::AnswerLengthExceeded),
        AppError::ValidationError
    );
    assert_eq!(
        AppError::from_repository(RepositoryError::InvalidProblemStatus {
            status: "x".to_owned()
        }),
        AppError::Internal {
            source: "stored problem status is invalid: x".to_owned()
        }
    );
}

#[test]
fn query_and_projection_errors_map() {
    assert_eq!(AppError::from_query(QueryJudgeError::UnknownControl), AppError::ValidationError);
    assert_eq!(
        AppError::from_query(QueryJudgeError::InvalidStoredJudgeConfig),
        AppError::Internal {
            source: "stored judge configuration is invalid".to_owned()
        }
    );
    assert_eq!(
        AppError::from_projection(ProblemProjectionError::InvalidStoredField { field: "status" }),
        AppError::Internal {
            source: "stored problem field is invalid: status".to_owned()
        }
    );
}

#[test]
fn replies_carry_status_code_and_message() {
    assert_eq!(
        AppError::Unauthorized.reply(),
        (401, "UNAUTHORIZED", "ログインが必要です".to_owned())
    );
    assert_eq!(
        AppError::run_not_found().reply(),
        (404, "RUN_NOT_FOUND", "挑戦中のrunが見つかりません".to_owned())
    );
    assert_eq!(
        AppError::ProblemAlreadyCleared.reply(),
        (409, "PROBLEM_ALREADY_CLEARED", "この問題はすでにクリア済みですわ".to_owned())
    );
    assert_eq!(
        AppError::ValidationError.reply(),
        (422, "VALIDATION_ERROR", "入力内容が正しくありませんわ".to_owned())
    );
    assert_eq!(
        AppError::bad_request("bad".to_owned()).reply(),
        (400, "BAD_REQUEST", "bad".to_owned())
    );
    assert_eq!(
        AppError::Internal {
            source: "secret".to_owned()
        }
        .reply(),
        (500, "INTERNAL_SERVER_ERROR", "internal server error".to_owned())
    );
}

#[test]
fn internal_errors_keep_their_cause_and_hide_it() {
    let error = AppError::internal("disk full".to_owned());
    assert_eq!(error, AppError::Internal { source: "disk full".to_owned() });
    assert_eq!(error.reply(), (500, "INTERNAL_SERVER_ERROR", "internal server error".to_owned()));
}
