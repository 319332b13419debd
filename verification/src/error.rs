//! The errors that requests end in, and the reply each one gets.
use vstd::prelude::*;

use crate::problem::public::{ProblemProjectionError, projection_error_text};
use crate::problem::query::QueryJudgeError;
use crate::repository::RepositoryError;
use crate::text::concat_str;

verus! {

/// Why a request failed.
#[derive(Debug, PartialEq, Eq)]
pub enum AppError {
    Unauthorized,
    BadRequest(String),
    Conflict(String),
    NotFound(String),
    MethodNotAllowed,
    /// An internal failure; the description of its cause, which is logged and
    /// never sent.
    Internal { source: String },
    RunNotFound,
    ProblemLocked,
    ProblemAlreadyCleared,
    ValidationError,
    /// A refusal with its own status code, error code and message.
    Api { status: u16, code: &'static str, message: String },
}

/// Whether `e` is the refusal with status `status`, error code `code` and
/// message `message`.
pub open spec fn is_api_error(e: AppError, status: u16, code: Seq<char>, message: Seq<char>) -> bool {
    e matches AppError::Api { status: s, code: c, message: m } && s == status && c@ == code && m@
        == message
}

/// The description of a store error.
pub open spec fn repository_error_text(e: RepositoryError) -> Seq<char> {
    match e {
        RepositoryError::Database(_) => "database operation failed"@,
        RepositoryError::UserNotFoundAfterUpsert => "user was not found after get-or-create"@,
        RepositoryError::RunNotFound => "active run was not found"@,
        RepositoryError::ProblemNotFound => "problem was not found in the active run"@,
        RepositoryError::ProblemLocked => "problem is locked"@,
        RepositoryError::ProblemAlreadyCleared => "problem is already cleared"@,
        RepositoryError::InvalidQueryCount => "query count is outside the supported range"@,
        RepositoryError::InvalidLeaderboardRank => "leaderboard rank is outside the supported range"@,
        RepositoryError::EmptyAnswer => "answer is empty after normalization"@,
        RepositoryError::AnswerLengthExceeded => "answer exceeds the configured length limit"@,
        RepositoryError::WrongAnswerSubmissionType => "problem does not accept string answers"@,
        RepositoryError::InvalidStoredAnswerConfig => "stored answer configuration is invalid"@,
        RepositoryError::InvalidAnswerAttemptCount => "answer attempt count is outside the supported range"@,
        RepositoryError::InvalidProgressCount => "progress count is outside the supported range"@,
        RepositoryError::InvalidElapsed => "elapsed duration must not be negative"@,
        RepositoryError::InvalidProblemStatus { status } => "stored problem status is invalid: "@
            + status@,
        RepositoryError::InvalidRunStatus { status } => "stored run status is invalid: "@ + status@,
        RepositoryError::ProblemProgressUpdateConflict => "problem progress update affected an unexpected number of rows"@,
        RepositoryError::RunUpdateConflict => "run update affected an unexpected number of rows"@,
        RepositoryError::InvalidAuthProvider => "stored auth provider is invalid"@,
        RepositoryError::RoomNotFound => "room was not found"@,
        RepositoryError::PublishedRoomImmutable => "published room cannot be modified"@,
        RepositoryError::ProblemNumberConflict => "problem number is already used in the room"@,
        RepositoryError::InvalidProblemDependency => "problem dependency is invalid"@,
    }
}

/// The description of a store error.
pub fn repository_error_message(e: &RepositoryError) -> (r: String)
    ensures
        r@ == repository_error_text(*e),
{
    match e {
        RepositoryError::Database(_) => String::from_str("database operation failed"),
        RepositoryError::UserNotFoundAfterUpsert => String::from_str("user was not found after get-or-create"),
        RepositoryError::RunNotFound => String::from_str("active run was not found"),
        RepositoryError::ProblemNotFound => String::from_str("problem was not found in the active run"),
        RepositoryError::ProblemLocked => String::from_str("problem is locked"),
        RepositoryError::ProblemAlreadyCleared => String::from_str("problem is already cleared"),
        RepositoryError::InvalidQueryCount => String::from_str("query count is outside the supported range"),
        RepositoryError::InvalidLeaderboardRank => String::from_str("leaderboard rank is outside the supported range"),
        RepositoryError::EmptyAnswer => String::from_str("answer is empty after normalization"),
        RepositoryError::AnswerLengthExceeded => String::from_str("answer exceeds the configured length limit"),
        RepositoryError::WrongAnswerSubmissionType => String::from_str("problem does not accept string answers"),
        RepositoryError::InvalidStoredAnswerConfig => String::from_str("stored answer configuration is invalid"),
        RepositoryError::InvalidAnswerAttemptCount => String::from_str("answer attempt count is outside the supported range"),
        RepositoryError::InvalidProgressCount => String::from_str("progress count is outside the supported range"),
        RepositoryError::InvalidElapsed => String::from_str("elapsed duration must not be negative"),
        RepositoryError::InvalidProblemStatus { status } => concat_str("stored problem status is invalid: ", status.as_str()),
        RepositoryError::InvalidRunStatus { status } => concat_str("stored run status is invalid: ", status.as_str()),
        RepositoryError::ProblemProgressUpdateConflict => String::from_str("problem progress update affected an unexpected number of rows"),
        RepositoryError::RunUpdateConflict => String::from_str("run update affected an unexpected number of rows"),
        RepositoryError::InvalidAuthProvider => String::from_str("stored auth provider is invalid"),
        RepositoryError::RoomNotFound => String::from_str("room was not found"),
        RepositoryError::PublishedRoomImmutable => String::from_str("published room cannot be modified"),
        RepositoryError::ProblemNumberConflict => String::from_str("problem number is already used in the room"),
        RepositoryError::InvalidProblemDependency => String::from_str("problem dependency is invalid"),
    }
}

/// The status code, error code and message of the reply to an error.
pub open spec fn reply_of(e: AppError) -> (u16, Seq<char>, Seq<char>) {
    match e {
        AppError::Unauthorized => (401, "UNAUTHORIZED"@, "ログインが必要です"@),
        AppError::BadRequest(m) => (400, "BAD_REQUEST"@, m@),
        AppError::Conflict(m) => (409, "CONFLICT"@, m@),
        AppError::NotFound(m) => (404, "NOT_FOUND"@, m@),
        AppError::MethodNotAllowed => (405, "METHOD_NOT_ALLOWED"@, "method not allowed"@),
        AppError::Internal { .. } => (500, "INTERNAL_SERVER_ERROR"@, "internal server error"@),
        AppError::RunNotFound => (404, "RUN_NOT_FOUND"@, "挑戦中のrunが見つかりません"@),
        AppError::ProblemLocked => (409, "PROBLEM_LOCKED"@, "この問題はまだ解放されていません"@),
        AppError::ProblemAlreadyCleared => (
            409,
            "PROBLEM_ALREADY_CLEARED"@,
            "この問題はすでにクリア済みですわ"@,
        ),
        AppError::ValidationError => (422, "VALIDATION_ERROR"@, "入力内容が正しくありませんわ"@),
        AppError::Api { status, code, message } => (status, code@, message@),
    }
}

impl AppError {
    /// A bad request with `message`.
    pub fn bad_request(message: String) -> (r: AppError)
        ensures
            r == AppError::BadRequest(message),
    {
        AppError::BadRequest(message)
    }

    /// A conflict with `message`.
    pub fn conflict(message: String) -> (r: AppError)
        ensures
            r == AppError::Conflict(message),
    {
        AppError::Conflict(message)
    }

    /// A missing resource described by `message`.
    pub fn not_found(message: String) -> (r: AppError)
        ensures
            r == AppError::NotFound(message),
    {
        AppError::NotFound(message)
    }

    /// The refusal with status `status`, error code `code` and message
    /// `message`.
    pub fn api(status: u16, code: &'static str, message: &str) -> (r: AppError)
        ensures
            is_api_error(r, status, code@, message@),
    {
        AppError::Api { status, code, message: String::from_str(message) }
    }

    /// An internal failure, described by `source`.
    pub fn internal(source: String) -> (r: AppError)
        ensures
            r == (AppError::Internal { source }),
    {
        AppError::Internal { source }
    }

    /// A missing active run.
    pub fn run_not_found() -> (r: AppError)
        ensures
            r == AppError::RunNotFound,
    {
        AppError::RunNotFound
    }

    /// The error a failed store operation ends the request in: missing runs
    /// and problems, locked or cleared problems and refused answers keep
    /// their meaning; anything else is internal.
    pub fn from_repository(error: RepositoryError) -> (r: AppError)
        ensures
            match error {
                RepositoryError::RunNotFound => r == AppError::RunNotFound,
                RepositoryError::ProblemNotFound => r matches AppError::NotFound(m) && m@
                    == "problem not found"@,
                RepositoryError::ProblemLocked => r == AppError::ProblemLocked,
                RepositoryError::ProblemAlreadyCleared => r == AppError::ProblemAlreadyCleared,
                RepositoryError::EmptyAnswer | RepositoryError::AnswerLengthExceeded
                | RepositoryError::WrongAnswerSubmissionType => r == AppError::ValidationError,
                _ => r matches AppError::Internal { source } && source@ == repository_error_text(
                    error,
                ),
            },
    {
        match error {
            RepositoryError::RunNotFound => AppError::RunNotFound,
            RepositoryError::ProblemNotFound => AppError::NotFound(String::from_str("problem not found")),
            RepositoryError::ProblemLocked => AppError::ProblemLocked,
            RepositoryError::ProblemAlreadyCleared => AppError::ProblemAlreadyCleared,
            RepositoryError::EmptyAnswer | RepositoryError::AnswerLengthExceeded
            | RepositoryError::WrongAnswerSubmissionType => AppError::ValidationError,
            _ => AppError::internal(repository_error_message(&error)),
        }
    }

    /// The error a failed projection ends the request in: always internal.
    pub fn from_projection(error: ProblemProjectionError) -> (r: AppError)
        ensures
            r matches AppError::Internal { source } && source@ == projection_error_text(error),
    {
        AppError::Internal { source: crate::problem::public::projection_error_message(&error) }
    }

    /// The error a refused query ends the request in: an invalid stored
    /// configuration is internal, anything else a validation error.
    pub fn from_query(error: QueryJudgeError) -> (r: AppError)
        ensures
            error == QueryJudgeError::InvalidStoredJudgeConfig ==> (r matches AppError::Internal {
                source,
            } && source@ == "stored judge configuration is invalid"@),
            error != QueryJudgeError::InvalidStoredJudgeConfig ==> r == AppError::ValidationError,
    {
        match error {
            QueryJudgeError::InvalidStoredJudgeConfig => AppError::Internal {
                source: String::from_str("stored judge configuration is invalid"),
            },
            _ => AppError::ValidationError,
        }
    }

    /// The status code, error code and message of the reply.
    pub fn reply(&self) -> (r: (u16, &'static str, String))
        ensures
            (r.0, r.1@, r.2@) == reply_of(*self),
    {
        match self {
            AppError::Unauthorized => (401, "UNAUTHORIZED", String::from_str("ログインが必要です")),
            AppError::BadRequest(m) => (400, "BAD_REQUEST", m.clone()),
            AppError::Conflict(m) => (409, "CONFLICT", m.clone()),
            AppError::NotFound(m) => (404, "NOT_FOUND", m.clone()),
            AppError::MethodNotAllowed => (405, "METHOD_NOT_ALLOWED", String::from_str("method not allowed")),
            AppError::Internal { .. } => (500, "INTERNAL_SERVER_ERROR", String::from_str("internal server error")),
            AppError::RunNotFound => (404, "RUN_NOT_FOUND", String::from_str("挑戦中のrunが見つかりません")),
            AppError::ProblemLocked => (409, "PROBLEM_LOCKED", String::from_str("この問題はまだ解放されていません")),
            AppError::ProblemAlreadyCleared => (
                409,
                "PROBLEM_ALREADY_CLEARED",
                String::from_str("この問題はすでにクリア済みですわ"),
            ),
            AppError::ValidationError => (422, "VALIDATION_ERROR", String::from_str("入力内容が正しくありませんわ")),
            AppError::Api { status, code, message } => (*status, *code, message.clone()),
        }
    }
}

} // verus!
