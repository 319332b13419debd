//! The request and reply bodies of the HTTP API.
//!
//! UUIDs are held as their 128-bit value.
use vstd::prelude::*;

use crate::form::{
    bool_string,
    bool_text,
    i32_text,
    join_commas,
    join_with_commas,
    signed_decimal,
    u64_text,
};
use crate::game_progress::Instant;
pub use crate::problem::model::Operation;
use crate::problem::judge::strings_value;
use crate::text::{concat_str, decimal};

verus! {

/// The JSON value type of `serde_json`, carried as the details of an error.
#[verifier::external_type_specification]
#[verifier::external_body]
pub struct ExJsonValue(serde_json::Value);

/// A field that is always JSON `null`.
#[derive(Clone, Copy, Debug, PartialEq, Eq, Structural)]
pub struct NullValue;

impl NullValue {
    /// The value whose text is `s`: only `null` names it.
    pub open spec fn from_name(s: Seq<char>) -> Option<NullValue> {
        if s == "null"@ {
            Some(NullValue)
        } else {
            None
        }
    }

    /// Reads `null`; otherwise "Value not valid: " and `s`.
    pub fn parse(s: &str) -> (r: Result<NullValue, String>)
        ensures
            match NullValue::from_name(s@) {
                Some(v) => r == Ok::<NullValue, String>(v),
                None => r matches Err(m) && m@ == "Value not valid: "@ + s@,
            },
    {
        if crate::text::str_eq(s, "null") {
            return Ok(NullValue);
        }
        Err(crate::text::concat_str("Value not valid: ", s))
    }
}

impl std::str::FromStr for NullValue {
    type Err = String;

    fn from_str(s: &str) -> (r: Result<NullValue, String>)
        ensures
            match NullValue::from_name(s@) {
                Some(v) => r == Ok::<NullValue, String>(v),
                None => r matches Err(m) && m@ == "Value not valid: "@ + s@,
            },
    {
        NullValue::parse(s)
    }
}

/// A field that is present but may be JSON `null`.
#[derive(Clone, Debug, PartialEq)]
pub enum Nullable<T> {
    Null,
    Present(T),
}


/// Whether a problem is locked, available or cleared for a user.
#[derive(Clone, Copy, Debug, PartialEq, Eq, Structural)]
pub enum ProblemStatus {
    Locked,
    Available,
    Cleared,
}

impl ProblemStatus {
    /// The wire name of this value.
    pub open spec fn name_of(self) -> Seq<char> {
        match self {
            ProblemStatus::Locked => "locked"@,
            ProblemStatus::Available => "available"@,
            ProblemStatus::Cleared => "cleared"@,
        }
    }

    /// The wire name of this value.
    pub fn as_str(&self) -> (r: &'static str)
        ensures
            r@ == self.name_of(),
    {
        match self {
            ProblemStatus::Locked => "locked",
            ProblemStatus::Available => "available",
            ProblemStatus::Cleared => "cleared",
        }
    }

    /// The value whose wire name is `s`.
    pub open spec fn from_name(s: Seq<char>) -> Option<ProblemStatus> {
        if s == "locked"@ {
            Some(ProblemStatus::Locked)
        } else if s == "available"@ {
            Some(ProblemStatus::Available)
        } else if s == "cleared"@ {
            Some(ProblemStatus::Cleared)
        } else {
            None
        }
    }

    /// The value whose wire name is `s`; otherwise "Value not valid: " and `s`.
    pub fn parse(s: &str) -> (r: Result<ProblemStatus, String>)
        ensures
            match ProblemStatus::from_name(s@) {
                Some(v) => r == Ok::<ProblemStatus, String>(v),
                None => r matches Err(m) && m@ == "Value not valid: "@ + s@,
            },
    {
        if crate::text::str_eq(s, "locked") {
            return Ok(ProblemStatus::Locked);
        }
        if crate::text::str_eq(s, "available") {
            return Ok(ProblemStatus::Available);
        }
        if crate::text::str_eq(s, "cleared") {
            return Ok(ProblemStatus::Cleared);
        }
        Err(concat_str("Value not valid: ", s))
    }
}

impl std::str::FromStr for ProblemStatus {
    type Err = String;

    fn from_str(s: &str) -> (r: Result<ProblemStatus, String>)
        ensures
            match ProblemStatus::from_name(s@) {
                Some(v) => r == Ok::<ProblemStatus, String>(v),
                None => r matches Err(m) && m@ == "Value not valid: "@ + s@,
            },
    {
        ProblemStatus::parse(s)
    }
}

/// Whether a problem is a small problem or a room's final one.
#[derive(Clone, Copy, Debug, PartialEq, Eq, Structural)]
pub enum ProblemType {
    Small,
    Final,
}

impl ProblemType {
    /// The wire name of this value.
    pub open spec fn name_of(self) -> Seq<char> {
        match self {
            ProblemType::Small => "small"@,
            ProblemType::Final => "final"@,
        }
    }

    /// The wire name of this value.
    pub fn as_str(&self) -> (r: &'static str)
        ensures
            r@ == self.name_of(),
    {
        match self {
            ProblemType::Small => "small",
            ProblemType::Final => "final",
        }
    }

    /// The value whose wire name is `s`.
    pub open spec fn from_name(s: Seq<char>) -> Option<ProblemType> {
        if s == "small"@ {
            Some(ProblemType::Small)
        } else if s == "final"@ {
            Some(ProblemType::Final)
        } else {
            None
        }
    }

    /// The value whose wire name is `s`; otherwise "Value not valid: " and `s`.
    pub fn parse(s: &str) -> (r: Result<ProblemType, String>)
        ensures
            match ProblemType::from_name(s@) {
                Some(v) => r == Ok::<ProblemType, String>(v),
                None => r matches Err(m) && m@ == "Value not valid: "@ + s@,
            },
    {
        if crate::text::str_eq(s, "small") {
            return Ok(ProblemType::Small);
        }
        if crate::text::str_eq(s, "final") {
            return Ok(ProblemType::Final);
        }
        Err(concat_str("Value not valid: ", s))
    }
}

impl std::str::FromStr for ProblemType {
    type Err = String;

    fn from_str(s: &str) -> (r: Result<ProblemType, String>)
        ensures
            match ProblemType::from_name(s@) {
                Some(v) => r == Ok::<ProblemType, String>(v),
                None => r matches Err(m) && m@ == "Value not valid: "@ + s@,
            },
    {
        ProblemType::parse(s)
    }
}

/// Whether a user has not started, is working on, or has cleared a room.
#[derive(Clone, Copy, Debug, PartialEq, Eq, Structural)]
pub enum ProgressStatus {
    NotStarted,
    Active,
    Cleared,
}

impl ProgressStatus {
    /// The wire name of this value.
    pub open spec fn name_of(self) -> Seq<char> {
        match self {
            ProgressStatus::NotStarted => "not_started"@,
            ProgressStatus::Active => "active"@,
            ProgressStatus::Cleared => "cleared"@,
        }
    }

    /// The wire name of this value.
    pub fn as_str(&self) -> (r: &'static str)
        ensures
            r@ == self.name_of(),
    {
        match self {
            ProgressStatus::NotStarted => "not_started",
            ProgressStatus::Active => "active",
            ProgressStatus::Cleared => "cleared",
        }
    }

    /// The value whose wire name is `s`.
    pub open spec fn from_name(s: Seq<char>) -> Option<ProgressStatus> {
        if s == "not_started"@ {
            Some(ProgressStatus::NotStarted)
        } else if s == "active"@ {
            Some(ProgressStatus::Active)
        } else if s == "cleared"@ {
            Some(ProgressStatus::Cleared)
        } else {
            None
        }
    }

    /// The value whose wire name is `s`; otherwise "Value not valid: " and `s`.
    pub fn parse(s: &str) -> (r: Result<ProgressStatus, String>)
        ensures
            match ProgressStatus::from_name(s@) {
                Some(v) => r == Ok::<ProgressStatus, String>(v),
                None => r matches Err(m) && m@ == "Value not valid: "@ + s@,
            },
    {
        if crate::text::str_eq(s, "not_started") {
            return Ok(ProgressStatus::NotStarted);
        }
        if crate::text::str_eq(s, "active") {
            return Ok(ProgressStatus::Active);
        }
        if crate::text::str_eq(s, "cleared") {
            return Ok(ProgressStatus::Cleared);
        }
        Err(concat_str("Value not valid: ", s))
    }
}

impl std::str::FromStr for ProgressStatus {
    type Err = String;

    fn from_str(s: &str) -> (r: Result<ProgressStatus, String>)
        ensures
            match ProgressStatus::from_name(s@) {
                Some(v) => r == Ok::<ProgressStatus, String>(v),
                None => r matches Err(m) && m@ == "Value not valid: "@ + s@,
            },
    {
        ProgressStatus::parse(s)
    }
}

/// Whether a run is active or cleared.
#[derive(Clone, Copy, Debug, PartialEq, Eq, Structural)]
pub enum RunStatus {
    Active,
    Cleared,
}

impl RunStatus {
    /// The wire name of this value.
    pub open spec fn name_of(self) -> Seq<char> {
        match self {
            RunStatus::Active => "active"@,
            RunStatus::Cleared => "cleared"@,
        }
    }

    /// The wire name of this value.
    pub fn as_str(&self) -> (r: &'static str)
        ensures
            r@ == self.name_of(),
    {
        match self {
            RunStatus::Active => "active",
            RunStatus::Cleared => "cleared",
        }
    }

    /// The value whose wire name is `s`.
    pub open spec fn from_name(s: Seq<char>) -> Option<RunStatus> {
        if s == "active"@ {
            Some(RunStatus::Active)
        } else if s == "cleared"@ {
            Some(RunStatus::Cleared)
        } else {
            None
        }
    }

    /// The value whose wire name is `s`; otherwise "Value not valid: " and `s`.
    pub fn parse(s: &str) -> (r: Result<RunStatus, String>)
        ensures
            match RunStatus::from_name(s@) {
                Some(v) => r == Ok::<RunStatus, String>(v),
                None => r matches Err(m) && m@ == "Value not valid: "@ + s@,
            },
    {
        if crate::text::str_eq(s, "active") {
            return Ok(RunStatus::Active);
        }
        if crate::text::str_eq(s, "cleared") {
            return Ok(RunStatus::Cleared);
        }
        Err(concat_str("Value not valid: ", s))
    }
}

impl std::str::FromStr for RunStatus {
    type Err = String;

    fn from_str(s: &str) -> (r: Result<RunStatus, String>)
        ensures
            match RunStatus::from_name(s@) {
                Some(v) => r == Ok::<RunStatus, String>(v),
                None => r matches Err(m) && m@ == "Value not valid: "@ + s@,
            },
    {
        RunStatus::parse(s)
    }
}

/// What a problem accepts as its submission.
#[derive(Clone, Copy, Debug, PartialEq, Eq, Structural)]
pub enum SubmissionType {
    OperationSequence,
    String,
}

impl SubmissionType {
    /// The wire name of this value.
    pub open spec fn name_of(self) -> Seq<char> {
        match self {
            SubmissionType::OperationSequence => "operation_sequence"@,
            SubmissionType::String => "string"@,
        }
    }

    /// The wire name of this value.
    pub fn as_str(&self) -> (r: &'static str)
        ensures
            r@ == self.name_of(),
    {
        match self {
            SubmissionType::OperationSequence => "operation_sequence",
            SubmissionType::String => "string",
        }
    }

    /// The value whose wire name is `s`.
    pub open spec fn from_name(s: Seq<char>) -> Option<SubmissionType> {
        if s == "operation_sequence"@ {
            Some(SubmissionType::OperationSequence)
        } else if s == "string"@ {
            Some(SubmissionType::String)
        } else {
            None
        }
    }

    /// The value whose wire name is `s`; otherwise "Value not valid: " and `s`.
    pub fn parse(s: &str) -> (r: Result<SubmissionType, String>)
        ensures
            match SubmissionType::from_name(s@) {
                Some(v) => r == Ok::<SubmissionType, String>(v),
                None => r matches Err(m) && m@ == "Value not valid: "@ + s@,
            },
    {
        if crate::text::str_eq(s, "operation_sequence") {
            return Ok(SubmissionType::OperationSequence);
        }
        if crate::text::str_eq(s, "string") {
            return Ok(SubmissionType::String);
        }
        Err(concat_str("Value not valid: ", s))
    }
}

impl std::str::FromStr for SubmissionType {
    type Err = String;

    fn from_str(s: &str) -> (r: Result<SubmissionType, String>)
        ensures
            match SubmissionType::from_name(s@) {
                Some(v) => r == Ok::<SubmissionType, String>(v),
                None => r matches Err(m) && m@ == "Value not valid: "@ + s@,
            },
    {
        SubmissionType::parse(s)
    }
}

/// Why a field's value was refused.
#[derive(Clone, Debug, PartialEq, Eq)]
pub struct ValidationError {
    /// What was found.
    pub code: &'static str,
}

/// Whether `ammonia::is_html` finds HTML syntax in the text `s`.
pub uninterp spec fn is_html_of(s: Seq<char>) -> bool;

/// Asks `ammonia::is_html` whether `input` holds HTML syntax: it tokenizes
/// the text as HTML and reports whether any markup was met.
///
/// Trusted: the answer is a function of the text alone, named `is_html_of`.
#[verifier::external_body]
fn is_html(input: &str) -> (r: bool)
    ensures
        r == is_html_of(input@),
{
    ammonia::is_html(input)
}

/// Refuses a text that holds HTML syntax.
pub fn check_xss_string(v: &str) -> (r: Result<(), ValidationError>)
    ensures
        is_html_of(v@) ==> (r matches Err(e) && e.code@ == "xss detected"@),
        !is_html_of(v@) ==> r is Ok,
{
    if is_html(v) {
        Err(ValidationError { code: "xss detected" })
    } else {
        Ok(())
    }
}

/// Refuses a list of texts of which any holds HTML syntax.
pub fn check_xss_vec_string(v: &Vec<String>) -> (r: Result<(), ValidationError>)
    ensures
        (exists|i: int| 0 <= i < v@.len() && is_html_of(#[trigger] v@[i]@)) ==> (r matches Err(e)
            && e.code@ == "xss detected"@),
        (forall|i: int| 0 <= i < v@.len() ==> !is_html_of(#[trigger] v@[i]@)) ==> r is Ok,
{
    let n = v.len();
    for i in 0..n
        invariant
            n == v@.len(),
            forall|j: int| 0 <= j < i ==> !is_html_of(#[trigger] v@[j]@),
    {
        if is_html(v[i].as_str()) {
            return Err(ValidationError { code: "xss detected" });
        }
    }
    Ok(())
}

/// The path parameters of submitting an answer.
#[derive(Clone, Copy, Debug, PartialEq, Eq, Structural)]
pub struct SubmitAnswerPathParams {
    pub room_id: u128,
    pub problem_id: u128,
}

/// The path parameters of showing a problem.
#[derive(Clone, Copy, Debug, PartialEq, Eq, Structural)]
pub struct GetProblemPathParams {
    pub room_id: u128,
    pub problem_id: u128,
}

/// The path parameters of showing a hint; the level starts at 1.
#[derive(Clone, Copy, Debug, PartialEq, Eq, Structural)]
pub struct GetProblemHintPathParams {
    pub room_id: u128,
    pub problem_id: u128,
    pub level: u32,
}

/// The path parameters of submitting a query.
#[derive(Clone, Copy, Debug, PartialEq, Eq, Structural)]
pub struct SubmitQueryPathParams {
    pub room_id: u128,
    pub problem_id: u128,
}

/// The path parameters of showing the current run.
#[derive(Clone, Copy, Debug, PartialEq, Eq, Structural)]
pub struct GetCurrentRunPathParams {
    pub room_id: u128,
}

/// The path parameters of starting or resuming a run.
#[derive(Clone, Copy, Debug, PartialEq, Eq, Structural)]
pub struct StartOrResumeRunPathParams {
    pub room_id: u128,
}

/// The run a player is in, with the time since it started and the problems
/// cleared so far.
#[derive(Clone, Debug, PartialEq)]
pub struct ActiveRunResponse {
    pub status: String,
    pub started_at: Instant,
    pub elapsed_ms: u64,
    pub cleared_problem_ids: Vec<u128>,
}

impl ActiveRunResponse {
    /// A value with the given fields.
    pub fn new(status: String, started_at: Instant, elapsed_ms: u64, cleared_problem_ids: Vec<u128>) -> (r: ActiveRunResponse)
        ensures
            r.status == status,
            r.started_at == started_at,
            r.elapsed_ms == elapsed_ms,
            r.cleared_problem_ids == cleared_problem_ids,
    {
        ActiveRunResponse { status, started_at, elapsed_ms, cleared_problem_ids }
    }
}

/// The answer part of a problem's input schema.
#[derive(Clone, Debug, PartialEq)]
pub struct AnswerInputSchema {
    pub r_type: String,
    pub max_length: i32,
}

impl AnswerInputSchema {
    /// A value with the given fields.
    pub fn new(r_type: String, max_length: i32) -> (r: AnswerInputSchema)
        ensures
            r.r_type == r_type,
            r.max_length == max_length,
    {
        AnswerInputSchema { r_type, max_length }
    }
}

/// A submitted answer.
#[derive(Clone, Debug, PartialEq)]
pub struct AnswerRequest {
    pub answer: String,
}

impl AnswerRequest {
    /// A value with the given fields.
    pub fn new(answer: String) -> (r: AnswerRequest)
        ensures
            r.answer == answer,
    {
        AnswerRequest { answer }
    }
}

/// An asset of a problem as shown to players.
#[derive(Clone, Debug, PartialEq)]
pub struct Asset {
    pub r_type: String,
    pub url: String,
    pub alt: String,
}

impl Asset {
    /// A value with the given fields.
    pub fn new(r_type: String, url: String, alt: String) -> (r: Asset)
        ensures
            r.r_type == r_type,
            r.url == url,
            r.alt == alt,
    {
        Asset { r_type, url, alt }
    }
}

/// A user's best cleared run of a room.
#[derive(Clone, Debug, PartialEq)]
pub struct BestRecord {
    pub elapsed_ms: u64,
    pub rank: u32,
    pub query_count: u64,
}

impl BestRecord {
    /// A value with the given fields.
    pub fn new(elapsed_ms: u64, rank: u32, query_count: u64) -> (r: BestRecord)
        ensures
            r.elapsed_ms == elapsed_ms,
            r.rank == rank,
            r.query_count == query_count,
    {
        BestRecord { elapsed_ms, rank, query_count }
    }
}

/// The reply to a correct answer.
#[derive(Clone, Debug, PartialEq)]
pub struct CorrectAnswerResponse {
    pub correct: bool,
    pub problem_status: String,
    pub unlocked_problem_ids: Vec<u128>,
    pub run_status: RunStatus,
    pub progress: Progress,
    pub elapsed_ms: u64,
}

impl CorrectAnswerResponse {
    /// A value with the given fields.
    pub fn new(correct: bool, problem_status: String, unlocked_problem_ids: Vec<u128>, run_status: RunStatus, progress: Progress, elapsed_ms: u64) -> (r: CorrectAnswerResponse)
        ensures
            r.correct == correct,
            r.problem_status == problem_status,
            r.unlocked_problem_ids == unlocked_problem_ids,
            r.run_status == run_status,
            r.progress == progress,
            r.elapsed_ms == elapsed_ms,
    {
        CorrectAnswerResponse { correct, problem_status, unlocked_problem_ids, run_status, progress, elapsed_ms }
    }
}

/// The reply to a query that matches the correct operations.
#[derive(Clone, Debug, PartialEq)]
pub struct CorrectQueryResponse {
    pub query_id: u128,
    pub correct: bool,
    pub normalized_operations: Vec<Operation>,
    pub remaining_pattern_count: i32,
    pub query_count: u64,
    pub problem_status: String,
}

impl CorrectQueryResponse {
    /// A value with the given fields.
    pub fn new(query_id: u128, correct: bool, normalized_operations: Vec<Operation>, remaining_pattern_count: i32, query_count: u64, problem_status: String) -> (r: CorrectQueryResponse)
        ensures
            r.query_id == query_id,
            r.correct == correct,
            r.normalized_operations == normalized_operations,
            r.remaining_pattern_count == remaining_pattern_count,
            r.query_count == query_count,
            r.problem_status == problem_status,
    {
        CorrectQueryResponse { query_id, correct, normalized_operations, remaining_pattern_count, query_count, problem_status }
    }
}

/// The body of every error reply.
#[derive(Debug)]
pub struct ErrorResponse {
    pub error: ErrorResponseError,
}

impl ErrorResponse {
    /// A value with the given fields.
    pub fn new(error: ErrorResponseError) -> (r: ErrorResponse)
        ensures
            r.error == error,
    {
        ErrorResponse { error }
    }
}

/// The error of an error reply: a code, a message and details.
#[derive(Debug)]
pub struct ErrorResponseError {
    pub code: String,
    pub message: String,
    pub details: serde_json::Value,
}

impl ErrorResponseError {
    /// A value with the given fields.
    pub fn new(code: String, message: String, details: serde_json::Value) -> (r: ErrorResponseError)
        ensures
            r.code == code,
            r.message == message,
            r.details == details,
    {
        ErrorResponseError { code, message, details }
    }
}

/// A guest login.
#[derive(Clone, Debug, PartialEq)]
pub struct GuestLoginRequest {
    pub display_name: String,
}

impl GuestLoginRequest {
    /// A value with the given fields.
    pub fn new(display_name: String) -> (r: GuestLoginRequest)
        ensures
            r.display_name == display_name,
    {
        GuestLoginRequest { display_name }
    }
}

/// The reply to a guest login.
#[derive(Clone, Debug, PartialEq)]
pub struct GuestLoginResponse {
    pub authenticated: bool,
    pub user: User,
}

impl GuestLoginResponse {
    /// A value with the given fields.
    pub fn new(authenticated: bool, user: User) -> (r: GuestLoginResponse)
        ensures
            r.authenticated == authenticated,
            r.user == user,
    {
        GuestLoginResponse { authenticated, user }
    }
}

/// The reply to an incorrect answer.
#[derive(Clone, Debug, PartialEq)]
pub struct IncorrectAnswerResponse {
    pub correct: bool,
    pub answer_attempt_count: i32,
    pub problem_status: String,
    pub run_status: String,
}

impl IncorrectAnswerResponse {
    /// A value with the given fields.
    pub fn new(correct: bool, answer_attempt_count: i32, problem_status: String, run_status: String) -> (r: IncorrectAnswerResponse)
        ensures
            r.correct == correct,
            r.answer_attempt_count == answer_attempt_count,
            r.problem_status == problem_status,
            r.run_status == run_status,
    {
        IncorrectAnswerResponse { correct, answer_attempt_count, problem_status, run_status }
    }
}

/// The reply to a query that does not match the correct operations.
#[derive(Clone, Debug, PartialEq)]
pub struct IncorrectQueryResponse {
    pub query_id: u128,
    pub correct: bool,
    pub normalized_operations: Vec<Operation>,
    pub remaining_pattern_count: i32,
    pub query_count: u64,
    pub problem_status: String,
}

impl IncorrectQueryResponse {
    /// A value with the given fields.
    pub fn new(query_id: u128, correct: bool, normalized_operations: Vec<Operation>, remaining_pattern_count: i32, query_count: u64, problem_status: String) -> (r: IncorrectQueryResponse)
        ensures
            r.query_id == query_id,
            r.correct == correct,
            r.normalized_operations == normalized_operations,
            r.remaining_pattern_count == remaining_pattern_count,
            r.query_count == query_count,
            r.problem_status == problem_status,
    {
        IncorrectQueryResponse { query_id, correct, normalized_operations, remaining_pattern_count, query_count, problem_status }
    }
}

/// `/me` in demo mode, signed in.
#[derive(Clone, Debug, PartialEq)]
pub struct MeDemoAuthenticated {
    pub authenticated: bool,
    pub auth_mode: String,
    pub user: User,
    pub login_url: NullValue,
    pub logout_url: NullValue,
}

impl MeDemoAuthenticated {
    /// A value with the given fields.
    pub fn new(authenticated: bool, auth_mode: String, user: User, login_url: NullValue, logout_url: NullValue) -> (r: MeDemoAuthenticated)
        ensures
            r.authenticated == authenticated,
            r.auth_mode == auth_mode,
            r.user == user,
            r.login_url == login_url,
            r.logout_url == logout_url,
    {
        MeDemoAuthenticated { authenticated, auth_mode, user, login_url, logout_url }
    }
}

/// `/me` in demo mode, signed out.
#[derive(Clone, Debug, PartialEq)]
pub struct MeDemoUnauthenticated {
    pub authenticated: bool,
    pub auth_mode: String,
    pub user: NullValue,
    pub login_url: NullValue,
    pub logout_url: NullValue,
}

impl MeDemoUnauthenticated {
    /// A value with the given fields.
    pub fn new(authenticated: bool, auth_mode: String, user: NullValue, login_url: NullValue, logout_url: NullValue) -> (r: MeDemoUnauthenticated)
        ensures
            r.authenticated == authenticated,
            r.auth_mode == auth_mode,
            r.user == user,
            r.login_url == login_url,
            r.logout_url == logout_url,
    {
        MeDemoUnauthenticated { authenticated, auth_mode, user, login_url, logout_url }
    }
}

/// `/me` behind NeoShowcase, signed in.
#[derive(Clone, Debug, PartialEq)]
pub struct MeNeoshowcaseAuthenticated {
    pub authenticated: bool,
    pub auth_mode: String,
    pub user: User,
    pub login_url: NullValue,
    pub logout_url: String,
}

impl MeNeoshowcaseAuthenticated {
    /// A value with the given fields.
    pub fn new(authenticated: bool, auth_mode: String, user: User, login_url: NullValue, logout_url: String) -> (r: MeNeoshowcaseAuthenticated)
        ensures
            r.authenticated == authenticated,
            r.auth_mode == auth_mode,
            r.user == user,
            r.login_url == login_url,
            r.logout_url == logout_url,
    {
        MeNeoshowcaseAuthenticated { authenticated, auth_mode, user, login_url, logout_url }
    }
}

/// `/me` behind NeoShowcase, signed out.
#[derive(Clone, Debug, PartialEq)]
pub struct MeNeoshowcaseUnauthenticated {
    pub authenticated: bool,
    pub auth_mode: String,
    pub user: NullValue,
    pub login_url: String,
    pub logout_url: NullValue,
}

impl MeNeoshowcaseUnauthenticated {
    /// A value with the given fields.
    pub fn new(authenticated: bool, auth_mode: String, user: NullValue, login_url: String, logout_url: NullValue) -> (r: MeNeoshowcaseUnauthenticated)
        ensures
            r.authenticated == authenticated,
            r.auth_mode == auth_mode,
            r.user == user,
            r.login_url == login_url,
            r.logout_url == logout_url,
    {
        MeNeoshowcaseUnauthenticated { authenticated, auth_mode, user, login_url, logout_url }
    }
}

/// One hint of a problem.
#[derive(Clone, Debug, PartialEq)]
pub struct ProblemHintResponse {
    pub level: i32,
    pub body_markdown: String,
}

impl ProblemHintResponse {
    /// A value with the given fields.
    pub fn new(level: i32, body_markdown: String) -> (r: ProblemHintResponse)
        ensures
            r.level == level,
            r.body_markdown == body_markdown,
    {
        ProblemHintResponse { level, body_markdown }
    }
}

/// The input schema of a problem.
#[derive(Clone, Debug, PartialEq)]
pub struct ProblemInputSchema {
    pub query: QueryInputSchema,
    pub answer: AnswerInputSchema,
}

impl ProblemInputSchema {
    /// A value with the given fields.
    pub fn new(query: QueryInputSchema, answer: AnswerInputSchema) -> (r: ProblemInputSchema)
        ensures
            r.query == query,
            r.answer == answer,
    {
        ProblemInputSchema { query, answer }
    }
}

/// A problem as shown to players.
#[derive(Clone, Debug, PartialEq)]
pub struct ProblemResponse {
    pub id: u128,
    pub number: i32,
    pub r_type: ProblemType,
    pub title: String,
    pub body_markdown: String,
    pub submission_type: SubmissionType,
    pub assets: Vec<Asset>,
    pub status: ProblemStatus,
    pub input_schema: ProblemInputSchema,
    pub hint_count: i32,
}

impl ProblemResponse {
    /// A value with the given fields.
    pub fn new(id: u128, number: i32, r_type: ProblemType, title: String, body_markdown: String, submission_type: SubmissionType, assets: Vec<Asset>, status: ProblemStatus, input_schema: ProblemInputSchema, hint_count: i32) -> (r: ProblemResponse)
        ensures
            r.id == id,
            r.number == number,
            r.r_type == r_type,
            r.title == title,
            r.body_markdown == body_markdown,
            r.submission_type == submission_type,
            r.assets == assets,
            r.status == status,
            r.input_schema == input_schema,
            r.hint_count == hint_count,
    {
        ProblemResponse { id, number, r_type, title, body_markdown, submission_type, assets, status, input_schema, hint_count }
    }
}

/// A user's progress in a room.
#[derive(Clone, Debug, PartialEq)]
pub struct Progress {
    pub status: ProgressStatus,
    pub cleared_count: u32,
    pub required_count: u32,
}

impl Progress {
    /// A value with the given fields.
    pub fn new(status: ProgressStatus, cleared_count: u32, required_count: u32) -> (r: Progress)
        ensures
            r.status == status,
            r.cleared_count == cleared_count,
            r.required_count == required_count,
    {
        Progress { status, cleared_count, required_count }
    }
}

/// The query part of a problem's input schema.
#[derive(Clone, Debug, PartialEq)]
pub struct QueryInputSchema {
    pub r_type: String,
    pub allowed_controls: Vec<String>,
    pub max_operations: i32,
}

impl QueryInputSchema {
    /// A value with the given fields.
    pub fn new(r_type: String, allowed_controls: Vec<String>, max_operations: i32) -> (r: QueryInputSchema)
        ensures
            r.r_type == r_type,
            r.allowed_controls == allowed_controls,
            r.max_operations == max_operations,
    {
        QueryInputSchema { r_type, allowed_controls, max_operations }
    }
}

/// A submitted query.
#[derive(Clone, Debug, PartialEq)]
pub struct QueryRequest {
    pub source: String,
    pub operations: Vec<Operation>,
}

impl QueryRequest {
    /// A value with the given fields.
    pub fn new(source: String, operations: Vec<Operation>) -> (r: QueryRequest)
        ensures
            r.source == source,
            r.operations == operations,
    {
        QueryRequest { source, operations }
    }
}

/// A room in the room list.
#[derive(Clone, Debug, PartialEq)]
pub struct RoomItem {
    pub room_id: u128,
    pub number: u32,
    pub name: String,
    pub genre: String,
    pub description: String,
    pub problem_count: u32,
    pub progress: Progress,
    pub best_record: Nullable<BestRecord>,
}

impl RoomItem {
    /// A value with the given fields.
    pub fn new(room_id: u128, number: u32, name: String, genre: String, description: String, problem_count: u32, progress: Progress, best_record: Nullable<BestRecord>) -> (r: RoomItem)
        ensures
            r.room_id == room_id,
            r.number == number,
            r.name == name,
            r.genre == genre,
            r.description == description,
            r.problem_count == problem_count,
            r.progress == progress,
            r.best_record == best_record,
    {
        RoomItem { room_id, number, name, genre, description, problem_count, progress, best_record }
    }
}

/// The room list.
#[derive(Clone, Debug, PartialEq)]
pub struct RoomsResponse {
    pub items: Vec<RoomItem>,
}

impl RoomsResponse {
    /// A value with the given fields.
    pub fn new(items: Vec<RoomItem>) -> (r: RoomsResponse)
        ensures
            r.items == items,
    {
        RoomsResponse { items }
    }
}

/// A user as shown to players.
#[derive(Clone, Debug, PartialEq)]
pub struct User {
    pub id: u128,
    pub display_name: String,
}

impl User {
    /// A value with the given fields.
    pub fn new(id: u128, display_name: String) -> (r: User)
        ensures
            r.id == id,
            r.display_name == display_name,
    {
        User { id, display_name }
    }
}

/// A hint of a problem being authored.
#[derive(Clone, Debug, PartialEq)]
pub struct CreateProblemHint {
    pub body_markdown: String,
}

/// A candidate pattern of an operation-sequence problem being authored.
#[derive(Clone, Debug, PartialEq)]
pub struct CreateCandidate {
    pub candidate_id: String,
    pub operations: Vec<Operation>,
}

/// The judge configuration of an operation-sequence problem being authored.
#[derive(Clone, Debug, PartialEq)]
pub struct CreateOperationSequenceJudgeConfig {
    pub r_type: String,
    pub correct_operations: Vec<Operation>,
    pub candidates: Vec<CreateCandidate>,
}

/// How the answer of a string problem being authored is normalized.
#[derive(Clone, Debug, PartialEq)]
pub struct CreateStringNormalization {
    pub unicode: String,
    pub trim_outer_whitespace: bool,
    pub collapse_internal_whitespace: bool,
    pub case_sensitive: bool,
}

/// The judge configuration of a string problem being authored.
#[derive(Clone, Debug, PartialEq)]
pub struct CreateStringJudgeConfig {
    pub r_type: String,
    pub accepted_answer: String,
    pub normalization: CreateStringNormalization,
}

/// The judge configuration of a problem being authored.
#[derive(Clone, Debug, PartialEq)]
pub enum CreateProblemJudgeConfig {
    CreateOperationSequenceJudgeConfig(CreateOperationSequenceJudgeConfig),
    CreateStringJudgeConfig(CreateStringJudgeConfig),
}

/// A problem to be created.
#[derive(Clone, Debug, PartialEq)]
pub struct CreateProblemRequest {
    pub number: i64,
    pub problem_type: ProblemType,
    pub title: String,
    pub body_markdown: String,
    pub submission_type: SubmissionType,
    pub input_schema: ProblemInputSchema,
    pub hints: Vec<CreateProblemHint>,
    pub judge_config: CreateProblemJudgeConfig,
    pub depends_on_problem_id: Nullable<u128>,
    pub is_required: bool,
}


/// The reply to an answer.
#[derive(Clone, Debug, PartialEq)]
pub enum AnswerResponse {
    IncorrectAnswerResponse(IncorrectAnswerResponse),
    CorrectAnswerResponse(CorrectAnswerResponse),
}

/// The reply to `/me`.
#[derive(Clone, Debug, PartialEq)]
pub enum MeResponse {
    MeNeoshowcaseAuthenticated(MeNeoshowcaseAuthenticated),
    MeNeoshowcaseUnauthenticated(MeNeoshowcaseUnauthenticated),
    MeDemoAuthenticated(MeDemoAuthenticated),
    MeDemoUnauthenticated(MeDemoUnauthenticated),
}

/// The reply to a query.
#[derive(Clone, Debug, PartialEq)]
pub enum QueryResponse {
    IncorrectQueryResponse(IncorrectQueryResponse),
    CorrectQueryResponse(CorrectQueryResponse),
}

impl ActiveRunResponse {
    /// The query-parameter form of the value: the pairs of its plain fields,
    /// joined by commas.
    pub open spec fn form_text(&self) -> Seq<char> {
        join_commas(seq!["status"@, self.status@, "elapsed_ms"@, decimal(self.elapsed_ms as nat)])
    }

    /// The query-parameter form of the value: the pairs of its plain fields,
    /// joined by commas.
    pub fn to_string(&self) -> (r: String)
        ensures
            r@ == self.form_text(),
    {
        let mut pieces: Vec<String> = Vec::new();
        pieces.push(String::from_str("status"));
        pieces.push(self.status.clone());
        pieces.push(String::from_str("elapsed_ms"));
        pieces.push(u64_text(self.elapsed_ms));
        proof {
            assert(strings_value(pieces@) =~= seq!["status"@, self.status@, "elapsed_ms"@, decimal(self.elapsed_ms as nat)]);
        }
        join_with_commas(&pieces)
    }
}

impl AnswerInputSchema {
    /// The query-parameter form of the value: the pairs of its plain fields,
    /// joined by commas.
    pub open spec fn form_text(&self) -> Seq<char> {
        join_commas(seq!["type"@, self.r_type@, "max_length"@, signed_decimal(self.max_length as int)])
    }

    /// The query-parameter form of the value: the pairs of its plain fields,
    /// joined by commas.
    pub fn to_string(&self) -> (r: String)
        ensures
            r@ == self.form_text(),
    {
        let mut pieces: Vec<String> = Vec::new();
        pieces.push(String::from_str("type"));
        pieces.push(self.r_type.clone());
        pieces.push(String::from_str("max_length"));
        pieces.push(i32_text(self.max_length));
        proof {
            assert(strings_value(pieces@) =~= seq!["type"@, self.r_type@, "max_length"@, signed_decimal(self.max_length as int)]);
        }
        join_with_commas(&pieces)
    }
}

impl AnswerRequest {
    /// The query-parameter form of the value: the pairs of its plain fields,
    /// joined by commas.
    pub open spec fn form_text(&self) -> Seq<char> {
        join_commas(seq!["answer"@, self.answer@])
    }

    /// The query-parameter form of the value: the pairs of its plain fields,
    /// joined by commas.
    pub fn to_string(&self) -> (r: String)
        ensures
            r@ == self.form_text(),
    {
        let mut pieces: Vec<String> = Vec::new();
        pieces.push(String::from_str("answer"));
        pieces.push(self.answer.clone());
        proof {
            assert(strings_value(pieces@) =~= seq!["answer"@, self.answer@]);
        }
        join_with_commas(&pieces)
    }
}

impl Asset {
    /// The query-parameter form of the value: the pairs of its plain fields,
    /// joined by commas.
    pub open spec fn form_text(&self) -> Seq<char> {
        join_commas(seq!["type"@, self.r_type@, "url"@, self.url@, "alt"@, self.alt@])
    }

    /// The query-parameter form of the value: the pairs of its plain fields,
    /// joined by commas.
    pub fn to_string(&self) -> (r: String)
        ensures
            r@ == self.form_text(),
    {
        let mut pieces: Vec<String> = Vec::new();
        pieces.push(String::from_str("type"));
        pieces.push(self.r_type.clone());
        pieces.push(String::from_str("url"));
        pieces.push(self.url.clone());
        pieces.push(String::from_str("alt"));
        pieces.push(self.alt.clone());
        proof {
            assert(strings_value(pieces@) =~= seq!["type"@, self.r_type@, "url"@, self.url@, "alt"@, self.alt@]);
        }
        join_with_commas(&pieces)
    }
}

impl BestRecord {
    /// The query-parameter form of the value: the pairs of its plain fields,
    /// joined by commas.
    pub open spec fn form_text(&self) -> Seq<char> {
        join_commas(seq!["elapsed_ms"@, decimal(self.elapsed_ms as nat), "rank"@, decimal(self.rank as nat), "query_count"@, decimal(self.query_count as nat)])
    }

    /// The query-parameter form of the value: the pairs of its plain fields,
    /// joined by commas.
    pub fn to_string(&self) -> (r: String)
        ensures
            r@ == self.form_text(),
    {
        let mut pieces: Vec<String> = Vec::new();
        pieces.push(String::from_str("elapsed_ms"));
        pieces.push(u64_text(self.elapsed_ms));
        pieces.push(String::from_str("rank"));
        pieces.push(u64_text(self.rank as u64));
        pieces.push(String::from_str("query_count"));
        pieces.push(u64_text(self.query_count));
        proof {
            assert(strings_value(pieces@) =~= seq!["elapsed_ms"@, decimal(self.elapsed_ms as nat), "rank"@, decimal(self.rank as nat), "query_count"@, decimal(self.query_count as nat)]);
        }
        join_with_commas(&pieces)
    }
}

impl CorrectAnswerResponse {
    /// The query-parameter form of the value: the pairs of its plain fields,
    /// joined by commas.
    pub open spec fn form_text(&self) -> Seq<char> {
        join_commas(seq!["correct"@, bool_text(self.correct), "problem_status"@, self.problem_status@, "elapsed_ms"@, decimal(self.elapsed_ms as nat)])
    }

    /// The query-parameter form of the value: the pairs of its plain fields,
    /// joined by commas.
    pub fn to_string(&self) -> (r: String)
        ensures
            r@ == self.form_text(),
    {
        let mut pieces: Vec<String> = Vec::new();
        pieces.push(String::from_str("correct"));
        pieces.push(bool_string(self.correct));
        pieces.push(String::from_str("problem_status"));
        pieces.push(self.problem_status.clone());
        pieces.push(String::from_str("elapsed_ms"));
        pieces.push(u64_text(self.elapsed_ms));
        proof {
            assert(strings_value(pieces@) =~= seq!["correct"@, bool_text(self.correct), "problem_status"@, self.problem_status@, "elapsed_ms"@, decimal(self.elapsed_ms as nat)]);
        }
        join_with_commas(&pieces)
    }
}

impl CorrectQueryResponse {
    /// The query-parameter form of the value: the pairs of its plain fields,
    /// joined by commas.
    pub open spec fn form_text(&self) -> Seq<char> {
        join_commas(seq!["correct"@, bool_text(self.correct), "remaining_pattern_count"@, signed_decimal(self.remaining_pattern_count as int), "query_count"@, decimal(self.query_count as nat), "problem_status"@, self.problem_status@])
    }

    /// The query-parameter form of the value: the pairs of its plain fields,
    /// joined by commas.
    pub fn to_string(&self) -> (r: String)
        ensures
            r@ == self.form_text(),
    {
        let mut pieces: Vec<String> = Vec::new();
        pieces.push(String::from_str("correct"));
        pieces.push(bool_string(self.correct));
        pieces.push(String::from_str("remaining_pattern_count"));
        pieces.push(i32_text(self.remaining_pattern_count));
        pieces.push(String::from_str("query_count"));
        pieces.push(u64_text(self.query_count));
        pieces.push(String::from_str("problem_status"));
        pieces.push(self.problem_status.clone());
        proof {
            assert(strings_value(pieces@) =~= seq!["correct"@, bool_text(self.correct), "remaining_pattern_count"@, signed_decimal(self.remaining_pattern_count as int), "query_count"@, decimal(self.query_count as nat), "problem_status"@, self.problem_status@]);
        }
        join_with_commas(&pieces)
    }
}

impl ErrorResponse {
    /// The query-parameter form of the value: the pairs of its plain fields,
    /// joined by commas.
    pub open spec fn form_text(&self) -> Seq<char> {
        join_commas(Seq::<Seq<char>>::empty())
    }

    /// The query-parameter form of the value: the pairs of its plain fields,
    /// joined by commas.
    pub fn to_string(&self) -> (r: String)
        ensures
            r@ == self.form_text(),
    {
        let mut pieces: Vec<String> = Vec::new();
        proof {
            assert(strings_value(pieces@) =~= Seq::<Seq<char>>::empty());
        }
        join_with_commas(&pieces)
    }
}

impl ErrorResponseError {
    /// The query-parameter form of the value: the pairs of its plain fields,
    /// joined by commas.
    pub open spec fn form_text(&self) -> Seq<char> {
        join_commas(seq!["code"@, self.code@, "message"@, self.message@])
    }

    /// The query-parameter form of the value: the pairs of its plain fields,
    /// joined by commas.
    pub fn to_string(&self) -> (r: String)
        ensures
            r@ == self.form_text(),
    {
        let mut pieces: Vec<String> = Vec::new();
        pieces.push(String::from_str("code"));
        pieces.push(self.code.clone());
        pieces.push(String::from_str("message"));
        pieces.push(self.message.clone());
        proof {
            assert(strings_value(pieces@) =~= seq!["code"@, self.code@, "message"@, self.message@]);
        }
        join_with_commas(&pieces)
    }
}

impl GuestLoginRequest {
    /// The query-parameter form of the value: the pairs of its plain fields,
    /// joined by commas.
    pub open spec fn form_text(&self) -> Seq<char> {
        join_commas(seq!["display_name"@, self.display_name@])
    }

    /// The query-parameter form of the value: the pairs of its plain fields,
    /// joined by commas.
    pub fn to_string(&self) -> (r: String)
        ensures
            r@ == self.form_text(),
    {
        let mut pieces: Vec<String> = Vec::new();
        pieces.push(String::from_str("display_name"));
        pieces.push(self.display_name.clone());
        proof {
            assert(strings_value(pieces@) =~= seq!["display_name"@, self.display_name@]);
        }
        join_with_commas(&pieces)
    }
}

impl GuestLoginResponse {
    /// The query-parameter form of the value: the pairs of its plain fields,
    /// joined by commas.
    pub open spec fn form_text(&self) -> Seq<char> {
        join_commas(seq!["authenticated"@, bool_text(self.authenticated)])
    }

    /// The query-parameter form of the value: the pairs of its plain fields,
    /// joined by commas.
    pub fn to_string(&self) -> (r: String)
        ensures
            r@ == self.form_text(),
    {
        let mut pieces: Vec<String> = Vec::new();
        pieces.push(String::from_str("authenticated"));
        pieces.push(bool_string(self.authenticated));
        proof {
            assert(strings_value(pieces@) =~= seq!["authenticated"@, bool_text(self.authenticated)]);
        }
        join_with_commas(&pieces)
    }
}

impl IncorrectAnswerResponse {
    /// The query-parameter form of the value: the pairs of its plain fields,
    /// joined by commas.
    pub open spec fn form_text(&self) -> Seq<char> {
        join_commas(seq!["correct"@, bool_text(self.correct), "answer_attempt_count"@, signed_decimal(self.answer_attempt_count as int), "problem_status"@, self.problem_status@, "run_status"@, self.run_status@])
    }

    /// The query-parameter form of the value: the pairs of its plain fields,
    /// joined by commas.
    pub fn to_string(&self) -> (r: String)
        ensures
            r@ == self.form_text(),
    {
        let mut pieces: Vec<String> = Vec::new();
        pieces.push(String::from_str("correct"));
        pieces.push(bool_string(self.correct));
        pieces.push(String::from_str("answer_attempt_count"));
        pieces.push(i32_text(self.answer_attempt_count));
        pieces.push(String::from_str("problem_status"));
        pieces.push(self.problem_status.clone());
        pieces.push(String::from_str("run_status"));
        pieces.push(self.run_status.clone());
        proof {
            assert(strings_value(pieces@) =~= seq!["correct"@, bool_text(self.correct), "answer_attempt_count"@, signed_decimal(self.answer_attempt_count as int), "problem_status"@, self.problem_status@, "run_status"@, self.run_status@]);
        }
        join_with_commas(&pieces)
    }
}

impl IncorrectQueryResponse {
    /// The query-parameter form of the value: the pairs of its plain fields,
    /// joined by commas.
    pub open spec fn form_text(&self) -> Seq<char> {
        join_commas(seq!["correct"@, bool_text(self.correct), "remaining_pattern_count"@, signed_decimal(self.remaining_pattern_count as int), "query_count"@, decimal(self.query_count as nat), "problem_status"@, self.problem_status@])
    }

    /// The query-parameter form of the value: the pairs of its plain fields,
    /// joined by commas.
    pub fn to_string(&self) -> (r: String)
        ensures
            r@ == self.form_text(),
    {
        let mut pieces: Vec<String> = Vec::new();
        pieces.push(String::from_str("correct"));
        pieces.push(bool_string(self.correct));
        pieces.push(String::from_str("remaining_pattern_count"));
        pieces.push(i32_text(self.remaining_pattern_count));
        pieces.push(String::from_str("query_count"));
        pieces.push(u64_text(self.query_count));
        pieces.push(String::from_str("problem_status"));
        pieces.push(self.problem_status.clone());
        proof {
            assert(strings_value(pieces@) =~= seq!["correct"@, bool_text(self.correct), "remaining_pattern_count"@, signed_decimal(self.remaining_pattern_count as int), "query_count"@, decimal(self.query_count as nat), "problem_status"@, self.problem_status@]);
        }
        join_with_commas(&pieces)
    }
}

impl MeDemoAuthenticated {
    /// The query-parameter form of the value: the pairs of its plain fields,
    /// joined by commas.
    pub open spec fn form_text(&self) -> Seq<char> {
        join_commas(seq!["authenticated"@, bool_text(self.authenticated), "auth_mode"@, self.auth_mode@])
    }

    /// The query-parameter form of the value: the pairs of its plain fields,
    /// joined by commas.
    pub fn to_string(&self) -> (r: String)
        ensures
            r@ == self.form_text(),
    {
        let mut pieces: Vec<String> = Vec::new();
        pieces.push(String::from_str("authenticated"));
        pieces.push(bool_string(self.authenticated));
        pieces.push(String::from_str("auth_mode"));
        pieces.push(self.auth_mode.clone());
        proof {
            assert(strings_value(pieces@) =~= seq!["authenticated"@, bool_text(self.authenticated), "auth_mode"@, self.auth_mode@]);
        }
        join_with_commas(&pieces)
    }
}

impl MeDemoUnauthenticated {
    /// The query-parameter form of the value: the pairs of its plain fields,
    /// joined by commas.
    pub open spec fn form_text(&self) -> Seq<char> {
        join_commas(seq!["authenticated"@, bool_text(self.authenticated), "auth_mode"@, self.auth_mode@])
    }

    /// The query-parameter form of the value: the pairs of its plain fields,
    /// joined by commas.
    pub fn to_string(&self) -> (r: String)
        ensures
            r@ == self.form_text(),
    {
        let mut pieces: Vec<String> = Vec::new();
        pieces.push(String::from_str("authenticated"));
        pieces.push(bool_string(self.authenticated));
        pieces.push(String::from_str("auth_mode"));
        pieces.push(self.auth_mode.clone());
        proof {
            assert(strings_value(pieces@) =~= seq!["authenticated"@, bool_text(self.authenticated), "auth_mode"@, self.auth_mode@]);
        }
        join_with_commas(&pieces)
    }
}

impl MeNeoshowcaseAuthenticated {
    /// The query-parameter form of the value: the pairs of its plain fields,
    /// joined by commas.
    pub open spec fn form_text(&self) -> Seq<char> {
        join_commas(seq!["authenticated"@, bool_text(self.authenticated), "auth_mode"@, self.auth_mode@, "logout_url"@, self.logout_url@])
    }

    /// The query-parameter form of the value: the pairs of its plain fields,
    /// joined by commas.
    pub fn to_string(&self) -> (r: String)
        ensures
            r@ == self.form_text(),
    {
        let mut pieces: Vec<String> = Vec::new();
        pieces.push(String::from_str("authenticated"));
        pieces.push(bool_string(self.authenticated));
        pieces.push(String::from_str("auth_mode"));
        pieces.push(self.auth_mode.clone());
        pieces.push(String::from_str("logout_url"));
        pieces.push(self.logout_url.clone());
        proof {
            assert(strings_value(pieces@) =~= seq!["authenticated"@, bool_text(self.authenticated), "auth_mode"@, self.auth_mode@, "logout_url"@, self.logout_url@]);
        }
        join_with_commas(&pieces)
    }
}

impl MeNeoshowcaseUnauthenticated {
    /// The query-parameter form of the value: the pairs of its plain fields,
    /// joined by commas.
    pub open spec fn form_text(&self) -> Seq<char> {
        join_commas(seq!["authenticated"@, bool_text(self.authenticated), "auth_mode"@, self.auth_mode@, "login_url"@, self.login_url@])
    }

    /// The query-parameter form of the value: the pairs of its plain fields,
    /// joined by commas.
    pub fn to_string(&self) -> (r: String)
        ensures
            r@ == self.form_text(),
    {
        let mut pieces: Vec<String> = Vec::new();
        pieces.push(String::from_str("authenticated"));
        pieces.push(bool_string(self.authenticated));
        pieces.push(String::from_str("auth_mode"));
        pieces.push(self.auth_mode.clone());
        pieces.push(String::from_str("login_url"));
        pieces.push(self.login_url.clone());
        proof {
            assert(strings_value(pieces@) =~= seq!["authenticated"@, bool_text(self.authenticated), "auth_mode"@, self.auth_mode@, "login_url"@, self.login_url@]);
        }
        join_with_commas(&pieces)
    }
}

impl crate::problem::model::Operation {
    /// The query-parameter form of the value: the pairs of its plain fields,
    /// joined by commas.
    pub open spec fn form_text(&self) -> Seq<char> {
        join_commas(seq!["control"@, self.control@, "count"@, signed_decimal(self.count as int)])
    }

    /// The query-parameter form of the value: the pairs of its plain fields,
    /// joined by commas.
    pub fn to_string(&self) -> (r: String)
        ensures
            r@ == self.form_text(),
    {
        let mut pieces: Vec<String> = Vec::new();
        pieces.push(String::from_str("control"));
        pieces.push(self.control.clone());
        pieces.push(String::from_str("count"));
        pieces.push(i32_text(self.count));
        proof {
            assert(strings_value(pieces@) =~= seq!["control"@, self.control@, "count"@, signed_decimal(self.count as int)]);
        }
        join_with_commas(&pieces)
    }
}

impl ProblemHintResponse {
    /// The query-parameter form of the value: the pairs of its plain fields,
    /// joined by commas.
    pub open spec fn form_text(&self) -> Seq<char> {
        join_commas(seq!["level"@, signed_decimal(self.level as int), "body_markdown"@, self.body_markdown@])
    }

    /// The query-parameter form of the value: the pairs of its plain fields,
    /// joined by commas.
    pub fn to_string(&self) -> (r: String)
        ensures
            r@ == self.form_text(),
    {
        let mut pieces: Vec<String> = Vec::new();
        pieces.push(String::from_str("level"));
        pieces.push(i32_text(self.level));
        pieces.push(String::from_str("body_markdown"));
        pieces.push(self.body_markdown.clone());
        proof {
            assert(strings_value(pieces@) =~= seq!["level"@, signed_decimal(self.level as int), "body_markdown"@, self.body_markdown@]);
        }
        join_with_commas(&pieces)
    }
}

impl ProblemInputSchema {
    /// The query-parameter form of the value: the pairs of its plain fields,
    /// joined by commas.
    pub open spec fn form_text(&self) -> Seq<char> {
        join_commas(Seq::<Seq<char>>::empty())
    }

    /// The query-parameter form of the value: the pairs of its plain fields,
    /// joined by commas.
    pub fn to_string(&self) -> (r: String)
        ensures
            r@ == self.form_text(),
    {
        let mut pieces: Vec<String> = Vec::new();
        proof {
            assert(strings_value(pieces@) =~= Seq::<Seq<char>>::empty());
        }
        join_with_commas(&pieces)
    }
}

impl ProblemResponse {
    /// The query-parameter form of the value: the pairs of its plain fields,
    /// joined by commas.
    pub open spec fn form_text(&self) -> Seq<char> {
        join_commas(seq!["number"@, signed_decimal(self.number as int), "title"@, self.title@, "body_markdown"@, self.body_markdown@, "hint_count"@, signed_decimal(self.hint_count as int)])
    }

    /// The query-parameter form of the value: the pairs of its plain fields,
    /// joined by commas.
    pub fn to_string(&self) -> (r: String)
        ensures
            r@ == self.form_text(),
    {
        let mut pieces: Vec<String> = Vec::new();
        pieces.push(String::from_str("number"));
        pieces.push(i32_text(self.number));
        pieces.push(String::from_str("title"));
        pieces.push(self.title.clone());
        pieces.push(String::from_str("body_markdown"));
        pieces.push(self.body_markdown.clone());
        pieces.push(String::from_str("hint_count"));
        pieces.push(i32_text(self.hint_count));
        proof {
            assert(strings_value(pieces@) =~= seq!["number"@, signed_decimal(self.number as int), "title"@, self.title@, "body_markdown"@, self.body_markdown@, "hint_count"@, signed_decimal(self.hint_count as int)]);
        }
        join_with_commas(&pieces)
    }
}

impl Progress {
    /// The query-parameter form of the value: the pairs of its plain fields,
    /// joined by commas.
    pub open spec fn form_text(&self) -> Seq<char> {
        join_commas(seq!["cleared_count"@, decimal(self.cleared_count as nat), "required_count"@, decimal(self.required_count as nat)])
    }

    /// The query-parameter form of the value: the pairs of its plain fields,
    /// joined by commas.
    pub fn to_string(&self) -> (r: String)
        ensures
            r@ == self.form_text(),
    {
        let mut pieces: Vec<String> = Vec::new();
        pieces.push(String::from_str("cleared_count"));
        pieces.push(u64_text(self.cleared_count as u64));
        pieces.push(String::from_str("required_count"));
        pieces.push(u64_text(self.required_count as u64));
        proof {
            assert(strings_value(pieces@) =~= seq!["cleared_count"@, decimal(self.cleared_count as nat), "required_count"@, decimal(self.required_count as nat)]);
        }
        join_with_commas(&pieces)
    }
}

impl QueryInputSchema {
    /// The query-parameter form of the value: the pairs of its plain fields,
    /// joined by commas.
    pub open spec fn form_text(&self) -> Seq<char> {
        join_commas(seq!["type"@, self.r_type@, "allowed_controls"@, join_commas(strings_value(self.allowed_controls@)), "max_operations"@, signed_decimal(self.max_operations as int)])
    }

    /// The query-parameter form of the value: the pairs of its plain fields,
    /// joined by commas.
    pub fn to_string(&self) -> (r: String)
        ensures
            r@ == self.form_text(),
    {
        let mut pieces: Vec<String> = Vec::new();
        pieces.push(String::from_str("type"));
        pieces.push(self.r_type.clone());
        pieces.push(String::from_str("allowed_controls"));
        pieces.push(join_with_commas(&self.allowed_controls));
        pieces.push(String::from_str("max_operations"));
        pieces.push(i32_text(self.max_operations));
        proof {
            assert(strings_value(pieces@) =~= seq!["type"@, self.r_type@, "allowed_controls"@, join_commas(strings_value(self.allowed_controls@)), "max_operations"@, signed_decimal(self.max_operations as int)]);
        }
        join_with_commas(&pieces)
    }
}

impl QueryRequest {
    /// The query-parameter form of the value: the pairs of its plain fields,
    /// joined by commas.
    pub open spec fn form_text(&self) -> Seq<char> {
        join_commas(seq!["source"@, self.source@])
    }

    /// The query-parameter form of the value: the pairs of its plain fields,
    /// joined by commas.
    pub fn to_string(&self) -> (r: String)
        ensures
            r@ == self.form_text(),
    {
        let mut pieces: Vec<String> = Vec::new();
        pieces.push(String::from_str("source"));
        pieces.push(self.source.clone());
        proof {
            assert(strings_value(pieces@) =~= seq!["source"@, self.source@]);
        }
        join_with_commas(&pieces)
    }
}

impl RoomItem {
    /// The query-parameter form of the value: the pairs of its plain fields,
    /// joined by commas.
    pub open spec fn form_text(&self) -> Seq<char> {
        join_commas(seq!["number"@, decimal(self.number as nat), "name"@, self.name@, "genre"@, self.genre@, "description"@, self.description@, "problem_count"@, decimal(self.problem_count as nat)])
    }

    /// The query-parameter form of the value: the pairs of its plain fields,
    /// joined by commas.
    pub fn to_string(&self) -> (r: String)
        ensures
            r@ == self.form_text(),
    {
        let mut pieces: Vec<String> = Vec::new();
        pieces.push(String::from_str("number"));
        pieces.push(u64_text(self.number as u64));
        pieces.push(String::from_str("name"));
        pieces.push(self.name.clone());
        pieces.push(String::from_str("genre"));
        pieces.push(self.genre.clone());
        pieces.push(String::from_str("description"));
        pieces.push(self.description.clone());
        pieces.push(String::from_str("problem_count"));
        pieces.push(u64_text(self.problem_count as u64));
        proof {
            assert(strings_value(pieces@) =~= seq!["number"@, decimal(self.number as nat), "name"@, self.name@, "genre"@, self.genre@, "description"@, self.description@, "problem_count"@, decimal(self.problem_count as nat)]);
        }
        join_with_commas(&pieces)
    }
}

impl RoomsResponse {
    /// The query-parameter form of the value: the pairs of its plain fields,
    /// joined by commas.
    pub open spec fn form_text(&self) -> Seq<char> {
        join_commas(Seq::<Seq<char>>::empty())
    }

    /// The query-parameter form of the value: the pairs of its plain fields,
    /// joined by commas.
    pub fn to_string(&self) -> (r: String)
        ensures
            r@ == self.form_text(),
    {
        let mut pieces: Vec<String> = Vec::new();
        proof {
            assert(strings_value(pieces@) =~= Seq::<Seq<char>>::empty());
        }
        join_with_commas(&pieces)
    }
}

impl User {
    /// The query-parameter form of the value: the pairs of its plain fields,
    /// joined by commas.
    pub open spec fn form_text(&self) -> Seq<char> {
        join_commas(seq!["display_name"@, self.display_name@])
    }

    /// The query-parameter form of the value: the pairs of its plain fields,
    /// joined by commas.
    pub fn to_string(&self) -> (r: String)
        ensures
            r@ == self.form_text(),
    {
        let mut pieces: Vec<String> = Vec::new();
        pieces.push(String::from_str("display_name"));
        pieces.push(self.display_name.clone());
        proof {
            assert(strings_value(pieces@) =~= seq!["display_name"@, self.display_name@]);
        }
        join_with_commas(&pieces)
    }
}

} // verus!
