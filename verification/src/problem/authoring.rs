//! Validation of problems authored through the API.
use vstd::prelude::*;

use super::judge::strings_value;
use super::model::{
    AnswerInputSchema, AnswerInputType, Candidate, Hint, InputSchema, JudgeConfig, ProblemDraft,
    ProblemType, QueryInputSchema, QueryInputType, StringNormalization, SubmissionType,
    UnicodeNormalization, ops_value,
};
use super::problem_file::{first_control_issue, first_hint_issue, validate_controls, validate_hints};
use super::validation::{
    answer_norm, candidate_key, candidate_norm, operation_config_issue, string_config_issue,
    validate_operation_judge_config, validate_string_judge_config,
};
use super::judge::normalize_ops;
use super::{Issue, ProblemDataError};
use crate::openapi;
use crate::openapi::{
    CreateCandidate, CreateProblemHint, CreateProblemJudgeConfig, CreateProblemRequest, Nullable,
};
use crate::text::{all_white_space, char_count, is_blank, str_eq};

verus! {

/// The longest title accepted, in characters.
pub const PROBLEM_TITLE_MAX_CHARS: usize = 255;

/// Why an authored problem was refused.
#[derive(Debug, PartialEq, Eq)]
pub enum ProblemAuthoringError {
    Validation { field: String, message: &'static str },
}

impl ProblemAuthoringError {
    /// The field and message of the error.
    pub open spec fn issue(self) -> Issue {
        match self {
            ProblemAuthoringError::Validation { field, message } => (field@, message@),
        }
    }
}

/// An authoring error on `field`.
fn validation_error(field: String, message: &'static str) -> (r: ProblemAuthoringError)
    ensures
        r.issue() == (field@, message@),
{
    ProblemAuthoringError::Validation { field, message }
}

/// The authoring error for an error of the problem-data validators: a
/// validation error keeps its field and message, any other becomes an invalid
/// judge configuration.
pub fn map_problem_data_error(error: ProblemDataError) -> (r: ProblemAuthoringError)
    ensures
        match error.issue() {
            Some(issue) => r.issue() == issue,
            None => r.issue() == ("judge_config"@, "judge configuration is invalid"@),
        },
{
    match error {
        ProblemDataError::Validation { field, message } => ProblemAuthoringError::Validation {
            field,
            message,
        },
        _ => validation_error(String::from_str("judge_config"), "judge configuration is invalid"),
    }
}

/// Fails with "must not be empty" on `field` when `value` is blank.
fn require_non_empty(value: &str, field: &str) -> (r: Result<(), ProblemAuthoringError>)
    ensures
        all_white_space(value@) ==> (r matches Err(e) && e.issue() == (
            field@,
            "must not be empty"@,
        )),
        !all_white_space(value@) ==> r is Ok,
{
    if is_blank(value) {
        return Err(validation_error(String::from_str(field), "must not be empty"));
    }
    Ok(())
}

/// Fails with `message` on `field` when `value` has more than `max_chars`
/// characters.
fn require_max_chars(value: &str, max_chars: usize, field: &str, message: &'static str) -> (r:
    Result<(), ProblemAuthoringError>)
    ensures
        value@.len() > max_chars ==> (r matches Err(e) && e.issue() == (field@, message@)),
        value@.len() <= max_chars ==> r is Ok,
{
    if char_count(value) > max_chars {
        return Err(validation_error(String::from_str(field), message));
    }
    Ok(())
}

/// The candidates of an authored configuration as candidates of the model.
pub open spec fn candidates_of(api: Seq<CreateCandidate>) -> Seq<Candidate> {
    Seq::new(
        api.len(),
        |i: int| Candidate { candidate_id: api[i].candidate_id, operations: api[i].operations },
    )
}

/// The hints of an authored problem as hints of the model.
pub open spec fn hints_of(api: Seq<CreateProblemHint>) -> Seq<Hint> {
    Seq::new(api.len(), |i: int| Hint { body_markdown: api[i].body_markdown })
}

/// The candidates of an authored configuration, moved into the model's type.
fn convert_candidates(candidates: Vec<CreateCandidate>) -> (r: Vec<Candidate>)
    ensures
        r@ == candidates_of(candidates@),
{
    let ghost api = candidates@;
    let mut out: Vec<Candidate> = Vec::new();
    for c in it: candidates
        invariant
            it.seq() == api,
            out@ == candidates_of(api).take(it.index() as int),
    {
        out.push(Candidate { candidate_id: c.candidate_id, operations: c.operations });
        assert(out@ =~= candidates_of(api).take(it.index() + 1));
    }
    assert(out@ =~= candidates_of(api));
    out
}

/// The hints of an authored problem, moved into the model's type.
fn convert_hints(hints: Vec<CreateProblemHint>) -> (r: Vec<Hint>)
    ensures
        r@ == hints_of(hints@),
{
    let ghost api = hints@;
    let mut out: Vec<Hint> = Vec::new();
    for h in it: hints
        invariant
            it.seq() == api,
            out@ == hints_of(api).take(it.index() as int),
    {
        out.push(Hint { body_markdown: h.body_markdown });
        assert(out@ =~= hints_of(api).take(it.index() + 1));
    }
    assert(out@ =~= hints_of(api));
    out
}

/// The model's problem type for the API's.
pub open spec fn problem_type_of(t: openapi::ProblemType) -> ProblemType {
    match t {
        openapi::ProblemType::Small => ProblemType::Small,
        openapi::ProblemType::Final => ProblemType::Final,
    }
}

/// The model's submission type for the API's.
pub open spec fn submission_type_of(t: openapi::SubmissionType) -> SubmissionType {
    match t {
        openapi::SubmissionType::OperationSequence => SubmissionType::OperationSequence,
        openapi::SubmissionType::String => SubmissionType::String,
    }
}

/// The string normalization that an authored configuration asks for.
pub open spec fn normalization_of(n: openapi::CreateStringNormalization) -> StringNormalization {
    StringNormalization {
        unicode: UnicodeNormalization::Nfkc,
        trim_outer_whitespace: n.trim_outer_whitespace,
        collapse_internal_whitespace: n.collapse_internal_whitespace,
        case_sensitive: n.case_sensitive,
    }
}

/// The issue with the judge configuration of an authored problem.
pub open spec fn authored_config_issue(
    submission: openapi::SubmissionType,
    config: CreateProblemJudgeConfig,
    schema: openapi::ProblemInputSchema,
) -> Option<Issue> {
    match config {
        CreateProblemJudgeConfig::CreateOperationSequenceJudgeConfig(c) => if submission
            != openapi::SubmissionType::OperationSequence {
            Some(("judge_config"@, "type must match submission_type"@))
        } else if c.r_type@ != "operation_sequence"@ {
            Some(("judge_config.type"@, "must be operation_sequence"@))
        } else {
            operation_config_issue(
                ops_value(c.correct_operations@),
                candidates_of(c.candidates@),
                strings_value(schema.query.allowed_controls@),
                schema.query.max_operations as int,
                "judge_config"@,
            )
        },
        CreateProblemJudgeConfig::CreateStringJudgeConfig(c) => if submission
            != openapi::SubmissionType::String {
            Some(("judge_config"@, "type must match submission_type"@))
        } else if c.r_type@ != "string"@ {
            Some(("judge_config.type"@, "must be string"@))
        } else if c.normalization.unicode@ != "nfkc"@ {
            Some(("judge_config.normalization.unicode"@, "must be nfkc"@))
        } else {
            string_config_issue(
                seq![c.accepted_answer],
                normalization_of(c.normalization),
                schema.answer.max_length as int,
                "judge_config"@,
            )
        },
    }
}

/// `out` is the validated judge configuration of an authored one.
pub open spec fn authored_config_validated(config: CreateProblemJudgeConfig, out: JudgeConfig) -> bool {
    match config {
        CreateProblemJudgeConfig::CreateOperationSequenceJudgeConfig(c) => out matches JudgeConfig::OperationSequence { correct_operations: co, candidates: cs }
            && ops_value(co@) == normalize_ops(ops_value(c.correct_operations@)) && cs@.len()
            == c.candidates@.len() && forall|i: int| 0 <= i < cs@.len() ==> (#[trigger] cs@[i]).candidate_id@
            == candidate_key(candidates_of(c.candidates@), i) && ops_value(cs@[i].operations@)
            == candidate_norm(candidates_of(c.candidates@), i),
        CreateProblemJudgeConfig::CreateStringJudgeConfig(c) => out matches JudgeConfig::String { accepted_answers: a, normalization: n }
            && n == normalization_of(c.normalization) && a@.len() == 1 && a@[0]@ == answer_norm(
            seq![c.accepted_answer],
            normalization_of(c.normalization),
            0,
        ),
    }
}

/// The issue with an authored problem, if it has one. The checks run in this
/// order: number, title, body, input schema, allowed controls, hints, the
/// final problem's dependency, judge configuration.
pub open spec fn draft_issue(request: CreateProblemRequest) -> Option<Issue> {
    let schema = request.input_schema;
    let controls = "input_schema.query.allowed_controls"@;
    if !(i32::MIN <= request.number <= i32::MAX) {
        Some(("number"@, "must fit in a signed 32-bit integer"@))
    } else if all_white_space(request.title@) {
        Some(("title"@, "must not be empty"@))
    } else if request.title@.len() > PROBLEM_TITLE_MAX_CHARS {
        Some(("title"@, "must be at most 255 characters"@))
    } else if all_white_space(request.body_markdown@) {
        Some(("body_markdown"@, "must not be empty"@))
    } else if schema.query.r_type@ != "operation_sequence"@ {
        Some(("input_schema.query.type"@, "must be operation_sequence"@))
    } else if schema.answer.r_type@ != "string"@ {
        Some(("input_schema.answer.type"@, "must be string"@))
    } else if schema.query.max_operations <= 0 {
        Some(("input_schema.query.max_operations"@, "must be greater than zero"@))
    } else if schema.answer.max_length <= 0 {
        Some(("input_schema.answer.max_length"@, "must be greater than zero"@))
    } else if schema.query.allowed_controls@.len() == 0 {
        Some((controls, "at least one control is required"@))
    } else if first_control_issue(strings_value(schema.query.allowed_controls@), 0, controls) is Some {
        first_control_issue(strings_value(schema.query.allowed_controls@), 0, controls)
    } else if first_hint_issue(hints_of(request.hints@), 0, "hints"@) is Some {
        first_hint_issue(hints_of(request.hints@), 0, "hints"@)
    } else if request.problem_type == openapi::ProblemType::Final
        && request.depends_on_problem_id is Present {
        Some(("depends_on_problem_id"@, "final problem must not have a dependency"@))
    } else {
        authored_config_issue(request.submission_type, request.judge_config, schema)
    }
}

/// `d` is the draft built from the accepted request `request` for room
/// `room_id`.
pub open spec fn draft_built(room_id: u128, request: CreateProblemRequest, d: ProblemDraft) -> bool {
    &&& d.room_id == room_id
    &&& d.number == request.number
    &&& d.problem_type == problem_type_of(request.problem_type)
    &&& d.title == request.title
    &&& d.body_markdown == request.body_markdown
    &&& d.submission_type == submission_type_of(request.submission_type)
    &&& d.input_schema.query.input_type == QueryInputType::OperationSequence
    &&& d.input_schema.query.allowed_controls == request.input_schema.query.allowed_controls
    &&& d.input_schema.query.max_operations == request.input_schema.query.max_operations
    &&& d.input_schema.answer.input_type == AnswerInputType::String
    &&& d.input_schema.answer.max_length == request.input_schema.answer.max_length
    &&& d.hints@ == hints_of(request.hints@)
    &&& authored_config_validated(request.judge_config, d.judge_config)
    &&& d.depends_on_problem_id == match request.depends_on_problem_id {
        Nullable::Null => None,
        Nullable::Present(id) => Some(id),
    }
    &&& d.is_required == request.is_required
}

/// Checks the judge configuration of an authored problem and validates it
/// with the problem-data validators.
fn validate_authored_config(
    submission: openapi::SubmissionType,
    config: CreateProblemJudgeConfig,
    allowed_controls: &Vec<String>,
    max_operations: i32,
    max_length: i32,
) -> (r: Result<JudgeConfig, ProblemAuthoringError>)
    ensures
        ({
            let schema = openapi::ProblemInputSchema {
                query: openapi::QueryInputSchema {
                    r_type: arbitrary(),
                    allowed_controls: *allowed_controls,
                    max_operations,
                },
                answer: openapi::AnswerInputSchema { r_type: arbitrary(), max_length },
            };
            match authored_config_issue(submission, config, schema) {
                Some(issue) => r matches Err(e) && e.issue() == issue,
                None => r matches Ok(out) && authored_config_validated(config, out),
            }
        }),
{
    match config {
        CreateProblemJudgeConfig::CreateOperationSequenceJudgeConfig(c) => {
            if submission != openapi::SubmissionType::OperationSequence {
                return Err(validation_error(String::from_str("judge_config"), "type must match submission_type"));
            }
            if !str_eq(c.r_type.as_str(), "operation_sequence") {
                return Err(validation_error(String::from_str("judge_config.type"), "must be operation_sequence"));
            }
            let candidates = convert_candidates(c.candidates);
            match validate_operation_judge_config(
                c.correct_operations,
                candidates,
                allowed_controls,
                max_operations,
                "judge_config",
            ) {
                Ok(config) => Ok(config),
                Err(e) => Err(map_problem_data_error(e)),
            }
        },
        CreateProblemJudgeConfig::CreateStringJudgeConfig(c) => {
            if submission != openapi::SubmissionType::String {
                return Err(validation_error(String::from_str("judge_config"), "type must match submission_type"));
            }
            if !str_eq(c.r_type.as_str(), "string") {
                return Err(validation_error(String::from_str("judge_config.type"), "must be string"));
            }
            if !str_eq(c.normalization.unicode.as_str(), "nfkc") {
                return Err(validation_error(String::from_str("judge_config.normalization.unicode"), "must be nfkc"));
            }
            let normalization = StringNormalization {
                unicode: UnicodeNormalization::Nfkc,
                trim_outer_whitespace: c.normalization.trim_outer_whitespace,
                collapse_internal_whitespace: c.normalization.collapse_internal_whitespace,
                case_sensitive: c.normalization.case_sensitive,
            };
            let answers = vec![c.accepted_answer];
            proof {
                assert(answers@ =~= seq![c.accepted_answer]);
            }
            match validate_string_judge_config(answers, normalization, max_length, "judge_config") {
                Ok(config) => Ok(config),
                Err(e) => Err(map_problem_data_error(e)),
            }
        },
    }
}

/// Checks a problem authored for room `room_id` and builds its draft.
#[verifier::rlimit(40)]
pub fn validate_problem_draft(room_id: u128, request: CreateProblemRequest) -> (r: Result<
    ProblemDraft,
    ProblemAuthoringError,
>)
    ensures
        match draft_issue(request) {
            Some(issue) => r matches Err(e) && e.issue() == issue,
            None => r matches Ok(d) && draft_built(room_id, request, d),
        },
{
    if request.number < -2147483648i64 || request.number > 2147483647i64 {
        return Err(validation_error(String::from_str("number"), "must fit in a signed 32-bit integer"));
    }
    let number = request.number as i32;
    require_non_empty(request.title.as_str(), "title")?;
    require_max_chars(request.title.as_str(), PROBLEM_TITLE_MAX_CHARS, "title", "must be at most 255 characters")?;
    require_non_empty(request.body_markdown.as_str(), "body_markdown")?;
    let schema = request.input_schema;
    if !str_eq(schema.query.r_type.as_str(), "operation_sequence") {
        return Err(validation_error(String::from_str("input_schema.query.type"), "must be operation_sequence"));
    }
    if !str_eq(schema.answer.r_type.as_str(), "string") {
        return Err(validation_error(String::from_str("input_schema.answer.type"), "must be string"));
    }
    if schema.query.max_operations <= 0 {
        return Err(validation_error(String::from_str("input_schema.query.max_operations"), "must be greater than zero"));
    }
    if schema.answer.max_length <= 0 {
        return Err(validation_error(String::from_str("input_schema.answer.max_length"), "must be greater than zero"));
    }
    if schema.query.allowed_controls.len() == 0 {
        return Err(validation_error(String::from_str("input_schema.query.allowed_controls"), "at least one control is required"));
    }
    match validate_controls(&schema.query.allowed_controls, "input_schema.query.allowed_controls") {
        Ok(()) => {},
        Err(e) => {
            return Err(map_problem_data_error(e));
        },
    }
    let input_schema = InputSchema {
        query: QueryInputSchema {
            input_type: QueryInputType::OperationSequence,
            allowed_controls: schema.query.allowed_controls,
            max_operations: schema.query.max_operations,
        },
        answer: AnswerInputSchema {
            input_type: AnswerInputType::String,
            max_length: schema.answer.max_length,
        },
    };
    let hints = convert_hints(request.hints);
    match validate_hints(&hints, "hints") {
        Ok(()) => {},
        Err(e) => {
            return Err(map_problem_data_error(e));
        },
    }
    let problem_type = match request.problem_type {
        openapi::ProblemType::Small => ProblemType::Small,
        openapi::ProblemType::Final => ProblemType::Final,
    };
    let submission_type = match request.submission_type {
        openapi::SubmissionType::OperationSequence => SubmissionType::OperationSequence,
        openapi::SubmissionType::String => SubmissionType::String,
    };
    let depends_on_problem_id = match request.depends_on_problem_id {
        Nullable::Null => None,
        Nullable::Present(id) => Some(id),
    };
    if problem_type == ProblemType::Final && depends_on_problem_id.is_some() {
        return Err(validation_error(String::from_str("depends_on_problem_id"), "final problem must not have a dependency"));
    }
    let judge_config = validate_authored_config(
        request.submission_type,
        request.judge_config,
        &input_schema.query.allowed_controls,
        input_schema.query.max_operations,
        input_schema.answer.max_length,
    )?;
    Ok(ProblemDraft {
        room_id,
        number,
        problem_type,
        title: request.title,
        body_markdown: request.body_markdown,
        submission_type,
        input_schema,
        hints,
        judge_config,
        depends_on_problem_id,
        is_required: request.is_required,
    })
}

} // verus!
