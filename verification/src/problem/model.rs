//! The problem catalogue: rooms, problems, their input schemas and judge
//! configurations.
//!
//! Identifiers (UUIDs) are held as their 128-bit integer value.
use vstd::prelude::*;

verus! {

/// Whether a problem is one of the small problems of a room or its final one.
#[derive(Clone, Copy, Debug, PartialEq, Eq, Structural)]
pub enum ProblemType {
    Small,
    Final,
}

/// What a player submits to a problem.
#[derive(Clone, Copy, Debug, PartialEq, Eq, Structural)]
pub enum SubmissionType {
    OperationSequence,
    String,
}

/// The kind of query input; only operation sequences exist.
#[derive(Clone, Copy, Debug, PartialEq, Eq, Structural)]
pub enum QueryInputType {
    OperationSequence,
}

/// The kind of answer input; only strings exist.
#[derive(Clone, Copy, Debug, PartialEq, Eq, Structural)]
pub enum AnswerInputType {
    String,
}

/// The Unicode normalization applied to answers; only NFKC exists.
#[derive(Clone, Copy, Debug, PartialEq, Eq, Structural)]
pub enum UnicodeNormalization {
    Nfkc,
}

/// One step of an operation sequence: a control pressed `count` times.
#[derive(Clone, Debug, PartialEq, Eq)]
pub struct Operation {
    pub control: String,
    pub count: i32,
}

/// The mathematical value of an operation: its control and its count.
pub type OpV = (Seq<char>, int);

impl Operation {
    /// The control and count of this operation.
    pub open spec fn value(&self) -> OpV {
        (self.control@, self.count as int)
    }

    /// The operation pressing `control` `count` times.
    pub fn new(control: String, count: i32) -> (r: Operation)
        ensures
            r.control == control,
            r.count == count,
    {
        Operation { control, count }
    }

    /// A copy of this operation.
    pub fn copy(&self) -> (r: Operation)
        ensures
            r.value() == self.value(),
    {
        Operation { control: self.control.clone(), count: self.count }
    }
}

/// The values of a sequence of operations.
pub open spec fn ops_value(ops: Seq<Operation>) -> Seq<OpV> {
    Seq::new(ops.len(), |i: int| ops[i].value())
}

/// A candidate pattern of an operation-sequence problem.
#[derive(Clone, Debug, PartialEq, Eq)]
pub struct Candidate {
    pub candidate_id: String,
    pub operations: Vec<Operation>,
}

/// How accepted and submitted answers are normalized before comparison.
#[derive(Clone, Debug, PartialEq, Eq)]
pub struct StringNormalization {
    pub unicode: UnicodeNormalization,
    pub trim_outer_whitespace: bool,
    pub collapse_internal_whitespace: bool,
    pub case_sensitive: bool,
}

/// How submissions to a problem are judged.
#[derive(Clone, Debug, PartialEq, Eq)]
pub enum JudgeConfig {
    OperationSequence { correct_operations: Vec<Operation>, candidates: Vec<Candidate> },
    String { accepted_answers: Vec<String>, normalization: StringNormalization },
}

/// A judge configuration as stored or authored, before validation.
#[derive(Clone, Debug, PartialEq, Eq)]
pub enum JudgeConfigInput {
    OperationSequence { correct_operations: Vec<Operation>, candidates: Vec<Candidate> },
    String { accepted_answers: Vec<String>, normalization: StringNormalization },
}

/// An asset attached to a problem.
#[derive(Clone, Debug, PartialEq, Eq)]
pub struct Asset {
    pub asset_type: String,
    pub object_key: String,
    pub alt: String,
}

/// Limits on the operation sequences a problem accepts as queries.
#[derive(Clone, Debug, PartialEq, Eq)]
pub struct QueryInputSchema {
    pub input_type: QueryInputType,
    pub allowed_controls: Vec<String>,
    pub max_operations: i32,
}

/// Limits on the answers a problem accepts.
#[derive(Clone, Debug, PartialEq, Eq)]
pub struct AnswerInputSchema {
    pub input_type: AnswerInputType,
    pub max_length: i32,
}

/// The input schema of a problem.
#[derive(Clone, Debug, PartialEq, Eq)]
pub struct InputSchema {
    pub query: QueryInputSchema,
    pub answer: AnswerInputSchema,
}

/// One hint of a problem.
#[derive(Clone, Debug, PartialEq, Eq)]
pub struct Hint {
    pub body_markdown: String,
}

/// A validated problem.
#[derive(Clone, Debug, PartialEq, Eq)]
pub struct Problem {
    pub problem_id: u128,
    pub room_id: u128,
    pub number: i32,
    pub problem_type: ProblemType,
    pub title: String,
    pub body_markdown: String,
    pub submission_type: SubmissionType,
    pub assets: Vec<Asset>,
    pub input_schema: InputSchema,
    pub hints: Vec<Hint>,
    pub judge_config: JudgeConfig,
    pub depends_on_problem_id: Option<u128>,
    pub is_required: bool,
}

/// A validated problem authored through the API, before it has an ID.
#[derive(Clone, Debug, PartialEq, Eq)]
pub struct ProblemDraft {
    pub room_id: u128,
    pub number: i32,
    pub problem_type: ProblemType,
    pub title: String,
    pub body_markdown: String,
    pub submission_type: SubmissionType,
    pub input_schema: InputSchema,
    pub hints: Vec<Hint>,
    pub judge_config: JudgeConfig,
    pub depends_on_problem_id: Option<u128>,
    pub is_required: bool,
}

/// A room with its problems.
#[derive(Clone, Debug, PartialEq, Eq)]
pub struct Room {
    pub room_id: u128,
    pub number: i32,
    pub name: String,
    pub genre: String,
    pub description: String,
    pub problems: Vec<Problem>,
}

/// All rooms of the game.
#[derive(Clone, Debug, PartialEq, Eq)]
pub struct ProblemCatalog {
    pub rooms: Vec<Room>,
}

/// A room as read from its `room.json`, before validation.
#[derive(Clone, Debug, PartialEq, Eq)]
pub struct RoomInput {
    pub room_id: String,
    pub number: i32,
    pub name: String,
    pub genre: String,
    pub description: String,
}

/// A problem as read from its room's `room.json`, before validation.
#[derive(Clone, Debug, PartialEq, Eq)]
pub struct ProblemInput {
    pub problem_id: String,
    pub room_id: String,
    pub number: i32,
    pub problem_type: ProblemType,
    pub title: String,
    pub body_markdown: String,
    pub submission_type: SubmissionType,
    pub assets: Vec<Asset>,
    pub input_schema: InputSchema,
    pub hints: Vec<Hint>,
    pub judge_config: JudgeConfigInput,
    pub depends_on_problem_id: Option<String>,
    pub is_required: bool,
}

/// The contents of a room's `room.json`, before validation.
#[derive(Clone, Debug, PartialEq, Eq)]
pub struct RoomFileInput {
    pub room: RoomInput,
    pub problems: Vec<ProblemInput>,
}

} // verus!
