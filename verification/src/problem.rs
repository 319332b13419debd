//! Problems: their model, judges, validators and public projection.
use vstd::prelude::*;

pub mod answer;
pub mod asset_url;
pub mod authoring;
pub mod judge;
pub mod model;
pub mod problem_file;
pub mod public;
pub mod query;
pub mod seeder;
pub mod validation;

verus! {

/// A field name and a message: what a validation error reports.
pub type Issue = (Seq<char>, Seq<char>);

/// Why problem data could not be loaded.
#[derive(Debug)]
pub enum ProblemDataError {
    /// A file could not be read.
    Io { path: String, message: String },
    /// A file is not valid problem-data JSON.
    Json { path: String, message: String },
    /// The data breaks a rule of the problem format.
    Validation { field: String, message: &'static str },
}

/// What a failed check of problem data reports.
pub enum DataFault {
    /// A file could not be read: its path and the reason.
    Io(Seq<char>, Seq<char>),
    /// A rule is broken: the field and the message.
    Invalid(Issue),
}

impl ProblemDataError {
    /// What this error reports, unless it is a JSON error.
    pub open spec fn fault(self) -> Option<DataFault> {
        match self {
            ProblemDataError::Io { path, message } => Some(DataFault::Io(path@, message@)),
            ProblemDataError::Json { .. } => None,
            ProblemDataError::Validation { field, message } => Some(
                DataFault::Invalid((field@, message@)),
            ),
        }
    }

    /// The field and message of a validation error.
    pub open spec fn issue(self) -> Option<Issue> {
        match self {
            ProblemDataError::Validation { field, message } => Some((field@, message@)),
            _ => None,
        }
    }
}

/// A validation error for `field`.
pub fn validation_error(field: String, message: &'static str) -> (r: ProblemDataError)
    ensures
        r.issue() == Some((field@, message@)),
{
    ProblemDataError::Validation { field, message }
}

} // verus!
