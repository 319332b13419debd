//! Judging of answers submitted to string problems.
use vstd::prelude::*;

use super::judge::{normalize_answer, normalize_answer_seq, strings_value};
use super::model::{InputSchema, JudgeConfig};
use crate::text::{char_count, contains_string};

verus! {

/// The outcome of judging a valid answer.
#[derive(Clone, Copy, Debug, PartialEq, Eq, Structural)]
pub struct AnswerJudgement {
    pub correct: bool,
}

/// Why an answer could not be judged.
#[derive(Clone, Copy, Debug, PartialEq, Eq, Structural)]
pub enum AnswerJudgeError {
    EmptyAnswer,
    AnswerLengthExceeded,
    WrongSubmissionType,
    InvalidStoredConfig,
}

/// Judges an answer to a string problem.
///
/// The problem must take strings, have a positive length limit and at least
/// one accepted answer; the answer must not be longer than the limit
/// (counted in Unicode scalar values before normalization) and must not be
/// empty once normalized. It is correct when its normal form equals one of
/// the accepted answers.
pub fn judge_answer(
    answer: &str,
    input_schema: &InputSchema,
    judge_config: &JudgeConfig,
) -> (r: Result<AnswerJudgement, AnswerJudgeError>)
    ensures
        match judge_config {
            JudgeConfig::String { accepted_answers, normalization } => {
                let normalized = normalize_answer_seq(answer@, *normalization);
                if input_schema.answer.max_length <= 0 || accepted_answers@.len() == 0 {
                    r == Err::<AnswerJudgement, _>(AnswerJudgeError::InvalidStoredConfig)
                } else if answer@.len() > input_schema.answer.max_length {
                    r == Err::<AnswerJudgement, _>(AnswerJudgeError::AnswerLengthExceeded)
                } else if normalized.len() == 0 {
                    r == Err::<AnswerJudgement, _>(AnswerJudgeError::EmptyAnswer)
                } else {
                    r == Ok::<_, AnswerJudgeError>(
                        AnswerJudgement { correct: strings_value(accepted_answers@).contains(normalized) },
                    )
                }
            },
            _ => r == Err::<AnswerJudgement, _>(AnswerJudgeError::WrongSubmissionType),
        },
{
    let (accepted_answers, normalization) = match judge_config {
        JudgeConfig::String { accepted_answers, normalization } => (accepted_answers, normalization),
        _ => {
            return Err(AnswerJudgeError::WrongSubmissionType);
        },
    };
    if input_schema.answer.max_length <= 0 {
        return Err(AnswerJudgeError::InvalidStoredConfig);
    }
    let max_length = input_schema.answer.max_length as usize;
    if accepted_answers.len() == 0 {
        return Err(AnswerJudgeError::InvalidStoredConfig);
    }
    if char_count(answer) > max_length {
        return Err(AnswerJudgeError::AnswerLengthExceeded);
    }
    let normalized_answer = normalize_answer(answer, normalization);
    if normalized_answer.as_str().unicode_len() == 0 {
        return Err(AnswerJudgeError::EmptyAnswer);
    }
    let correct = contains_string(accepted_answers, &normalized_answer);
    proof {
        let sv = strings_value(accepted_answers@);
        if correct {
            let j = choose|j: int| 0 <= j < accepted_answers@.len() && (#[trigger] accepted_answers@[j])@ == normalized_answer@;
            assert(sv[j] == normalized_answer@);
        } else if sv.contains(normalized_answer@) {
            let j = choose|j: int| 0 <= j < sv.len() && sv[j] == normalized_answer@;
            assert(accepted_answers@[j]@ == normalized_answer@);
        }
    }
    Ok(AnswerJudgement { correct })
}

} // verus!
