//! Judging of queries: operation sequences tried against an
//! operation-sequence problem, and the decoding of stored judge
//! configurations.
use vstd::prelude::*;

use super::judge::{
    OpFault, find_operation_fault, first_fault, lemma_no_fault_means_valid, normalize_operations,
    normalize_ops, operations_equal, strings_value,
};
use super::judge::{
    counts_positive, expand, is_prefix, lemma_accepted_normal_form, lemma_expand_concat,
    lemma_expand_push, lemma_expand_take_prefix, lemma_expand_take_step, lemma_run_lengths_unique,
    matching_candidates, no_adjacent_repeats, rep_len,
};
use super::model::{Candidate, InputSchema, JudgeConfig, JudgeConfigInput, OpV, Operation, ops_value};
use super::validation::{
    candidate_key, candidate_norm, operation_config_issue, string_config_issue, answer_norm,
    validate_operation_judge_config, validate_string_judge_config,
};
use crate::text::str_eq;

verus! {

/// The result of judging a valid query.
pub struct QueryJudgement {
    pub normalized_operations: Vec<Operation>,
    pub correct: bool,
    pub remaining_pattern_count: i32,
}

/// Why a query could not be judged.
#[derive(Clone, Copy, Debug, PartialEq, Eq, Structural)]
pub enum QueryJudgeError {
    InvalidSource,
    EmptyOperations,
    NonPositiveCount,
    UnknownControl,
    OperationLimitExceeded,
    WrongSubmissionType,
    InvalidStoredJudgeConfig,
}

/// The input devices a query may come from.
pub open spec fn allowed_source(source: Seq<char>) -> bool {
    source == "keyboard"@ || source == "mouse"@ || source == "serial"@
}

/// Whether `submitted` is a prefix of `candidate` operation by operation:
/// every submitted operation has the control of the candidate's operation at
/// the same index and the same count, except the last, whose count may be
/// smaller.
pub open spec fn segment_prefix(submitted: Seq<OpV>, candidate: Seq<OpV>) -> bool {
    forall|i: int| 0 <= i < submitted.len() ==> #[trigger] segment_matches_at(submitted, candidate, i)
}

/// Whether operation `i` of `submitted` fits operation `i` of `candidate`.
pub open spec fn segment_matches_at(submitted: Seq<OpV>, candidate: Seq<OpV>, i: int) -> bool {
    i < candidate.len() && submitted[i].0 == candidate[i].0 && (if i + 1 == submitted.len() {
        submitted[i].1 <= candidate[i].1
    } else {
        submitted[i].1 == candidate[i].1
    })
}

/// The number of candidates that `normalized` is a segment prefix of.
pub open spec fn segment_matches(normalized: Seq<OpV>, candidates: Seq<Candidate>) -> nat
    decreases candidates.len(),
{
    if candidates.len() == 0 {
        0
    } else {
        segment_matches(normalized, candidates.drop_last()) + if segment_prefix(
            normalized,
            ops_value(candidates.last().operations@),
        ) {
            1nat
        } else {
            0nat
        }
    }
}

/// An operation sequence in normal form: positive counts and no two
/// adjacent operations on one control.
pub open spec fn in_normal_form(ops: Seq<OpV>) -> bool {
    counts_positive(ops) && no_adjacent_repeats(ops)
}

/// A segment prefix stands for a prefix of the candidate's controls.
proof fn lemma_segment_prefix_gives_prefix(s: Seq<OpV>, c: Seq<OpV>)
    requires
        counts_positive(s),
        segment_prefix(s, c),
    ensures
        is_prefix(expand(s), expand(c)),
{
    if s.len() == 0 {
        assert(expand(c).subrange(0, 0) =~= expand(s));
    } else {
        let n = s.len() as int;
        assert(segment_matches_at(s, c, n - 1));
        assert(s.take(n - 1) =~= c.take(n - 1)) by {
            assert forall|i: int| 0 <= i < n - 1 implies #[trigger] s.take(n - 1)[i] == c.take(n - 1)[i] by {
                assert(segment_matches_at(s, c, i));
            }
        }
        let last = s[n - 1];
        assert(last.1 > 0);
        assert(s =~= s.take(n - 1).push(last));
        lemma_expand_push(s.take(n - 1), last);
        lemma_expand_take_step(c, n - 1);
        lemma_expand_take_prefix(c, n);
        let a = expand(c.take(n - 1));
        let rs = Seq::new(rep_len(last.1), |i: int| last.0);
        let rc = Seq::new(rep_len(c[n - 1].1), |i: int| c[n - 1].0);
        let b = expand(c.take(n));
        assert(b == a + rc);
        assert(rep_len(last.1) <= rep_len(c[n - 1].1));
        let e = expand(c);
        let m = (a.len() + rs.len()) as int;
        assert(e.subrange(0, m) =~= b.subrange(0, m)) by {
            assert(e.subrange(0, b.len() as int) == b);
        }
        assert(b.subrange(0, m) =~= a + rs);
    }
}

/// Where the controls of `c` run out or change: the first `k` operations of
/// `c` and `d` presses of the next one stand for the first `m` controls.
proof fn lemma_split_point(c: Seq<OpV>, m: int, k: int) -> (kd: (int, int))
    requires
        counts_positive(c),
        0 <= k <= c.len(),
        expand(c.take(k)).len() <= m <= expand(c).len(),
    ensures
        k <= kd.0 <= c.len(),
        0 <= kd.1,
        expand(c.take(kd.0)).len() + kd.1 == m,
        kd.0 < c.len() ==> kd.1 < c[kd.0].1,
        kd.0 == c.len() ==> kd.1 == 0,
    decreases c.len() - k,
{
    if k == c.len() {
        assert(c.take(k) =~= c);
        (k, 0)
    } else {
        lemma_expand_take_step(c, k);
        assert(c[k].1 > 0);
        if expand(c.take(k + 1)).len() > m {
            (k, m - expand(c.take(k)).len())
        } else {
            lemma_split_point(c, m, k + 1)
        }
    }
}

/// For sequences in normal form, being a segment prefix is the same as
/// standing for a prefix of the candidate's controls.
pub proof fn lemma_segment_prefix_iff_prefix(s: Seq<OpV>, c: Seq<OpV>)
    requires
        in_normal_form(s),
        in_normal_form(c),
    ensures
        segment_prefix(s, c) == is_prefix(expand(s), expand(c)),
{
    if segment_prefix(s, c) {
        lemma_segment_prefix_gives_prefix(s, c);
    } else if is_prefix(expand(s), expand(c)) {
        let e = expand(c);
        let m = expand(s).len() as int;
        assert(c.take(0) =~= Seq::<OpV>::empty());
        let (k, d) = lemma_split_point(c, m, 0);
        lemma_expand_take_prefix(c, k);
        let a = expand(c.take(k));
        assert(e.subrange(0, a.len() as int) == a);
        let t = if d > 0 {
            c.take(k).push((c[k].0, d))
        } else {
            c.take(k)
        };
        assert(expand(t) == e.subrange(0, m)) by {
            if d > 0 {
                lemma_expand_push(c.take(k), (c[k].0, d));
                lemma_expand_take_step(c, k);
                lemma_expand_take_prefix(c, k + 1);
                let b = expand(c.take(k + 1));
                assert(e.subrange(0, b.len() as int) == b);
                assert(e.subrange(0, m) =~= b.subrange(0, m));
                assert(b.subrange(0, m) =~= a + Seq::new(rep_len(d), |i: int| c[k].0));
            } else {
                assert(e.subrange(0, m) =~= a);
            }
        }
        assert(in_normal_form(t)) by {
            assert forall|i: int| 0 <= i < t.len() implies #[trigger] t[i].1 > 0 by {
                if i < k {
                    assert(t[i] == c[i]);
                }
            }
            assert forall|i: int| 0 <= i < t.len() - 1 implies #[trigger] t[i].0 != t[i + 1].0 by {
                assert(t[i] == c[i]);
                if i + 1 < k {
                    assert(t[i + 1] == c[i + 1]);
                } else {
                    assert(c[i].0 != c[i + 1].0);
                }
            }
        }
        lemma_run_lengths_unique(s, t);
        assert(segment_prefix(s, c)) by {
            assert forall|i: int| 0 <= i < s.len() implies #[trigger] segment_matches_at(s, c, i) by {
                if i < k {
                    assert(s[i] == c[i]);
                }
            }
        }
    }
}

/// Over candidates in normal form, the query judge's count of candidates a
/// sequence in normal form is a segment prefix of equals the sequence
/// judge's count of candidates whose controls begin with the sequence's.
pub proof fn lemma_segment_matches_agree(x: Seq<OpV>, cs: Seq<Candidate>)
    requires
        in_normal_form(x),
        forall|k: int| 0 <= k < cs.len() ==> in_normal_form(ops_value(#[trigger] cs[k].operations@)),
    ensures
        segment_matches(x, cs) == matching_candidates(x, cs),
    decreases cs.len(),
{
    if cs.len() > 0 {
        let p = cs.drop_last();
        assert forall|k: int| 0 <= k < p.len() implies in_normal_form(ops_value(#[trigger] p[k].operations@)) by {
            assert(p[k] == cs[k]);
        }
        lemma_segment_matches_agree(x, p);
        assert(in_normal_form(ops_value(cs[cs.len() - 1].operations@)));
        lemma_segment_prefix_iff_prefix(x, ops_value(cs.last().operations@));
    }
}

/// The query judge and the sequence judge agree on a sequence both accept
/// when the candidates are in normal form, as validation leaves them: the
/// normal form is the same, and so is the number of candidates still
/// matched.
pub proof fn lemma_query_judge_agrees(
    ops: Seq<OpV>,
    allowed: Seq<Seq<char>>,
    max: int,
    cs: Seq<Candidate>,
)
    requires
        first_fault(ops, allowed, max) is None,
        forall|k: int| 0 <= k < cs.len() ==> in_normal_form(ops_value(#[trigger] cs[k].operations@)),
    ensures
        in_normal_form(normalize_ops(ops)),
        segment_matches(normalize_ops(ops), cs) == matching_candidates(normalize_ops(ops), cs),
{
    lemma_accepted_normal_form(ops, allowed, max);
    lemma_segment_matches_agree(normalize_ops(ops), cs);
}

/// The error of a faulty query.
pub open spec fn query_fault_error(fault: OpFault) -> QueryJudgeError {
    match fault {
        OpFault::NonPositiveCount => QueryJudgeError::NonPositiveCount,
        OpFault::UnknownControl => QueryJudgeError::UnknownControl,
        OpFault::TotalTooLarge => QueryJudgeError::OperationLimitExceeded,
    }
}

/// Whether the query source is one of the allowed input devices.
pub fn is_allowed_source(source: &str) -> (r: bool)
    ensures
        r == allowed_source(source@),
{
    str_eq(source, "keyboard") || str_eq(source, "mouse") || str_eq(source, "serial")
}

/// Whether `submitted` is a segment prefix of `candidate`.
pub fn operations_are_prefix(submitted: &[Operation], candidate: &[Operation]) -> (r: bool)
    ensures
        r == segment_prefix(ops_value(submitted@), ops_value(candidate@)),
{
    let n = submitted.len();
    for index in 0..n
        invariant
            n == submitted@.len(),
            forall|i: int| 0 <= i < index ==> #[trigger] segment_matches_at(
                ops_value(submitted@),
                ops_value(candidate@),
                i,
            ),
    {
        if index >= candidate.len() {
            assert(!segment_matches_at(ops_value(submitted@), ops_value(candidate@), index as int));
            return false;
        }
        let s = &submitted[index];
        let c = &candidate[index];
        let same = crate::text::string_eq(&s.control, &c.control);
        let ok = if !same {
            false
        } else if index + 1 == n {
            s.count <= c.count
        } else {
            s.count == c.count
        };
        assert(ok == segment_matches_at(ops_value(submitted@), ops_value(candidate@), index as int));
        if !ok {
            return false;
        }
    }
    true
}

/// Judges a query against an operation-sequence problem.
///
/// The source must be an allowed device and the problem must take operation
/// sequences; the sequence must not be empty and is rejected at its first
/// operation whose count is not positive, whose control is not allowed, or
/// that takes the running total over the limit. Otherwise its normal form is
/// returned, whether that equals the correct operations, and how many
/// candidates it is a segment prefix of.
pub fn judge_query(
    source: &str,
    operations: &[Operation],
    input_schema: &InputSchema,
    judge_config: &JudgeConfig,
) -> (r: Result<QueryJudgement, QueryJudgeError>)
    ensures
        !allowed_source(source@) ==> r matches Err(QueryJudgeError::InvalidSource),
        allowed_source(source@) ==> match judge_config {
            JudgeConfig::OperationSequence { correct_operations, candidates } => {
                let ops = ops_value(operations@);
                let fault = first_fault(
                    ops,
                    strings_value(input_schema.query.allowed_controls@),
                    input_schema.query.max_operations as int,
                );
                let count = segment_matches(normalize_ops(ops), candidates@);
                if operations@.len() == 0 {
                    r matches Err(QueryJudgeError::EmptyOperations)
                } else if fault is Some {
                    r matches Err(e) && e == query_fault_error(fault.unwrap().0)
                } else if count > i32::MAX {
                    r matches Err(QueryJudgeError::InvalidStoredJudgeConfig)
                } else {
                    r matches Ok(j) && ops_value(j.normalized_operations@) == normalize_ops(ops)
                        && j.correct == (normalize_ops(ops) == ops_value(correct_operations@))
                        && j.remaining_pattern_count == count
                }
            },
            _ => r matches Err(QueryJudgeError::WrongSubmissionType),
        },
{
    if !is_allowed_source(source) {
        return Err(QueryJudgeError::InvalidSource);
    }
    let (correct_operations, candidates) = match judge_config {
        JudgeConfig::OperationSequence { correct_operations, candidates } => (
            correct_operations,
            candidates,
        ),
        _ => {
            return Err(QueryJudgeError::WrongSubmissionType);
        },
    };
    if operations.len() == 0 {
        return Err(QueryJudgeError::EmptyOperations);
    }
    match find_operation_fault(
        operations,
        &input_schema.query.allowed_controls,
        input_schema.query.max_operations,
    ) {
        Some((OpFault::NonPositiveCount, _)) => {
            return Err(QueryJudgeError::NonPositiveCount);
        },
        Some((OpFault::UnknownControl, _)) => {
            return Err(QueryJudgeError::UnknownControl);
        },
        Some((OpFault::TotalTooLarge, _)) => {
            return Err(QueryJudgeError::OperationLimitExceeded);
        },
        None => {},
    }
    proof {
        lemma_no_fault_means_valid(
            ops_value(operations@),
            strings_value(input_schema.query.allowed_controls@),
            input_schema.query.max_operations as int,
        );
        crate::problem::judge::lemma_positive_counts_merge_in_range(ops_value(operations@));
    }
    let normalized_operations = normalize_operations(operations);
    let correct = operations_equal(normalized_operations.as_slice(), correct_operations.as_slice());
    let n = candidates.len();
    let mut count: usize = 0;
    for i in 0..n
        invariant
            n == candidates@.len(),
            count == segment_matches(ops_value(normalized_operations@), candidates@.take(i as int)),
            count <= i,
    {
        proof {
            assert(candidates@.take(i + 1).drop_last() =~= candidates@.take(i as int));
        }
        if operations_are_prefix(normalized_operations.as_slice(), candidates[i].operations.as_slice()) {
            count = count + 1;
        }
    }
    proof {
        assert(candidates@.take(n as int) =~= candidates@);
    }
    if count > i32::MAX as usize {
        return Err(QueryJudgeError::InvalidStoredJudgeConfig);
    }
    Ok(QueryJudgement { normalized_operations, correct, remaining_pattern_count: count as i32 })
}

/// Turns a stored judge configuration into a validated one, as the problem's
/// stored submission type and input schema require: the configuration's kind
/// must match the submission type and it must pass validation.
pub fn decode_stored_judge_config(
    submission_type: &str,
    input: JudgeConfigInput,
    input_schema: &InputSchema,
) -> (r: Result<JudgeConfig, QueryJudgeError>)
    ensures
        match input {
            JudgeConfigInput::OperationSequence { correct_operations, candidates } => {
                if submission_type@ == "operation_sequence"@ && operation_config_issue(
                    ops_value(correct_operations@),
                    candidates@,
                    strings_value(input_schema.query.allowed_controls@),
                    input_schema.query.max_operations as int,
                    "judge_config"@,
                ) is None {
                    r matches Ok(JudgeConfig::OperationSequence { correct_operations: c, candidates: cs })
                        && ops_value(c@) == normalize_ops(ops_value(correct_operations@))
                        && cs@.len() == candidates@.len()
                        && forall|i: int| 0 <= i < cs@.len() ==> (#[trigger] cs@[i]).candidate_id@
                            == candidate_key(candidates@, i) && ops_value(cs@[i].operations@)
                            == candidate_norm(candidates@, i)
                } else {
                    r matches Err(QueryJudgeError::InvalidStoredJudgeConfig)
                }
            },
            JudgeConfigInput::String { accepted_answers, normalization } => {
                if submission_type@ == "string"@ && string_config_issue(
                    accepted_answers@,
                    normalization,
                    input_schema.answer.max_length as int,
                    "judge_config"@,
                ) is None {
                    r matches Ok(JudgeConfig::String { accepted_answers: a, normalization: n })
                        && n == normalization
                        && a@.len() == accepted_answers@.len()
                        && forall|i: int| 0 <= i < a@.len() ==> (#[trigger] a@[i])@
                            == answer_norm(accepted_answers@, normalization, i)
                } else {
                    r matches Err(QueryJudgeError::InvalidStoredJudgeConfig)
                }
            },
        },
{
    let result = match input {
        JudgeConfigInput::OperationSequence { correct_operations, candidates } => {
            if !str_eq(submission_type, "operation_sequence") {
                return Err(QueryJudgeError::InvalidStoredJudgeConfig);
            }
            validate_operation_judge_config(
                correct_operations,
                candidates,
                &input_schema.query.allowed_controls,
                input_schema.query.max_operations,
                "judge_config",
            )
        },
        JudgeConfigInput::String { accepted_answers, normalization } => {
            if !str_eq(submission_type, "string") {
                return Err(QueryJudgeError::InvalidStoredJudgeConfig);
            }
            validate_string_judge_config(
                accepted_answers,
                normalization,
                input_schema.answer.max_length,
                "judge_config",
            )
        },
    };
    match result {
        Ok(config) => Ok(config),
        Err(_) => Err(QueryJudgeError::InvalidStoredJudgeConfig),
    }
}

} // verus!
