//! Validation of problem data: operation sequences, judge configurations,
//! problems, rooms and the whole catalogue.
use vstd::prelude::*;

use super::judge::{
    OpFault, count_total, counts_positive, find_operation_fault, first_fault, normalize_ops,
    normalize_operations, strings_value, lemma_no_fault_means_valid,
};
use super::judge::{normalize_answer, normalize_answer_seq, operations_equal, rep_count, rep_len};
use super::model::{
    Candidate, JudgeConfig, OpV, Operation, Problem, ProblemCatalog, ProblemType, Room,
    StringNormalization, ops_value,
};
use super::{Issue, ProblemDataError, validation_error};
use crate::text::{
    all_white_space, char_count, chars_eq, concat_str, field_index, from_chars, indexed_field,
    is_blank, string_eq, to_chars, trim_chars, trim_seq,
};

verus! {

/// The issue with `ops` as an operation sequence under the allowed controls and
/// the limit `max`, reported against `field`, if it has one.
pub open spec fn operations_issue(
    ops: Seq<OpV>,
    allowed: Seq<Seq<char>>,
    max: int,
    field: Seq<char>,
) -> Option<Issue> {
    if ops.len() == 0 {
        Some((field, "operation sequence must not be empty"@))
    } else {
        match first_fault(ops, allowed, max) {
            Some((OpFault::NonPositiveCount, i)) => Some(
                (
                    indexed_field(field, i as nat) + ".count"@,
                    "operation count must be greater than zero"@,
                ),
            ),
            Some((OpFault::UnknownControl, i)) => Some(
                (
                    indexed_field(field, i as nat) + ".control"@,
                    "operation control must be allowed by input schema"@,
                ),
            ),
            Some((OpFault::TotalTooLarge, _)) => Some(
                (field, "operation count total must not exceed max operations"@),
            ),
            None => None,
        }
    }
}

/// Fails with "must not be empty" on `field` when `value` is blank.
pub fn require_non_empty(value: &str, field: String) -> (r: Result<(), ProblemDataError>)
    ensures
        all_white_space(value@) ==> (r matches Err(e) && e.issue() == Some(
            (field@, "must not be empty"@),
        )),
        !all_white_space(value@) ==> r is Ok,
{
    if is_blank(value) {
        return Err(validation_error(field, "must not be empty"));
    }
    Ok(())
}

/// Checks an operation sequence and returns its normal form.
pub fn validate_operations(
    operations: Vec<Operation>,
    allowed_controls: &Vec<String>,
    max_operations: i32,
    field: &str,
) -> (r: Result<Vec<Operation>, ProblemDataError>)
    ensures
        match operations_issue(
            ops_value(operations@),
            strings_value(allowed_controls@),
            max_operations as int,
            field@,
        ) {
            Some(issue) => r matches Err(e) && e.issue() == Some(issue),
            None => r matches Ok(v) && ops_value(v@) == normalize_ops(ops_value(operations@)),
        },
{
    if operations.len() == 0 {
        return Err(validation_error(String::from_str(field), "operation sequence must not be empty"));
    }
    match find_operation_fault(operations.as_slice(), allowed_controls, max_operations) {
        Some((OpFault::NonPositiveCount, index)) => {
            let name = field_index(field, index);
            return Err(validation_error(concat_str(name.as_str(), ".count"), "operation count must be greater than zero"));
        },
        Some((OpFault::UnknownControl, index)) => {
            let name = field_index(field, index);
            return Err(validation_error(concat_str(name.as_str(), ".control"), "operation control must be allowed by input schema"));
        },
        Some((OpFault::TotalTooLarge, _)) => {
            return Err(validation_error(String::from_str(field), "operation count total must not exceed max operations"));
        },
        None => {},
    }
    proof {
        lemma_no_fault_means_valid(
            ops_value(operations@),
            strings_value(allowed_controls@),
            max_operations as int,
        );
        crate::problem::judge::lemma_positive_counts_merge_in_range(ops_value(operations@));
    }
    Ok(normalize_operations(operations.as_slice()))
}

// ---------------------------------------------------------------------------
// Operation-sequence judge configurations
// ---------------------------------------------------------------------------

/// The normal form of the operations of candidate `j`.
pub open spec fn candidate_norm(cands: Seq<Candidate>, j: int) -> Seq<OpV> {
    normalize_ops(ops_value(cands[j].operations@))
}

/// The trimmed ID of candidate `j`.
pub open spec fn candidate_key(cands: Seq<Candidate>, j: int) -> Seq<char> {
    trim_seq(cands[j].candidate_id@)
}

/// The issue with candidate `i`, given that the earlier candidates have none.
pub open spec fn candidate_issue(
    cands: Seq<Candidate>,
    i: int,
    allowed: Seq<Seq<char>>,
    max: int,
    field: Seq<char>,
) -> Option<Issue> {
    let base = indexed_field(field + ".candidates"@, i as nat);
    let id = candidate_key(cands, i);
    if id.len() == 0 {
        Some((base + ".candidate_id"@, "candidate ID must not be empty"@))
    } else if exists|j: int| 0 <= j < i && candidate_key(cands, j) == id {
        Some((base + ".candidate_id"@, "candidate ID must not be duplicated"@))
    } else {
        match operations_issue(ops_value(cands[i].operations@), allowed, max, base + ".operations"@) {
            Some(issue) => Some(issue),
            None => if exists|j: int| 0 <= j < i && candidate_norm(cands, j) == candidate_norm(cands, i) {
                Some((base + ".operations"@, "normalized candidate operations must not be duplicated"@))
            } else {
                None
            },
        }
    }
}

/// The first issue among candidates `i` and later.
pub open spec fn first_candidate_issue(
    cands: Seq<Candidate>,
    i: int,
    allowed: Seq<Seq<char>>,
    max: int,
    field: Seq<char>,
) -> Option<Issue>
    decreases cands.len() - i,
{
    if i < 0 || i >= cands.len() {
        None
    } else {
        match candidate_issue(cands, i, allowed, max, field) {
            Some(issue) => Some(issue),
            None => first_candidate_issue(cands, i + 1, allowed, max, field),
        }
    }
}

/// The issue with an operation-sequence judge configuration, if it has one:
/// first its correct operations, then the presence of candidates, then each
/// candidate in order, then whether the correct operations are a candidate.
pub open spec fn operation_config_issue(
    correct: Seq<OpV>,
    cands: Seq<Candidate>,
    allowed: Seq<Seq<char>>,
    max: int,
    field: Seq<char>,
) -> Option<Issue> {
    match operations_issue(correct, allowed, max, field + ".correct_operations"@) {
        Some(issue) => Some(issue),
        None => if cands.len() == 0 {
            Some((field + ".candidates"@, "at least one candidate is required"@))
        } else {
            match first_candidate_issue(cands, 0, allowed, max, field) {
                Some(issue) => Some(issue),
                None => if !(exists|j: int|
                    0 <= j < cands.len() && candidate_norm(cands, j) == normalize_ops(correct)) {
                    Some((field + ".correct_operations"@, "correct operations must match one candidate"@))
                } else {
                    None
                },
            }
        },
    }
}

/// Where no candidate from `i` on has an issue, none of them has one.
proof fn lemma_no_candidate_issue(
    cands: Seq<Candidate>,
    i: int,
    allowed: Seq<Seq<char>>,
    max: int,
    field: Seq<char>,
)
    requires
        0 <= i,
        first_candidate_issue(cands, i, allowed, max, field) is None,
    ensures
        forall|k: int|
            i <= k < cands.len() ==> #[trigger] candidate_issue(cands, k, allowed, max, field) is None,
    decreases cands.len() - i,
{
    if i < cands.len() {
        lemma_no_candidate_issue(cands, i + 1, allowed, max, field);
    }
}

/// An operation-sequence configuration that the validator accepts has
/// accepted correct operations and at least one candidate; every candidate's
/// trimmed ID is non-empty and differs from every other's; every candidate's
/// operations are accepted on their own and their normal forms differ
/// pairwise; and the correct operations have the normal form of some
/// candidate.
pub proof fn lemma_accepted_operation_config(
    correct: Seq<OpV>,
    cands: Seq<Candidate>,
    allowed: Seq<Seq<char>>,
    max: int,
    field: Seq<char>,
)
    requires
        operation_config_issue(correct, cands, allowed, max, field) is None,
    ensures
        operations_issue(correct, allowed, max, field + ".correct_operations"@) is None,
        cands.len() > 0,
        forall|i: int|
            0 <= i < cands.len() ==> (#[trigger] candidate_key(cands, i)).len() > 0
                && operations_issue(
                ops_value(cands[i].operations@),
                allowed,
                max,
                indexed_field(field + ".candidates"@, i as nat) + ".operations"@,
            ) is None,
        forall|i: int, j: int|
            0 <= i < j < cands.len() ==> #[trigger] candidate_key(cands, i) != #[trigger] candidate_key(
                cands,
                j,
            ) && candidate_norm(cands, i) != candidate_norm(cands, j),
        exists|j: int| 0 <= j < cands.len() && candidate_norm(cands, j) == normalize_ops(correct),
{
    lemma_no_candidate_issue(cands, 0, allowed, max, field);
    assert forall|i: int| 0 <= i < cands.len() implies (#[trigger] candidate_key(cands, i)).len() > 0
        && operations_issue(
        ops_value(cands[i].operations@),
        allowed,
        max,
        indexed_field(field + ".candidates"@, i as nat) + ".operations"@,
    ) is None by {
        assert(candidate_issue(cands, i, allowed, max, field) is None);
    }
    assert forall|i: int, j: int| 0 <= i < j < cands.len() implies #[trigger] candidate_key(cands, i)
        != #[trigger] candidate_key(cands, j) && candidate_norm(cands, i) != candidate_norm(cands, j) by {
        assert(candidate_issue(cands, j, allowed, max, field) is None);
    }
}

/// The trimmed copy of a string.
pub fn trim_string(s: &String) -> (r: String)
    ensures
        r@ == trim_seq(s@),
{
    let chars = to_chars(s.as_str());
    let trimmed = trim_chars(&chars);
    from_chars(&trimmed)
}

/// Checks an operation-sequence judge configuration and returns it with its
/// operation sequences normalized and its candidate IDs trimmed.
#[verifier::loop_isolation(false)]
pub fn validate_operation_judge_config(
    correct_operations: Vec<Operation>,
    candidates: Vec<Candidate>,
    allowed_controls: &Vec<String>,
    max_operations: i32,
    field: &str,
) -> (r: Result<JudgeConfig, ProblemDataError>)
    ensures
        match operation_config_issue(
            ops_value(correct_operations@),
            candidates@,
            strings_value(allowed_controls@),
            max_operations as int,
            field@,
        ) {
            Some(issue) => r matches Err(e) && e.issue() == Some(issue),
            None => r matches Ok(JudgeConfig::OperationSequence { correct_operations: c, candidates: cs })
                && ops_value(c@) == normalize_ops(ops_value(correct_operations@))
                && cs@.len() == candidates@.len()
                && forall|i: int| 0 <= i < cs@.len() ==> (#[trigger] cs@[i]).candidate_id@
                    == candidate_key(candidates@, i) && ops_value(cs@[i].operations@)
                    == candidate_norm(candidates@, i),
        },
{
    let ghost allowed = strings_value(allowed_controls@);
    let ghost cands = candidates@;
    let correct_field = concat_str(field, ".correct_operations");
    let correct = match validate_operations(correct_operations, allowed_controls, max_operations, correct_field.as_str()) {
        Ok(v) => v,
        Err(e) => { return Err(e); },
    };
    if candidates.len() == 0 {
        return Err(validation_error(concat_str(field, ".candidates"), "at least one candidate is required"));
    }
    let list_field = concat_str(field, ".candidates");
    let n = candidates.len();
    let mut ids: Vec<String> = Vec::new();
    let mut normalized_candidates: Vec<Candidate> = Vec::new();
    let mut index: usize = 0;
    while index < n
        invariant
            n == cands.len(),
            index <= n,
            candidates@ == cands,
            list_field@ == field@ + ".candidates"@,
            allowed == strings_value(allowed_controls@),
            ops_value(correct@) == normalize_ops(ops_value(correct_operations@)),
            operations_issue(ops_value(correct_operations@), allowed, max_operations as int, field@ + ".correct_operations"@) is None,
            cands.len() > 0,
            first_candidate_issue(cands, 0, allowed, max_operations as int, field@)
                == first_candidate_issue(cands, index as int, allowed, max_operations as int, field@),
            ids@.len() == index,
            normalized_candidates@.len() == index,
            forall|j: int| 0 <= j < index ==> (#[trigger] ids@[j])@ == candidate_key(cands, j),
            forall|j: int| 0 <= j < index ==> (#[trigger] normalized_candidates@[j]).candidate_id@ == candidate_key(cands, j)
                && ops_value(normalized_candidates@[j].operations@) == candidate_norm(cands, j),
        decreases n - index,
    {
        let candidate = &candidates[index];
        let base = field_index(list_field.as_str(), index);
        let candidate_id = trim_string(&candidate.candidate_id);
        if candidate_id.as_str().unicode_len() == 0 {
            return Err(validation_error(concat_str(base.as_str(), ".candidate_id"), "candidate ID must not be empty"));
        }
        let mut j: usize = 0;
        while j < index
            invariant
                j <= index,
                ids@.len() == index,
                forall|k: int| 0 <= k < j ==> (#[trigger] ids@[k])@ != candidate_id@,
            decreases index - j,
        {
            if string_eq(&ids[j], &candidate_id) {
                proof {
                    assert(candidate_key(cands, j as int) == candidate_key(cands, index as int));
                }
                return Err(validation_error(concat_str(base.as_str(), ".candidate_id"), "candidate ID must not be duplicated"));
            }
            j = j + 1;
        }
        assert(!(exists|k: int| 0 <= k < index && candidate_key(cands, k) == candidate_key(cands, index as int))) by {
            assert forall|k: int| 0 <= k < index implies candidate_key(cands, k) != candidate_key(cands, index as int) by {
                assert(ids@[k]@ == candidate_key(cands, k));
            }
        }
        let ops_field = concat_str(base.as_str(), ".operations");
        let operations = match validate_operations(copy_operations(&candidate.operations), allowed_controls, max_operations, ops_field.as_str()) {
            Ok(v) => v,
            Err(e) => { return Err(e); },
        };
        let mut j: usize = 0;
        while j < index
            invariant
                j <= index,
                normalized_candidates@.len() == index,
                forall|k: int| 0 <= k < j ==> ops_value((#[trigger] normalized_candidates@[k]).operations@) != ops_value(operations@),
            decreases index - j,
        {
            if operations_equal(normalized_candidates[j].operations.as_slice(), operations.as_slice()) {
                proof {
                    assert(candidate_norm(cands, j as int) == candidate_norm(cands, index as int));
                }
                return Err(validation_error(ops_field, "normalized candidate operations must not be duplicated"));
            }
            j = j + 1;
        }
        assert(!(exists|k: int| 0 <= k < index && candidate_norm(cands, k) == candidate_norm(cands, index as int))) by {
            assert forall|k: int| 0 <= k < index implies candidate_norm(cands, k) != candidate_norm(cands, index as int) by {
                assert(ops_value(normalized_candidates@[k].operations@) == candidate_norm(cands, k));
            }
        }
        ids.push(copy_string_of(&candidate_id));
        normalized_candidates.push(Candidate { candidate_id, operations });
        index = index + 1;
    }
    let mut found = false;
    let mut j: usize = 0;
    while j < n
        invariant
            j <= n,
            n == cands.len(),
            normalized_candidates@.len() == n,
            found ==> exists|k: int| 0 <= k < n && ops_value(normalized_candidates@[k].operations@) == ops_value(correct@),
            !found ==> forall|k: int| 0 <= k < j ==> ops_value((#[trigger] normalized_candidates@[k]).operations@) != ops_value(correct@),
        decreases n - j,
    {
        if !found && operations_equal(normalized_candidates[j].operations.as_slice(), correct.as_slice()) {
            found = true;
        }
        j = j + 1;
    }
    proof {
        if found {
            let k = choose|k: int| 0 <= k < n && ops_value(normalized_candidates@[k].operations@) == ops_value(correct@);
            assert(candidate_norm(cands, k) == normalize_ops(ops_value(correct_operations@)));
        } else {
            assert forall|k: int| 0 <= k < n implies candidate_norm(cands, k) != normalize_ops(ops_value(correct_operations@)) by {
                assert(ops_value(normalized_candidates@[k].operations@) == candidate_norm(cands, k));
            }
        }
    }
    if !found {
        return Err(validation_error(correct_field, "correct operations must match one candidate"));
    }
    Ok(JudgeConfig::OperationSequence { correct_operations: correct, candidates: normalized_candidates })
}

// ---------------------------------------------------------------------------
// String judge configurations
// ---------------------------------------------------------------------------

/// The normal form of accepted answer `j`.
pub open spec fn answer_norm(answers: Seq<String>, norm: StringNormalization, j: int) -> Seq<char> {
    normalize_answer_seq(answers[j]@, norm)
}

/// The issue with accepted answer `i`, given that the earlier ones have none.
pub open spec fn answer_issue(
    answers: Seq<String>,
    i: int,
    norm: StringNormalization,
    max_length: int,
    field: Seq<char>,
) -> Option<Issue> {
    let name = indexed_field(field + ".accepted_answers"@, i as nat);
    if answers[i]@.len() > rep_len(max_length) {
        Some((name, "accepted answer must not exceed max length"@))
    } else if answer_norm(answers, norm, i).len() == 0 {
        Some((name, "normalized answer must not be empty"@))
    } else if exists|j: int| 0 <= j < i && answer_norm(answers, norm, j) == answer_norm(answers, norm, i) {
        Some((name, "normalized accepted answers must not be duplicated"@))
    } else {
        None
    }
}

/// The first issue among accepted answers `i` and later.
pub open spec fn first_answer_issue(
    answers: Seq<String>,
    i: int,
    norm: StringNormalization,
    max_length: int,
    field: Seq<char>,
) -> Option<Issue>
    decreases answers.len() - i,
{
    if i < 0 || i >= answers.len() {
        None
    } else {
        match answer_issue(answers, i, norm, max_length, field) {
            Some(issue) => Some(issue),
            None => first_answer_issue(answers, i + 1, norm, max_length, field),
        }
    }
}

/// The issue with a string judge configuration, if it has one. An answer's
/// length is compared with the limit before normalization; the limit is
/// converted to `usize` as `as` does.
pub open spec fn string_config_issue(
    answers: Seq<String>,
    norm: StringNormalization,
    max_length: int,
    field: Seq<char>,
) -> Option<Issue> {
    if answers.len() == 0 {
        Some((field + ".accepted_answers"@, "at least one accepted answer is required"@))
    } else {
        first_answer_issue(answers, 0, norm, max_length, field)
    }
}

/// Where no accepted answer from `i` on has an issue, none of them has one.
proof fn lemma_no_answer_issue(
    answers: Seq<String>,
    i: int,
    norm: StringNormalization,
    max_length: int,
    field: Seq<char>,
)
    requires
        0 <= i,
        first_answer_issue(answers, i, norm, max_length, field) is None,
    ensures
        forall|k: int|
            i <= k < answers.len() ==> #[trigger] answer_issue(answers, k, norm, max_length, field) is None,
    decreases answers.len() - i,
{
    if i < answers.len() {
        lemma_no_answer_issue(answers, i + 1, norm, max_length, field);
    }
}

/// A string configuration that the validator accepts has at least one
/// accepted answer; each is within the length limit before normalization,
/// and the normal forms are non-empty and differ pairwise.
pub proof fn lemma_accepted_string_config(
    answers: Seq<String>,
    norm: StringNormalization,
    max_length: int,
    field: Seq<char>,
)
    requires
        string_config_issue(answers, norm, max_length, field) is None,
    ensures
        answers.len() > 0,
        forall|i: int|
            0 <= i < answers.len() ==> (#[trigger] answers[i])@.len() <= rep_len(max_length)
                && answer_norm(answers, norm, i).len() > 0,
        forall|i: int, j: int|
            0 <= i < j < answers.len() ==> #[trigger] answer_norm(answers, norm, i) != #[trigger] answer_norm(
                answers,
                norm,
                j,
            ),
{
    lemma_no_answer_issue(answers, 0, norm, max_length, field);
    assert forall|i: int| 0 <= i < answers.len() implies (#[trigger] answers[i])@.len() <= rep_len(
        max_length,
    ) && answer_norm(answers, norm, i).len() > 0 by {
        assert(answer_issue(answers, i, norm, max_length, field) is None);
    }
    assert forall|i: int, j: int| 0 <= i < j < answers.len() implies #[trigger] answer_norm(
        answers,
        norm,
        i,
    ) != #[trigger] answer_norm(answers, norm, j) by {
        assert(answer_issue(answers, j, norm, max_length, field) is None);
    }
}

/// Checks a string judge configuration and returns it with its accepted
/// answers normalized.
#[verifier::loop_isolation(false)]
pub fn validate_string_judge_config(
    accepted_answers: Vec<String>,
    normalization: StringNormalization,
    max_length: i32,
    field: &str,
) -> (r: Result<JudgeConfig, ProblemDataError>)
    ensures
        match string_config_issue(accepted_answers@, normalization, max_length as int, field@) {
            Some(issue) => r matches Err(e) && e.issue() == Some(issue),
            None => r matches Ok(JudgeConfig::String { accepted_answers: a, normalization: n })
                && n == normalization
                && a@.len() == accepted_answers@.len()
                && forall|i: int| 0 <= i < a@.len() ==> (#[trigger] a@[i])@
                    == answer_norm(accepted_answers@, normalization, i),
        },
{
    let ghost answers = accepted_answers@;
    if accepted_answers.len() == 0 {
        return Err(validation_error(concat_str(field, ".accepted_answers"), "at least one accepted answer is required"));
    }
    let list_field = concat_str(field, ".accepted_answers");
    let limit = rep_count(max_length);
    let n = accepted_answers.len();
    let mut normalized_answers: Vec<String> = Vec::new();
    let mut index: usize = 0;
    while index < n
        invariant
            n == answers.len(),
            accepted_answers@ == answers,
            index <= n,
            limit == rep_len(max_length as int),
            list_field@ == field@ + ".accepted_answers"@,
            first_answer_issue(answers, 0, normalization, max_length as int, field@)
                == first_answer_issue(answers, index as int, normalization, max_length as int, field@),
            normalized_answers@.len() == index,
            forall|j: int| 0 <= j < index ==> (#[trigger] normalized_answers@[j])@ == answer_norm(answers, normalization, j),
        decreases n - index,
    {
        let answer = &accepted_answers[index];
        let name = field_index(list_field.as_str(), index);
        if char_count(answer.as_str()) > limit {
            return Err(validation_error(name, "accepted answer must not exceed max length"));
        }
        let normalized = normalize_answer(answer.as_str(), &normalization);
        if normalized.as_str().unicode_len() == 0 {
            return Err(validation_error(name, "normalized answer must not be empty"));
        }
        let mut j: usize = 0;
        while j < index
            invariant
                j <= index,
                normalized_answers@.len() == index,
                forall|k: int| 0 <= k < j ==> (#[trigger] normalized_answers@[k])@ != normalized@,
            decreases index - j,
        {
            if string_eq(&normalized_answers[j], &normalized) {
                proof {
                    assert(answer_norm(answers, normalization, j as int) == answer_norm(answers, normalization, index as int));
                }
                return Err(validation_error(name, "normalized accepted answers must not be duplicated"));
            }
            j = j + 1;
        }
        assert(!(exists|k: int| 0 <= k < index && answer_norm(answers, normalization, k) == answer_norm(answers, normalization, index as int))) by {
            assert forall|k: int| 0 <= k < index implies answer_norm(answers, normalization, k) != answer_norm(answers, normalization, index as int) by {
                assert(normalized_answers@[k]@ == answer_norm(answers, normalization, k));
            }
        }
        normalized_answers.push(normalized);
        index = index + 1;
    }
    Ok(JudgeConfig::String { accepted_answers: normalized_answers, normalization })
}

// ---------------------------------------------------------------------------
// The catalogue
// ---------------------------------------------------------------------------

/// `rooms[ri].problems[pi].<suffix>`
pub open spec fn problem_field(ri: int, pi: int, suffix: Seq<char>) -> Seq<char> {
    indexed_field(indexed_field("rooms"@, ri as nat) + ".problems"@, pi as nat) + suffix
}

/// `rooms[ri].<suffix>`
pub open spec fn room_field(ri: int, suffix: Seq<char>) -> Seq<char> {
    indexed_field("rooms"@, ri as nat) + suffix
}

/// The number of problems of type `t` in `probs`.
pub open spec fn count_type(probs: Seq<Problem>, t: ProblemType) -> nat
    decreases probs.len(),
{
    if probs.len() == 0 {
        0
    } else {
        count_type(probs.drop_last(), t) + if probs.last().problem_type == t {
            1nat
        } else {
            0nat
        }
    }
}

/// Whether problem `pi` of room `ri` repeats the ID of a problem that comes
/// before it in the catalogue.
pub open spec fn repeats_earlier_problem_id(rooms: Seq<Room>, ri: int, pi: int) -> bool {
    let id = rooms[ri].problems@[pi].problem_id;
    (exists|rj: int, pj: int|
        0 <= rj < ri && 0 <= pj < rooms[rj].problems@.len() && #[trigger] rooms[rj].problems@[pj].problem_id
            == id) || (exists|pj: int| 0 <= pj < pi && #[trigger] rooms[ri].problems@[pj].problem_id == id)
}

/// The issue with problem `pi` of room `ri` in the first pass over the
/// catalogue.
pub open spec fn catalog_problem_issue(rooms: Seq<Room>, ri: int, pi: int) -> Option<Issue> {
    let probs = rooms[ri].problems@;
    if repeats_earlier_problem_id(rooms, ri, pi) {
        Some((problem_field(ri, pi, ".problem_id"@), "problem ID must not be duplicated"@))
    } else if exists|pj: int| 0 <= pj < pi && #[trigger] probs[pj].number == probs[pi].number {
        Some((problem_field(ri, pi, ".number"@), "problem number must not be duplicated within a room"@))
    } else if !probs[pi].is_required {
        Some((problem_field(ri, pi, ".is_required"@), "the required four-problem set must use is_required true"@))
    } else {
        None
    }
}

/// The first issue among problems `pi` and later of room `ri`.
pub open spec fn first_catalog_problem_issue(rooms: Seq<Room>, ri: int, pi: int) -> Option<Issue>
    decreases rooms[ri].problems@.len() - pi,
{
    if pi < 0 || pi >= rooms[ri].problems@.len() {
        None
    } else {
        match catalog_problem_issue(rooms, ri, pi) {
            Some(issue) => Some(issue),
            None => first_catalog_problem_issue(rooms, ri, pi + 1),
        }
    }
}

/// The issue with room `ri` in the first pass over the catalogue.
pub open spec fn catalog_room_issue(rooms: Seq<Room>, ri: int) -> Option<Issue> {
    let room = rooms[ri];
    if exists|rj: int| 0 <= rj < ri && #[trigger] rooms[rj].room_id == room.room_id {
        Some((room_field(ri, ".room_id"@), "room ID must not be duplicated"@))
    } else if exists|rj: int| 0 <= rj < ri && #[trigger] rooms[rj].number == room.number {
        Some((room_field(ri, ".number"@), "room number must not be duplicated"@))
    } else if count_type(room.problems@, ProblemType::Small) != 3 || count_type(
        room.problems@,
        ProblemType::Final,
    ) != 1 {
        Some((room_field(ri, ".problems"@), "each room must contain three small problems and one final problem"@))
    } else {
        first_catalog_problem_issue(rooms, ri, 0)
    }
}

/// The first issue among rooms `ri` and later in the first pass.
pub open spec fn first_catalog_room_issue(rooms: Seq<Room>, ri: int) -> Option<Issue>
    decreases rooms.len() - ri,
{
    if ri < 0 || ri >= rooms.len() {
        None
    } else {
        match catalog_room_issue(rooms, ri) {
            Some(issue) => Some(issue),
            None => first_catalog_room_issue(rooms, ri + 1),
        }
    }
}

/// Counts the problems of type `t`.
fn count_problem_type(probs: &Vec<Problem>, t: ProblemType) -> (r: usize)
    ensures
        r == count_type(probs@, t),
{
    let n = probs.len();
    let mut count: usize = 0;
    for i in 0..n
        invariant
            n == probs@.len(),
            count == count_type(probs@.take(i as int), t),
            count <= i,
    {
        proof {
            assert(probs@.take(i + 1).drop_last() =~= probs@.take(i as int));
        }
        if probs[i].problem_type == t {
            count = count + 1;
        }
    }
    proof {
        assert(probs@.take(n as int) =~= probs@);
    }
    count
}

/// `rooms[ri].problems[pi].<suffix>` as a string.
fn problem_field_string(ri: usize, pi: usize, suffix: &str) -> (r: String)
    ensures
        r@ == problem_field(ri as int, pi as int, suffix@),
{
    let room = field_index("rooms", ri);
    let list = concat_str(room.as_str(), ".problems");
    let item = field_index(list.as_str(), pi);
    concat_str(item.as_str(), suffix)
}

/// `rooms[ri].<suffix>` as a string.
fn room_field_string(ri: usize, suffix: &str) -> (r: String)
    ensures
        r@ == room_field(ri as int, suffix@),
{
    let room = field_index("rooms", ri);
    concat_str(room.as_str(), suffix)
}

/// The first pass over the catalogue: unique room IDs and numbers, the
/// three-small-one-final shape of each room, unique problem IDs, problem
/// numbers unique within a room, and every problem required.
#[verifier::loop_isolation(false)]
fn check_catalog_shape(catalog: &ProblemCatalog) -> (r: Result<(), ProblemDataError>)
    ensures
        match first_catalog_room_issue(catalog.rooms@, 0) {
            Some(issue) => r matches Err(e) && e.issue() == Some(issue),
            None => r is Ok,
        },
{
    let rooms = &catalog.rooms;
    let ghost rs = rooms@;
    let n = rooms.len();
    let mut ri: usize = 0;
    while ri < n
        invariant
            n == rs.len(),
            ri <= n,
            first_catalog_room_issue(rs, 0) == first_catalog_room_issue(rs, ri as int),
        decreases n - ri,
    {
        let room = &rooms[ri];
        let mut rj: usize = 0;
        while rj < ri
            invariant
                rj <= ri,
                forall|k: int| 0 <= k < rj ==> #[trigger] rs[k].room_id != rs[ri as int].room_id,
            decreases ri - rj,
        {
            if rooms[rj].room_id == room.room_id {
                assert(rs[rj as int].room_id == rs[ri as int].room_id);
                return Err(validation_error(room_field_string(ri, ".room_id"), "room ID must not be duplicated"));
            }
            rj = rj + 1;
        }
        let mut rj: usize = 0;
        while rj < ri
            invariant
                rj <= ri,
                forall|k: int| 0 <= k < rj ==> #[trigger] rs[k].number != rs[ri as int].number,
            decreases ri - rj,
        {
            if rooms[rj].number == room.number {
                assert(rs[rj as int].number == rs[ri as int].number);
                return Err(validation_error(room_field_string(ri, ".number"), "room number must not be duplicated"));
            }
            rj = rj + 1;
        }
        let small_count = count_problem_type(&room.problems, ProblemType::Small);
        let final_count = count_problem_type(&room.problems, ProblemType::Final);
        if small_count != 3 || final_count != 1 {
            return Err(validation_error(room_field_string(ri, ".problems"), "each room must contain three small problems and one final problem"));
        }
        let probs = &room.problems;
        let m = probs.len();
        let mut pi: usize = 0;
        while pi < m
            invariant
                m == rs[ri as int].problems@.len(),
                pi <= m,
                first_catalog_problem_issue(rs, ri as int, 0) == first_catalog_problem_issue(rs, ri as int, pi as int),
            decreases m - pi,
        {
            let problem = &probs[pi];
            let mut rj: usize = 0;
            while rj < ri
                invariant
                    rj <= ri,
                    forall|k: int, q: int| 0 <= k < rj && 0 <= q < rs[k].problems@.len() ==>
                        #[trigger] rs[k].problems@[q].problem_id != rs[ri as int].problems@[pi as int].problem_id,
                decreases ri - rj,
            {
                let other = &rooms[rj].problems;
                let mut q: usize = 0;
                while q < other.len()
                    invariant
                        q <= other@.len(),
                        other@ == rs[rj as int].problems@,
                        forall|t: int| 0 <= t < q ==> #[trigger] other@[t].problem_id != problem.problem_id,
                    decreases other@.len() - q,
                {
                    if other[q].problem_id == problem.problem_id {
                        assert(rs[rj as int].problems@[q as int].problem_id == rs[ri as int].problems@[pi as int].problem_id);
                        assert(repeats_earlier_problem_id(rs, ri as int, pi as int));
                        return Err(validation_error(problem_field_string(ri, pi, ".problem_id"), "problem ID must not be duplicated"));
                    }
                    q = q + 1;
                }
                rj = rj + 1;
            }
            let mut q: usize = 0;
            while q < pi
                invariant
                    q <= pi,
                    forall|t: int| 0 <= t < q ==> #[trigger] rs[ri as int].problems@[t].problem_id != problem.problem_id,
                decreases pi - q,
            {
                if probs[q].problem_id == problem.problem_id {
                    assert(repeats_earlier_problem_id(rs, ri as int, pi as int));
                    return Err(validation_error(problem_field_string(ri, pi, ".problem_id"), "problem ID must not be duplicated"));
                }
                q = q + 1;
            }
            assert(!repeats_earlier_problem_id(rs, ri as int, pi as int));
            let mut q: usize = 0;
            while q < pi
                invariant
                    q <= pi,
                    forall|t: int| 0 <= t < q ==> #[trigger] rs[ri as int].problems@[t].number != problem.number,
                decreases pi - q,
            {
                if probs[q].number == problem.number {
                    assert(rs[ri as int].problems@[q as int].number == problem.number);
                    return Err(validation_error(problem_field_string(ri, pi, ".number"), "problem number must not be duplicated within a room"));
                }
                q = q + 1;
            }
            if !problem.is_required {
                return Err(validation_error(problem_field_string(ri, pi, ".is_required"), "the required four-problem set must use is_required true"));
            }
            pi = pi + 1;
        }
        ri = ri + 1;
    }
    Ok(())
}

// ---------------------------------------------------------------------------
// Dependencies
// ---------------------------------------------------------------------------

/// Whether room `ri` holds a problem with ID `id`.
pub open spec fn room_holds(rooms: Seq<Room>, ri: int, id: u128) -> bool {
    exists|pj: int| 0 <= pj < rooms[ri].problems@.len() && #[trigger] rooms[ri].problems@[pj].problem_id == id
}

/// Whether some room of the catalogue holds a problem with ID `id`.
pub open spec fn catalog_holds(rooms: Seq<Room>, id: u128) -> bool {
    exists|rj: int| 0 <= rj < rooms.len() && #[trigger] room_holds(rooms, rj, id)
}

/// The issue with the dependency of problem `pi` of room `ri`. (Problem and
/// room IDs are unique when this is checked, so "the room that holds the
/// dependency" is well defined.)
pub open spec fn dependency_reference_issue(rooms: Seq<Room>, ri: int, pi: int) -> Option<Issue> {
    let problem = rooms[ri].problems@[pi];
    let field = problem_field(ri, pi, ".depends_on_problem_id"@);
    match problem.depends_on_problem_id {
        None => None,
        Some(d) => if d == problem.problem_id {
            Some((field, "problem must not depend on itself"@))
        } else if !catalog_holds(rooms, d) {
            Some((field, "dependency must reference an existing problem"@))
        } else if !room_holds(rooms, ri, d) {
            Some((field, "dependency must reference a problem in the same room"@))
        } else {
            None
        },
    }
}

/// The first dependency-reference issue among problems `pi` and later of room
/// `ri`.
pub open spec fn first_reference_issue_in_room(rooms: Seq<Room>, ri: int, pi: int) -> Option<Issue>
    decreases rooms[ri].problems@.len() - pi,
{
    if pi < 0 || pi >= rooms[ri].problems@.len() {
        None
    } else {
        match dependency_reference_issue(rooms, ri, pi) {
            Some(issue) => Some(issue),
            None => first_reference_issue_in_room(rooms, ri, pi + 1),
        }
    }
}

/// The first dependency-reference issue among rooms `ri` and later.
pub open spec fn first_reference_issue(rooms: Seq<Room>, ri: int) -> Option<Issue>
    decreases rooms.len() - ri,
{
    if ri < 0 || ri >= rooms.len() {
        None
    } else {
        match first_reference_issue_in_room(rooms, ri, 0) {
            Some(issue) => Some(issue),
            None => first_reference_issue(rooms, ri + 1),
        }
    }
}

/// Whether room `ri` holds a problem with ID `id`.
fn room_has_problem(room: &Room, id: u128) -> (r: bool)
    ensures
        r == exists|pj: int| 0 <= pj < room.problems@.len() && #[trigger] room.problems@[pj].problem_id == id,
{
    let n = room.problems.len();
    for q in 0..n
        invariant
            n == room.problems@.len(),
            forall|t: int| 0 <= t < q ==> #[trigger] room.problems@[t].problem_id != id,
    {
        if room.problems[q].problem_id == id {
            assert(room.problems@[q as int].problem_id == id);
            return true;
        }
    }
    false
}

/// Every dependency names another problem of the same room.
#[verifier::loop_isolation(false)]
fn validate_dependency_references(catalog: &ProblemCatalog) -> (r: Result<(), ProblemDataError>)
    ensures
        match first_reference_issue(catalog.rooms@, 0) {
            Some(issue) => r matches Err(e) && e.issue() == Some(issue),
            None => r is Ok,
        },
{
    let rooms = &catalog.rooms;
    let ghost rs = rooms@;
    let n = rooms.len();
    let mut ri: usize = 0;
    while ri < n
        invariant
            n == rs.len(),
            ri <= n,
            first_reference_issue(rs, 0) == first_reference_issue(rs, ri as int),
        decreases n - ri,
    {
        let room = &rooms[ri];
        let m = room.problems.len();
        let mut pi: usize = 0;
        while pi < m
            invariant
                m == rs[ri as int].problems@.len(),
                pi <= m,
                first_reference_issue_in_room(rs, ri as int, 0) == first_reference_issue_in_room(rs, ri as int, pi as int),
            decreases m - pi,
        {
            let problem = &room.problems[pi];
            match problem.depends_on_problem_id {
                None => {},
                Some(d) => {
                    if d == problem.problem_id {
                        return Err(validation_error(problem_field_string(ri, pi, ".depends_on_problem_id"), "problem must not depend on itself"));
                    }
                    let mut found = false;
                    let mut rj: usize = 0;
                    while rj < n
                        invariant
                            rj <= n,
                            found == exists|k: int| 0 <= k < rj && #[trigger] room_holds(rs, k, d),
                        decreases n - rj,
                    {
                        if room_has_problem(&rooms[rj], d) {
                            assert(room_holds(rs, rj as int, d));
                            found = true;
                        }
                        rj = rj + 1;
                    }
                    if !found {
                        return Err(validation_error(problem_field_string(ri, pi, ".depends_on_problem_id"), "dependency must reference an existing problem"));
                    }
                    if !room_has_problem(room, d) {
                        return Err(validation_error(problem_field_string(ri, pi, ".depends_on_problem_id"), "dependency must reference a problem in the same room"));
                    }
                },
            }
            pi = pi + 1;
        }
        ri = ri + 1;
    }
    Ok(())
}

/// What the dependency map of a room gives for `id`: `None` when no problem
/// of the room has that ID, else the dependency of the last problem that has
/// it (as a map collected from the problems in order keeps).
pub open spec fn dependency_lookup(probs: Seq<Problem>, id: u128) -> Option<Option<u128>>
    decreases probs.len(),
{
    if probs.len() == 0 {
        None
    } else if probs.last().problem_id == id {
        Some(probs.last().depends_on_problem_id)
    } else {
        dependency_lookup(probs.drop_last(), id)
    }
}

/// The problem reached after following `k` dependencies from `start`, while
/// the chain lasts.
pub open spec fn dependency_walk(probs: Seq<Problem>, start: u128, k: nat) -> Option<u128>
    decreases k,
{
    if k == 0 {
        Some(start)
    } else {
        match dependency_walk(probs, start, (k - 1) as nat) {
            None => None,
            Some(id) => match dependency_lookup(probs, id) {
                Some(Some(next)) => Some(next),
                _ => None,
            },
        }
    }
}

/// Whether the dependency chain from `start` is cyclic: it lasts for one
/// step more than the room has problems, so it must visit some problem twice.
pub open spec fn dependency_cycle_from(probs: Seq<Problem>, start: u128) -> bool {
    dependency_walk(probs, start, (probs.len() + 1) as nat) is Some
}

/// The first problem, from `pi` on, whose dependency chain is cyclic.
pub open spec fn first_cycle_issue(probs: Seq<Problem>, ri: int, pi: int) -> Option<Issue>
    decreases probs.len() - pi,
{
    if pi < 0 || pi >= probs.len() {
        None
    } else if dependency_cycle_from(probs, probs[pi].problem_id) {
        Some((problem_field(ri, pi, ".depends_on_problem_id"@), "problem dependencies must not contain a cycle"@))
    } else {
        first_cycle_issue(probs, ri, pi + 1)
    }
}

/// Looks `id` up in the dependency map of a room.
fn lookup_dependency(probs: &Vec<Problem>, id: u128) -> (r: Option<Option<u128>>)
    ensures
        r == dependency_lookup(probs@, id),
{
    let n = probs.len();
    let mut k = n;
    assert(probs@.take(n as int) =~= probs@);
    while k > 0
        invariant
            k <= n,
            n == probs@.len(),
            dependency_lookup(probs@, id) == dependency_lookup(probs@.take(k as int), id),
        decreases k,
    {
        proof {
            assert(probs@.take(k as int).drop_last() =~= probs@.take(k - 1));
        }
        if probs[k - 1].problem_id == id {
            return Some(probs[k - 1].depends_on_problem_id);
        }
        k = k - 1;
    }
    None
}

/// Whether the dependency chain from `start` is cyclic.
fn has_dependency_cycle(probs: &Vec<Problem>, start: u128) -> (r: bool)
    ensures
        r == dependency_cycle_from(probs@, start),
{
    let n = probs.len();
    let mut current = start;
    for steps in 0..n
        invariant
            n == probs@.len(),
            dependency_walk(probs@, start, steps as nat) == Some(current),
    {
        match lookup_dependency(probs, current) {
            Some(Some(next)) => {
                current = next;
            },
            _ => {
                assert(dependency_walk(probs@, start, (steps + 1) as nat) is None);
                proof {
                    lemma_walk_stays_none(probs@, start, (steps + 1) as nat, (n + 1) as nat);
                }
                return false;
            },
        }
    }
    match lookup_dependency(probs, current) {
        Some(Some(_)) => true,
        _ => {
            assert(dependency_walk(probs@, start, (n + 1) as nat) is None);
            false
        },
    }
}

proof fn lemma_walk_stays_none(probs: Seq<Problem>, start: u128, k: nat, m: nat)
    requires
        k <= m,
        dependency_walk(probs, start, k) is None,
    ensures
        dependency_walk(probs, start, m) is None,
    decreases m - k,
{
    if k < m {
        lemma_walk_stays_none(probs, start, k + 1, m);
    }
}

/// No problem's dependency chain is cyclic.
#[verifier::loop_isolation(false)]
fn validate_dependency_cycles(room: &Room, room_index: usize) -> (r: Result<(), ProblemDataError>)
    ensures
        match first_cycle_issue(room.problems@, room_index as int, 0) {
            Some(issue) => r matches Err(e) && e.issue() == Some(issue),
            None => r is Ok,
        },
{
    let n = room.problems.len();
    let mut pi: usize = 0;
    while pi < n
        invariant
            n == room.problems@.len(),
            pi <= n,
            first_cycle_issue(room.problems@, room_index as int, 0) == first_cycle_issue(room.problems@, room_index as int, pi as int),
        decreases n - pi,
    {
        if has_dependency_cycle(&room.problems, room.problems[pi].problem_id) {
            return Err(validation_error(problem_field_string(room_index, pi, ".depends_on_problem_id"), "problem dependencies must not contain a cycle"));
        }
        pi = pi + 1;
    }
    Ok(())
}

// ---------------------------------------------------------------------------
// Unlock order
// ---------------------------------------------------------------------------

/// Problem numbers are unique within `probs`.
pub open spec fn numbers_unique(probs: Seq<Problem>) -> bool {
    forall|i: int, j: int|
        0 <= i < probs.len() && 0 <= j < probs.len() && i != j ==> #[trigger] probs[i].number
            != #[trigger] probs[j].number
}

/// Whether problem `q` is a small problem numbered below `number`.
pub open spec fn small_below(probs: Seq<Problem>, q: int, number: i32) -> bool {
    0 <= q < probs.len() && probs[q].problem_type == ProblemType::Small && probs[q].number < number
}

/// Whether problem `q` is the small problem with the greatest number below
/// that of problem `pi`: the one that comes just before it in number order.
pub open spec fn is_small_predecessor(probs: Seq<Problem>, pi: int, q: int) -> bool {
    small_below(probs, q, probs[pi].number) && forall|r: int|
        #[trigger] small_below(probs, r, probs[pi].number) ==> probs[r].number <= probs[q].number
}

/// The dependency a small problem must have: the small problem just before
/// it in number order, or none for the first.
pub open spec fn expected_small_dependency(probs: Seq<Problem>, pi: int) -> Option<u128> {
    if exists|q: int| #[trigger] small_below(probs, q, probs[pi].number) {
        Some(probs[choose|q: int| is_small_predecessor(probs, pi, q)].problem_id)
    } else {
        None
    }
}

/// Whether small problem `pi` breaks the ascending unlock order.
pub open spec fn breaks_unlock_order(probs: Seq<Problem>, pi: int) -> bool {
    0 <= pi < probs.len() && probs[pi].problem_type == ProblemType::Small
        && probs[pi].depends_on_problem_id != expected_small_dependency(probs, pi)
}

/// Whether `pi` is the final problem with a dependency that comes first.
pub open spec fn first_final_with_dependency(probs: Seq<Problem>, pi: int) -> bool {
    &&& 0 <= pi < probs.len()
    &&& probs[pi].problem_type == ProblemType::Final && probs[pi].depends_on_problem_id is Some
    &&& forall|q: int| 0 <= q < pi ==> !(#[trigger] probs[q].problem_type == ProblemType::Final
        && probs[q].depends_on_problem_id is Some)
}

/// Whether `pi` is the lowest-numbered small problem that breaks the order.
pub open spec fn first_order_breaker(probs: Seq<Problem>, pi: int) -> bool {
    breaks_unlock_order(probs, pi) && forall|q: int|
        #[trigger] breaks_unlock_order(probs, q) ==> probs[pi].number <= probs[q].number
}

/// The unlock-order issue of room `ri`: small problems, taken in number
/// order, must each depend on the one before (the first on none), and the
/// final problem must have no dependency.
pub open spec fn unlock_order_issue(probs: Seq<Problem>, ri: int) -> Option<Issue> {
    if exists|pi: int| breaks_unlock_order(probs, pi) {
        Some(
            (
                problem_field(ri, choose|pi: int| first_order_breaker(probs, pi), ".depends_on_problem_id"@),
                "small problems must unlock in ascending number order"@,
            ),
        )
    } else if exists|pi: int| first_final_with_dependency(probs, pi) {
        Some(
            (
                problem_field(ri, choose|pi: int| first_final_with_dependency(probs, pi), ".depends_on_problem_id"@),
                "final problem must not have a dependency"@,
            ),
        )
    } else {
        None
    }
}

/// The dependency the small problem `pi` must have.
fn expected_dependency(probs: &Vec<Problem>, pi: usize) -> (r: Option<u128>)
    requires
        pi < probs@.len(),
        numbers_unique(probs@),
    ensures
        r == expected_small_dependency(probs@, pi as int),
{
    let n = probs.len();
    let number = probs[pi].number;
    let mut best: Option<usize> = None;
    for q in 0..n
        invariant
            n == probs@.len(),
            pi < n,
            number == probs@[pi as int].number,
            best is None ==> forall|t: int| 0 <= t < q ==> !#[trigger] small_below(probs@, t, number),
            best matches Some(b) ==> b < q && small_below(probs@, b as int, number) && forall|t: int|
                0 <= t < q && #[trigger] small_below(probs@, t, number) ==> probs@[t].number <= probs@[b as int].number,
    {
        if probs[q].problem_type == ProblemType::Small && probs[q].number < number {
            let better = match best {
                None => true,
                Some(b) => probs[q].number > probs[b].number,
            };
            if better {
                best = Some(q);
            }
        }
    }
    match best {
        None => {
            assert(!exists|q: int| #[trigger] small_below(probs@, q, number));
            None
        },
        Some(b) => {
            proof {
                assert(is_small_predecessor(probs@, pi as int, b as int));
                let c = choose|q: int| is_small_predecessor(probs@, pi as int, q);
                assert(is_small_predecessor(probs@, pi as int, c));
                assert(probs@[c].number <= probs@[b as int].number);
                assert(probs@[b as int].number <= probs@[c].number);
                if c != b {
                    assert(probs@[c].number != probs@[b as int].number);
                }
            }
            Some(probs[b].problem_id)
        },
    }
}

/// Small problems unlock in ascending number order and the final problem
/// has no dependency.
#[verifier::loop_isolation(false)]
fn validate_unlock_order(room: &Room, room_index: usize) -> (r: Result<(), ProblemDataError>)
    requires
        numbers_unique(room.problems@),
    ensures
        match unlock_order_issue(room.problems@, room_index as int) {
            Some(issue) => r matches Err(e) && e.issue() == Some(issue),
            None => r is Ok,
        },
{
    let probs = &room.problems;
    let ghost ps = probs@;
    let n = probs.len();
    let mut worst: Option<usize> = None;
    for pi in 0..n
        invariant
            n == ps.len(),
            worst is None ==> forall|t: int| 0 <= t < pi ==> !#[trigger] breaks_unlock_order(ps, t),
            worst matches Some(w) ==> w < pi && breaks_unlock_order(ps, w as int) && forall|t: int|
                0 <= t < pi && #[trigger] breaks_unlock_order(ps, t) ==> ps[w as int].number <= ps[t].number,
    {
        if probs[pi].problem_type == ProblemType::Small {
            let expected = expected_dependency(probs, pi);
            if probs[pi].depends_on_problem_id != expected {
                assert(breaks_unlock_order(ps, pi as int));
                let better = match worst {
                    None => true,
                    Some(w) => probs[pi].number < probs[w].number,
                };
                if better {
                    worst = Some(pi);
                }
            } else {
                assert(!breaks_unlock_order(ps, pi as int));
            }
        }
    }
    match worst {
        Some(w) => {
            proof {
                assert(first_order_breaker(ps, w as int));
                let c = choose|q: int| first_order_breaker(ps, q);
                assert(first_order_breaker(ps, c));
                if c != w {
                    assert(ps[c].number != ps[w as int].number);
                }
            }
            return Err(validation_error(problem_field_string(room_index, w, ".depends_on_problem_id"), "small problems must unlock in ascending number order"));
        },
        None => {},
    }
    for pi in 0..n
        invariant
            n == ps.len(),
            !exists|q: int| breaks_unlock_order(ps, q),
            forall|q: int| 0 <= q < pi ==> !(#[trigger] ps[q].problem_type == ProblemType::Final
                && ps[q].depends_on_problem_id is Some),
    {
        if probs[pi].problem_type == ProblemType::Final && probs[pi].depends_on_problem_id.is_some() {
            proof {
                assert(first_final_with_dependency(ps, pi as int));
                let c = choose|q: int| first_final_with_dependency(ps, q);
                assert(first_final_with_dependency(ps, c));
                if c < pi {
                    assert(!(ps[c].problem_type == ProblemType::Final && ps[c].depends_on_problem_id is Some));
                } else if c > pi {
                    assert(!(ps[pi as int].problem_type == ProblemType::Final && ps[pi as int].depends_on_problem_id is Some));
                }
            }
            return Err(validation_error(problem_field_string(room_index, pi, ".depends_on_problem_id"), "final problem must not have a dependency"));
        }
    }
    assert(!exists|q: int| first_final_with_dependency(ps, q));
    Ok(())
}

// ---------------------------------------------------------------------------
// The whole catalogue
// ---------------------------------------------------------------------------

/// The first cycle or unlock-order issue among rooms `ri` and later, each
/// room checked for cycles before its unlock order.
pub open spec fn first_order_issue(rooms: Seq<Room>, ri: int) -> Option<Issue>
    decreases rooms.len() - ri,
{
    if ri < 0 || ri >= rooms.len() {
        None
    } else {
        match first_cycle_issue(rooms[ri].problems@, ri, 0) {
            Some(issue) => Some(issue),
            None => match unlock_order_issue(rooms[ri].problems@, ri) {
                Some(issue) => Some(issue),
                None => first_order_issue(rooms, ri + 1),
            },
        }
    }
}

/// The issue with a catalogue, if it has one: it must have a room; then the
/// first pass over rooms and problems, then the dependency references, then
/// each room's cycles and unlock order.
pub open spec fn catalog_issue(rooms: Seq<Room>) -> Option<Issue> {
    if rooms.len() == 0 {
        Some(("rooms"@, "at least one room is required"@))
    } else {
        match first_catalog_room_issue(rooms, 0) {
            Some(issue) => Some(issue),
            None => match first_reference_issue(rooms, 0) {
                Some(issue) => Some(issue),
                None => first_order_issue(rooms, 0),
            },
        }
    }
}

proof fn lemma_problem_pass_unique_numbers(rooms: Seq<Room>, ri: int, pi: int)
    requires
        0 <= ri < rooms.len(),
        0 <= pi <= rooms[ri].problems@.len(),
        first_catalog_problem_issue(rooms, ri, pi) is None,
    ensures
        forall|a: int, b: int|
            pi <= a < rooms[ri].problems@.len() && 0 <= b < a ==> #[trigger] rooms[ri].problems@[a].number
                != #[trigger] rooms[ri].problems@[b].number,
    decreases rooms[ri].problems@.len() - pi,
{
    if pi < rooms[ri].problems@.len() {
        lemma_problem_pass_unique_numbers(rooms, ri, pi + 1);
        assert(catalog_problem_issue(rooms, ri, pi) is None);
    }
}

proof fn lemma_room_pass_unique_numbers(rooms: Seq<Room>, ri: int)
    requires
        0 <= ri <= rooms.len(),
        first_catalog_room_issue(rooms, ri) is None,
    ensures
        forall|k: int| ri <= k < rooms.len() ==> numbers_unique(#[trigger] rooms[k].problems@),
    decreases rooms.len() - ri,
{
    if ri < rooms.len() {
        lemma_room_pass_unique_numbers(rooms, ri + 1);
        assert(catalog_room_issue(rooms, ri) is None);
        lemma_problem_pass_unique_numbers(rooms, ri, 0);
        let ps = rooms[ri].problems@;
        assert forall|i: int, j: int| 0 <= i < ps.len() && 0 <= j < ps.len() && i != j implies
            #[trigger] ps[i].number != #[trigger] ps[j].number by {
            if i < j {
                assert(rooms[ri].problems@[j].number != rooms[ri].problems@[i].number);
            } else {
                assert(rooms[ri].problems@[i].number != rooms[ri].problems@[j].number);
            }
        }
    }
}

/// Where no room from `ri` on has an issue in the first pass, none of them
/// has one.
proof fn lemma_room_pass_clean(rooms: Seq<Room>, ri: int)
    requires
        0 <= ri,
        first_catalog_room_issue(rooms, ri) is None,
    ensures
        forall|k: int| ri <= k < rooms.len() ==> #[trigger] catalog_room_issue(rooms, k) is None,
    decreases rooms.len() - ri,
{
    if ri < rooms.len() {
        lemma_room_pass_clean(rooms, ri + 1);
    }
}

/// Where no problem of room `ri` from `pi` on has an issue in the first
/// pass, none of them has one.
proof fn lemma_problem_pass_clean(rooms: Seq<Room>, ri: int, pi: int)
    requires
        0 <= ri < rooms.len(),
        0 <= pi,
        first_catalog_problem_issue(rooms, ri, pi) is None,
    ensures
        forall|k: int|
            pi <= k < rooms[ri].problems@.len() ==> #[trigger] catalog_problem_issue(rooms, ri, k) is None,
    decreases rooms[ri].problems@.len() - pi,
{
    if pi < rooms[ri].problems@.len() {
        lemma_problem_pass_clean(rooms, ri, pi + 1);
    }
}

/// Where no room from `ri` on has a cycle or unlock-order issue, none of
/// them has one.
proof fn lemma_order_pass_clean(rooms: Seq<Room>, ri: int)
    requires
        0 <= ri,
        first_order_issue(rooms, ri) is None,
    ensures
        forall|k: int|
            ri <= k < rooms.len() ==> #[trigger] unlock_order_issue(rooms[k].problems@, k) is None,
    decreases rooms.len() - ri,
{
    if ri < rooms.len() {
        lemma_order_pass_clean(rooms, ri + 1);
    }
}

/// A final problem with a dependency means there is a first one.
proof fn lemma_first_final_exists(probs: Seq<Problem>, pi: int)
    requires
        0 <= pi < probs.len(),
        probs[pi].problem_type == ProblemType::Final && probs[pi].depends_on_problem_id is Some,
    ensures
        exists|q: int| first_final_with_dependency(probs, q),
    decreases pi,
{
    if exists|q: int|
        0 <= q < pi && #[trigger] probs[q].problem_type == ProblemType::Final
            && probs[q].depends_on_problem_id is Some {
        let q = choose|q: int|
            0 <= q < pi && #[trigger] probs[q].problem_type == ProblemType::Final
                && probs[q].depends_on_problem_id is Some;
        lemma_first_final_exists(probs, q);
    } else {
        assert(first_final_with_dependency(probs, pi));
    }
}

/// A catalogue that the checks accept has at least one room; its room IDs
/// and room numbers are pairwise distinct; each room holds three small
/// problems and one final problem, all required, with numbers distinct
/// within the room; problem IDs are distinct across the catalogue; each
/// small problem depends on the small problem just before it in number
/// order (the first on none); and no final problem has a dependency.
pub proof fn lemma_accepted_catalog(rooms: Seq<Room>)
    requires
        catalog_issue(rooms) is None,
    ensures
        rooms.len() > 0,
        forall|ri: int, rj: int|
            #![trigger rooms[ri], rooms[rj]]
            0 <= rj < ri < rooms.len() ==> rooms[ri].room_id != rooms[rj].room_id
                && rooms[ri].number != rooms[rj].number,
        forall|ri: int|
            0 <= ri < rooms.len() ==> {
                let probs = #[trigger] rooms[ri].problems@;
                &&& count_type(probs, ProblemType::Small) == 3
                &&& count_type(probs, ProblemType::Final) == 1
                &&& numbers_unique(probs)
                &&& forall|pi: int|
                    0 <= pi < probs.len() ==> {
                        &&& (#[trigger] probs[pi]).is_required
                        &&& probs[pi].problem_type == ProblemType::Small
                            ==> probs[pi].depends_on_problem_id == expected_small_dependency(probs, pi)
                        &&& probs[pi].problem_type == ProblemType::Final
                            ==> probs[pi].depends_on_problem_id is None
                    }
            },
        forall|ri: int, pi: int, rj: int, pj: int|
            0 <= ri < rooms.len() && 0 <= pi < rooms[ri].problems@.len() && 0 <= rj < rooms.len() && 0
                <= pj < rooms[rj].problems@.len() && (rj < ri || (rj == ri && pj < pi))
                ==> #[trigger] rooms[ri].problems@[pi].problem_id
                != #[trigger] rooms[rj].problems@[pj].problem_id,
{
    lemma_room_pass_clean(rooms, 0);
    lemma_room_pass_unique_numbers(rooms, 0);
    lemma_order_pass_clean(rooms, 0);
    assert forall|ri: int, rj: int|
        #![trigger rooms[ri], rooms[rj]]
        0 <= rj < ri < rooms.len() implies rooms[ri].room_id != rooms[rj].room_id
            && rooms[ri].number != rooms[rj].number by {
        assert(catalog_room_issue(rooms, ri) is None);
    }
    assert forall|ri: int| 0 <= ri < rooms.len() implies {
        let probs = #[trigger] rooms[ri].problems@;
        &&& count_type(probs, ProblemType::Small) == 3
        &&& count_type(probs, ProblemType::Final) == 1
        &&& numbers_unique(probs)
        &&& forall|pi: int|
            0 <= pi < probs.len() ==> {
                &&& (#[trigger] probs[pi]).is_required
                &&& probs[pi].problem_type == ProblemType::Small
                    ==> probs[pi].depends_on_problem_id == expected_small_dependency(probs, pi)
                &&& probs[pi].problem_type == ProblemType::Final
                    ==> probs[pi].depends_on_problem_id is None
            }
    } by {
        let probs = rooms[ri].problems@;
        assert(catalog_room_issue(rooms, ri) is None);
        lemma_problem_pass_clean(rooms, ri, 0);
        assert(unlock_order_issue(probs, ri) is None);
        assert forall|pi: int| 0 <= pi < probs.len() implies {
            &&& (#[trigger] probs[pi]).is_required
            &&& probs[pi].problem_type == ProblemType::Small
                ==> probs[pi].depends_on_problem_id == expected_small_dependency(probs, pi)
            &&& probs[pi].problem_type == ProblemType::Final
                ==> probs[pi].depends_on_problem_id is None
        } by {
            assert(catalog_problem_issue(rooms, ri, pi) is None);
            if probs[pi].problem_type == ProblemType::Small {
                assert(!breaks_unlock_order(probs, pi));
            }
            if probs[pi].problem_type == ProblemType::Final && probs[pi].depends_on_problem_id is Some {
                lemma_first_final_exists(probs, pi);
            }
        }
    }
    assert forall|ri: int, pi: int, rj: int, pj: int|
        0 <= ri < rooms.len() && 0 <= pi < rooms[ri].problems@.len() && 0 <= rj < rooms.len() && 0
            <= pj < rooms[rj].problems@.len() && (rj < ri || (rj == ri && pj < pi))
        implies #[trigger] rooms[ri].problems@[pi].problem_id
        != #[trigger] rooms[rj].problems@[pj].problem_id by {
        assert(catalog_room_issue(rooms, ri) is None);
        lemma_problem_pass_clean(rooms, ri, 0);
        assert(catalog_problem_issue(rooms, ri, pi) is None);
        assert(!repeats_earlier_problem_id(rooms, ri, pi));
    }
}

/// Checks the whole catalogue: at least one room; unique room IDs and
/// numbers; three small problems and one final problem per room; unique
/// problem IDs; problem numbers unique within a room; every problem
/// required; every dependency naming another problem of the same room; no
/// dependency cycle; small problems unlocking in ascending number order; and
/// no dependency on a final problem.
#[verifier::loop_isolation(false)]
pub fn validate_catalog(catalog: &ProblemCatalog) -> (r: Result<(), ProblemDataError>)
    ensures
        match catalog_issue(catalog.rooms@) {
            Some(issue) => r matches Err(e) && e.issue() == Some(issue),
            None => r is Ok,
        },
{
    if catalog.rooms.len() == 0 {
        return Err(validation_error(String::from_str("rooms"), "at least one room is required"));
    }
    match check_catalog_shape(catalog) {
        Ok(()) => {},
        Err(e) => { return Err(e); },
    }
    match validate_dependency_references(catalog) {
        Ok(()) => {},
        Err(e) => { return Err(e); },
    }
    let ghost rs = catalog.rooms@;
    proof {
        lemma_room_pass_unique_numbers(rs, 0);
    }
    let n = catalog.rooms.len();
    let mut ri: usize = 0;
    while ri < n
        invariant
            n == rs.len(),
            ri <= n,
            first_order_issue(rs, 0) == first_order_issue(rs, ri as int),
        decreases n - ri,
    {
        let room = &catalog.rooms[ri];
        match validate_dependency_cycles(room, ri) {
            Ok(()) => {},
            Err(e) => { return Err(e); },
        }
        assert(numbers_unique(rs[ri as int].problems@));
        match validate_unlock_order(room, ri) {
            Ok(()) => {},
            Err(e) => { return Err(e); },
        }
        ri = ri + 1;
    }
    Ok(())
}

/// A copy of a list of operations.
pub fn copy_operations(ops: &Vec<Operation>) -> (r: Vec<Operation>)
    ensures
        ops_value(r@) == ops_value(ops@),
{
    let mut out: Vec<Operation> = Vec::new();
    let n = ops.len();
    for i in 0..n
        invariant
            n == ops@.len(),
            out@.len() == i,
            forall|j: int| 0 <= j < i ==> (#[trigger] out@[j]).value() == ops@[j].value(),
    {
        out.push(ops[i].copy());
    }
    assert(ops_value(out@) =~= ops_value(ops@));
    out
}

/// A copy of a string.
fn copy_string_of(s: &String) -> (r: String)
    ensures
        r@ == s@,
{
    s.clone()
}

} // verus!
