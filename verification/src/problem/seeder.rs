//! Seeding the database with the problem catalogue: the order problems are
//! written in and the names their types are stored under.
use vstd::prelude::*;

use super::model::{Problem, ProblemCatalog, ProblemType, Room, SubmissionType};

verus! {

/// How many rooms and problems were written.
#[derive(Clone, Copy, Debug, PartialEq, Eq, Structural)]
pub struct SeedSummary {
    pub room_count: usize,
    pub problem_count: usize,
}

/// Why seeding failed.
#[derive(Clone, Debug, PartialEq, Eq)]
pub enum ProblemSeedError {
    /// A part of a problem could not be written as JSON; the problem, the
    /// field and the serializer's message.
    Json { problem_id: u128, field: &'static str, message: String },
    /// The database failed; its message.
    Database(String),
}

/// The number of problems in `rooms`.
pub open spec fn total_problems(rooms: Seq<Room>) -> nat
    decreases rooms.len(),
{
    if rooms.len() == 0 {
        0
    } else {
        total_problems(rooms.drop_last()) + rooms.last().problems@.len()
    }
}

/// How many rooms and problems seeding a catalogue writes.
pub fn seed_summary(catalog: &ProblemCatalog) -> (r: SeedSummary)
    requires
        total_problems(catalog.rooms@) <= usize::MAX,
    ensures
        r.room_count == catalog.rooms@.len(),
        r.problem_count == total_problems(catalog.rooms@),
{
    let n = catalog.rooms.len();
    let mut problem_count: usize = 0;
    for i in 0..n
        invariant
            n == catalog.rooms@.len(),
            problem_count == total_problems(catalog.rooms@.take(i as int)),
            total_problems(catalog.rooms@) <= usize::MAX,
    {
        proof {
            assert(catalog.rooms@.take(i + 1).drop_last() =~= catalog.rooms@.take(i as int));
            lemma_total_prefix(catalog.rooms@, i + 1);
        }
        problem_count = problem_count + catalog.rooms[i].problems.len();
    }
    assert(catalog.rooms@.take(n as int) =~= catalog.rooms@);
    SeedSummary { room_count: n, problem_count }
}

/// The problems of a prefix of the rooms are no more than those of all.
proof fn lemma_total_prefix(rooms: Seq<Room>, k: int)
    requires
        0 <= k <= rooms.len(),
    ensures
        total_problems(rooms.take(k)) <= total_problems(rooms),
    decreases rooms.len(),
{
    if k < rooms.len() {
        assert(rooms.drop_last().take(k) =~= rooms.take(k));
        lemma_total_prefix(rooms.drop_last(), k);
    } else {
        assert(rooms.take(k) =~= rooms);
    }
}

/// The name a problem type is stored under.
pub fn problem_type_name(problem_type: ProblemType) -> (r: &'static str)
    ensures
        r@ == match problem_type {
            ProblemType::Small => "small"@,
            ProblemType::Final => "final"@,
        },
{
    match problem_type {
        ProblemType::Small => "small",
        ProblemType::Final => "final",
    }
}

/// The name a submission type is stored under.
pub fn submission_type_name(submission_type: SubmissionType) -> (r: &'static str)
    ensures
        r@ == match submission_type {
            SubmissionType::OperationSequence => "operation_sequence"@,
            SubmissionType::String => "string"@,
        },
{
    match submission_type {
        SubmissionType::OperationSequence => "operation_sequence",
        SubmissionType::String => "string",
    }
}

/// Whether problem `a` comes before problem `b`: by number, and by position
/// among equal numbers.
pub open spec fn seeded_before(ps: Seq<Problem>, a: usize, b: usize) -> bool {
    ps[a as int].number < ps[b as int].number || (ps[a as int].number == ps[b as int].number && a < b)
}

/// `order` lists each position of `ps` once, by ascending problem number,
/// positions with equal numbers in their original order.
pub open spec fn is_number_order(ps: Seq<Problem>, order: Seq<usize>) -> bool {
    &&& order.len() == ps.len()
    &&& forall|i: int| 0 <= i < order.len() ==> order[i] < ps.len()
    &&& forall|i: int, j: int| 0 <= i < j < order.len() ==> order[i] != order[j]
    &&& forall|i: int, j: int|
        0 <= i < j < order.len() ==> seeded_before(ps, #[trigger] order[i], #[trigger] order[j])
}

/// The positions of a room's problems in the order they are written: by
/// ascending number, a stable sort.
#[verifier::loop_isolation(false)]
pub fn seed_order(problems: &Vec<Problem>) -> (r: Vec<usize>)
    ensures
        is_number_order(problems@, r@),
{
    let ghost ps = problems@;
    let n = problems.len();
    let mut order: Vec<usize> = Vec::new();
    for k in 0..n
        invariant
            n == ps.len(),
            order@.len() == k,
            forall|i: int| 0 <= i < order@.len() ==> order@[i] < k,
            forall|i: int, j: int| 0 <= i < j < order@.len() ==> order@[i] != order@[j],
            forall|i: int, j: int|
                0 <= i < j < order@.len() ==> seeded_before(ps, #[trigger] order@[i], #[trigger] order@[j]),
    {
        let number = problems[k].number;
        let mut p: usize = 0;
        while p < order.len() && problems[order[p]].number <= number
            invariant
                p <= order@.len(),
                order@.len() == k,
                forall|i: int| 0 <= i < order@.len() ==> order@[i] < k,
                forall|q: int| 0 <= q < p ==> ps[order@[q] as int].number <= number,
            decreases order@.len() - p,
        {
            p += 1;
        }
        proof {
            assert forall|q: int| p <= q < order@.len() implies ps[order@[q] as int].number > number by {
                if p < order@.len() {
                    assert(ps[order@[p as int] as int].number > number);
                    if q > p {
                        assert(seeded_before(ps, order@[p as int], order@[q]));
                    }
                }
            }
        }
        let ghost old_order = order@;
        order.insert(p, k);
        proof {
            assert(order@ == old_order.insert(p as int, k));
            assert forall|i: int, j: int| 0 <= i < j < order@.len() implies seeded_before(
                ps,
                #[trigger] order@[i],
                #[trigger] order@[j],
            ) by {
                if j < p {
                    assert(order@[i] == old_order[i] && order@[j] == old_order[j]);
                } else if j == p {
                    assert(order@[i] == old_order[i]);
                } else if i < p {
                    assert(order@[i] == old_order[i] && order@[j] == old_order[j - 1]);
                } else if i == p {
                    assert(order@[j] == old_order[j - 1]);
                } else {
                    assert(order@[i] == old_order[i - 1] && order@[j] == old_order[j - 1]);
                }
            }
            assert forall|i: int, j: int| 0 <= i < j < order@.len() implies order@[i] != order@[j] by {
                if j < p {
                    assert(order@[i] == old_order[i] && order@[j] == old_order[j]);
                } else if j == p {
                    assert(order@[i] == old_order[i]);
                } else if i < p {
                    assert(order@[i] == old_order[i] && order@[j] == old_order[j - 1]);
                } else if i == p {
                    assert(order@[j] == old_order[j - 1]);
                } else {
                    assert(order@[i] == old_order[i - 1] && order@[j] == old_order[j - 1]);
                }
            }
            assert forall|i: int| 0 <= i < order@.len() implies order@[i] < k + 1 by {
                if i < p {
                    assert(order@[i] == old_order[i]);
                } else if i > p {
                    assert(order@[i] == old_order[i - 1]);
                }
            }
        }
    }
    order
}

} // verus!
