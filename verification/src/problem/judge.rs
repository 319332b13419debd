//! Judging of operation sequences and string answers against a problem's
//! judge configuration.
use vstd::prelude::*;

use super::model::{
    Candidate, InputSchema, JudgeConfig, OpV, Operation, StringNormalization,
    UnicodeNormalization, ops_value,
};
use crate::text::{
    collapse_seq, collapse_whitespace, char_count, contains_string, from_chars, string_eq,
    to_chars, trim_chars, trim_seq,
};
use crate::text::{
    ends_with_white, is_white_space, lemma_collapse_ends, lemma_collapse_shape, lemma_trim_shape,
    non_white_chars, starts_with_white,
};
use crate::unicode::{lowercase_seq, nfkc, nfkc_of, to_lowercase};

verus! {

// ---------------------------------------------------------------------------
// Operation sequences
// ---------------------------------------------------------------------------

/// `ops` with adjacent operations on the same control merged into one whose
/// count is the sum of theirs.
pub open spec fn normalize_ops(ops: Seq<OpV>) -> Seq<OpV>
    decreases ops.len(),
{
    if ops.len() == 0 {
        Seq::empty()
    } else {
        let prev = normalize_ops(ops.drop_last());
        let o = ops.last();
        if prev.len() > 0 && prev.last().0 == o.0 {
            prev.drop_last().push((o.0, prev.last().1 + o.1))
        } else {
            prev.push(o)
        }
    }
}

/// How many times an operation with count `c` repeats its control: the
/// count converted to `usize` as `as` does, so a negative count wraps round.
pub open spec fn rep_len(c: int) -> nat {
    if c >= 0 {
        c as nat
    } else {
        (c + usize::MAX + 1) as nat
    }
}

/// The sequence of controls that `ops` stands for: each control repeated
/// `count` times, in order.
pub open spec fn expand(ops: Seq<OpV>) -> Seq<Seq<char>>
    decreases ops.len(),
{
    if ops.len() == 0 {
        Seq::empty()
    } else {
        expand(ops.drop_last()) + Seq::new(rep_len(ops.last().1), |i: int| ops.last().0)
    }
}

/// Every count of `ops` is positive.
pub open spec fn counts_positive(ops: Seq<OpV>) -> bool {
    forall|i: int| 0 <= i < ops.len() ==> #[trigger] ops[i].1 > 0
}

/// The sum of the counts of `ops`.
pub open spec fn count_total(ops: Seq<OpV>) -> int
    decreases ops.len(),
{
    if ops.len() == 0 {
        0
    } else {
        count_total(ops.drop_last()) + ops.last().1
    }
}

/// No two adjacent operations of `ops` use the same control.
pub open spec fn no_adjacent_repeats(ops: Seq<OpV>) -> bool {
    forall|i: int| 0 <= i < ops.len() - 1 ==> #[trigger] ops[i].0 != ops[i + 1].0
}

/// Whether `a` is a prefix of `b`.
pub open spec fn is_prefix<T>(a: Seq<T>, b: Seq<T>) -> bool {
    a.len() <= b.len() && b.subrange(0, a.len() as int) == a
}

/// Whether every control of `ops` is one of `allowed`.
pub open spec fn controls_allowed(ops: Seq<OpV>, allowed: Seq<Seq<char>>) -> bool {
    forall|i: int| 0 <= i < ops.len() ==> allowed.contains(#[trigger] ops[i].0)
}

/// The views of a list of strings.
pub open spec fn strings_value(list: Seq<String>) -> Seq<Seq<char>> {
    Seq::new(list.len(), |i: int| list[i]@)
}

proof fn lemma_count_total_positive(ops: Seq<OpV>)
    requires
        counts_positive(ops),
    ensures
        count_total(ops) >= ops.len(),
    decreases ops.len(),
{
    if ops.len() > 0 {
        lemma_count_total_positive(ops.drop_last());
    }
}

proof fn lemma_count_total_take(ops: Seq<OpV>, k: int)
    requires
        0 <= k < ops.len(),
    ensures
        count_total(ops.take(k + 1)) == count_total(ops.take(k)) + ops[k].1,
{
    assert(ops.take(k + 1).drop_last() =~= ops.take(k));
}

proof fn lemma_count_total_prefix_bound(ops: Seq<OpV>, k: int)
    requires
        0 <= k <= ops.len(),
        counts_positive(ops),
    ensures
        count_total(ops.take(k)) <= count_total(ops),
    decreases ops.len() - k,
{
    if k < ops.len() {
        lemma_count_total_take(ops, k);
        lemma_count_total_prefix_bound(ops, k + 1);
    } else {
        assert(ops.take(k) =~= ops);
    }
}

/// Normalizing keeps the total count, keeps counts positive, and leaves no
/// two adjacent operations on the same control.
pub proof fn lemma_normalize_shape(ops: Seq<OpV>)
    requires
        counts_positive(ops),
    ensures
        count_total(normalize_ops(ops)) == count_total(ops),
        counts_positive(normalize_ops(ops)),
        no_adjacent_repeats(normalize_ops(ops)),
        normalize_ops(ops).len() <= ops.len(),
        ops.len() > 0 ==> normalize_ops(ops).len() > 0 && normalize_ops(ops).last().0
            == ops.last().0,
        forall|i: int|
            0 <= i < normalize_ops(ops).len() ==> exists|j: int|
                0 <= j < ops.len() && (#[trigger] normalize_ops(ops)[i]).0 == ops[j].0,
    decreases ops.len(),
{
    if ops.len() > 0 {
        let p = ops.drop_last();
        lemma_normalize_shape(p);
        let prev = normalize_ops(p);
        let o = ops.last();
        let r = normalize_ops(ops);
        if prev.len() > 0 && prev.last().0 == o.0 {
            assert(prev.drop_last().drop_last() =~= prev.drop_last().drop_last());
            assert(r.drop_last() =~= prev.drop_last());
            assert(count_total(prev) == count_total(prev.drop_last()) + prev.last().1);
            assert forall|i: int| 0 <= i < r.len() implies exists|j: int|
                0 <= j < ops.len() && (#[trigger] r[i]).0 == ops[j].0 by {
                if i < r.len() - 1 {
                    assert(r[i] == prev[i]);
                    let j = choose|j: int| 0 <= j < p.len() && prev[i].0 == p[j].0;
                    assert(ops[j] == p[j]);
                } else {
                    assert(r[i].0 == ops[ops.len() - 1].0);
                }
            }
        } else {
            assert(r.drop_last() =~= prev);
            assert forall|i: int| 0 <= i < r.len() implies exists|j: int|
                0 <= j < ops.len() && (#[trigger] r[i]).0 == ops[j].0 by {
                if i < r.len() - 1 {
                    assert(r[i] == prev[i]);
                    let j = choose|j: int| 0 <= j < p.len() && prev[i].0 == p[j].0;
                    assert(ops[j] == p[j]);
                } else {
                    assert(r[i].0 == ops[ops.len() - 1].0);
                }
            }
        }
    }
}

pub(crate) proof fn lemma_expand_push(ops: Seq<OpV>, o: OpV)
    ensures
        expand(ops.push(o)) == expand(ops) + Seq::new(rep_len(o.1), |i: int| o.0),
{
    assert(ops.push(o).drop_last() =~= ops);
}

/// Normalizing an operation sequence does not change the controls it stands for.
pub proof fn lemma_normalize_keeps_expansion(ops: Seq<OpV>)
    requires
        counts_positive(ops),
    ensures
        expand(normalize_ops(ops)) == expand(ops),
    decreases ops.len(),
{
    if ops.len() > 0 {
        let p = ops.drop_last();
        lemma_normalize_keeps_expansion(p);
        lemma_normalize_shape(p);
        let prev = normalize_ops(p);
        let o = ops.last();
        if prev.len() > 0 && prev.last().0 == o.0 {
            let q = prev.drop_last();
            let last = prev.last();
            assert(prev =~= q.push(last));
            lemma_expand_push(q, last);
            lemma_expand_push(q, (o.0, last.1 + o.1));
            assert(last.1 > 0) by { assert(prev[prev.len() - 1].1 > 0); }
            let a = Seq::new(last.1 as nat, |i: int| last.0);
            let b = Seq::new(o.1 as nat, |i: int| o.0);
            let c = Seq::new((last.1 + o.1) as nat, |i: int| o.0);
            assert(o.1 > 0) by { assert(ops[ops.len() - 1].1 > 0); }
            assert(a + b =~= c);
            assert(expand(q) + a + b =~= expand(q) + c);
        } else {
            lemma_expand_push(prev, o);
        }
    }
}

/// Normalizing any sequence, whatever its counts, keeps the total count,
/// leaves no two adjacent operations on one control, keeps the last
/// control, and has no more operations than the sequence.
pub proof fn lemma_normalize_no_repeats(ops: Seq<OpV>)
    ensures
        count_total(normalize_ops(ops)) == count_total(ops),
        no_adjacent_repeats(normalize_ops(ops)),
        normalize_ops(ops).len() <= ops.len(),
        ops.len() > 0 ==> normalize_ops(ops).len() > 0 && normalize_ops(ops).last().0
            == ops.last().0,
    decreases ops.len(),
{
    if ops.len() > 0 {
        let p = ops.drop_last();
        lemma_normalize_no_repeats(p);
        let prev = normalize_ops(p);
        let o = ops.last();
        let r = normalize_ops(ops);
        if prev.len() > 0 && prev.last().0 == o.0 {
            assert(r.drop_last() =~= prev.drop_last());
            assert(count_total(prev) == count_total(prev.drop_last()) + prev.last().1);
            assert forall|i: int| 0 <= i < r.len() - 1 implies #[trigger] r[i].0 != r[i + 1].0 by {
                assert(r[i] == prev[i]);
                if i + 1 < r.len() - 1 {
                    assert(r[i + 1] == prev[i + 1]);
                } else {
                    assert(prev[i].0 != prev[i + 1].0);
                }
            }
        } else {
            assert(r.drop_last() =~= prev);
            assert forall|i: int| 0 <= i < r.len() - 1 implies #[trigger] r[i].0 != r[i + 1].0 by {
                assert(r[i] == prev[i]);
                if i + 1 < r.len() - 1 {
                    assert(r[i + 1] == prev[i + 1]);
                }
            }
        }
    }
}

/// A sequence with no two adjacent operations on one control is its own
/// normal form, whatever its counts.
pub proof fn lemma_normalized_is_fixed_point(ops: Seq<OpV>)
    requires
        no_adjacent_repeats(ops),
    ensures
        normalize_ops(ops) == ops,
    decreases ops.len(),
{
    if ops.len() > 0 {
        let p = ops.drop_last();
        assert(no_adjacent_repeats(p)) by {
            assert forall|i: int| 0 <= i < p.len() - 1 implies #[trigger] p[i].0 != p[i + 1].0 by {
                assert(p[i] == ops[i] && p[i + 1] == ops[i + 1]);
            }
        }
        lemma_normalized_is_fixed_point(p);
        if p.len() > 0 {
            assert(ops[ops.len() - 2].0 != ops[ops.len() - 1].0);
        }
        assert(p.push(ops.last()) =~= ops);
    }
}

/// Normalizing twice gives the same result as normalizing once, whatever
/// the counts.
pub proof fn lemma_normalize_idempotent(ops: Seq<OpV>)
    ensures
        normalize_ops(normalize_ops(ops)) == normalize_ops(ops),
{
    lemma_normalize_no_repeats(ops);
    lemma_normalized_is_fixed_point(normalize_ops(ops));
}

/// How many copies of `c` end `s`.
pub open spec fn trailing_run(s: Seq<Seq<char>>, c: Seq<char>) -> nat
    decreases s.len(),
{
    if s.len() > 0 && s.last() == c {
        trailing_run(s.drop_last(), c) + 1
    } else {
        0
    }
}

/// Appending `n` copies of `c` lengthens the run of `c` at the end by `n`.
proof fn lemma_trailing_run_append(s: Seq<Seq<char>>, c: Seq<char>, n: nat)
    ensures
        trailing_run(s + Seq::new(n, |i: int| c), c) == n + trailing_run(s, c),
    decreases n,
{
    let t = s + Seq::new(n, |i: int| c);
    if n > 0 {
        assert(t.drop_last() =~= s + Seq::new((n - 1) as nat, |i: int| c));
        assert(t.last() == c);
        lemma_trailing_run_append(s, c, (n - 1) as nat);
    } else {
        assert(t =~= s);
    }
}

/// A sequence whose last count is positive stands for controls that end in
/// its last control.
proof fn lemma_expand_ends(ops: Seq<OpV>)
    requires
        ops.len() > 0,
        ops.last().1 > 0,
    ensures
        expand(ops).len() > 0,
        expand(ops).last() == ops.last().0,
        expand(ops) == expand(ops.drop_last()) + Seq::new(ops.last().1 as nat, |i: int| ops.last().0),
{
}

/// In a sequence with positive counts and no adjacent repeats, the last
/// operation's control ends the expansion in a run exactly as long as its
/// count.
proof fn lemma_expand_trailing(ops: Seq<OpV>)
    requires
        ops.len() > 0,
        counts_positive(ops),
        no_adjacent_repeats(ops),
    ensures
        trailing_run(expand(ops), ops.last().0) == ops.last().1,
{
    let p = ops.drop_last();
    let o = ops.last();
    assert(o.1 > 0) by {
        assert(ops[ops.len() - 1].1 > 0);
    }
    lemma_expand_ends(ops);
    lemma_trailing_run_append(expand(p), o.0, o.1 as nat);
    if p.len() > 0 {
        assert(p.last().1 > 0) by {
            assert(p.last() == ops[ops.len() - 2]);
            assert(ops[ops.len() - 2].1 > 0);
        }
        lemma_expand_ends(p);
        assert(p.last().0 != o.0) by {
            assert(ops[ops.len() - 2].0 != ops[ops.len() - 1].0);
        }
    }
}

/// A sequence with positive counts and no adjacent repeats keeps those
/// properties when its last operation is dropped.
proof fn lemma_drop_last_shape(ops: Seq<OpV>)
    requires
        ops.len() > 0,
        counts_positive(ops),
        no_adjacent_repeats(ops),
    ensures
        counts_positive(ops.drop_last()),
        no_adjacent_repeats(ops.drop_last()),
{
    let p = ops.drop_last();
    assert forall|i: int| 0 <= i < p.len() implies #[trigger] p[i].1 > 0 by {
        assert(p[i] == ops[i]);
    }
    assert forall|i: int| 0 <= i < p.len() - 1 implies #[trigger] p[i].0 != p[i + 1].0 by {
        assert(p[i] == ops[i] && p[i + 1] == ops[i + 1]);
    }
}

/// Run lengths are unique: two sequences with positive counts and no
/// adjacent repeats that stand for the same controls are equal.
pub(crate) proof fn lemma_run_lengths_unique(x: Seq<OpV>, y: Seq<OpV>)
    requires
        counts_positive(x),
        counts_positive(y),
        no_adjacent_repeats(x),
        no_adjacent_repeats(y),
        expand(x) == expand(y),
    ensures
        x == y,
    decreases x.len() + y.len(),
{
    if x.len() == 0 || y.len() == 0 {
        if x.len() > 0 {
            assert(x[x.len() - 1].1 > 0);
            lemma_expand_ends(x);
        }
        if y.len() > 0 {
            assert(y[y.len() - 1].1 > 0);
            lemma_expand_ends(y);
        }
        assert(x =~= y);
    } else {
        let a = x.last();
        let b = y.last();
        assert(a.1 > 0 && b.1 > 0) by {
            assert(x[x.len() - 1].1 > 0);
            assert(y[y.len() - 1].1 > 0);
        }
        lemma_expand_ends(x);
        lemma_expand_ends(y);
        lemma_expand_trailing(x);
        lemma_expand_trailing(y);
        assert(a.0 == b.0);
        assert(a.1 == b.1);
        let ex = expand(x.drop_last());
        let ey = expand(y.drop_last());
        let r = Seq::new(a.1 as nat, |i: int| a.0);
        assert(Seq::new(b.1 as nat, |i: int| b.0) =~= r);
        assert(ex.len() == ey.len());
        assert(ex =~= (ex + r).subrange(0, ex.len() as int));
        assert(ey =~= (ey + r).subrange(0, ey.len() as int));
        lemma_drop_last_shape(x);
        lemma_drop_last_shape(y);
        lemma_run_lengths_unique(x.drop_last(), y.drop_last());
        assert(x =~= x.drop_last().push(a));
        assert(y =~= y.drop_last().push(b));
    }
}

/// Two queries that stand for the same controls in the same order have the
/// same normal form, so the judge gives them the same normal form, verdict
/// and remaining pattern count.
pub proof fn lemma_same_expansion_same_normal_form(a: Seq<OpV>, b: Seq<OpV>)
    requires
        counts_positive(a),
        counts_positive(b),
        expand(a) == expand(b),
    ensures
        normalize_ops(a) == normalize_ops(b),
{
    lemma_normalize_shape(a);
    lemma_normalize_shape(b);
    lemma_normalize_keeps_expansion(a);
    lemma_normalize_keeps_expansion(b);
    lemma_run_lengths_unique(normalize_ops(a), normalize_ops(b));
}

/// Every running sum of counts within a run of adjacent operations on one
/// control fits in an `i32`: these are the sums that merging adds up.
pub open spec fn merge_sums_fit(ops: Seq<OpV>) -> bool {
    forall|k: int|
        1 <= k <= ops.len() ==> i32::MIN <= (#[trigger] normalize_ops(ops.take(k))).last().1
            <= i32::MAX
}

/// Positive counts whose total fits in an `i32` merge without leaving the
/// `i32` range.
pub proof fn lemma_positive_counts_merge_in_range(ops: Seq<OpV>)
    requires
        counts_positive(ops),
        count_total(ops) <= i32::MAX,
    ensures
        merge_sums_fit(ops),
{
    assert forall|k: int| 1 <= k <= ops.len() implies i32::MIN <= (#[trigger] normalize_ops(
        ops.take(k),
    )).last().1 <= i32::MAX by {
        let p = ops.take(k);
        assert(counts_positive(p)) by {
            assert forall|i: int| 0 <= i < p.len() implies #[trigger] p[i].1 > 0 by {
                assert(p[i] == ops[i]);
            }
        }
        lemma_normalize_shape(p);
        lemma_count_total_prefix_bound(ops, k);
        let n = normalize_ops(p);
        let q = n.drop_last();
        assert(counts_positive(q)) by {
            assert forall|i: int| 0 <= i < q.len() implies #[trigger] q[i].1 > 0 by {
                assert(q[i] == n[i]);
            }
        }
        lemma_count_total_positive(q);
        assert(n.last().1 > 0) by {
            assert(n[n.len() - 1].1 > 0);
        }
    }
}

/// `operations` with each run of adjacent operations on the same control
/// merged into one operation whose count is the sum of theirs, in order. The
/// sums must fit in an `i32`, as adding them up would overflow otherwise.
pub fn normalize_operations(operations: &[Operation]) -> (r: Vec<Operation>)
    requires
        merge_sums_fit(ops_value(operations@)),
    ensures
        ops_value(r@) == normalize_ops(ops_value(operations@)),
{
    let mut normalized: Vec<Operation> = Vec::new();
    let n = operations.len();
    let ghost all = ops_value(operations@);
    for i in 0..n
        invariant
            n == operations@.len(),
            all == ops_value(operations@),
            merge_sums_fit(all),
            ops_value(normalized@) == normalize_ops(all.take(i as int)),
    {
        let ghost prev = normalize_ops(all.take(i as int));
        let ghost next = normalize_ops(all.take(i + 1));
        proof {
            assert(all.take(i + 1).drop_last() =~= all.take(i as int));
            assert(all.take(i + 1).last() == all[i as int]);
            assert(i32::MIN <= next.last().1 <= i32::MAX);
        }
        let operation = &operations[i];
        let len = normalized.len();
        if len > 0 && string_eq(&normalized[len - 1].control, &operation.control) {
            proof {
                assert(prev.last() == normalized@[len - 1].value());
                assert(next.last().1 == normalized@[len - 1].count + operation.count);
            }
            let last = normalized.pop().unwrap();
            normalized.push(Operation { control: last.control, count: last.count + operation.count });
            proof {
                assert(ops_value(normalized@) =~= next);
            }
        } else {
            normalized.push(operation.copy());
            proof {
                assert(ops_value(normalized@) =~= next);
            }
        }
    }
    proof {
        assert(all.take(n as int) =~= all);
    }
    normalized
}

/// The number of times an operation repeats its control.
pub fn rep_count(c: i32) -> (r: usize)
    ensures
        r == rep_len(c as int),
{
    if c >= 0 {
        c as usize
    } else {
        let k: i64 = -(c as i64) - 1;
        usize::MAX - (k as usize)
    }
}

pub(crate) proof fn lemma_expand_take_step(ops: Seq<OpV>, k: int)
    requires
        0 <= k < ops.len(),
    ensures
        expand(ops.take(k + 1)) == expand(ops.take(k)) + Seq::new(
            rep_len(ops[k].1),
            |i: int| ops[k].0,
        ),
{
    assert(ops.take(k + 1).drop_last() =~= ops.take(k));
}

pub(crate) proof fn lemma_expand_take_prefix(ops: Seq<OpV>, k: int)
    requires
        0 <= k <= ops.len(),
    ensures
        is_prefix(expand(ops.take(k)), expand(ops)),
    decreases ops.len() - k,
{
    if k < ops.len() {
        lemma_expand_take_step(ops, k);
        lemma_expand_take_prefix(ops, k + 1);
        let a = expand(ops.take(k));
        let b = expand(ops.take(k + 1));
        let e = expand(ops);
        assert(e.subrange(0, a.len() as int) =~= b.subrange(0, a.len() as int));
        assert(b.subrange(0, a.len() as int) =~= a);
    } else {
        assert(ops.take(k) =~= ops);
        assert(expand(ops).subrange(0, expand(ops).len() as int) =~= expand(ops));
    }
}

/// The control at position `p` of `expand(ops)`, for `p` inside the run of
/// operation `k`.
proof fn lemma_expand_in_run(ops: Seq<OpV>, k: int, p: int)
    requires
        0 <= k < ops.len(),
        expand(ops.take(k)).len() <= p < expand(ops.take(k)).len() + rep_len(ops[k].1),
    ensures
        p < expand(ops).len(),
        expand(ops)[p] == ops[k].0,
{
    lemma_expand_take_step(ops, k);
    lemma_expand_take_prefix(ops, k + 1);
    let b = expand(ops.take(k + 1));
    assert(b[p] == ops[k].0);
    assert(expand(ops).subrange(0, b.len() as int)[p] == b[p]);
}

/// Whether the controls that `submitted` stands for are a prefix of those that
/// `candidate` stands for.
pub fn is_operation_prefix(submitted: &[Operation], candidate: &[Operation]) -> (r: bool)
    ensures
        r == is_prefix(expand(ops_value(submitted@)), expand(ops_value(candidate@))),
{
    let ghost sv = ops_value(submitted@);
    let ghost cv = ops_value(candidate@);
    let ghost ce = expand(cv);
    let ns = submitted.len();
    let nc = candidate.len();
    let mut ci: usize = 0;
    let mut used: usize = 0;
    proof {
        assert(sv.take(0) =~= Seq::<OpV>::empty());
        assert(cv.take(0) =~= Seq::<OpV>::empty());
    }
    for si in 0..ns
        invariant
            ns == submitted@.len(),
            nc == candidate@.len(),
            sv == ops_value(submitted@),
            cv == ops_value(candidate@),
            ce == expand(cv),
            ci <= nc,
            ci < nc ==> used <= rep_len(cv[ci as int].1),
            ci == nc ==> used == 0,
            expand(sv.take(si as int)).len() == expand(cv.take(ci as int)).len() + used,
            expand(sv.take(si as int)).len() <= ce.len(),
            ce.take(expand(sv.take(si as int)).len() as int) == expand(sv.take(si as int)),
    {
        proof {
            lemma_expand_take_step(sv, si as int);
        }
        let control = &submitted[si].control;
        let need = rep_count(submitted[si].count);
        let mut rem = need;
        let ghost base = expand(sv.take(si as int));
        let ghost run = Seq::new(rep_len(sv[si as int].1), |i: int| sv[si as int].0);
        while rem > 0
            invariant
                ns == submitted@.len(),
                nc == candidate@.len(),
                si < ns,
                sv == ops_value(submitted@),
                cv == ops_value(candidate@),
                ce == expand(cv),
                base == expand(sv.take(si as int)),
                run == Seq::new(rep_len(sv[si as int].1), |i: int| sv[si as int].0),
                expand(sv.take(si + 1)) == base + run,
                control@ == sv[si as int].0,
                need == rep_len(sv[si as int].1),
                rem <= need,
                ci <= nc,
                ci < nc ==> used <= rep_len(cv[ci as int].1),
                ci == nc ==> used == 0,
                base.len() + (need - rem) == expand(cv.take(ci as int)).len() + used,
                base.len() + (need - rem) <= ce.len(),
                ce.take(base.len() + (need - rem)) == base + run.take(need - rem),
            decreases rem,
        {
            while ci < nc && used == rep_count(candidate[ci].count)
                invariant
                    nc == candidate@.len(),
                    cv == ops_value(candidate@),
                    ci <= nc,
                    ci < nc ==> used <= rep_len(cv[ci as int].1),
                    ci == nc ==> used == 0,
                    base.len() + (need - rem) == expand(cv.take(ci as int)).len() + used,
                decreases nc - ci,
            {
                proof {
                    lemma_expand_take_step(cv, ci as int);
                }
                ci = ci + 1;
                used = 0;
            }
            if ci == nc {
                proof {
                    assert(cv.take(nc as int) =~= cv);
                    lemma_expand_take_prefix(sv, si + 1);
                    assert(expand(sv).len() >= base.len() + need);
                }
                return false;
            }
            if !string_eq(&candidate[ci].control, control) {
                proof {
                    let p = base.len() + (need - rem);
                    lemma_expand_in_run(cv, ci as int, p);
                    lemma_expand_take_prefix(sv, si + 1);
                    assert(expand(sv.take(si + 1))[p] == sv[si as int].0);
                    if is_prefix(expand(sv), ce) {
                        assert(expand(sv).subrange(0, expand(sv.take(si + 1)).len() as int)[p]
                            == expand(sv)[p]);
                        assert(ce.subrange(0, expand(sv).len() as int)[p] == ce[p]);
                    }
                }
                return false;
            }
            let avail = rep_count(candidate[ci].count) - used;
            let take = if rem < avail { rem } else { avail };
            proof {
                let p = base.len() + (need - rem);
                assert forall|q: int| p <= q < p + take implies ce[q] == sv[si as int].0 by {
                    lemma_expand_in_run(cv, ci as int, q);
                }
                lemma_expand_in_run(cv, ci as int, p + take - 1);
                assert(ce.take(p + take) =~= (base + run.take(need - rem + take)));
            }
            used = used + take;
            rem = rem - take;
        }
        proof {
            assert(run.take(need as int) =~= run);
            assert(sv.take(si + 1).take(si as int) =~= sv.take(si as int));
        }
    }
    proof {
        assert(sv.take(ns as int) =~= sv);
    }
    true
}

// ---------------------------------------------------------------------------
// Checking submitted operations against an input schema
// ---------------------------------------------------------------------------

/// What is wrong with an operation of a submitted sequence.
#[derive(Clone, Copy, Debug, PartialEq, Eq, Structural)]
pub enum OpFault {
    /// Its count is zero or negative.
    NonPositiveCount,
    /// Its control is not one of the allowed controls.
    UnknownControl,
    /// The counts up to and including it exceed the limit.
    TotalTooLarge,
}

/// The first fault of `ops` at index `i` or later, with its index, scanning
/// each operation's count, then its control, then the running total.
pub open spec fn first_fault_from(ops: Seq<OpV>, allowed: Seq<Seq<char>>, max: int, i: int) -> Option<
    (OpFault, int),
>
    decreases ops.len() - i,
{
    if i < 0 || i >= ops.len() {
        None
    } else if ops[i].1 <= 0 {
        Some((OpFault::NonPositiveCount, i))
    } else if !allowed.contains(ops[i].0) {
        Some((OpFault::UnknownControl, i))
    } else if count_total(ops.take(i + 1)) > max {
        Some((OpFault::TotalTooLarge, i))
    } else {
        first_fault_from(ops, allowed, max, i + 1)
    }
}

/// The first fault of `ops` against the allowed controls and the limit on
/// the total count.
pub open spec fn first_fault(ops: Seq<OpV>, allowed: Seq<Seq<char>>, max: int) -> Option<(OpFault, int)> {
    first_fault_from(ops, allowed, max, 0)
}

/// A sequence without faults has positive counts, allowed controls and a
/// total within the limit.
pub proof fn lemma_no_fault_means_valid(ops: Seq<OpV>, allowed: Seq<Seq<char>>, max: int)
    requires
        first_fault(ops, allowed, max) is None,
    ensures
        counts_positive(ops),
        controls_allowed(ops, allowed),
        count_total(ops) <= max || ops.len() == 0,
{
    lemma_no_fault_from(ops, allowed, max, 0);
    if ops.len() > 0 {
        let j = ops.len() - 1;
        assert(count_total(ops.take(j + 1)) <= max);
        assert(ops.take(j + 1) =~= ops);
    }
}

/// The normal form the judges return for a sequence they accept has
/// positive counts, no two adjacent operations on one control, and stands
/// for the same controls as the sequence.
pub proof fn lemma_accepted_normal_form(ops: Seq<OpV>, allowed: Seq<Seq<char>>, max: int)
    requires
        first_fault(ops, allowed, max) is None,
    ensures
        counts_positive(normalize_ops(ops)),
        no_adjacent_repeats(normalize_ops(ops)),
        expand(normalize_ops(ops)) == expand(ops),
{
    lemma_no_fault_means_valid(ops, allowed, max);
    lemma_normalize_shape(ops);
    lemma_normalize_keeps_expansion(ops);
}

/// The controls of two sequences one after the other.
pub(crate) proof fn lemma_expand_concat(a: Seq<OpV>, b: Seq<OpV>)
    ensures
        expand(a + b) == expand(a) + expand(b),
    decreases b.len(),
{
    if b.len() == 0 {
        assert(a + b =~= a);
        assert(expand(a) + expand(b) =~= expand(a));
    } else {
        lemma_expand_concat(a, b.drop_last());
        assert((a + b).drop_last() =~= a + b.drop_last());
        assert((a + b).last() == b.last());
        let run = Seq::new(rep_len(b.last().1), |i: int| b.last().0);
        assert(expand(a) + expand(b.drop_last()) + run =~= expand(a) + (expand(b.drop_last()) + run));
    }
}

/// Counting candidates by controls: sequences that stand for the same
/// controls match the same candidates.
proof fn lemma_matching_same_expansion(x: Seq<OpV>, y: Seq<OpV>, cs: Seq<Candidate>)
    requires
        expand(x) == expand(y),
    ensures
        matching_candidates(x, cs) == matching_candidates(y, cs),
    decreases cs.len(),
{
    if cs.len() > 0 {
        lemma_matching_same_expansion(x, y, cs.drop_last());
    }
}

/// Counting candidates whose controls begin with `a + b` finds no more than
/// counting those that begin with `a`, and never more than there are
/// candidates.
proof fn lemma_matching_longer(x: Seq<OpV>, y: Seq<OpV>, cs: Seq<Candidate>)
    requires
        is_prefix(expand(x), expand(y)),
    ensures
        matching_candidates(y, cs) <= matching_candidates(x, cs),
        matching_candidates(x, cs) <= cs.len(),
    decreases cs.len(),
{
    if cs.len() > 0 {
        lemma_matching_longer(x, y, cs.drop_last());
        let c = expand(ops_value(cs.last().operations@));
        if is_prefix(expand(y), c) {
            assert(c.subrange(0, expand(x).len() as int) =~= c.subrange(0, expand(y).len() as int).subrange(
                0,
                expand(x).len() as int,
            ));
            assert(expand(y).subrange(0, expand(x).len() as int) == expand(x));
        }
    }
}

/// The remaining pattern count the judge gives a sequence is the number of
/// candidates whose controls begin with the sequence's controls, and
/// extending the sequence never raises it.
pub proof fn lemma_remaining_count_shrinks(ops: Seq<OpV>, more: Seq<OpV>, cs: Seq<Candidate>)
    requires
        counts_positive(ops),
        counts_positive(more),
    ensures
        matching_candidates(normalize_ops(ops), cs) == matching_candidates(ops, cs),
        matching_candidates(normalize_ops(ops), cs) <= cs.len(),
        matching_candidates(normalize_ops(ops + more), cs) <= matching_candidates(normalize_ops(ops), cs),
{
    let all = ops + more;
    assert(counts_positive(all)) by {
        assert forall|i: int| 0 <= i < all.len() implies #[trigger] all[i].1 > 0 by {
            if i < ops.len() {
                assert(all[i] == ops[i]);
            } else {
                assert(all[i] == more[i - ops.len()]);
            }
        }
    }
    lemma_normalize_keeps_expansion(ops);
    lemma_normalize_keeps_expansion(all);
    lemma_expand_concat(ops, more);
    lemma_matching_same_expansion(normalize_ops(ops), ops, cs);
    let e = expand(ops);
    assert((e + expand(more)).subrange(0, e.len() as int) =~= e);
    lemma_matching_longer(normalize_ops(ops), normalize_ops(all), cs);
}

proof fn lemma_no_fault_from(ops: Seq<OpV>, allowed: Seq<Seq<char>>, max: int, i: int)
    requires
        0 <= i,
        first_fault_from(ops, allowed, max, i) is None,
    ensures
        forall|j: int| i <= j < ops.len() ==> #[trigger] ops[j].1 > 0,
        forall|j: int| i <= j < ops.len() ==> allowed.contains(#[trigger] ops[j].0),
        forall|j: int| i <= j < ops.len() ==> count_total(#[trigger] ops.take(j + 1)) <= max,
    decreases ops.len() - i,
{
    if i < ops.len() {
        lemma_no_fault_from(ops, allowed, max, i + 1);
    }
}

/// Finds the first fault of `operations` against `allowed_controls` and
/// `max_operations`.
pub fn find_operation_fault(
    operations: &[Operation],
    allowed_controls: &Vec<String>,
    max_operations: i32,
) -> (r: Option<(OpFault, usize)>)
    ensures
        r matches Some((f, i)) ==> first_fault(
            ops_value(operations@),
            strings_value(allowed_controls@),
            max_operations as int,
        ) == Some((f, i as int)),
        r is None ==> first_fault(
            ops_value(operations@),
            strings_value(allowed_controls@),
            max_operations as int,
        ) is None,
{
    let ghost ops = ops_value(operations@);
    let ghost allowed = strings_value(allowed_controls@);
    let n = operations.len();
    let mut total: i64 = 0;
    for i in 0..n
        invariant
            n == operations@.len(),
            ops == ops_value(operations@),
            allowed == strings_value(allowed_controls@),
            total == count_total(ops.take(i as int)),
            i > 0 ==> total <= max_operations,
            total >= 0,
            first_fault(ops, allowed, max_operations as int) == first_fault_from(
                ops,
                allowed,
                max_operations as int,
                i as int,
            ),
    {
        let operation = &operations[i];
        if operation.count <= 0 {
            return Some((OpFault::NonPositiveCount, i));
        }
        let known = contains_string(allowed_controls, &operation.control);
        proof {
            if known {
                let j = choose|j: int| 0 <= j < allowed_controls@.len() && (#[trigger] allowed_controls@[j])@ == operation.control@;
                assert(allowed[j] == ops[i as int].0);
            } else {
                if allowed.contains(ops[i as int].0) {
                    let j = choose|j: int| 0 <= j < allowed.len() && allowed[j] == ops[i as int].0;
                    assert(allowed_controls@[j]@ == operation.control@);
                }
            }
        }
        if !known {
            return Some((OpFault::UnknownControl, i));
        }
        proof {
            lemma_count_total_take(ops, i as int);
        }
        total = total + operation.count as i64;
        if total > max_operations as i64 {
            return Some((OpFault::TotalTooLarge, i));
        }
    }
    None
}

// ---------------------------------------------------------------------------
// The operation-sequence judge
// ---------------------------------------------------------------------------

/// The result of judging a valid operation sequence.
#[derive(Clone, Debug, PartialEq, Eq)]
pub struct OperationJudgement {
    pub normalized_operations: Vec<Operation>,
    pub correct: bool,
    pub remaining_pattern_count: usize,
}

/// Why a submission could not be judged.
#[derive(Clone, Debug, PartialEq, Eq, Structural)]
pub enum JudgeInputError {
    JudgeConfigTypeMismatch,
    InvalidInputSchema,
    EmptyOperationSequence,
    InvalidOperationCount { index: usize },
    UnknownOperationControl { index: usize },
    TooManyOperations,
    AnswerTooLong,
}

/// The number of candidates whose controls extend those of `normalized`.
pub open spec fn matching_candidates(normalized: Seq<OpV>, candidates: Seq<Candidate>) -> nat
    decreases candidates.len(),
{
    if candidates.len() == 0 {
        0
    } else {
        matching_candidates(normalized, candidates.drop_last()) + if is_prefix(
            expand(normalized),
            expand(ops_value(candidates.last().operations@)),
        ) {
            1nat
        } else {
            0nat
        }
    }
}

/// The error of a faulty operation sequence.
pub open spec fn operation_fault_error(fault: (OpFault, int)) -> JudgeInputError {
    match fault.0 {
        OpFault::NonPositiveCount => JudgeInputError::InvalidOperationCount { index: fault.1 as usize },
        OpFault::UnknownControl => JudgeInputError::UnknownOperationControl { index: fault.1 as usize },
        OpFault::TotalTooLarge => JudgeInputError::TooManyOperations,
    }
}

/// Counts the candidates whose controls extend those of `normalized`.
pub fn count_matching_candidates(normalized: &[Operation], candidates: &Vec<Candidate>) -> (r: usize)
    ensures
        r == matching_candidates(ops_value(normalized@), candidates@),
{
    let n = candidates.len();
    let mut count: usize = 0;
    for i in 0..n
        invariant
            n == candidates@.len(),
            count == matching_candidates(ops_value(normalized@), candidates@.take(i as int)),
            count <= i,
    {
        proof {
            assert(candidates@.take(i + 1).drop_last() =~= candidates@.take(i as int));
        }
        if is_operation_prefix(normalized, candidates[i].operations.as_slice()) {
            count = count + 1;
        }
    }
    proof {
        assert(candidates@.take(n as int) =~= candidates@);
    }
    count
}

/// Whether two operation lists are equal.
pub fn operations_equal(a: &[Operation], b: &[Operation]) -> (r: bool)
    ensures
        r == (ops_value(a@) == ops_value(b@)),
{
    if a.len() != b.len() {
        assert(ops_value(a@).len() != ops_value(b@).len());
        return false;
    }
    let n = a.len();
    for i in 0..n
        invariant
            n == a@.len(),
            n == b@.len(),
            forall|j: int| 0 <= j < i ==> a@[j].value() == b@[j].value(),
    {
        if a[i].count != b[i].count || !string_eq(&a[i].control, &b[i].control) {
            assert(ops_value(a@)[i as int] != ops_value(b@)[i as int]);
            return false;
        }
    }
    assert(ops_value(a@) =~= ops_value(b@));
    true
}

/// Judges a submitted operation sequence against an operation-sequence
/// problem.
///
/// The sequence is rejected if the problem does not take operation
/// sequences, if its schema has no positive limit, if it is empty, or at its
/// first operation whose count is not positive, whose control is not allowed,
/// or that takes the running total over the limit. Otherwise its normal
/// form is returned, whether that equals the correct operations, and how many
/// candidates it is still a prefix of.
pub fn judge_operation_sequence(
    input_schema: &InputSchema,
    judge_config: &JudgeConfig,
    operations: &[Operation],
) -> (r: Result<OperationJudgement, JudgeInputError>)
    ensures
        match judge_config {
            JudgeConfig::OperationSequence { correct_operations, candidates } => {
                let ops = ops_value(operations@);
                let fault = first_fault(
                    ops,
                    strings_value(input_schema.query.allowed_controls@),
                    input_schema.query.max_operations as int,
                );
                if input_schema.query.max_operations <= 0 {
                    r == Err::<OperationJudgement, _>(JudgeInputError::InvalidInputSchema)
                } else if operations@.len() == 0 {
                    r == Err::<OperationJudgement, _>(JudgeInputError::EmptyOperationSequence)
                } else if fault is Some {
                    r == Err::<OperationJudgement, _>(operation_fault_error(fault->0))
                } else {
                    r matches Ok(j) && ops_value(j.normalized_operations@) == normalize_ops(ops)
                        && j.correct == (normalize_ops(ops) == ops_value(correct_operations@))
                        && j.remaining_pattern_count == matching_candidates(
                        normalize_ops(ops),
                        candidates@,
                    )
                }
            },
            _ => r == Err::<OperationJudgement, _>(JudgeInputError::JudgeConfigTypeMismatch),
        },
{
    let (correct_operations, candidates) = match judge_config {
        JudgeConfig::OperationSequence { correct_operations, candidates } => (
            correct_operations,
            candidates,
        ),
        _ => {
            return Err(JudgeInputError::JudgeConfigTypeMismatch);
        },
    };
    if input_schema.query.max_operations <= 0 {
        return Err(JudgeInputError::InvalidInputSchema);
    }
    if operations.len() == 0 {
        return Err(JudgeInputError::EmptyOperationSequence);
    }
    match find_operation_fault(
        operations,
        &input_schema.query.allowed_controls,
        input_schema.query.max_operations,
    ) {
        Some((OpFault::NonPositiveCount, index)) => {
            return Err(JudgeInputError::InvalidOperationCount { index });
        },
        Some((OpFault::UnknownControl, index)) => {
            return Err(JudgeInputError::UnknownOperationControl { index });
        },
        Some((OpFault::TotalTooLarge, _)) => {
            return Err(JudgeInputError::TooManyOperations);
        },
        None => {},
    }
    proof {
        lemma_no_fault_means_valid(
            ops_value(operations@),
            strings_value(input_schema.query.allowed_controls@),
            input_schema.query.max_operations as int,
        );
        lemma_positive_counts_merge_in_range(ops_value(operations@));
    }
    let normalized_operations = normalize_operations(operations);
    let remaining_pattern_count = count_matching_candidates(
        normalized_operations.as_slice(),
        candidates,
    );
    let correct = operations_equal(normalized_operations.as_slice(), correct_operations.as_slice());
    Ok(OperationJudgement { normalized_operations, correct, remaining_pattern_count })
}

// ---------------------------------------------------------------------------
// String answers
// ---------------------------------------------------------------------------

/// `value` normalized as `normalization` says, in this order: Unicode NFKC,
/// trimming of outer white space, collapsing of inner white space, lower
/// casing.
pub open spec fn normalize_answer_seq(value: Seq<char>, normalization: StringNormalization) -> Seq<
    char,
> {
    let a = nfkc_of(value);
    let b = if normalization.trim_outer_whitespace {
        trim_seq(a)
    } else {
        a
    };
    let c = if normalization.collapse_internal_whitespace {
        collapse_seq(b)
    } else {
        b
    };
    if !normalization.case_sensitive {
        lowercase_seq(c)
    } else {
        c
    }
}

/// What normalizing an answer does, before any lower casing: the text `x`
/// that is lower-cased (when the problem is case-insensitive) keeps every
/// character of the NFKC form that is not white space, in order. With outer
/// white space trimmed, `x` neither starts nor ends with white space;
/// otherwise it starts, and ends, with white space exactly when the NFKC form
/// does. With inner white space collapsed, `x` holds white space only as
/// single spaces, never two side by side; with neither step, `x` is the NFKC
/// form itself.
pub proof fn lemma_answer_normalization_shape(value: Seq<char>, normalization: StringNormalization)
    ensures
        exists|x: Seq<char>|
            {
                &&& normalize_answer_seq(value, normalization) == if normalization.case_sensitive {
                    x
                } else {
                    lowercase_seq(x)
                }
                &&& #[trigger] non_white_chars(x) == non_white_chars(nfkc_of(value))
                &&& normalization.trim_outer_whitespace ==> !starts_with_white(x) && !ends_with_white(x)
                &&& !normalization.trim_outer_whitespace ==> starts_with_white(x) == starts_with_white(
                    nfkc_of(value),
                ) && ends_with_white(x) == ends_with_white(nfkc_of(value))
                &&& normalization.collapse_internal_whitespace ==> forall|i: int|
                    0 <= i < x.len() && is_white_space(#[trigger] x[i]) ==> x[i] == ' ' && (i + 1
                        < x.len() ==> !is_white_space(x[i + 1]))
                &&& !normalization.trim_outer_whitespace && !normalization.collapse_internal_whitespace
                    ==> x == nfkc_of(value)
            },
{
    let nfkc = nfkc_of(value);
    let spaced = if normalization.trim_outer_whitespace { trim_seq(nfkc) } else { nfkc };
    let pre_case = if normalization.collapse_internal_whitespace {
        collapse_seq(spaced)
    } else {
        spaced
    };
    lemma_trim_shape(nfkc);
    lemma_collapse_shape(spaced);
    lemma_collapse_ends(spaced);
    assert(non_white_chars(spaced) == non_white_chars(nfkc));
    assert(non_white_chars(pre_case) == non_white_chars(nfkc));
}

/// Normalizes an answer as its problem's normalization says.
pub fn normalize_answer(value: &str, normalization: &StringNormalization) -> (r: String)
    ensures
        r@ == normalize_answer_seq(value@, *normalization),
{
    let mut normalized = match normalization.unicode {
        UnicodeNormalization::Nfkc => nfkc(value),
    };
    if normalization.trim_outer_whitespace {
        normalized = trim_chars(&normalized);
    }
    if normalization.collapse_internal_whitespace {
        normalized = collapse_whitespace(&normalized);
    }
    if !normalization.case_sensitive {
        normalized = to_lowercase(&normalized);
    }
    from_chars(&normalized)
}

/// Judges a string answer: the problem must take strings and have a positive
/// length limit, the answer must not be longer than the limit (counted in
/// Unicode scalar values before normalization), and it is correct when its
/// normal form is one of the accepted answers.
pub fn judge_string_answer(
    input_schema: &InputSchema,
    judge_config: &JudgeConfig,
    answer: &str,
) -> (r: Result<bool, JudgeInputError>)
    ensures
        match judge_config {
            JudgeConfig::String { accepted_answers, normalization } => {
                if input_schema.answer.max_length <= 0 {
                    r == Err::<bool, _>(JudgeInputError::InvalidInputSchema)
                } else if answer@.len() > input_schema.answer.max_length {
                    r == Err::<bool, _>(JudgeInputError::AnswerTooLong)
                } else {
                    r == Ok::<bool, JudgeInputError>(
                        strings_value(accepted_answers@).contains(
                            normalize_answer_seq(answer@, *normalization),
                        ),
                    )
                }
            },
            _ => r == Err::<bool, _>(JudgeInputError::JudgeConfigTypeMismatch),
        },
{
    let (accepted_answers, normalization) = match judge_config {
        JudgeConfig::String { accepted_answers, normalization } => (accepted_answers, normalization),
        _ => {
            return Err(JudgeInputError::JudgeConfigTypeMismatch);
        },
    };
    if input_schema.answer.max_length <= 0 {
        return Err(JudgeInputError::InvalidInputSchema);
    }
    if char_count(answer) > input_schema.answer.max_length as usize {
        return Err(JudgeInputError::AnswerTooLong);
    }
    let normalized_answer = normalize_answer(answer, normalization);
    let found = contains_string(accepted_answers, &normalized_answer);
    proof {
        let sv = strings_value(accepted_answers@);
        if found {
            let j = choose|j: int| 0 <= j < accepted_answers@.len() && (#[trigger] accepted_answers@[j])@ == normalized_answer@;
            assert(sv[j] == normalized_answer@);
        } else if sv.contains(normalized_answer@) {
            let j = choose|j: int| 0 <= j < sv.len() && sv[j] == normalized_answer@;
            assert(accepted_answers@[j]@ == normalized_answer@);
        }
    }
    Ok(found)
}

} // verus!
