//! The bounds estimator: folds a batch of binary64 patterns into a running
//! `[min, max]` range, ignoring NaN entries, exactly as repeated `f64::min` /
//! `f64::max` folding does. The lemmas here state the laws the estimator
//! obeys: the fold only ever widens the range, it distributes over batch
//! concatenation, and its outcome is independent of the order in which
//! batches are folded in.

use vstd::prelude::*;
use crate::float_bits::{
    is_nan64, is_inf64, key64, val64, min64, max64, f64_bits_min, f64_bits_max,
    lemma_key_orders_values,
};

verus! {

/// Left fold of the NaN-ignoring minimum over a sequence of binary64 patterns.
pub open spec fn fold_min(acc: u64, s: Seq<u64>) -> u64
    decreases s.len(),
{
    if s.len() == 0 {
        acc
    } else {
        fold_min(min64(acc, s[0]), s.subrange(1, s.len() as int))
    }
}

/// Left fold of the NaN-ignoring maximum over a sequence of binary64 patterns.
pub open spec fn fold_max(acc: u64, s: Seq<u64>) -> u64
    decreases s.len(),
{
    if s.len() == 0 {
        acc
    } else {
        fold_max(max64(acc, s[0]), s.subrange(1, s.len() as int))
    }
}

pub proof fn lemma_fold_min_push(acc: u64, s: Seq<u64>, x: u64)
    ensures
        fold_min(acc, s.push(x)) == min64(fold_min(acc, s), x),
    decreases s.len(),
{
    let sp = s.push(x);
    if s.len() == 0 {
        assert(sp[0] == x);
        assert(sp.subrange(1, sp.len() as int) =~= Seq::<u64>::empty());
        assert(fold_min(min64(acc, x), Seq::<u64>::empty()) == min64(acc, x));
        assert(fold_min(acc, Seq::<u64>::empty()) == acc);
        assert(fold_min(acc, sp) == min64(acc, x));
    } else {
        assert(sp[0] == s[0]);
        assert(sp.subrange(1, sp.len() as int) =~= s.subrange(1, s.len() as int).push(x));
        lemma_fold_min_push(min64(acc, s[0]), s.subrange(1, s.len() as int), x);
        assert(fold_min(acc, sp) == fold_min(min64(acc, s[0]), sp.subrange(1, sp.len() as int)));
        assert(fold_min(acc, s) == fold_min(min64(acc, s[0]), s.subrange(1, s.len() as int)));
    }
}

pub proof fn lemma_fold_max_push(acc: u64, s: Seq<u64>, x: u64)
    ensures
        fold_max(acc, s.push(x)) == max64(fold_max(acc, s), x),
    decreases s.len(),
{
    let sp = s.push(x);
    if s.len() == 0 {
        assert(sp[0] == x);
        assert(sp.subrange(1, sp.len() as int) =~= Seq::<u64>::empty());
        assert(fold_max(max64(acc, x), Seq::<u64>::empty()) == max64(acc, x));
        assert(fold_max(acc, Seq::<u64>::empty()) == acc);
        assert(fold_max(acc, sp) == max64(acc, x));
    } else {
        assert(sp[0] == s[0]);
        assert(sp.subrange(1, sp.len() as int) =~= s.subrange(1, s.len() as int).push(x));
        lemma_fold_max_push(max64(acc, s[0]), s.subrange(1, s.len() as int), x);
        assert(fold_max(acc, sp) == fold_max(max64(acc, s[0]), sp.subrange(1, sp.len() as int)));
        assert(fold_max(acc, s) == fold_max(max64(acc, s[0]), s.subrange(1, s.len() as int)));
    }
}

/// What the min fold computes: a non-NaN pattern that is a lower bound (by
/// ordering key) for the accumulator and for every non-NaN element, and that
/// is the accumulator itself or one of the elements.
pub proof fn lemma_fold_min_props(acc: u64, s: Seq<u64>)
    requires
        !is_nan64(acc),
    ensures
        !is_nan64(fold_min(acc, s)),
        key64(fold_min(acc, s)) <= key64(acc),
        forall|j: int| 0 <= j < s.len() && !is_nan64(s[j]) ==> key64(fold_min(acc, s)) <= key64(#[trigger] s[j]),
        fold_min(acc, s) == acc || exists|j: int|
            0 <= j < s.len() && #[trigger] s[j] == fold_min(acc, s) && !is_nan64(s[j]),
    decreases s.len(),
{
    if s.len() > 0 {
        let rest = s.subrange(1, s.len() as int);
        lemma_fold_min_props(min64(acc, s[0]), rest);
        assert(forall|j: int| 1 <= j < s.len() ==> #[trigger] s[j] == rest[j - 1]);
        if fold_min(acc, s) != acc && fold_min(acc, s) != s[0] {
            let j = choose|j: int|
                0 <= j < rest.len() && #[trigger] rest[j] == fold_min(min64(acc, s[0]), rest)
                    && !is_nan64(rest[j]);
            assert(s[j + 1] == fold_min(acc, s) && !is_nan64(s[j + 1]));
        }
    }
}

/// Mirror of `lemma_fold_min_props` for the max fold.
pub proof fn lemma_fold_max_props(acc: u64, s: Seq<u64>)
    requires
        !is_nan64(acc),
    ensures
        !is_nan64(fold_max(acc, s)),
        key64(fold_max(acc, s)) >= key64(acc),
        forall|j: int| 0 <= j < s.len() && !is_nan64(s[j]) ==> key64(fold_max(acc, s)) >= key64(#[trigger] s[j]),
        fold_max(acc, s) == acc || exists|j: int|
            0 <= j < s.len() && #[trigger] s[j] == fold_max(acc, s) && !is_nan64(s[j]),
    decreases s.len(),
{
    if s.len() > 0 {
        let rest = s.subrange(1, s.len() as int);
        lemma_fold_max_props(max64(acc, s[0]), rest);
        assert(forall|j: int| 1 <= j < s.len() ==> #[trigger] s[j] == rest[j - 1]);
        if fold_max(acc, s) != acc && fold_max(acc, s) != s[0] {
            let j = choose|j: int|
                0 <= j < rest.len() && #[trigger] rest[j] == fold_max(max64(acc, s[0]), rest)
                    && !is_nan64(rest[j]);
            assert(s[j + 1] == fold_max(acc, s) && !is_nan64(s[j + 1]));
        }
    }
}

/// Training may be split into any number of batches: folding the
/// concatenation equals folding one batch after the other.
pub proof fn lemma_fold_min_concat(acc: u64, s1: Seq<u64>, s2: Seq<u64>)
    ensures
        fold_min(acc, s1 + s2) == fold_min(fold_min(acc, s1), s2),
    decreases s1.len(),
{
    if s1.len() == 0 {
        assert(s1 + s2 =~= s2);
    } else {
        assert((s1 + s2).subrange(1, (s1 + s2).len() as int) =~= s1.subrange(
            1,
            s1.len() as int,
        ) + s2);
        assert((s1 + s2)[0] == s1[0]);
        lemma_fold_min_concat(min64(acc, s1[0]), s1.subrange(1, s1.len() as int), s2);
    }
}

/// Mirror of `lemma_fold_min_concat` for the max fold.
pub proof fn lemma_fold_max_concat(acc: u64, s1: Seq<u64>, s2: Seq<u64>)
    ensures
        fold_max(acc, s1 + s2) == fold_max(fold_max(acc, s1), s2),
    decreases s1.len(),
{
    if s1.len() == 0 {
        assert(s1 + s2 =~= s2);
    } else {
        assert((s1 + s2).subrange(1, (s1 + s2).len() as int) =~= s1.subrange(
            1,
            s1.len() as int,
        ) + s2);
        assert((s1 + s2)[0] == s1[0]);
        lemma_fold_max_concat(max64(acc, s1[0]), s1.subrange(1, s1.len() as int), s2);
    }
}

/// Training bounds are order-independent: folding two batches in either order
/// gives ranges that encode the same numbers (equal ordering keys; the bit
/// patterns can differ only between `-0.0` and `+0.0`).
pub proof fn lemma_fold_order_independent(acc: u64, s1: Seq<u64>, s2: Seq<u64>)
    requires
        !is_nan64(acc),
    ensures
        key64(fold_min(fold_min(acc, s1), s2)) == key64(fold_min(fold_min(acc, s2), s1)),
        key64(fold_max(fold_max(acc, s1), s2)) == key64(fold_max(fold_max(acc, s2), s1)),
    decreases s1.len(),
{
    let r12 = fold_min(fold_min(acc, s1), s2);
    let r21 = fold_min(fold_min(acc, s2), s1);
    lemma_fold_min_props(acc, s1);
    lemma_fold_min_props(fold_min(acc, s1), s2);
    lemma_fold_min_props(acc, s2);
    lemma_fold_min_props(fold_min(acc, s2), s1);
    // r12 is acc or an element of s1 or s2; r21 is a lower bound for all of those.
    assert(key64(r21) <= key64(r12));
    assert(key64(r12) <= key64(r21));
    let m12 = fold_max(fold_max(acc, s1), s2);
    let m21 = fold_max(fold_max(acc, s2), s1);
    lemma_fold_max_props(acc, s1);
    lemma_fold_max_props(fold_max(acc, s1), s2);
    lemma_fold_max_props(acc, s2);
    lemma_fold_max_props(fold_max(acc, s2), s1);
    assert(key64(m21) >= key64(m12));
    assert(key64(m12) >= key64(m21));
}

/// Retraining only ever widens the range: the folded minimum never rises and
/// the folded maximum never falls.
pub proof fn lemma_fold_only_widens(acc_min: u64, acc_max: u64, s: Seq<u64>)
    requires
        !is_nan64(acc_min),
        !is_nan64(acc_max),
    ensures
        key64(fold_min(acc_min, s)) <= key64(acc_min),
        key64(fold_max(acc_max, s)) >= key64(acc_max),
        !is_nan64(fold_min(acc_min, s)),
        !is_nan64(fold_max(acc_max, s)),
{
    lemma_fold_min_props(acc_min, s);
    lemma_fold_max_props(acc_max, s);
}

/// The trained range in exact value terms: every finite, non-NaN element of
/// the batch lies between the folded minimum and the folded maximum, compared
/// as the numbers the patterns encode. (A folded end can be infinite only
/// where the accumulator still holds a sentinel infinity or the batch itself
/// holds one; those ends enclose every finite value trivially.)
pub proof fn lemma_fold_bounds_enclose_values(acc_min: u64, acc_max: u64, s: Seq<u64>)
    requires
        !is_nan64(acc_min),
        !is_nan64(acc_max),
    ensures
        forall|j: int|
            0 <= j < s.len() && !is_nan64(s[j]) && !is_inf64(s[j]) && !is_inf64(
                fold_min(acc_min, s),
            ) ==> val64(fold_min(acc_min, s)) <= val64(#[trigger] s[j]),
        forall|j: int|
            0 <= j < s.len() && !is_nan64(s[j]) && !is_inf64(s[j]) && !is_inf64(
                fold_max(acc_max, s),
            ) ==> val64(fold_max(acc_max, s)) >= val64(#[trigger] s[j]),
{
    lemma_fold_min_props(acc_min, s);
    lemma_fold_max_props(acc_max, s);
    assert forall|j: int|
        0 <= j < s.len() && !is_nan64(s[j]) && !is_inf64(s[j]) && !is_inf64(
            fold_min(acc_min, s),
        ) implies val64(fold_min(acc_min, s)) <= val64(s[j]) by {
        lemma_key_orders_values(fold_min(acc_min, s), s[j]);
    }
    assert forall|j: int|
        0 <= j < s.len() && !is_nan64(s[j]) && !is_inf64(s[j]) && !is_inf64(
            fold_max(acc_max, s),
        ) implies val64(fold_max(acc_max, s)) >= val64(s[j]) by {
        lemma_key_orders_values(s[j], fold_max(acc_max, s));
    }
}

/// Folds a batch into a running `[min, max]` range, skipping NaN entries.
pub fn fold_bounds(start: u64, end: u64, values: &Vec<u64>) -> (r: (u64, u64))
    ensures
        r.0 == fold_min(start, values@),
        r.1 == fold_max(end, values@),
{
    let mut lo = start;
    let mut hi = end;
    let n = values.len();
    let mut i: usize = 0;
    while i < n
        invariant
            n == values@.len(),
            i <= n,
            lo == fold_min(start, values@.subrange(0, i as int)),
            hi == fold_max(end, values@.subrange(0, i as int)),
        decreases n - i,
    {
        proof {
            assert(values@.subrange(0, i + 1) =~= values@.subrange(0, i as int).push(
                values@[i as int],
            ));
            lemma_fold_min_push(start, values@.subrange(0, i as int), values@[i as int]);
            lemma_fold_max_push(end, values@.subrange(0, i as int), values@[i as int]);
        }
        lo = f64_bits_min(lo, values[i]);
        hi = f64_bits_max(hi, values[i]);
        i += 1;
    }
    proof {
        assert(values@.subrange(0, n as int) =~= values@);
    }
    (lo, hi)
}

} // verus!
