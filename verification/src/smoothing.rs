//! The two grouped smoothing recursions: exponential smoothing that seeds
//! on every group change, and the Wilder running average with its simple
//! -mean warm-up.  Both are explicit folds over `(previous key, state)`, so
//! the reset-on-boundary behaviour is the visible algorithm, not a library
//! aggregation.
//!
//! All quotients round toward negative infinity (the library's fixed-point
//! convention).

use vstd::prelude::*;
use crate::{all_in_range, div_floor, lemma_convex_div, opt_val};

verus! {

/// Row `i` opens a new smoothing group: it is the first row, or its key
/// differs from the previous row's key.
pub open spec fn new_group(keys: Seq<i64>, i: int) -> bool {
    i <= 0 || keys[i] != keys[i - 1]
}

/// How many rows of the same group precede row `i`.
pub open spec fn group_pos(keys: Seq<i64>, i: int) -> int
    decreases i,
{
    if new_group(keys, i) {
        0
    } else {
        group_pos(keys, i - 1) + 1
    }
}

/// The sum of `values[s..e]`.
pub open spec fn range_sum(values: Seq<i64>, s: int, e: int) -> int
    decreases e - s,
{
    if e <= s {
        0
    } else {
        range_sum(values, s, e - 1) + values[e - 1]
    }
}

/// One exponential smoothing step with period `p`: the fixed-point rendering
/// of `v * k + prev * (1 - k)` for `k = 2 / (p + 1)`.
pub open spec fn ema_step(p: int, prev: int, v: int) -> int {
    (2 * v + (p - 1) * prev) / (p + 1)
}

/// The grouped EMA at row `i`: the raw value on the first row of each
/// group, the smoothing recursion inside a group.
pub open spec fn ema_at(values: Seq<i64>, keys: Seq<i64>, p: int, i: int) -> int
    decreases i,
{
    if new_group(keys, i) {
        values[i] as int
    } else {
        ema_step(p, ema_at(values, keys, p, i - 1), values[i] as int)
    }
}

/// The grouped Wilder average at row `i`: undefined through the group's
/// warm-up, the simple mean of the group's first `p` values once `p` rows
/// have been seen, then the Wilder recursion.
pub open spec fn rma_at(values: Seq<i64>, keys: Seq<i64>, p: int, i: int) -> Option<int>
    decreases i,
{
    if p < 1 || i < 0 {
        None
    } else {
        let gp = group_pos(keys, i);
        if gp + 1 < p {
            None
        } else if gp + 1 == p {
            Some(range_sum(values, i + 1 - p, i + 1) / p)
        } else if i < 1 {
            None
        } else {
            match rma_at(values, keys, p, i - 1) {
                Some(prev) => Some(((p - 1) * prev + values[i]) / p),
                None => None,
            }
        }
    }
}

/// Law: at the first row of every new group the EMA equals the raw input
/// value at that row (seed behaviour), whatever the period.
pub proof fn lemma_ema_seed(values: Seq<i64>, keys: Seq<i64>, p: int, i: int)
    requires
        0 <= i < values.len(),
        new_group(keys, i),
    ensures
        ema_at(values, keys, p, i) == values[i],
{
}

/// Law: the Wilder average is undefined while a group has seen fewer than
/// `p` rows, and at a group's `p`-th row it equals the simple mean of that
/// group's first `p` values.
pub proof fn lemma_rma_warmup(values: Seq<i64>, keys: Seq<i64>, p: int, i: int)
    requires
        1 <= p,
        0 <= i,
    ensures
        group_pos(keys, i) + 1 < p ==> rma_at(values, keys, p, i) is None,
        group_pos(keys, i) + 1 == p ==> rma_at(values, keys, p, i) == Some(
            range_sum(values, i + 1 - p, i + 1) / p,
        ),
{
}

/// Law: from a group's `p`-th row onward the Wilder average is defined.
pub proof fn lemma_rma_defined(values: Seq<i64>, keys: Seq<i64>, p: int, i: int)
    requires
        1 <= p,
        0 <= i,
        group_pos(keys, i) + 1 >= p,
    ensures
        rma_at(values, keys, p, i) is Some,
    decreases i,
{
    let gp = group_pos(keys, i);
    if gp + 1 > p {
        assert(!new_group(keys, i));
        assert(group_pos(keys, i - 1) == gp - 1);
        lemma_rma_defined(values, keys, p, i - 1);
    }
}

/// The sum of a range of values from `[lo, hi]` lies between the range's
/// length times `lo` and times `hi`.
pub proof fn lemma_range_sum_bounds(values: Seq<i64>, s: int, e: int, lo: int, hi: int)
    requires
        0 <= s <= e <= values.len(),
        all_in_range(values, lo, hi),
    ensures
        (e - s) * lo <= range_sum(values, s, e) <= (e - s) * hi,
    decreases e - s,
{
    if e <= s {
    } else {
        lemma_range_sum_bounds(values, s, e - 1, lo, hi);
        assert((e - s) * lo == (e - 1 - s) * lo + lo && (e - s) * hi == (e - 1 - s) * hi + hi)
            by (nonlinear_arith);
    }
}

/// The grouped EMA of values from `[lo, hi]` stays in `[lo, hi]`.
pub proof fn lemma_ema_at_range(values: Seq<i64>, keys: Seq<i64>, p: int, i: int, lo: int, hi: int)
    requires
        1 <= p,
        0 <= i < values.len(),
        all_in_range(values, lo, hi),
    ensures
        lo <= ema_at(values, keys, p, i) <= hi,
    decreases i,
{
    if new_group(keys, i) {
    } else {
        lemma_ema_at_range(values, keys, p, i - 1, lo, hi);
        lemma_convex_div(2, p - 1, values[i] as int, ema_at(values, keys, p, i - 1), lo, hi);
    }
}

/// The grouped Wilder average of values from `[lo, hi]`, where defined,
/// stays in `[lo, hi]`.
pub proof fn lemma_rma_at_range(values: Seq<i64>, keys: Seq<i64>, p: int, i: int, lo: int, hi: int)
    requires
        1 <= p,
        0 <= i < values.len(),
        keys.len() == values.len(),
        all_in_range(values, lo, hi),
        rma_at(values, keys, p, i) is Some,
    ensures
        lo <= rma_at(values, keys, p, i).unwrap() <= hi,
    decreases i,
{
    let gp = group_pos(keys, i);
    lemma_group_pos_in_bounds(keys, i);
    if gp + 1 == p {
        lemma_range_sum_bounds(values, i + 1 - p, i + 1, lo, hi);
        let sum = range_sum(values, i + 1 - p, i + 1);
        vstd::arithmetic::div_mod::lemma_div_is_ordered(p * lo, sum, p);
        vstd::arithmetic::div_mod::lemma_div_is_ordered(sum, p * hi, p);
        vstd::arithmetic::div_mod::lemma_div_multiples_vanish(lo, p);
        vstd::arithmetic::div_mod::lemma_div_multiples_vanish(hi, p);
    } else {
        assert(gp + 1 > p);
        assert(!new_group(keys, i));
        assert(group_pos(keys, i - 1) == gp - 1);
        lemma_rma_defined(values, keys, p, i - 1);
        lemma_rma_at_range(values, keys, p, i - 1, lo, hi);
        lemma_convex_div(
            p - 1,
            1,
            rma_at(values, keys, p, i - 1).unwrap(),
            values[i] as int,
            lo,
            hi,
        );
    }
}

/// A row's group position never exceeds its index.
pub proof fn lemma_group_pos_in_bounds(keys: Seq<i64>, i: int)
    ensures
        0 <= group_pos(keys, i) <= if i >= 0 {
            i
        } else {
            0
        },
    decreases i,
{
    if !new_group(keys, i) {
        lemma_group_pos_in_bounds(keys, i - 1);
    }
}

/// The grouped EMA: seeds with the raw value on every group change, then
/// applies the smoothing recursion row by row; one output per input row.
pub fn ema_grouped(values: &Vec<i64>, period: usize, keys: &Vec<i64>) -> (r: Vec<i64>)
    requires
        values@.len() == keys@.len(),
        1 <= period,
        period as int <= 0x4000_0000_0000_0000,
    ensures
        r@.len() == values@.len(),
        forall|i: int|
            0 <= i < r@.len() ==> r@[i] == ema_at(values@, keys@, period as int, i),
{
    let n = values.len();
    let mut out: Vec<i64> = Vec::new();
    let mut i: usize = 0;
    while i < n
        invariant
            n == values@.len(),
            values@.len() == keys@.len(),
            1 <= period,
            period as int <= 0x4000_0000_0000_0000,
            i <= n,
            out@.len() == i,
            forall|j: int| 0 <= j < i ==> out@[j] == ema_at(values@, keys@, period as int, j),
        decreases n - i,
    {
        let v = values[i];
        let next: i64;
        if i == 0 || keys[i] != keys[i - 1] {
            next = v;
        } else {
            let prev = out[i - 1];
            proof {
                lemma_convex_div(
                    2,
                    period as int - 1,
                    v as int,
                    prev as int,
                    i64::MIN as int,
                    i64::MAX as int,
                );
                crate::lemma_mul_bound(
                    period as int - 1,
                    prev as int,
                    0x4000_0000_0000_0000,
                    0x8000_0000_0000_0000,
                );
            }
            let num: i128 = 2 * (v as i128) + ((period as i128) - 1) * (prev as i128);
            next = div_floor(num, period as i128 + 1) as i64;
        }
        out.push(next);
        i += 1;
    }
    out
}

/// The grouped Wilder average: accumulates a simple mean through each
/// group's warm-up (emitting no value), emits the mean at the group's
/// `p`-th row, then applies the Wilder recursion; resets on every group
/// change.
pub fn rma_grouped(values: &Vec<i64>, period: usize, keys: &Vec<i64>) -> (r: Vec<Option<i64>>)
    requires
        values@.len() == keys@.len(),
        1 <= period,
        period as int <= 0x4000_0000_0000_0000,
    ensures
        r@.len() == values@.len(),
        forall|i: int|
            0 <= i < r@.len() ==> opt_val(r@[i]) == rma_at(values@, keys@, period as int, i),
{
    let n = values.len();
    let p = period;
    let mut out: Vec<Option<i64>> = Vec::new();
    let mut count: usize = 0;
    let mut sum: i128 = 0;
    let mut avg: i64 = 0;
    let mut i: usize = 0;
    while i < n
        invariant
            n == values@.len(),
            values@.len() == keys@.len(),
            p == period,
            1 <= p,
            p as int <= 0x4000_0000_0000_0000,
            i <= n,
            out@.len() == i,
            forall|j: int| 0 <= j < i ==> opt_val(out@[j]) == rma_at(values@, keys@, p as int, j),
            i == 0 ==> count == 0 && sum == 0,
            i >= 1 ==> {
                let gp = group_pos(keys@, i - 1);
                &&& (gp + 1 < p ==> count == gp + 1 && sum == range_sum(values@, i - 1 - gp, i as int))
                &&& (gp + 1 >= p ==> count == p && rma_at(values@, keys@, p as int, i - 1)
                    == Some(avg as int))
            },
        decreases n - i,
    {
        proof {
            if i >= 1 {
                lemma_group_pos_in_bounds(keys@, i - 1);
            }
        }
        if i > 0 && keys[i] != keys[i - 1] {
            count = 0;
            sum = 0;
        }
        let ghost gp_i = group_pos(keys@, i as int);
        proof {
            lemma_group_pos_in_bounds(keys@, i as int);
            if i >= 1 && !new_group(keys@, i as int) {
                assert(gp_i == group_pos(keys@, i - 1) + 1);
            }
            // After the reset the running state describes the current group.
            assert(gp_i < p ==> count == gp_i && sum == range_sum(values@, i - gp_i, i as int)) by {
                if new_group(keys@, i as int) {
                    assert(range_sum(values@, i as int, i as int) == 0);
                }
            }
            assert(gp_i >= p ==> count == p && rma_at(values@, keys@, p as int, i - 1) == Some(
                avg as int,
            ));
        }
        let v = values[i];
        if count < p {
            proof {
                lemma_range_sum_bounds(
                    values@,
                    i - gp_i,
                    i as int,
                    i64::MIN as int,
                    i64::MAX as int,
                );
                crate::lemma_mul_bound(gp_i, i64::MIN as int, 0x4000_0000_0000_0000, 0x8000_0000_0000_0000);
                crate::lemma_mul_bound(gp_i, i64::MAX as int, 0x4000_0000_0000_0000, 0x8000_0000_0000_0000);
                assert(range_sum(values@, i - gp_i, i + 1) == range_sum(values@, i - gp_i, i as int)
                    + values@[i as int]);
            }
            sum = sum + (v as i128);
            count = count + 1;
            if count == p {
                proof {
                    assert(sum == range_sum(values@, i + 1 - (p as int), i + 1));
                    lemma_range_sum_bounds(
                        values@,
                        i + 1 - (p as int),
                        i + 1,
                        i64::MIN as int,
                        i64::MAX as int,
                    );
                    let pp = p as int;
                    vstd::arithmetic::div_mod::lemma_div_is_ordered(
                        pp * (i64::MIN as int),
                        sum as int,
                        pp,
                    );
                    vstd::arithmetic::div_mod::lemma_div_is_ordered(
                        sum as int,
                        pp * (i64::MAX as int),
                        pp,
                    );
                    vstd::arithmetic::div_mod::lemma_div_multiples_vanish(i64::MIN as int, pp);
                    vstd::arithmetic::div_mod::lemma_div_multiples_vanish(i64::MAX as int, pp);
                }
                let a = div_floor(sum, p as i128);
                avg = a as i64;
                out.push(Some(avg));
            } else {
                out.push(None);
            }
        } else {
            proof {
                lemma_convex_div(
                    p as int - 1,
                    1,
                    avg as int,
                    v as int,
                    i64::MIN as int,
                    i64::MAX as int,
                );
                crate::lemma_mul_bound(
                    p as int - 1,
                    avg as int,
                    0x4000_0000_0000_0000,
                    0x8000_0000_0000_0000,
                );
            }
            let num: i128 = ((p as i128) - 1) * (avg as i128) + (v as i128);
            let a = div_floor(num, p as i128);
            avg = a as i64;
            out.push(Some(avg));
        }
        i += 1;
    }
    out
}

} // verus!
