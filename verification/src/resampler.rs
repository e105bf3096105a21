//! The resampler: converts raw observations to a millisecond OHLCV table
//! and aggregates a sorted table into fixed-width buckets with left-closed,
//! left-labeled interval semantics anchored to wall-clock boundaries.
//! Empty intervals produce no row.

use vstd::prelude::*;
use crate::{div_floor_i64, Bar, DataError};
use crate::calendar::{TS_MAX_MS, TS_MIN_MS};
use crate::table::{check_in_range, check_sorted, sorted_ts, OhlcvTable};

verus! {

/// The fixed bucket width: five minutes of milliseconds.
pub const BUCKET_MS: i64 = 300_000;

/// Nanoseconds to milliseconds, truncating toward zero (the rounding of a
/// machine division on signed integers).
pub open spec fn ms_of_ns(ns: int) -> int {
    if ns >= 0 {
        ns / 1_000_000
    } else {
        -((-ns) / 1_000_000)
    }
}

/// The left label of the bucket containing `ts`: `ts` rounded down to a
/// multiple of the bucket width, so the bucket labeled `T` covers
/// `[T, T + BUCKET_MS)`.
pub open spec fn bucket_label(ts: int) -> int {
    (ts / (BUCKET_MS as int)) * (BUCKET_MS as int)
}

/// Row `i` opens a new bucket: it is the first row or its label differs
/// from the previous row's label.
pub open spec fn is_bucket_start(ts: Seq<i64>, i: int) -> bool {
    i == 0 || bucket_label(ts[i] as int) != bucket_label(ts[i - 1] as int)
}

/// The indices of the rows that open each bucket, in row order.
pub open spec fn bucket_starts(ts: Seq<i64>) -> Seq<int>
    decreases ts.len(),
{
    if ts.len() == 0 {
        Seq::empty()
    } else if is_bucket_start(ts, ts.len() - 1) {
        bucket_starts(ts.drop_last()).push(ts.len() - 1)
    } else {
        bucket_starts(ts.drop_last())
    }
}

/// How many rows of the same bucket precede row `k`.
pub open spec fn bucket_pos(ts: Seq<i64>, k: int) -> int
    decreases k,
{
    if k <= 0 || bucket_label(ts[k] as int) != bucket_label(ts[k - 1] as int) {
        0
    } else {
        bucket_pos(ts, k - 1) + 1
    }
}

/// The largest value in `v[s..e]` (meaningful for `s < e`).
pub open spec fn range_max(v: Seq<i64>, s: int, e: int) -> int
    decreases e - s,
{
    if e <= s + 1 {
        v[s] as int
    } else {
        let m = range_max(v, s, e - 1);
        if v[e - 1] as int > m {
            v[e - 1] as int
        } else {
            m
        }
    }
}

/// The smallest value in `v[s..e]` (meaningful for `s < e`).
pub open spec fn range_min(v: Seq<i64>, s: int, e: int) -> int
    decreases e - s,
{
    if e <= s + 1 {
        v[s] as int
    } else {
        let m = range_min(v, s, e - 1);
        if (v[e - 1] as int) < m {
            v[e - 1] as int
        } else {
            m
        }
    }
}

/// The volume sum over `v[s..e]`.
pub open spec fn range_vol(v: Seq<u64>, s: int, e: int) -> int
    decreases e - s,
{
    if e <= s {
        0
    } else {
        range_vol(v, s, e - 1) + v[e - 1]
    }
}

/// No bucket's running volume sum leaves the `u64` range.
pub open spec fn vols_fit(ts: Seq<i64>, vol: Seq<u64>) -> bool {
    forall|k: int|
        0 <= k < ts.len() ==> range_vol(vol, k - bucket_pos(ts, k), k + 1) <= u64::MAX as int
}

/// The bucket labels of all rows, in row order.
pub open spec fn labels_of(ts: Seq<i64>) -> Seq<int> {
    Seq::new(ts.len(), |i: int| bucket_label(ts[i] as int))
}

/// Rounding down to a bucket boundary is monotone.
proof fn lemma_label_monotone(a: int, b: int)
    requires
        a <= b,
    ensures
        bucket_label(a) <= bucket_label(b),
{
    vstd::arithmetic::div_mod::lemma_div_is_ordered(a, b, BUCKET_MS as int);
}

/// Law: for sorted input the resampler emits one row per non-empty
/// interval: the number of bucket starts equals the number of distinct
/// bucket labels among the input rows.
pub proof fn lemma_bucket_count(ts: Seq<i64>)
    requires
        sorted_ts(ts),
    ensures
        bucket_starts(ts).len() == labels_of(ts).to_set().len(),
    decreases ts.len(),
{
    broadcast use vstd::set::group_set_axioms, vstd::seq_lib::seq_to_set_is_finite;

    if ts.len() == 0 {
        assert(labels_of(ts) =~= Seq::<int>::empty());
        labels_of(ts).unique_seq_to_set();
    } else {
        let n = ts.len() as int;
        let pre = ts.drop_last();
        let lab = labels_of(ts);
        let plab = labels_of(pre);
        let last_label = bucket_label(ts[n - 1] as int);
        assert(sorted_ts(pre)) by {
            assert forall|i: int, j: int| 0 <= i <= j < pre.len() implies pre[i] <= pre[j] by {
                assert(ts[i] <= ts[j]);
            }
        }
        lemma_bucket_count(pre);
        assert(lab =~= plab.push(last_label));
        assert(lab.to_set() =~= plab.to_set().insert(last_label)) by {
            assert forall|x: int| lab.to_set().contains(x) implies plab.to_set().insert(
                last_label,
            ).contains(x) by {
                let i = choose|i: int| 0 <= i < lab.len() && lab[i] == x;
                if i < n - 1 {
                    assert(plab[i] == x);
                    assert(plab.to_set().contains(x));
                }
            }
            assert forall|x: int|
                plab.to_set().insert(last_label).contains(x) implies lab.to_set().contains(x) by {
                if x == last_label {
                    assert(lab[n - 1] == x);
                } else {
                    let i = choose|i: int| 0 <= i < plab.len() && plab[i] == x;
                    assert(lab[i] == x);
                }
            }
        }
        if n >= 2 && !is_bucket_start(ts, n - 1) {
            // The last row repeats the previous label, which the set holds.
            assert(plab[n - 2] == last_label);
            assert(plab.to_set().contains(last_label));
        } else if n >= 2 {
            // A new label: sortedness makes it larger than all earlier ones.
            assert(!plab.to_set().contains(last_label)) by {
                if plab.to_set().contains(last_label) {
                    let i = choose|i: int| 0 <= i < plab.len() && plab[i] == last_label;
                    assert(bucket_label(ts[i] as int) == last_label);
                    lemma_label_monotone(ts[i] as int, ts[n - 2] as int);
                    lemma_label_monotone(ts[n - 2] as int, ts[n - 1] as int);
                }
            }
        } else {
            assert(plab.to_set() =~= Set::<int>::empty());
        }
    }
}

/// Extending a prefix by one row extends its bucket starts by that row's
/// index exactly when the row opens a new bucket.
proof fn lemma_bucket_starts_step(ts: Seq<i64>, k: int)
    requires
        0 <= k < ts.len(),
    ensures
        bucket_starts(ts.take(k + 1)) == if is_bucket_start(ts, k) {
            bucket_starts(ts.take(k)).push(k)
        } else {
            bucket_starts(ts.take(k))
        },
{
    assert(ts.take(k + 1).drop_last() =~= ts.take(k));
    assert(bucket_starts(ts.take(k + 1)) == if is_bucket_start(ts.take(k + 1), k) {
        bucket_starts(ts.take(k)).push(k)
    } else {
        bucket_starts(ts.take(k))
    });
    assert(is_bucket_start(ts.take(k + 1), k) == is_bucket_start(ts, k));
}

/// Converts raw observations to the millisecond fixed-point table: the
/// timestamp drops from nanoseconds to milliseconds, prices and volumes
/// carry over unchanged.
pub fn bars_to_dataframe(bars: &Vec<Bar>) -> (r: OhlcvTable)
    ensures
        r.wf(),
        r.timestamp@.len() == bars@.len(),
        forall|i: int|
            0 <= i < bars@.len() ==> #[trigger] r.timestamp@[i] == ms_of_ns(
                bars@[i].ts_event as int,
            ),
        forall|i: int| 0 <= i < bars@.len() ==> #[trigger] r.open@[i] == bars@[i].open,
        forall|i: int| 0 <= i < bars@.len() ==> #[trigger] r.high@[i] == bars@[i].high,
        forall|i: int| 0 <= i < bars@.len() ==> #[trigger] r.low@[i] == bars@[i].low,
        forall|i: int| 0 <= i < bars@.len() ==> #[trigger] r.close@[i] == bars@[i].close,
        forall|i: int| 0 <= i < bars@.len() ==> #[trigger] r.volume@[i] == bars@[i].volume,
{
    let n = bars.len();
    let mut timestamp: Vec<i64> = Vec::new();
    let mut open: Vec<i64> = Vec::new();
    let mut high: Vec<i64> = Vec::new();
    let mut low: Vec<i64> = Vec::new();
    let mut close: Vec<i64> = Vec::new();
    let mut volume: Vec<u64> = Vec::new();
    let mut i: usize = 0;
    while i < n
        invariant
            n == bars@.len(),
            i <= n,
            timestamp@.len() == i,
            open@.len() == i,
            high@.len() == i,
            low@.len() == i,
            close@.len() == i,
            volume@.len() == i,
            forall|j: int|
                0 <= j < i ==> #[trigger] timestamp@[j] == ms_of_ns(bars@[j].ts_event as int),
            forall|j: int| 0 <= j < i ==> #[trigger] open@[j] == bars@[j].open,
            forall|j: int| 0 <= j < i ==> #[trigger] high@[j] == bars@[j].high,
            forall|j: int| 0 <= j < i ==> #[trigger] low@[j] == bars@[j].low,
            forall|j: int| 0 <= j < i ==> #[trigger] close@[j] == bars@[j].close,
            forall|j: int| 0 <= j < i ==> #[trigger] volume@[j] == bars@[j].volume,
        decreases n - i,
    {
        let b = &bars[i];
        timestamp.push(b.ts_event.checked_div(1_000_000).unwrap());
        open.push(b.open);
        high.push(b.high);
        low.push(b.low);
        close.push(b.close);
        volume.push(b.volume);
        i += 1;
    }
    OhlcvTable { timestamp, open, high, low, close, volume }
}

/// Computes a row's bucket label on machine integers.
fn label_of(ts: i64) -> (r: i64)
    requires
        TS_MIN_MS <= ts <= TS_MAX_MS,
    ensures
        r == bucket_label(ts as int),
{
    proof {
        crate::lemma_div_floor_in_range(ts as int, BUCKET_MS as int);
        vstd::arithmetic::div_mod::lemma_fundamental_div_mod(ts as int, BUCKET_MS as int);
    }
    div_floor_i64(ts, BUCKET_MS) * BUCKET_MS
}

/// Aggregates a sorted millisecond table into five-minute OHCLV buckets:
/// one row per non-empty bucket, labeled with the bucket's left edge, with
/// open/high/low/close/volume equal to first/max/min/last/sum over the
/// bucket's member rows.  Fail-fast on malformed input, and each error
/// variant is returned exactly on the inputs it names.
#[verifier::rlimit(100)]
pub fn downsample_to_5min(t: &OhlcvTable) -> (r: Result<OhlcvTable, DataError>)
    ensures
        ({
            let ts = t.timestamp@;
            let ok_wf = t.wf();
            let ok_range = crate::all_in_range(ts, TS_MIN_MS as int, TS_MAX_MS as int);
            let ok_sorted = sorted_ts(ts);
            let ok_vols = vols_fit(ts, t.volume@);
            match r {
                Ok(out) => {
                    let sp = bucket_starts(ts);
                    &&& ok_wf && ok_range && ok_sorted && ok_vols
                    &&& out.wf()
                    &&& out.timestamp@.len() == sp.len()
                    &&& forall|j1: int, j2: int|
                        0 <= j1 < j2 < sp.len() ==> #[trigger] out.timestamp@[j1]
                            < #[trigger] out.timestamp@[j2]
                    &&& forall|j: int|
                        0 <= j < sp.len() ==> {
                            let s = sp[j];
                            let e = if j + 1 < sp.len() {
                                sp[j + 1]
                            } else {
                                ts.len() as int
                            };
                            &&& #[trigger] out.timestamp@[j] == bucket_label(ts[s] as int)
                            &&& out.open@[j] == t.open@[s]
                            &&& out.high@[j] == range_max(t.high@, s, e)
                            &&& out.low@[j] == range_min(t.low@, s, e)
                            &&& out.close@[j] == t.close@[e - 1]
                            &&& out.volume@[j] == range_vol(t.volume@, s, e)
                        }
                },
                Err(e) => match e {
                    DataError::LengthMismatch => !ok_wf,
                    DataError::TimestampOutOfRange => ok_wf && !ok_range,
                    DataError::NotSorted => ok_wf && ok_range && !ok_sorted,
                    DataError::ValueOutOfBounds => ok_wf && ok_range && ok_sorted && !ok_vols,
                    DataError::UnresolvedAnchor => false,
                },
            }
        }),
{
    let ghost ts = t.timestamp@;
    if !t.check_wf() {
        return Err(DataError::LengthMismatch);
    }
    if !check_in_range(&t.timestamp, TS_MIN_MS, TS_MAX_MS) {
        return Err(DataError::TimestampOutOfRange);
    }
    if !check_sorted(&t.timestamp) {
        return Err(DataError::NotSorted);
    }
    let n = t.timestamp.len();
    let mut ots: Vec<i64> = Vec::new();
    let mut oo: Vec<i64> = Vec::new();
    let mut oh: Vec<i64> = Vec::new();
    let mut ol: Vec<i64> = Vec::new();
    let mut oc: Vec<i64> = Vec::new();
    let mut ov: Vec<u64> = Vec::new();
    if n == 0 {
        return Ok(OhlcvTable {
            timestamp: ots,
            open: oo,
            high: oh,
            low: ol,
            close: oc,
            volume: ov,
        });
    }
    let mut cur_label = label_of(t.timestamp[0]);
    let ghost mut cur_start: int = 0;
    let mut o = t.open[0];
    let mut h = t.high[0];
    let mut l = t.low[0];
    let mut c = t.close[0];
    let mut v = t.volume[0];
    proof {
        assert(bucket_starts(ts.take(1)) =~= seq![0int]) by {
            lemma_bucket_starts_step(ts, 0);
            assert(bucket_starts(ts.take(0)) =~= Seq::<int>::empty());
        }
        assert(range_vol(t.volume@, 0, 0) == 0);
        assert(range_vol(t.volume@, 0, 1) == t.volume@[0]);
    }
    let mut i: usize = 1;
    while i < n
        invariant
            n == ts.len(),
            ts == t.timestamp@,
            t.wf(),
            crate::all_in_range(ts, TS_MIN_MS as int, TS_MAX_MS as int),
            sorted_ts(ts),
            1 <= i <= n,
            0 <= cur_start < i,
            cur_start == (i - 1) - bucket_pos(ts, i - 1),
            cur_label == bucket_label(ts[cur_start] as int),
            forall|k: int|
                cur_start <= k < i ==> bucket_label(#[trigger] ts[k] as int) == cur_label,
            o == t.open@[cur_start],
            c == t.close@[i - 1],
            h == range_max(t.high@, cur_start, i as int),
            l == range_min(t.low@, cur_start, i as int),
            v == range_vol(t.volume@, cur_start, i as int),
            ({
                let sp = bucket_starts(ts.take(i as int));
                &&& sp.len() >= 1
                &&& sp.last() == cur_start
                &&& ots@.len() == sp.len() - 1
                &&& oo@.len() == sp.len() - 1
                &&& oh@.len() == sp.len() - 1
                &&& ol@.len() == sp.len() - 1
                &&& oc@.len() == sp.len() - 1
                &&& ov@.len() == sp.len() - 1
                &&& forall|j: int|
                    0 <= j < sp.len() - 1 ==> {
                        let s = sp[j];
                        let e = sp[j + 1];
                        &&& #[trigger] ots@[j] == bucket_label(ts[s] as int)
                        &&& oo@[j] == t.open@[s]
                        &&& oh@[j] == range_max(t.high@, s, e)
                        &&& ol@[j] == range_min(t.low@, s, e)
                        &&& oc@[j] == t.close@[e - 1]
                        &&& ov@[j] == range_vol(t.volume@, s, e)
                    }
            }),
            forall|k: int|
                0 <= k < i ==> range_vol(t.volume@, k - bucket_pos(ts, k), k + 1) <= u64::MAX as int,
            forall|j: int| 0 <= j < ots@.len() ==> #[trigger] ots@[j] < cur_label,
            forall|j1: int, j2: int|
                0 <= j1 < j2 < ots@.len() ==> #[trigger] ots@[j1] < #[trigger] ots@[j2],
        decreases n - i,
    {
        let ghost sp = bucket_starts(ts.take(i as int));
        let li = label_of(t.timestamp[i]);
        proof {
            lemma_bucket_starts_step(ts, i as int);
        }
        if li != cur_label {
            proof {
                assert(bucket_label(ts[i - 1] as int) == cur_label);
                lemma_label_monotone(ts[i - 1] as int, ts[i as int] as int);
                assert(is_bucket_start(ts, i as int));
                assert(bucket_pos(ts, i as int) == 0);
                assert(range_vol(t.volume@, i as int, i as int) == 0);
                assert(range_vol(t.volume@, i as int, i + 1) == t.volume@[i as int]);
            }
            let ghost old_start = cur_start;
            let ghost ots0 = ots@;
            let ghost oo0 = oo@;
            let ghost oh0 = oh@;
            let ghost ol0 = ol@;
            let ghost oc0 = oc@;
            let ghost ov0 = ov@;
            ots.push(cur_label);
            oo.push(o);
            oh.push(h);
            ol.push(l);
            oc.push(c);
            ov.push(v);
            cur_label = li;
            o = t.open[i];
            h = t.high[i];
            l = t.low[i];
            c = t.close[i];
            v = t.volume[i];
            proof {
                cur_start = i as int;
                let spp = bucket_starts(ts.take(i + 1));
                assert(spp == sp.push(i as int));
                assert(sp.last() == old_start);
                assert forall|j: int| 0 <= j < spp.len() - 1 implies ({
                    let s = spp[j];
                    let e = spp[j + 1];
                    &&& #[trigger] ots@[j] == bucket_label(ts[s] as int)
                    &&& oo@[j] == t.open@[s]
                    &&& oh@[j] == range_max(t.high@, s, e)
                    &&& ol@[j] == range_min(t.low@, s, e)
                    &&& oc@[j] == t.close@[e - 1]
                    &&& ov@[j] == range_vol(t.volume@, s, e)
                }) by {
                    if j < spp.len() - 2 {
                        assert(spp[j] == sp[j]);
                        assert(spp[j + 1] == sp[j + 1]);
                        assert(ots@[j] == ots0[j] && oo@[j] == oo0[j] && oh@[j] == oh0[j]
                            && ol@[j] == ol0[j] && oc@[j] == oc0[j] && ov@[j] == ov0[j]);
                        assert(ots0[j] == bucket_label(ts[sp[j]] as int));
                    } else {
                        assert(spp[j] == old_start);
                        assert(spp[j + 1] == i as int);
                        assert(j == ots0.len());
                    }
                }
            }
        } else {
            proof {
                assert(!is_bucket_start(ts, i as int));
                assert(bucket_pos(ts, i as int) == bucket_pos(ts, i - 1) + 1);
                assert(range_max(t.high@, cur_start, i + 1) == if t.high@[i as int] as int
                    > range_max(t.high@, cur_start, i as int) {
                    t.high@[i as int] as int
                } else {
                    range_max(t.high@, cur_start, i as int)
                });
                assert(range_min(t.low@, cur_start, i + 1) == if (t.low@[i as int] as int)
                    < range_min(t.low@, cur_start, i as int) {
                    t.low@[i as int] as int
                } else {
                    range_min(t.low@, cur_start, i as int)
                });
                assert(range_vol(t.volume@, cur_start, i + 1) == range_vol(
                    t.volume@,
                    cur_start,
                    i as int,
                ) + t.volume@[i as int]);
            }
            if t.high[i] > h {
                h = t.high[i];
            }
            if t.low[i] < l {
                l = t.low[i];
            }
            c = t.close[i];
            match v.checked_add(t.volume[i]) {
                Option::Some(nv) => {
                    v = nv;
                },
                Option::None => {
                    proof {
                        assert(!vols_fit(ts, t.volume@)) by {
                            assert(range_vol(t.volume@, i - bucket_pos(ts, i as int), i + 1)
                                > u64::MAX as int);
                        }
                    }
                    return Err(DataError::ValueOutOfBounds);
                },
            }
        }
        i += 1;
    }
    proof {
        assert(ts.take(n as int) =~= ts);
    }
    ots.push(cur_label);
    oo.push(o);
    oh.push(h);
    ol.push(l);
    oc.push(c);
    ov.push(v);
    Ok(OhlcvTable { timestamp: ots, open: oo, high: oh, low: ol, close: oc, volume: ov })
}

} // verus!
