//! The time-series tables the pipeline works on: raw OHLCV buckets, the
//! indicator-enriched table, and the stitched continuous table with its
//! provenance column.  A table is a fixed set of named columns, all of the
//! same length, addressed by a zero-based row index.

use vstd::prelude::*;
use crate::DataError;

verus! {

/// Timestamps are non-decreasing across rows.
pub open spec fn sorted_ts(ts: Seq<i64>) -> bool {
    forall|i: int, j: int| 0 <= i <= j < ts.len() ==> ts[i] <= ts[j]
}

/// All elements are at most `hi`.
pub open spec fn all_at_most_u64(v: Seq<u64>, hi: int) -> bool {
    forall|j: int| 0 <= j < v.len() ==> #[trigger] v[j] <= hi
}

/// Scans a timestamp column for sortedness.
pub fn check_sorted(ts: &Vec<i64>) -> (r: bool)
    ensures
        r == sorted_ts(ts@),
{
    let n = ts.len();
    let mut i: usize = 1;
    while i < n
        invariant
            n == ts@.len(),
            1 <= i || n == 0,
            i <= n || n == 0,
            sorted_ts(ts@.take(i as int)) || n == 0,
        decreases n - i,
    {
        if ts[i - 1] > ts[i] {
            proof {
                assert(!sorted_ts(ts@)) by {
                    assert(ts@[i - 1] > ts@[i as int]);
                }
            }
            return false;
        }
        proof {
            let k = i as int;
            assert forall|a: int, b: int| 0 <= a <= b < k + 1 implies #[trigger] ts@.take(k + 1)[a]
                <= #[trigger] ts@.take(k + 1)[b] by {
                if b < k {
                    assert(ts@.take(k)[a] <= ts@.take(k)[b]);
                } else if a < k {
                    assert(ts@.take(k)[a] <= ts@.take(k)[k - 1]);
                }
            }
        }
        i += 1;
    }
    proof {
        if n > 0 {
            assert(ts@.take(n as int) =~= ts@);
        }
    }
    true
}

/// Scans a column for membership in `[lo, hi]`.
pub fn check_in_range(v: &Vec<i64>, lo: i64, hi: i64) -> (r: bool)
    ensures
        r == crate::all_in_range(v@, lo as int, hi as int),
{
    let n = v.len();
    let mut i: usize = 0;
    while i < n
        invariant
            n == v@.len(),
            i <= n,
            forall|j: int| 0 <= j < i ==> lo as int <= #[trigger] v@[j] <= hi as int,
        decreases n - i,
    {
        if v[i] < lo || v[i] > hi {
            return false;
        }
        i += 1;
    }
    true
}

/// Scans an unsigned column for an upper bound.
pub fn check_at_most(v: &Vec<u64>, hi: u64) -> (r: bool)
    ensures
        r == all_at_most_u64(v@, hi as int),
{
    let n = v.len();
    let mut i: usize = 0;
    while i < n
        invariant
            n == v@.len(),
            i <= n,
            forall|j: int| 0 <= j < i ==> #[trigger] v@[j] <= hi,
        decreases n - i,
    {
        if v[i] > hi {
            return false;
        }
        i += 1;
    }
    true
}

/// A bucketed OHLCV table: one row per bucket, fixed-point prices scaled by
/// `PRICE_SCALE`, timestamps in epoch milliseconds.
#[derive(Debug, Clone)]
pub struct OhlcvTable {
    pub timestamp: Vec<i64>,
    pub open: Vec<i64>,
    pub high: Vec<i64>,
    pub low: Vec<i64>,
    pub close: Vec<i64>,
    pub volume: Vec<u64>,
}

impl OhlcvTable {
    /// All columns have the same length as the timestamp column.
    pub open spec fn wf(&self) -> bool {
        &&& self.open@.len() == self.timestamp@.len()
        &&& self.high@.len() == self.timestamp@.len()
        &&& self.low@.len() == self.timestamp@.len()
        &&& self.close@.len() == self.timestamp@.len()
        &&& self.volume@.len() == self.timestamp@.len()
    }

    /// Builds a table from its columns, rejecting a length mismatch.
    pub fn new(
        timestamp: Vec<i64>,
        open: Vec<i64>,
        high: Vec<i64>,
        low: Vec<i64>,
        close: Vec<i64>,
        volume: Vec<u64>,
    ) -> (r: Result<OhlcvTable, DataError>)
        ensures
            match r {
                Ok(t) => {
                    &&& t.wf()
                    &&& t.timestamp == timestamp
                    &&& t.open == open
                    &&& t.high == high
                    &&& t.low == low
                    &&& t.close == close
                    &&& t.volume == volume
                },
                Err(e) => {
                    &&& e == DataError::LengthMismatch
                    &&& !(open@.len() == timestamp@.len() && high@.len() == timestamp@.len()
                        && low@.len() == timestamp@.len() && close@.len() == timestamp@.len()
                        && volume@.len() == timestamp@.len())
                },
            },
    {
        let n = timestamp.len();
        if open.len() != n || high.len() != n || low.len() != n || close.len() != n
            || volume.len() != n {
            return Err(DataError::LengthMismatch);
        }
        Ok(OhlcvTable { timestamp, open, high, low, close, volume })
    }

    /// Checks well-formedness of a table whose columns were filled in
    /// directly.
    pub fn check_wf(&self) -> (r: bool)
        ensures
            r == self.wf(),
    {
        let n = self.timestamp.len();
        self.open.len() == n && self.high.len() == n && self.low.len() == n
            && self.close.len() == n && self.volume.len() == n
    }

    /// The number of rows.
    pub fn height(&self) -> (r: usize)
        ensures
            r == self.timestamp@.len(),
    {
        self.timestamp.len()
    }
}

/// The same table after indicator enrichment: the input columns plus the
/// nine indicator columns.  Indicators that can be undefined on a row
/// (warm-ups, empty accumulations, rows outside a subsession) are optional
/// values; the others are total.
#[derive(Debug, Clone)]
pub struct EnrichedTable {
    pub base: OhlcvTable,
    pub vwap: Vec<Option<i64>>,
    pub vwapn: Vec<Option<i64>>,
    pub vwapd: Vec<Option<i64>>,
    pub ema_9: Vec<i64>,
    pub ema_14: Vec<i64>,
    pub ema_21: Vec<i64>,
    pub rsi_14_ema: Vec<i64>,
    pub rsi_14_wilder: Vec<Option<i64>>,
    pub atr_14: Vec<Option<i64>>,
}

impl EnrichedTable {
    /// All columns have the same length as the base table's rows.
    pub open spec fn wf(&self) -> bool {
        &&& self.base.wf()
        &&& self.vwap@.len() == self.base.timestamp@.len()
        &&& self.vwapn@.len() == self.base.timestamp@.len()
        &&& self.vwapd@.len() == self.base.timestamp@.len()
        &&& self.ema_9@.len() == self.base.timestamp@.len()
        &&& self.ema_14@.len() == self.base.timestamp@.len()
        &&& self.ema_21@.len() == self.base.timestamp@.len()
        &&& self.rsi_14_ema@.len() == self.base.timestamp@.len()
        &&& self.rsi_14_wilder@.len() == self.base.timestamp@.len()
        &&& self.atr_14@.len() == self.base.timestamp@.len()
    }

    /// Checks well-formedness of a table whose columns were filled in
    /// directly.
    pub fn check_wf(&self) -> (r: bool)
        ensures
            r == self.wf(),
    {
        let n = self.base.timestamp.len();
        self.base.check_wf() && self.vwap.len() == n && self.vwapn.len() == n
            && self.vwapd.len() == n && self.ema_9.len() == n && self.ema_14.len() == n
            && self.ema_21.len() == n && self.rsi_14_ema.len() == n
            && self.rsi_14_wilder.len() == n && self.atr_14.len() == n
    }

    /// The number of rows.
    pub fn height(&self) -> (r: usize)
        ensures
            r == self.base.timestamp@.len(),
    {
        self.base.timestamp.len()
    }
}

/// The continuous output table: enriched columns plus the per-row
/// "contract" provenance column naming the window each row came from.
#[derive(Debug, Clone)]
pub struct StitchedTable {
    pub table: EnrichedTable,
    pub contract: Vec<String>,
}

impl StitchedTable {
    /// The provenance column has the same length as the rest of the table.
    pub open spec fn wf(&self) -> bool {
        &&& self.table.wf()
        &&& self.contract@.len() == self.table.base.timestamp@.len()
    }

    /// The number of rows.
    pub fn height(&self) -> (r: usize)
        ensures
            r == self.table.base.timestamp@.len(),
    {
        self.table.base.timestamp.len()
    }
}

} // verus!
