//! The stitcher: truncates each contract's enriched table to its assigned
//! rollover window and concatenates the truncated windows in the order they
//! are supplied, tagging every surviving row with its contract's name.
//! Supplying the windows in chronological, non-overlapping order is the
//! caller's documented responsibility; the stitcher concatenates in the
//! order given and neither sorts nor validates overlap.

use vstd::prelude::*;
use crate::DataError;
use crate::table::{EnrichedTable, OhlcvTable, StitchedTable};

verus! {

/// A contract's enriched table with its assigned window: rows with
/// `start_ts <= timestamp < end_ts` are the contract's authoritative slice
/// of the continuous series.
#[derive(Debug, Clone)]
pub struct ContractWindow {
    pub name: String,
    pub table: EnrichedTable,
    pub start_ts: i64,
    pub end_ts: i64,
}

/// The mathematical image of a stitched table: one sequence per column.
pub ghost struct StitchedView {
    pub timestamp: Seq<i64>,
    pub open: Seq<i64>,
    pub high: Seq<i64>,
    pub low: Seq<i64>,
    pub close: Seq<i64>,
    pub volume: Seq<u64>,
    pub vwap: Seq<Option<i64>>,
    pub vwapn: Seq<Option<i64>>,
    pub vwapd: Seq<Option<i64>>,
    pub ema_9: Seq<i64>,
    pub ema_14: Seq<i64>,
    pub ema_21: Seq<i64>,
    pub rsi_14_ema: Seq<i64>,
    pub rsi_14_wilder: Seq<Option<i64>>,
    pub atr_14: Seq<Option<i64>>,
    pub contract: Seq<Seq<char>>,
}

/// The image of a concrete stitched table.
pub open spec fn view_of(t: StitchedTable) -> StitchedView {
    StitchedView {
        timestamp: t.table.base.timestamp@,
        open: t.table.base.open@,
        high: t.table.base.high@,
        low: t.table.base.low@,
        close: t.table.base.close@,
        volume: t.table.base.volume@,
        vwap: t.table.vwap@,
        vwapn: t.table.vwapn@,
        vwapd: t.table.vwapd@,
        ema_9: t.table.ema_9@,
        ema_14: t.table.ema_14@,
        ema_21: t.table.ema_21@,
        rsi_14_ema: t.table.rsi_14_ema@,
        rsi_14_wilder: t.table.rsi_14_wilder@,
        atr_14: t.table.atr_14@,
        contract: t.contract@.map_values(|s: String| s@),
    }
}

/// Keeps the elements of `col` whose row timestamp lies in `[lo, hi)`,
/// preserving order (`col` and `ts` run in parallel).
pub open spec fn filter_col<A>(col: Seq<A>, ts: Seq<i64>, lo: int, hi: int) -> Seq<A>
    recommends
        col.len() == ts.len(),
    decreases col.len(),
{
    if col.len() == 0 {
        Seq::empty()
    } else {
        let pre = filter_col(col.drop_last(), ts.drop_last(), lo, hi);
        if lo <= ts[col.len() - 1] < hi {
            pre.push(col.last())
        } else {
            pre
        }
    }
}

/// The image of one truncated window: every column filtered by the window's
/// time range, and a constant contract column carrying the window's name.
pub open spec fn truncate_view(w: ContractWindow) -> StitchedView {
    let ts = w.table.base.timestamp@;
    let lo = w.start_ts as int;
    let hi = w.end_ts as int;
    StitchedView {
        timestamp: filter_col(ts, ts, lo, hi),
        open: filter_col(w.table.base.open@, ts, lo, hi),
        high: filter_col(w.table.base.high@, ts, lo, hi),
        low: filter_col(w.table.base.low@, ts, lo, hi),
        close: filter_col(w.table.base.close@, ts, lo, hi),
        volume: filter_col(w.table.base.volume@, ts, lo, hi),
        vwap: filter_col(w.table.vwap@, ts, lo, hi),
        vwapn: filter_col(w.table.vwapn@, ts, lo, hi),
        vwapd: filter_col(w.table.vwapd@, ts, lo, hi),
        ema_9: filter_col(w.table.ema_9@, ts, lo, hi),
        ema_14: filter_col(w.table.ema_14@, ts, lo, hi),
        ema_21: filter_col(w.table.ema_21@, ts, lo, hi),
        rsi_14_ema: filter_col(w.table.rsi_14_ema@, ts, lo, hi),
        rsi_14_wilder: filter_col(w.table.rsi_14_wilder@, ts, lo, hi),
        atr_14: filter_col(w.table.atr_14@, ts, lo, hi),
        contract: Seq::new(filter_col(ts, ts, lo, hi).len(), |i: int| w.name@),
    }
}

/// The empty image.
pub open spec fn empty_view() -> StitchedView {
    StitchedView {
        timestamp: Seq::empty(),
        open: Seq::empty(),
        high: Seq::empty(),
        low: Seq::empty(),
        close: Seq::empty(),
        volume: Seq::empty(),
        vwap: Seq::empty(),
        vwapn: Seq::empty(),
        vwapd: Seq::empty(),
        ema_9: Seq::empty(),
        ema_14: Seq::empty(),
        ema_21: Seq::empty(),
        rsi_14_ema: Seq::empty(),
        rsi_14_wilder: Seq::empty(),
        atr_14: Seq::empty(),
        contract: Seq::empty(),
    }
}

/// Columnwise concatenation of two images.
pub open spec fn append_view(a: StitchedView, b: StitchedView) -> StitchedView {
    StitchedView {
        timestamp: a.timestamp + b.timestamp,
        open: a.open + b.open,
        high: a.high + b.high,
        low: a.low + b.low,
        close: a.close + b.close,
        volume: a.volume + b.volume,
        vwap: a.vwap + b.vwap,
        vwapn: a.vwapn + b.vwapn,
        vwapd: a.vwapd + b.vwapd,
        ema_9: a.ema_9 + b.ema_9,
        ema_14: a.ema_14 + b.ema_14,
        ema_21: a.ema_21 + b.ema_21,
        rsi_14_ema: a.rsi_14_ema + b.rsi_14_ema,
        rsi_14_wilder: a.rsi_14_wilder + b.rsi_14_wilder,
        atr_14: a.atr_14 + b.atr_14,
        contract: a.contract + b.contract,
    }
}

/// The image of the whole stitch: the truncated windows concatenated in
/// the order supplied.
pub open spec fn stitch_view(ws: Seq<ContractWindow>) -> StitchedView
    decreases ws.len(),
{
    if ws.len() == 0 {
        empty_view()
    } else {
        append_view(stitch_view(ws.drop_last()), truncate_view(ws.last()))
    }
}

/// The number of rows each window contributes after truncation, summed.
pub open spec fn total_filtered(ws: Seq<ContractWindow>) -> int
    decreases ws.len(),
{
    if ws.len() == 0 {
        0
    } else {
        total_filtered(ws.drop_last()) + truncate_view(ws.last()).timestamp.len()
    }
}

/// Every column of a stitched image has the summed filtered length.
pub proof fn lemma_stitch_wf(ws: Seq<ContractWindow>)
    requires
        forall|x: int| 0 <= x < ws.len() ==> (#[trigger] ws[x]).table.wf(),
    ensures
        stitch_view(ws).timestamp.len() == total_filtered(ws),
        stitch_view(ws).open.len() == total_filtered(ws),
        stitch_view(ws).high.len() == total_filtered(ws),
        stitch_view(ws).low.len() == total_filtered(ws),
        stitch_view(ws).close.len() == total_filtered(ws),
        stitch_view(ws).volume.len() == total_filtered(ws),
        stitch_view(ws).vwap.len() == total_filtered(ws),
        stitch_view(ws).vwapn.len() == total_filtered(ws),
        stitch_view(ws).vwapd.len() == total_filtered(ws),
        stitch_view(ws).ema_9.len() == total_filtered(ws),
        stitch_view(ws).ema_14.len() == total_filtered(ws),
        stitch_view(ws).ema_21.len() == total_filtered(ws),
        stitch_view(ws).rsi_14_ema.len() == total_filtered(ws),
        stitch_view(ws).rsi_14_wilder.len() == total_filtered(ws),
        stitch_view(ws).atr_14.len() == total_filtered(ws),
        stitch_view(ws).contract.len() == total_filtered(ws),
    decreases ws.len(),
{
    if ws.len() == 0 {
    } else {
        assert(forall|x: int|
            0 <= x < ws.drop_last().len() ==> (#[trigger] ws.drop_last()[x]).table.wf());
        lemma_stitch_wf(ws.drop_last());
        lemma_truncate_wf(ws.last());
    }
}

/// Every column of one truncated image has that window's filtered length.
pub proof fn lemma_truncate_wf(w: ContractWindow)
    requires
        w.table.wf(),
    ensures
        truncate_view(w).open.len() == truncate_view(w).timestamp.len(),
        truncate_view(w).high.len() == truncate_view(w).timestamp.len(),
        truncate_view(w).low.len() == truncate_view(w).timestamp.len(),
        truncate_view(w).close.len() == truncate_view(w).timestamp.len(),
        truncate_view(w).volume.len() == truncate_view(w).timestamp.len(),
        truncate_view(w).vwap.len() == truncate_view(w).timestamp.len(),
        truncate_view(w).vwapn.len() == truncate_view(w).timestamp.len(),
        truncate_view(w).vwapd.len() == truncate_view(w).timestamp.len(),
        truncate_view(w).ema_9.len() == truncate_view(w).timestamp.len(),
        truncate_view(w).ema_14.len() == truncate_view(w).timestamp.len(),
        truncate_view(w).ema_21.len() == truncate_view(w).timestamp.len(),
        truncate_view(w).rsi_14_ema.len() == truncate_view(w).timestamp.len(),
        truncate_view(w).rsi_14_wilder.len() == truncate_view(w).timestamp.len(),
        truncate_view(w).atr_14.len() == truncate_view(w).timestamp.len(),
        truncate_view(w).contract.len() == truncate_view(w).timestamp.len(),
{
    let ts = w.table.base.timestamp@;
    let lo = w.start_ts as int;
    let hi = w.end_ts as int;
    lemma_filter_col_len(w.table.base.open@, ts, lo, hi);
    lemma_filter_col_len(w.table.base.high@, ts, lo, hi);
    lemma_filter_col_len(w.table.base.low@, ts, lo, hi);
    lemma_filter_col_len(w.table.base.close@, ts, lo, hi);
    lemma_filter_col_len(w.table.base.volume@, ts, lo, hi);
    lemma_filter_col_len(w.table.vwap@, ts, lo, hi);
    lemma_filter_col_len(w.table.vwapn@, ts, lo, hi);
    lemma_filter_col_len(w.table.vwapd@, ts, lo, hi);
    lemma_filter_col_len(w.table.ema_9@, ts, lo, hi);
    lemma_filter_col_len(w.table.ema_14@, ts, lo, hi);
    lemma_filter_col_len(w.table.ema_21@, ts, lo, hi);
    lemma_filter_col_len(w.table.rsi_14_ema@, ts, lo, hi);
    lemma_filter_col_len(w.table.rsi_14_wilder@, ts, lo, hi);
    lemma_filter_col_len(w.table.atr_14@, ts, lo, hi);
}

/// Two parallel columns filter to the same length.
proof fn lemma_filter_col_len<A>(col: Seq<A>, ts: Seq<i64>, lo: int, hi: int)
    requires
        col.len() == ts.len(),
    ensures
        filter_col(col, ts, lo, hi).len() == filter_col(ts, ts, lo, hi).len(),
    decreases col.len(),
{
    if col.len() != 0 {
        lemma_filter_col_len(col.drop_last(), ts.drop_last(), lo, hi);
        assert(ts.drop_last().drop_last() =~= ts.drop_last().drop_last());
    }
}

/// Law: the stitched table's row count equals the sum of each window's
/// post-truncation row count, for windows supplied in any order.
pub proof fn lemma_stitch_counts(ws: Seq<ContractWindow>)
    requires
        forall|x: int| 0 <= x < ws.len() ==> (#[trigger] ws[x]).table.wf(),
    ensures
        stitch_view(ws).timestamp.len() == total_filtered(ws),
{
    lemma_stitch_wf(ws);
}

/// Appending one window adds its filtered rows after the accumulated rows.
proof fn lemma_stitch_view_step(ws: Seq<ContractWindow>, k: int)
    requires
        0 <= k < ws.len(),
    ensures
        stitch_view(ws.take(k + 1)) == append_view(stitch_view(ws.take(k)), truncate_view(ws[k])),
        total_filtered(ws.take(k + 1)) == total_filtered(ws.take(k)) + truncate_view(
            ws[k],
        ).timestamp.len(),
{
    assert(ws.take(k + 1).drop_last() =~= ws.take(k));
    assert(ws.take(k + 1).last() == ws[k]);
}

/// Law: every stitched row's "contract" value equals the name of the
/// window the row came from: the rows of window `j` occupy the block that
/// starts at the sum of the earlier windows' filtered counts.
pub proof fn lemma_stitch_provenance(ws: Seq<ContractWindow>, j: int, k: int)
    requires
        0 <= j < ws.len(),
        0 <= k < truncate_view(ws[j]).timestamp.len(),
        forall|x: int| 0 <= x < ws.len() ==> (#[trigger] ws[x]).table.wf(),
    ensures
        0 <= total_filtered(ws.take(j)) + k < stitch_view(ws).contract.len(),
        stitch_view(ws).contract[total_filtered(ws.take(j)) + k] == ws[j].name@,
    decreases ws.len(),
{
    lemma_stitch_wf(ws);
    let last = (ws.len() - 1) as int;
    assert(ws.take(ws.len() as int) =~= ws);
    lemma_stitch_view_step(ws, last);
    if j == last {
        lemma_stitch_wf(ws.take(last));
        lemma_truncate_wf(ws[j]);
    } else {
        assert(ws.drop_last() =~= ws.take(last));
        assert(ws.take(last).take(j) =~= ws.take(j));
        assert(ws.take(last)[j] == ws[j]);
        assert(forall|x: int|
            0 <= x < ws.take(last).len() ==> (#[trigger] ws.take(last)[x]).table.wf());
        lemma_stitch_provenance(ws.take(last), j, k);
        lemma_stitch_wf(ws.take(last));
    }
}

/// Truncates one contract's table to its window: keeps exactly the rows
/// with `start_ts <= timestamp < end_ts` and appends the constant
/// "contract" name column.
pub fn truncate_contract(contract: &ContractWindow) -> (r: Result<StitchedTable, DataError>)
    ensures
        match r {
            Ok(out) => {
                &&& contract.table.wf()
                &&& out.wf()
                &&& view_of(out) == truncate_view(*contract)
            },
            Err(e) => {
                &&& e == DataError::LengthMismatch
                &&& !contract.table.wf()
            },
        },
{
    if !contract.table.check_wf() {
        return Err(DataError::LengthMismatch);
    }
    let n = contract.table.base.timestamp.len();
    let ghost ts = contract.table.base.timestamp@;
    let ghost lo = contract.start_ts as int;
    let ghost hi = contract.end_ts as int;
    let mut rts: Vec<i64> = Vec::new();
    let mut ropen: Vec<i64> = Vec::new();
    let mut rhigh: Vec<i64> = Vec::new();
    let mut rlow: Vec<i64> = Vec::new();
    let mut rclose: Vec<i64> = Vec::new();
    let mut rvolume: Vec<u64> = Vec::new();
    let mut rvwap: Vec<Option<i64>> = Vec::new();
    let mut rvwapn: Vec<Option<i64>> = Vec::new();
    let mut rvwapd: Vec<Option<i64>> = Vec::new();
    let mut rema_9: Vec<i64> = Vec::new();
    let mut rema_14: Vec<i64> = Vec::new();
    let mut rema_21: Vec<i64> = Vec::new();
    let mut rrsi_e: Vec<i64> = Vec::new();
    let mut rrsi_w: Vec<Option<i64>> = Vec::new();
    let mut ratr: Vec<Option<i64>> = Vec::new();
    let mut rname: Vec<String> = Vec::new();
    let mut i: usize = 0;
    while i < n
        invariant
            contract.table.wf(),
            n == ts.len(),
            ts == contract.table.base.timestamp@,
            lo == contract.start_ts as int,
            hi == contract.end_ts as int,
            i <= n,
            rts@ == filter_col(ts.take(i as int), ts.take(i as int), lo, hi),
            ropen@ == filter_col(contract.table.base.open@.take(i as int), ts.take(i as int), lo, hi),
            rhigh@ == filter_col(contract.table.base.high@.take(i as int), ts.take(i as int), lo, hi),
            rlow@ == filter_col(contract.table.base.low@.take(i as int), ts.take(i as int), lo, hi),
            rclose@ == filter_col(contract.table.base.close@.take(i as int), ts.take(i as int), lo, hi),
            rvolume@ == filter_col(contract.table.base.volume@.take(i as int), ts.take(i as int), lo, hi),
            rvwap@ == filter_col(contract.table.vwap@.take(i as int), ts.take(i as int), lo, hi),
            rvwapn@ == filter_col(contract.table.vwapn@.take(i as int), ts.take(i as int), lo, hi),
            rvwapd@ == filter_col(contract.table.vwapd@.take(i as int), ts.take(i as int), lo, hi),
            rema_9@ == filter_col(contract.table.ema_9@.take(i as int), ts.take(i as int), lo, hi),
            rema_14@ == filter_col(contract.table.ema_14@.take(i as int), ts.take(i as int), lo, hi),
            rema_21@ == filter_col(contract.table.ema_21@.take(i as int), ts.take(i as int), lo, hi),
            rrsi_e@ == filter_col(contract.table.rsi_14_ema@.take(i as int), ts.take(i as int), lo, hi),
            rrsi_w@ == filter_col(contract.table.rsi_14_wilder@.take(i as int), ts.take(i as int), lo, hi),
            ratr@ == filter_col(contract.table.atr_14@.take(i as int), ts.take(i as int), lo, hi),
            rname@.len() == rts@.len(),
            forall|x: int| 0 <= x < rname@.len() ==> (#[trigger] rname@[x])@ == contract.name@,
        decreases n - i,
    {
        proof {
            lemma_filter_take_step(ts, ts, i as int, lo, hi);
            lemma_filter_take_step(contract.table.base.open@, ts, i as int, lo, hi);
            lemma_filter_take_step(contract.table.base.high@, ts, i as int, lo, hi);
            lemma_filter_take_step(contract.table.base.low@, ts, i as int, lo, hi);
            lemma_filter_take_step(contract.table.base.close@, ts, i as int, lo, hi);
            lemma_filter_take_step(contract.table.base.volume@, ts, i as int, lo, hi);
            lemma_filter_take_step(contract.table.vwap@, ts, i as int, lo, hi);
            lemma_filter_take_step(contract.table.vwapn@, ts, i as int, lo, hi);
            lemma_filter_take_step(contract.table.vwapd@, ts, i as int, lo, hi);
            lemma_filter_take_step(contract.table.ema_9@, ts, i as int, lo, hi);
            lemma_filter_take_step(contract.table.ema_14@, ts, i as int, lo, hi);
            lemma_filter_take_step(contract.table.ema_21@, ts, i as int, lo, hi);
            lemma_filter_take_step(contract.table.rsi_14_ema@, ts, i as int, lo, hi);
            lemma_filter_take_step(contract.table.rsi_14_wilder@, ts, i as int, lo, hi);
            lemma_filter_take_step(contract.table.atr_14@, ts, i as int, lo, hi);
        }
        let t = contract.table.base.timestamp[i];
        if contract.start_ts <= t && t < contract.end_ts {
            rts.push(t);
            ropen.push(contract.table.base.open[i]);
            rhigh.push(contract.table.base.high[i]);
            rlow.push(contract.table.base.low[i]);
            rclose.push(contract.table.base.close[i]);
            rvolume.push(contract.table.base.volume[i]);
            rvwap.push(contract.table.vwap[i]);
            rvwapn.push(contract.table.vwapn[i]);
            rvwapd.push(contract.table.vwapd[i]);
            rema_9.push(contract.table.ema_9[i]);
            rema_14.push(contract.table.ema_14[i]);
            rema_21.push(contract.table.ema_21[i]);
            rrsi_e.push(contract.table.rsi_14_ema[i]);
            rrsi_w.push(contract.table.rsi_14_wilder[i]);
            ratr.push(contract.table.atr_14[i]);
            rname.push(contract.name.clone());
        }
        i += 1;
    }
    proof {
        lemma_take_all_cols(contract.table);
        assert(rname@.map_values(|s: String| s@) =~= Seq::new(
            filter_col(ts, ts, lo, hi).len(),
            |x: int| contract.name@,
        ));
    }
    let out = StitchedTable {
        table: EnrichedTable {
            base: OhlcvTable {
                timestamp: rts,
                open: ropen,
                high: rhigh,
                low: rlow,
                close: rclose,
                volume: rvolume,
            },
            vwap: rvwap,
            vwapn: rvwapn,
            vwapd: rvwapd,
            ema_9: rema_9,
            ema_14: rema_14,
            ema_21: rema_21,
            rsi_14_ema: rrsi_e,
            rsi_14_wilder: rrsi_w,
            atr_14: ratr,
        },
        contract: rname,
    };
    proof {
        lemma_truncate_wf(*contract);
    }
    Ok(out)
}

/// Extending the filtered prefix by one row keeps the element exactly when
/// its timestamp lies in the window.
proof fn lemma_filter_take_step<A>(col: Seq<A>, ts: Seq<i64>, k: int, lo: int, hi: int)
    requires
        0 <= k < ts.len(),
        col.len() == ts.len(),
    ensures
        filter_col(col.take(k + 1), ts.take(k + 1), lo, hi) == if lo <= ts[k] < hi {
            filter_col(col.take(k), ts.take(k), lo, hi).push(col[k])
        } else {
            filter_col(col.take(k), ts.take(k), lo, hi)
        },
{
    assert(col.take(k + 1).drop_last() =~= col.take(k));
    assert(ts.take(k + 1).drop_last() =~= ts.take(k));
    assert(col.take(k + 1).last() == col[k]);
    assert(ts.take(k + 1)[k] == ts[k]);
}

/// At the end of the pass the prefixes cover the whole table.
proof fn lemma_take_all_cols(t: EnrichedTable)
    requires
        t.wf(),
    ensures
        t.base.timestamp@.take(t.base.timestamp@.len() as int) == t.base.timestamp@,
        t.base.open@.take(t.base.timestamp@.len() as int) == t.base.open@,
        t.base.high@.take(t.base.timestamp@.len() as int) == t.base.high@,
        t.base.low@.take(t.base.timestamp@.len() as int) == t.base.low@,
        t.base.close@.take(t.base.timestamp@.len() as int) == t.base.close@,
        t.base.volume@.take(t.base.timestamp@.len() as int) == t.base.volume@,
        t.vwap@.take(t.base.timestamp@.len() as int) == t.vwap@,
        t.vwapn@.take(t.base.timestamp@.len() as int) == t.vwapn@,
        t.vwapd@.take(t.base.timestamp@.len() as int) == t.vwapd@,
        t.ema_9@.take(t.base.timestamp@.len() as int) == t.ema_9@,
        t.ema_14@.take(t.base.timestamp@.len() as int) == t.ema_14@,
        t.ema_21@.take(t.base.timestamp@.len() as int) == t.ema_21@,
        t.rsi_14_ema@.take(t.base.timestamp@.len() as int) == t.rsi_14_ema@,
        t.rsi_14_wilder@.take(t.base.timestamp@.len() as int) == t.rsi_14_wilder@,
        t.atr_14@.take(t.base.timestamp@.len() as int) == t.atr_14@,
{
    let n = t.base.timestamp@.len() as int;
    assert(t.base.timestamp@.take(n) =~= t.base.timestamp@);
    assert(t.base.open@.take(n) =~= t.base.open@);
    assert(t.base.high@.take(n) =~= t.base.high@);
    assert(t.base.low@.take(n) =~= t.base.low@);
    assert(t.base.close@.take(n) =~= t.base.close@);
    assert(t.base.volume@.take(n) =~= t.base.volume@);
    assert(t.vwap@.take(n) =~= t.vwap@);
    assert(t.vwapn@.take(n) =~= t.vwapn@);
    assert(t.vwapd@.take(n) =~= t.vwapd@);
    assert(t.ema_9@.take(n) =~= t.ema_9@);
    assert(t.ema_14@.take(n) =~= t.ema_14@);
    assert(t.ema_21@.take(n) =~= t.ema_21@);
    assert(t.rsi_14_ema@.take(n) =~= t.rsi_14_ema@);
    assert(t.rsi_14_wilder@.take(n) =~= t.rsi_14_wilder@);
    assert(t.atr_14@.take(n) =~= t.atr_14@);
}

/// Merges all contracts into one continuous table: truncates every window
/// and concatenates the results in the order the windows are supplied.
pub fn stitch_contracts(windows: &Vec<ContractWindow>) -> (r: Result<StitchedTable, DataError>)
    ensures
        match r {
            Ok(out) => {
                &&& out.wf()
                &&& view_of(out) == stitch_view(windows@)
                &&& forall|j: int| 0 <= j < windows@.len() ==> (#[trigger] windows@[j]).table.wf()
            },
            Err(e) => {
                &&& e == DataError::LengthMismatch
                &&& exists|j: int|
                    0 <= j < windows@.len() && !(#[trigger] windows@[j]).table.wf()
            },
        },
{
    let m = windows.len();
    let mut acc = StitchedTable {
        table: EnrichedTable {
            base: OhlcvTable {
                timestamp: Vec::new(),
                open: Vec::new(),
                high: Vec::new(),
                low: Vec::new(),
                close: Vec::new(),
                volume: Vec::new(),
            },
            vwap: Vec::new(),
            vwapn: Vec::new(),
            vwapd: Vec::new(),
            ema_9: Vec::new(),
            ema_14: Vec::new(),
            ema_21: Vec::new(),
            rsi_14_ema: Vec::new(),
            rsi_14_wilder: Vec::new(),
            atr_14: Vec::new(),
        },
        contract: Vec::new(),
    };
    let mut i: usize = 0;
    proof {
        assert(windows@.take(0) =~= Seq::<ContractWindow>::empty());
        assert(view_of(acc).contract =~= empty_view().contract);
    }
    while i < m
        invariant
            m == windows@.len(),
            i <= m,
            acc.wf(),
            view_of(acc) == stitch_view(windows@.take(i as int)),
            forall|j: int| 0 <= j < i ==> (#[trigger] windows@[j]).table.wf(),
        decreases m - i,
    {
        let part = match truncate_contract(&windows[i]) {
            Ok(p) => p,
            Err(e) => {
                return Err(e);
            },
        };
        proof {
            lemma_stitch_view_step(windows@, i as int);
        }
        let StitchedTable {
            table: EnrichedTable {
                base: OhlcvTable {
                    timestamp: mut pts,
                    open: mut popen,
                    high: mut phigh,
                    low: mut plow,
                    close: mut pclose,
                    volume: mut pvolume,
                },
                vwap: mut pvwap,
                vwapn: mut pvwapn,
                vwapd: mut pvwapd,
                ema_9: mut pema9,
                ema_14: mut pema14,
                ema_21: mut pema21,
                rsi_14_ema: mut prsie,
                rsi_14_wilder: mut prsiw,
                atr_14: mut patr,
            },
            contract: mut pname,
        } = part;
        acc.table.base.timestamp.append(&mut pts);
        acc.table.base.open.append(&mut popen);
        acc.table.base.high.append(&mut phigh);
        acc.table.base.low.append(&mut plow);
        acc.table.base.close.append(&mut pclose);
        acc.table.base.volume.append(&mut pvolume);
        acc.table.vwap.append(&mut pvwap);
        acc.table.vwapn.append(&mut pvwapn);
        acc.table.vwapd.append(&mut pvwapd);
        acc.table.ema_9.append(&mut pema9);
        acc.table.ema_14.append(&mut pema14);
        acc.table.ema_21.append(&mut pema21);
        acc.table.rsi_14_ema.append(&mut prsie);
        acc.table.rsi_14_wilder.append(&mut prsiw);
        acc.table.atr_14.append(&mut patr);
        acc.contract.append(&mut pname);
        proof {
            assert(view_of(acc).contract =~= stitch_view(windows@.take(i + 1)).contract);
        }
        i += 1;
    }
    proof {
        assert(windows@.take(m as int) =~= windows@);
    }
    Ok(acc)
}

/// The rollover windows of the contracts that make up the continuous
/// series: each contract's name with its authoritative time range in epoch
/// milliseconds, start inclusive and end exclusive, listed chronologically
/// with no two ranges overlapping.
pub fn rollover_windows() -> (r: Vec<(&'static str, i64, i64)>)
    ensures
        r@.len() == 4,
        r@[0].0@ == "2022-11-11_2022-12-20_CLF3_ohlcv1m"@ && r@[0].1 == 1668466800000i64
            && r@[0].2 == 1671055140000i64,
        r@[1].0@ == "2022-12-11_2023-01-20_CLG3_ohlcv1m"@ && r@[1].1 == 1671058800000i64
            && r@[1].2 == 1673992740000i64,
        r@[2].0@ == "2023-01-13_2023-02-21_CLH3_ohlcv1m"@ && r@[2].1 == 1673996400000i64
            && r@[2].2 == 1676411940000i64,
        r@[3].0@ == "2023-02-10_2023-03-21_CLJ3_ohlcv1m"@ && r@[3].1 == 1676415600000i64
            && r@[3].2 == 1678827540000i64,
        forall|j: int| 0 <= j < 4 ==> #[trigger] r@[j].1 < r@[j].2,
        forall|j: int| 0 <= j < 3 ==> #[trigger] r@[j].2 <= r@[j + 1].1,
{
    let mut r: Vec<(&'static str, i64, i64)> = Vec::new();
    r.push(("2022-11-11_2022-12-20_CLF3_ohlcv1m", 1668466800000, 1671055140000));
    r.push(("2022-12-11_2023-01-20_CLG3_ohlcv1m", 1671058800000, 1673992740000));
    r.push(("2023-01-13_2023-02-21_CLH3_ohlcv1m", 1673996400000, 1676411940000));
    r.push(("2023-02-10_2023-03-21_CLJ3_ohlcv1m", 1676415600000, 1678827540000));
    r
}

} // verus!
