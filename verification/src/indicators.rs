//! The indicator engine: VWAP in three session-keyed variants, a triple
//! grouped EMA, two RSI variants, and ATR, all over one sorted OHLCV table.
//! Week keys group the EMA/RSI/ATR recursions; session and subsession keys
//! reset the VWAP accumulators.
//!
//! All indicator values are fixed-point integers at `PRICE_SCALE`; an
//! indicator that is undefined on a row (warm-up, empty accumulation, a row
//! outside a subsession) is `None` there, never a junk number.

use vstd::prelude::*;
use crate::{
    all_in_range, div_floor, lemma_convex_div, lemma_div_floor_in_range, lemma_mul_bound, opt_val,
    DataError, MAX_ABS_PRICE, MAX_ROWS, MAX_VOLUME, PRICE_SCALE,
};
use crate::calendar::{TS_MAX_MS, TS_MIN_MS};
use crate::session::{
    in_day_hours, in_night_hours, day_session_id, night_session_id, session_start,
    spec_day_session_id, spec_night_session_id, spec_session_start, spec_week_start, week_start,
};
use crate::smoothing::{
    ema_at, ema_grouped, new_group, rma_at, rma_grouped, lemma_ema_at_range, lemma_rma_at_range,
};
use crate::table::{
    all_at_most_u64, check_at_most, check_in_range, check_sorted, sorted_ts, EnrichedTable,
    OhlcvTable,
};

verus! {

// ---------------------------------------------------------------------------
// Grouping keys, one per row, recomputed from the timestamp column.
// ---------------------------------------------------------------------------

/// The week key of every row (the classifier's resolved week anchors).
pub open spec fn week_keys_spec(ts: Seq<i64>) -> Seq<i64> {
    Seq::new(ts.len(), |i: int| spec_week_start(ts[i] as int).unwrap())
}

/// The session key of every row.
pub open spec fn sess_keys_spec(ts: Seq<i64>) -> Seq<Option<i64>> {
    Seq::new(ts.len(), |i: int| spec_session_start(ts[i] as int))
}

/// The overnight-subsession key of every row.
pub open spec fn night_keys_spec(ts: Seq<i64>) -> Seq<Option<i64>> {
    Seq::new(ts.len(), |i: int| spec_night_session_id(ts[i] as int))
}

/// The day-subsession key of every row.
pub open spec fn day_keys_spec(ts: Seq<i64>) -> Seq<Option<i64>> {
    Seq::new(ts.len(), |i: int| spec_day_session_id(ts[i] as int))
}

/// The calendar resolves a week anchor and a session anchor for every row.
pub open spec fn all_keys_resolved(ts: Seq<i64>) -> bool {
    forall|i: int|
        0 <= i < ts.len() ==> (#[trigger] spec_week_start(ts[i] as int)) is Some
            && spec_session_start(ts[i] as int) is Some
}

// ---------------------------------------------------------------------------
// RSI: per-row gains and losses, smoothed, then the ratio formula.
// ---------------------------------------------------------------------------

/// The gain at row `i`: the positive part of the close-to-close delta, and
/// zero across a group boundary (no cross-group delta).
pub open spec fn gain_at(close: Seq<i64>, keys: Seq<i64>, i: int) -> int {
    if new_group(keys, i) {
        0
    } else if close[i] >= close[i - 1] {
        close[i] - close[i - 1]
    } else {
        0
    }
}

/// The loss at row `i`: the negative part of the delta, as a magnitude.
pub open spec fn loss_at(close: Seq<i64>, keys: Seq<i64>, i: int) -> int {
    if new_group(keys, i) {
        0
    } else if close[i] < close[i - 1] {
        close[i - 1] - close[i]
    } else {
        0
    }
}

/// The gain column.
pub open spec fn gains_seq(close: Seq<i64>, keys: Seq<i64>) -> Seq<i64> {
    Seq::new(close.len(), |i: int| gain_at(close, keys, i) as i64)
}

/// The loss column.
pub open spec fn losses_seq(close: Seq<i64>, keys: Seq<i64>) -> Seq<i64> {
    Seq::new(close.len(), |i: int| loss_at(close, keys, i) as i64)
}

/// The RSI ratio at `PRICE_SCALE`: 100 when the average loss is zero, else
/// the fixed-point rendering of `100 * g / (g + l)` (the closed form of
/// `100 - 100 / (1 + g/l)`).
pub open spec fn rsi_from(g: int, l: int) -> int {
    if l == 0 {
        100 * (PRICE_SCALE as int)
    } else {
        (100 * (PRICE_SCALE as int) * g) / (g + l)
    }
}

/// The EMA-variant RSI at row `i`: defined on every row.
pub open spec fn rsi_ema_at(close: Seq<i64>, keys: Seq<i64>, i: int) -> int {
    rsi_from(
        ema_at(gains_seq(close, keys), keys, 14, i),
        ema_at(losses_seq(close, keys), keys, 14, i),
    )
}

/// The Wilder-variant RSI at row `i`: undefined through the Wilder warm-up.
pub open spec fn rsi_wilder_at(close: Seq<i64>, keys: Seq<i64>, i: int) -> Option<int> {
    match (
        rma_at(gains_seq(close, keys), keys, 14, i),
        rma_at(losses_seq(close, keys), keys, 14, i),
    ) {
        (Some(g), Some(l)) => Some(rsi_from(g, l)),
        _ => None,
    }
}

// ---------------------------------------------------------------------------
// ATR: true range, Wilder-smoothed.
// ---------------------------------------------------------------------------

/// The true range at row `i`: the largest of high-low, |high - previous
/// close| and |low - previous close|, falling back to high-low when the
/// previous row belongs to another group (fresh start).
pub open spec fn tr_at(high: Seq<i64>, low: Seq<i64>, close: Seq<i64>, keys: Seq<i64>, i: int) -> int {
    let hl = high[i] - low[i];
    if new_group(keys, i) {
        hl
    } else {
        let hc = if high[i] >= close[i - 1] {
            high[i] - close[i - 1]
        } else {
            close[i - 1] - high[i]
        };
        let lc = if low[i] >= close[i - 1] {
            low[i] - close[i - 1]
        } else {
            close[i - 1] - low[i]
        };
        if hl >= hc && hl >= lc {
            hl
        } else if hc >= lc {
            hc
        } else {
            lc
        }
    }
}

/// The true-range column.
pub open spec fn tr_seq(high: Seq<i64>, low: Seq<i64>, close: Seq<i64>, keys: Seq<i64>) -> Seq<i64> {
    Seq::new(high.len(), |i: int| tr_at(high, low, close, keys, i) as i64)
}

/// The 14-period Wilder-smoothed ATR at row `i`.
pub open spec fn atr_at(high: Seq<i64>, low: Seq<i64>, close: Seq<i64>, keys: Seq<i64>, i: int) -> Option<int> {
    rma_at(tr_seq(high, low, close, keys), keys, 14, i)
}

// ---------------------------------------------------------------------------
// VWAP: cumulative typical-price * volume over cumulative volume, reset on
// key change, undefined outside the key's session.
// ---------------------------------------------------------------------------

/// The typical price of row `i`.
pub open spec fn tp_at(high: Seq<i64>, low: Seq<i64>, close: Seq<i64>, i: int) -> int {
    (high[i] + low[i] + close[i]) / 3
}

/// The VWAP numerator after row `i`: zero outside a session, the running
/// sum of `tp * volume` since the last key change inside one.
pub open spec fn vwap_num(
    keys: Seq<Option<i64>>,
    high: Seq<i64>,
    low: Seq<i64>,
    close: Seq<i64>,
    vol: Seq<u64>,
    i: int,
) -> int
    decreases i,
{
    if i < 0 || keys[i] is None {
        0
    } else {
        let term = tp_at(high, low, close, i) * vol[i];
        if i == 0 || keys[i] != keys[i - 1] {
            term
        } else {
            vwap_num(keys, high, low, close, vol, i - 1) + term
        }
    }
}

/// The VWAP denominator after row `i`: the running volume sum under the
/// same reset rule.
pub open spec fn vwap_den(keys: Seq<Option<i64>>, vol: Seq<u64>, i: int) -> int
    decreases i,
{
    if i < 0 || keys[i] is None {
        0
    } else if i == 0 || keys[i] != keys[i - 1] {
        vol[i] as int
    } else {
        vwap_den(keys, vol, i - 1) + vol[i]
    }
}

/// The VWAP at row `i`: undefined outside a session and while no volume has
/// accumulated since the reset, else numerator over denominator.
pub open spec fn vwap_at(
    keys: Seq<Option<i64>>,
    high: Seq<i64>,
    low: Seq<i64>,
    close: Seq<i64>,
    vol: Seq<u64>,
    i: int,
) -> Option<int> {
    if keys[i] is None || vwap_den(keys, vol, i) == 0 {
        None
    } else {
        Some(vwap_num(keys, high, low, close, vol, i) / vwap_den(keys, vol, i))
    }
}

/// The VWAP denominator is never negative.
pub proof fn lemma_vwap_den_nonneg(keys: Seq<Option<i64>>, vol: Seq<u64>, i: int)
    ensures
        vwap_den(keys, vol, i) >= 0,
    decreases i,
{
    if i >= 0 && keys[i] is Some && !(i == 0 || keys[i] != keys[i - 1]) {
        lemma_vwap_den_nonneg(keys, vol, i - 1);
    }
}

/// Law: a VWAP variant is defined on a row exactly when the row's key is
/// defined and volume has accumulated since the reset; with every row's
/// volume positive, that is exactly when the key is defined.
pub proof fn lemma_vwap_defined_iff(
    keys: Seq<Option<i64>>,
    high: Seq<i64>,
    low: Seq<i64>,
    close: Seq<i64>,
    vol: Seq<u64>,
    i: int,
)
    requires
        0 <= i < keys.len(),
        vol.len() == keys.len(),
    ensures
        vwap_at(keys, high, low, close, vol, i) is Some <==> (keys[i] is Some && vwap_den(
            keys,
            vol,
            i,
        ) > 0),
        (keys[i] is Some && vol[i] >= 1) ==> vwap_at(keys, high, low, close, vol, i) is Some,
{
    lemma_vwap_den_nonneg(keys, vol, i);
    if keys[i] is Some {
        if i == 0 || keys[i] != keys[i - 1] {
        } else {
            lemma_vwap_den_nonneg(keys, vol, i - 1);
        }
    }
}

/// Law (night side): with positive volume on every row, the night VWAP is
/// defined on a row exactly when the row's local hour lies in [18,24) or
/// [0,8) and the calendar resolves the subsession anchor; outside those
/// hours it is always the missing-value sentinel.
pub proof fn lemma_night_vwap_membership(
    ts: Seq<i64>,
    high: Seq<i64>,
    low: Seq<i64>,
    close: Seq<i64>,
    vol: Seq<u64>,
    i: int,
)
    requires
        0 <= i < ts.len(),
        vol.len() == ts.len(),
        vol[i] >= 1,
    ensures
        !in_night_hours(ts[i] as int) ==> vwap_at(
            night_keys_spec(ts),
            high,
            low,
            close,
            vol,
            i,
        ) is None,
        (in_night_hours(ts[i] as int) && spec_night_session_id(ts[i] as int) is Some)
            ==> vwap_at(night_keys_spec(ts), high, low, close, vol, i) is Some,
{
    lemma_vwap_defined_iff(night_keys_spec(ts), high, low, close, vol, i);
}

/// Law (day side): the complement of `lemma_night_vwap_membership` for the
/// day subsession and local hours [8,17).
pub proof fn lemma_day_vwap_membership(
    ts: Seq<i64>,
    high: Seq<i64>,
    low: Seq<i64>,
    close: Seq<i64>,
    vol: Seq<u64>,
    i: int,
)
    requires
        0 <= i < ts.len(),
        vol.len() == ts.len(),
        vol[i] >= 1,
    ensures
        !in_day_hours(ts[i] as int) ==> vwap_at(
            day_keys_spec(ts),
            high,
            low,
            close,
            vol,
            i,
        ) is None,
        (in_day_hours(ts[i] as int) && spec_day_session_id(ts[i] as int) is Some) ==> vwap_at(
            day_keys_spec(ts),
            high,
            low,
            close,
            vol,
            i,
        ) is Some,
{
    lemma_vwap_defined_iff(day_keys_spec(ts), high, low, close, vol, i);
}

// ---------------------------------------------------------------------------
// Executable column computations.
// ---------------------------------------------------------------------------

/// Structural equality of two optional keys.
fn same_key(a: Option<i64>, b: Option<i64>) -> (r: bool)
    ensures
        r == (a == b),
{
    match (a, b) {
        (Option::None, Option::None) => true,
        (Option::Some(x), Option::Some(y)) => x == y,
        _ => false,
    }
}

/// One VWAP accumulation pass over the rows, under the given key column.
pub fn vwap_grouped(
    keys: &Vec<Option<i64>>,
    high: &Vec<i64>,
    low: &Vec<i64>,
    close: &Vec<i64>,
    volume: &Vec<u64>,
) -> (r: Vec<Option<i64>>)
    requires
        high@.len() == keys@.len(),
        low@.len() == keys@.len(),
        close@.len() == keys@.len(),
        volume@.len() == keys@.len(),
        keys@.len() <= MAX_ROWS as int,
        all_in_range(high@, -MAX_ABS_PRICE as int, MAX_ABS_PRICE as int),
        all_in_range(low@, -MAX_ABS_PRICE as int, MAX_ABS_PRICE as int),
        all_in_range(close@, -MAX_ABS_PRICE as int, MAX_ABS_PRICE as int),
        all_at_most_u64(volume@, MAX_VOLUME as int),
    ensures
        r@.len() == keys@.len(),
        forall|i: int|
            0 <= i < r@.len() ==> opt_val(r@[i]) == vwap_at(keys@, high@, low@, close@, volume@, i),
{
    let n = keys.len();
    let mut out: Vec<Option<i64>> = Vec::new();
    let mut num: i128 = 0;
    let mut den: i128 = 0;
    let mut i: usize = 0;
    let ghost m = MAX_ABS_PRICE as int;
    while i < n
        invariant
            n == keys@.len(),
            high@.len() == n && low@.len() == n && close@.len() == n && volume@.len() == n,
            n <= MAX_ROWS as int,
            all_in_range(high@, -m, m),
            all_in_range(low@, -m, m),
            all_in_range(close@, -m, m),
            all_at_most_u64(volume@, MAX_VOLUME as int),
            m == MAX_ABS_PRICE as int,
            i <= n,
            out@.len() == i,
            forall|j: int|
                0 <= j < i ==> opt_val(out@[j]) == vwap_at(keys@, high@, low@, close@, volume@, j),
            num == vwap_num(keys@, high@, low@, close@, volume@, i - 1),
            den == vwap_den(keys@, volume@, i - 1),
            0 <= den <= (i as int) * (MAX_VOLUME as int),
            -m * den <= num <= m * den,
        decreases n - i,
    {
        let k = keys[i];
        if k.is_none() {
            num = 0;
            den = 0;
            out.push(None);
        } else {
            if i == 0 || !same_key(keys[i - 1], k) {
                num = 0;
                den = 0;
            }
            let ghost num0 = num as int;
            let ghost den0 = den as int;
            proof {
                // The carried state is exactly the spec accumulator for the
                // rows up to and including i - 1, also after a reset.
                assert(num0 == if i == 0 || keys@[i as int] != keys@[i - 1] {
                    0int
                } else {
                    vwap_num(keys@, high@, low@, close@, volume@, i - 1)
                });
                assert(den0 == if i == 0 || keys@[i as int] != keys@[i - 1] {
                    0int
                } else {
                    vwap_den(keys@, volume@, i - 1)
                });
            }
            // typical price, floored
            let h = high[i];
            let l = low[i];
            let c = close[i];
            let sum3: i128 = (h as i128) + (l as i128) + (c as i128);
            proof {
                vstd::arithmetic::div_mod::lemma_div_is_ordered(-3 * m, sum3 as int, 3);
                vstd::arithmetic::div_mod::lemma_div_is_ordered(sum3 as int, 3 * m, 3);
                vstd::arithmetic::div_mod::lemma_div_multiples_vanish(-m, 3);
                vstd::arithmetic::div_mod::lemma_div_multiples_vanish(m, 3);
            }
            let tp: i128 = div_floor(sum3, 3);
            let v = volume[i];
            proof {
                assert(-m <= tp as int <= m);
                assert(-m * (v as int) <= (tp as int) * (v as int) <= m * (v as int))
                    by (nonlinear_arith)
                    requires
                        -m <= tp as int <= m && v as int >= 0,
                ;
                // distribute the new term into the window bound
                assert(-m * (den0 + v as int) <= num0 + (tp as int) * (v as int) <= m * (den0
                    + v as int)) by (nonlinear_arith)
                    requires
                        -m * den0 <= num0 <= m * den0 && -m * (v as int) <= (tp as int) * (v as int)
                            <= m * (v as int) && m >= 0,
                ;
                // absolute overflow bounds for the accumulators
                lemma_mul_bound(tp as int, v as int, m, MAX_VOLUME as int);
                lemma_mul_bound(m, den0, m, (MAX_ROWS as int) * (MAX_VOLUME as int));
            }
            let term: i128 = tp * (v as i128);
            num = num + term;
            den = den + (v as i128);
            if den == 0 {
                out.push(None);
            } else {
                proof {
                    vstd::arithmetic::div_mod::lemma_div_is_ordered(
                        (den as int) * -m,
                        num as int,
                        den as int,
                    );
                    vstd::arithmetic::div_mod::lemma_div_is_ordered(
                        num as int,
                        (den as int) * m,
                        den as int,
                    );
                    vstd::arithmetic::div_mod::lemma_div_multiples_vanish(-m, den as int);
                    vstd::arithmetic::div_mod::lemma_div_multiples_vanish(m, den as int);
                    assert((den as int) * -m <= num as int <= (den as int) * m)
                        by (nonlinear_arith)
                        requires
                            -m * (den as int) <= num as int <= m * (den as int),
                    ;
                }
                let q = div_floor(num, den);
                out.push(Some(q as i64));
            }
        }
        i += 1;
    }
    out
}

/// The three VWAP variants: session, overnight subsession, day subsession.
/// Takes the three key columns the classifier produced for the rows.
pub fn calc_vwap_variants(
    sess_keys: &Vec<Option<i64>>,
    night_keys: &Vec<Option<i64>>,
    day_keys: &Vec<Option<i64>>,
    high: &Vec<i64>,
    low: &Vec<i64>,
    close: &Vec<i64>,
    volume: &Vec<u64>,
) -> (r: (Vec<Option<i64>>, Vec<Option<i64>>, Vec<Option<i64>>))
    requires
        high@.len() == sess_keys@.len(),
        low@.len() == sess_keys@.len(),
        close@.len() == sess_keys@.len(),
        volume@.len() == sess_keys@.len(),
        night_keys@.len() == sess_keys@.len(),
        day_keys@.len() == sess_keys@.len(),
        sess_keys@.len() <= MAX_ROWS as int,
        all_in_range(high@, -MAX_ABS_PRICE as int, MAX_ABS_PRICE as int),
        all_in_range(low@, -MAX_ABS_PRICE as int, MAX_ABS_PRICE as int),
        all_in_range(close@, -MAX_ABS_PRICE as int, MAX_ABS_PRICE as int),
        all_at_most_u64(volume@, MAX_VOLUME as int),
    ensures
        r.0@.len() == sess_keys@.len(),
        r.1@.len() == sess_keys@.len(),
        r.2@.len() == sess_keys@.len(),
        forall|i: int|
            0 <= i < sess_keys@.len() ==> opt_val(r.0@[i]) == vwap_at(
                sess_keys@,
                high@,
                low@,
                close@,
                volume@,
                i,
            ),
        forall|i: int|
            0 <= i < sess_keys@.len() ==> opt_val(r.1@[i]) == vwap_at(
                night_keys@,
                high@,
                low@,
                close@,
                volume@,
                i,
            ),
        forall|i: int|
            0 <= i < sess_keys@.len() ==> opt_val(r.2@[i]) == vwap_at(
                day_keys@,
                high@,
                low@,
                close@,
                volume@,
                i,
            ),
{
    let vwap = vwap_grouped(sess_keys, high, low, close, volume);
    let vwapn = vwap_grouped(night_keys, high, low, close, volume);
    let vwapd = vwap_grouped(day_keys, high, low, close, volume);
    (vwap, vwapn, vwapd)
}

/// The triple EMA over the close column: periods 9, 14 and 21, grouped by
/// the week key.
pub fn calc_triple_ema(close: &Vec<i64>, keys: &Vec<i64>) -> (r: (Vec<i64>, Vec<i64>, Vec<i64>))
    requires
        close@.len() == keys@.len(),
    ensures
        r.0@.len() == close@.len(),
        r.1@.len() == close@.len(),
        r.2@.len() == close@.len(),
        forall|i: int| 0 <= i < close@.len() ==> r.0@[i] == ema_at(close@, keys@, 9, i),
        forall|i: int| 0 <= i < close@.len() ==> r.1@[i] == ema_at(close@, keys@, 14, i),
        forall|i: int| 0 <= i < close@.len() ==> r.2@[i] == ema_at(close@, keys@, 21, i),
{
    let e9 = ema_grouped(close, 9, keys);
    let e14 = ema_grouped(close, 14, keys);
    let e21 = ema_grouped(close, 21, keys);
    (e9, e14, e21)
}

/// Applies the RSI ratio to one smoothed gain/loss pair.
fn rsi_of_pair(g: i64, l: i64) -> (r: i64)
    requires
        0 <= g,
        0 <= l,
        g as int <= 2 * (MAX_ABS_PRICE as int),
        l as int <= 2 * (MAX_ABS_PRICE as int),
    ensures
        r == rsi_from(g as int, l as int),
        0 <= r <= 100 * (PRICE_SCALE as int),
{
    if l == 0 {
        100 * PRICE_SCALE
    } else {
        let scale: i128 = 100 * (PRICE_SCALE as i128);
        let numer: i128 = scale * (g as i128);
        let denom: i128 = (g as i128) + (l as i128);
        proof {
            lemma_mul_bound(scale as int, g as int, scale as int, 2 * (MAX_ABS_PRICE as int));
            lemma_div_floor_in_range(numer as int, denom as int);
            assert(numer as int <= (denom as int) * (scale as int)) by (nonlinear_arith)
                requires
                    numer as int == (scale as int) * (g as int) && denom as int == g as int
                        + l as int && g >= 0 && l >= 1 && scale as int > 0,
            ;
            vstd::arithmetic::div_mod::lemma_div_is_ordered(
                numer as int,
                (denom as int) * (scale as int),
                denom as int,
            );
            vstd::arithmetic::div_mod::lemma_div_multiples_vanish(scale as int, denom as int);
        }
        div_floor(numer, denom) as i64
    }
}

/// Both RSI variants over the close column, 14-period, grouped by the week
/// key.  Every value of either variant lies in `[0, 100]` at `PRICE_SCALE`
/// wherever it is defined.
pub fn calc_rsi(close: &Vec<i64>, keys: &Vec<i64>) -> (r: (Vec<i64>, Vec<Option<i64>>))
    requires
        close@.len() == keys@.len(),
        all_in_range(close@, -MAX_ABS_PRICE as int, MAX_ABS_PRICE as int),
    ensures
        r.0@.len() == close@.len(),
        r.1@.len() == close@.len(),
        forall|i: int| 0 <= i < close@.len() ==> r.0@[i] == rsi_ema_at(close@, keys@, i),
        forall|i: int|
            0 <= i < close@.len() ==> opt_val(r.1@[i]) == rsi_wilder_at(close@, keys@, i),
        forall|i: int|
            0 <= i < close@.len() ==> 0 <= #[trigger] r.0@[i] <= 100 * (PRICE_SCALE as int),
        forall|i: int|
            0 <= i < close@.len() && r.1@[i] is Some ==> 0 <= #[trigger] r.1@[i].unwrap() <= 100 * (
            PRICE_SCALE as int),
{
    let n = close.len();
    let ghost m = MAX_ABS_PRICE as int;
    let mut gains: Vec<i64> = Vec::new();
    let mut losses: Vec<i64> = Vec::new();
    let mut i: usize = 0;
    while i < n
        invariant
            n == close@.len(),
            close@.len() == keys@.len(),
            all_in_range(close@, -m, m),
            m == MAX_ABS_PRICE as int,
            i <= n,
            gains@.len() == i,
            losses@.len() == i,
            forall|j: int| 0 <= j < i ==> gains@[j] == gain_at(close@, keys@, j) as i64,
            forall|j: int| 0 <= j < i ==> losses@[j] == loss_at(close@, keys@, j) as i64,
            forall|j: int| 0 <= j < i ==> 0 <= #[trigger] gains@[j] <= 2 * m,
            forall|j: int| 0 <= j < i ==> 0 <= #[trigger] losses@[j] <= 2 * m,
        decreases n - i,
    {
        let mut g: i64 = 0;
        let mut l: i64 = 0;
        if i > 0 && keys[i] == keys[i - 1] {
            proof {
                assert(-m <= close@[i as int] <= m);
                assert(-m <= close@[i - 1] <= m);
            }
            let delta_pos = close[i] >= close[i - 1];
            if delta_pos {
                g = close[i] - close[i - 1];
            } else {
                l = close[i - 1] - close[i];
            }
        }
        gains.push(g);
        losses.push(l);
        i += 1;
    }
    proof {
        assert(gains@ =~= gains_seq(close@, keys@));
        assert(losses@ =~= losses_seq(close@, keys@));
        assert(all_in_range(gains@, 0, 2 * m));
        assert(all_in_range(losses@, 0, 2 * m));
    }
    let avg_gain_ema = ema_grouped(&gains, 14, keys);
    let avg_loss_ema = ema_grouped(&losses, 14, keys);
    let avg_gain_rma = rma_grouped(&gains, 14, keys);
    let avg_loss_rma = rma_grouped(&losses, 14, keys);

    let mut rsi_ema: Vec<i64> = Vec::new();
    let mut rsi_wilder: Vec<Option<i64>> = Vec::new();
    let mut i: usize = 0;
    while i < n
        invariant
            n == close@.len(),
            close@.len() == keys@.len(),
            m == MAX_ABS_PRICE as int,
            gains@ == gains_seq(close@, keys@),
            losses@ == losses_seq(close@, keys@),
            all_in_range(gains@, 0, 2 * m),
            all_in_range(losses@, 0, 2 * m),
            gains@.len() == n,
            losses@.len() == n,
            avg_gain_ema@.len() == n,
            avg_loss_ema@.len() == n,
            avg_gain_rma@.len() == n,
            avg_loss_rma@.len() == n,
            forall|j: int| 0 <= j < n ==> avg_gain_ema@[j] == ema_at(gains@, keys@, 14, j),
            forall|j: int| 0 <= j < n ==> avg_loss_ema@[j] == ema_at(losses@, keys@, 14, j),
            forall|j: int| 0 <= j < n ==> opt_val(avg_gain_rma@[j]) == rma_at(gains@, keys@, 14, j),
            forall|j: int| 0 <= j < n ==> opt_val(avg_loss_rma@[j]) == rma_at(losses@, keys@, 14, j),
            i <= n,
            rsi_ema@.len() == i,
            rsi_wilder@.len() == i,
            forall|j: int| 0 <= j < i ==> rsi_ema@[j] == rsi_ema_at(close@, keys@, j),
            forall|j: int| 0 <= j < i ==> opt_val(rsi_wilder@[j]) == rsi_wilder_at(close@, keys@, j),
            forall|j: int| 0 <= j < i ==> 0 <= #[trigger] rsi_ema@[j] <= 100 * (PRICE_SCALE as int),
            forall|j: int|
                0 <= j < i && rsi_wilder@[j] is Some ==> 0 <= #[trigger] rsi_wilder@[j].unwrap()
                    <= 100 * (PRICE_SCALE as int),
        decreases n - i,
    {
        proof {
            lemma_ema_at_range(gains@, keys@, 14, i as int, 0, 2 * m);
            lemma_ema_at_range(losses@, keys@, 14, i as int, 0, 2 * m);
        }
        let ge = avg_gain_ema[i];
        let le = avg_loss_ema[i];
        rsi_ema.push(rsi_of_pair(ge, le));
        let w: Option<i64>;
        match (avg_gain_rma[i], avg_loss_rma[i]) {
            (Option::Some(gw), Option::Some(lw)) => {
                proof {
                    lemma_rma_at_range(gains@, keys@, 14, i as int, 0, 2 * m);
                    lemma_rma_at_range(losses@, keys@, 14, i as int, 0, 2 * m);
                }
                w = Some(rsi_of_pair(gw, lw));
            },
            _ => {
                w = None;
            },
        }
        rsi_wilder.push(w);
        i += 1;
    }
    (rsi_ema, rsi_wilder)
}

/// The 14-period ATR over high/low/close, grouped by the week key.
pub fn calc_atr(high: &Vec<i64>, low: &Vec<i64>, close: &Vec<i64>, keys: &Vec<i64>) -> (r: Vec<
    Option<i64>,
>)
    requires
        high@.len() == keys@.len(),
        low@.len() == keys@.len(),
        close@.len() == keys@.len(),
        all_in_range(high@, -MAX_ABS_PRICE as int, MAX_ABS_PRICE as int),
        all_in_range(low@, -MAX_ABS_PRICE as int, MAX_ABS_PRICE as int),
        all_in_range(close@, -MAX_ABS_PRICE as int, MAX_ABS_PRICE as int),
    ensures
        r@.len() == keys@.len(),
        forall|i: int|
            0 <= i < r@.len() ==> opt_val(r@[i]) == atr_at(high@, low@, close@, keys@, i),
{
    let n = keys.len();
    let ghost m = MAX_ABS_PRICE as int;
    let mut tr: Vec<i64> = Vec::new();
    let mut i: usize = 0;
    while i < n
        invariant
            n == keys@.len(),
            high@.len() == n && low@.len() == n && close@.len() == n,
            all_in_range(high@, -m, m),
            all_in_range(low@, -m, m),
            all_in_range(close@, -m, m),
            m == MAX_ABS_PRICE as int,
            i <= n,
            tr@.len() == i,
            forall|j: int| 0 <= j < i ==> tr@[j] == tr_at(high@, low@, close@, keys@, j) as i64,
        decreases n - i,
    {
        proof {
            assert(-m <= high@[i as int] <= m);
            assert(-m <= low@[i as int] <= m);
            assert(i > 0 ==> -m <= close@[i - 1] <= m);
        }
        let hl = high[i] - low[i];
        let t: i64;
        if i == 0 || keys[i] != keys[i - 1] {
            t = hl;
        } else {
            let pc = close[i - 1];
            let hc = if high[i] >= pc {
                high[i] - pc
            } else {
                pc - high[i]
            };
            let lc = if low[i] >= pc {
                low[i] - pc
            } else {
                pc - low[i]
            };
            if hl >= hc && hl >= lc {
                t = hl;
            } else if hc >= lc {
                t = hc;
            } else {
                t = lc;
            }
        }
        tr.push(t);
        i += 1;
    }
    proof {
        assert(tr@ =~= tr_seq(high@, low@, close@, keys@));
    }
    rma_grouped(&tr, 14, keys)
}

// ---------------------------------------------------------------------------
// The engine.
// ---------------------------------------------------------------------------

/// Input rows the engine accepts: prices and volumes within the accumulator
/// bounds and not more than `MAX_ROWS` rows.
pub open spec fn engine_bounds_ok(t: OhlcvTable) -> bool {
    &&& t.timestamp@.len() <= MAX_ROWS as int
    &&& all_in_range(t.high@, -MAX_ABS_PRICE as int, MAX_ABS_PRICE as int)
    &&& all_in_range(t.low@, -MAX_ABS_PRICE as int, MAX_ABS_PRICE as int)
    &&& all_in_range(t.close@, -MAX_ABS_PRICE as int, MAX_ABS_PRICE as int)
    &&& all_at_most_u64(t.volume@, MAX_VOLUME as int)
}

/// Runs every indicator over a sorted OHLCV table and returns the table
/// with the nine indicator columns appended.  Fail-fast: the first data
/// error aborts the enrichment, and each error variant is returned exactly
/// on the inputs it names.
#[verifier::rlimit(100)]
pub fn enrich_indicators(table: OhlcvTable) -> (r: Result<EnrichedTable, DataError>)
    ensures
        ({
            let ts = table.timestamp@;
            let ok_wf = table.wf();
            let ok_range = all_in_range(ts, TS_MIN_MS as int, TS_MAX_MS as int);
            let ok_sorted = sorted_ts(ts);
            let ok_bounds = engine_bounds_ok(table);
            let ok_anchors = all_keys_resolved(ts);
            match r {
                Ok(out) => {
                    let wk = week_keys_spec(ts);
                    &&& ok_wf && ok_range && ok_sorted && ok_bounds && ok_anchors
                    &&& out.wf()
                    &&& out.base == table
                    &&& forall|i: int|
                        0 <= i < ts.len() ==> opt_val(#[trigger] out.vwap@[i]) == vwap_at(
                            sess_keys_spec(ts),
                            table.high@,
                            table.low@,
                            table.close@,
                            table.volume@,
                            i,
                        )
                    &&& forall|i: int|
                        0 <= i < ts.len() ==> opt_val(#[trigger] out.vwapn@[i]) == vwap_at(
                            night_keys_spec(ts),
                            table.high@,
                            table.low@,
                            table.close@,
                            table.volume@,
                            i,
                        )
                    &&& forall|i: int|
                        0 <= i < ts.len() ==> opt_val(#[trigger] out.vwapd@[i]) == vwap_at(
                            day_keys_spec(ts),
                            table.high@,
                            table.low@,
                            table.close@,
                            table.volume@,
                            i,
                        )
                    &&& forall|i: int|
                        0 <= i < ts.len() ==> #[trigger] out.ema_9@[i] == ema_at(
                            table.close@,
                            wk,
                            9,
                            i,
                        )
                    &&& forall|i: int|
                        0 <= i < ts.len() ==> #[trigger] out.ema_14@[i] == ema_at(
                            table.close@,
                            wk,
                            14,
                            i,
                        )
                    &&& forall|i: int|
                        0 <= i < ts.len() ==> #[trigger] out.ema_21@[i] == ema_at(
                            table.close@,
                            wk,
                            21,
                            i,
                        )
                    &&& forall|i: int|
                        0 <= i < ts.len() ==> #[trigger] out.rsi_14_ema@[i] == rsi_ema_at(
                            table.close@,
                            wk,
                            i,
                        )
                    &&& forall|i: int|
                        0 <= i < ts.len() ==> opt_val(#[trigger] out.rsi_14_wilder@[i])
                            == rsi_wilder_at(table.close@, wk, i)
                    &&& forall|i: int|
                        0 <= i < ts.len() ==> opt_val(#[trigger] out.atr_14@[i]) == atr_at(
                            table.high@,
                            table.low@,
                            table.close@,
                            wk,
                            i,
                        )
                },
                Err(e) => match e {
                    DataError::LengthMismatch => !ok_wf,
                    DataError::TimestampOutOfRange => ok_wf && !ok_range,
                    DataError::NotSorted => ok_wf && ok_range && !ok_sorted,
                    DataError::ValueOutOfBounds => ok_wf && ok_range && ok_sorted && !ok_bounds,
                    DataError::UnresolvedAnchor => ok_wf && ok_range && ok_sorted && ok_bounds
                        && !ok_anchors,
                },
            }
        }),
{
    let n = table.timestamp.len();
    if !table.check_wf() {
        return Err(DataError::LengthMismatch);
    }
    if !check_in_range(&table.timestamp, TS_MIN_MS, TS_MAX_MS) {
        return Err(DataError::TimestampOutOfRange);
    }
    if !check_sorted(&table.timestamp) {
        return Err(DataError::NotSorted);
    }
    if n > MAX_ROWS || !check_in_range(&table.high, -MAX_ABS_PRICE, MAX_ABS_PRICE)
        || !check_in_range(&table.low, -MAX_ABS_PRICE, MAX_ABS_PRICE)
        || !check_in_range(&table.close, -MAX_ABS_PRICE, MAX_ABS_PRICE)
        || !check_at_most(&table.volume, MAX_VOLUME) {
        return Err(DataError::ValueOutOfBounds);
    }
    let ghost ts = table.timestamp@;
    let mut week_keys: Vec<i64> = Vec::new();
    let mut sess_keys: Vec<Option<i64>> = Vec::new();
    let mut night_keys: Vec<Option<i64>> = Vec::new();
    let mut day_keys: Vec<Option<i64>> = Vec::new();
    let mut i: usize = 0;
    while i < n
        invariant
            n == ts.len(),
            ts == table.timestamp@,
            table.wf(),
            all_in_range(ts, TS_MIN_MS as int, TS_MAX_MS as int),
            sorted_ts(ts),
            engine_bounds_ok(table),
            i <= n,
            week_keys@.len() == i,
            sess_keys@.len() == i,
            night_keys@.len() == i,
            day_keys@.len() == i,
            forall|j: int|
                0 <= j < i ==> (#[trigger] spec_week_start(ts[j] as int)) is Some
                    && spec_session_start(ts[j] as int) is Some,
            forall|j: int|
                0 <= j < i ==> #[trigger] week_keys@[j] == spec_week_start(ts[j] as int).unwrap(),
            forall|j: int|
                0 <= j < i ==> #[trigger] sess_keys@[j] == spec_session_start(ts[j] as int),
            forall|j: int|
                0 <= j < i ==> #[trigger] night_keys@[j] == spec_night_session_id(ts[j] as int),
            forall|j: int|
                0 <= j < i ==> #[trigger] day_keys@[j] == spec_day_session_id(ts[j] as int),
        decreases n - i,
    {
        proof {
            assert(TS_MIN_MS as int <= ts[i as int] <= TS_MAX_MS as int);
        }
        let t = table.timestamp[i];
        match week_start(t) {
            Option::Some(w) => week_keys.push(w),
            Option::None => {
                return Err(DataError::UnresolvedAnchor);
            },
        }
        match session_start(t) {
            Option::Some(s) => sess_keys.push(Some(s)),
            Option::None => {
                return Err(DataError::UnresolvedAnchor);
            },
        }
        night_keys.push(night_session_id(t));
        day_keys.push(day_session_id(t));
        i += 1;
    }
    proof {
        assert(week_keys@ =~= week_keys_spec(ts));
        assert(sess_keys@ =~= sess_keys_spec(ts));
        assert(night_keys@ =~= night_keys_spec(ts));
        assert(day_keys@ =~= day_keys_spec(ts));
    }
    let (vwap, vwapn, vwapd) = calc_vwap_variants(
        &sess_keys,
        &night_keys,
        &day_keys,
        &table.high,
        &table.low,
        &table.close,
        &table.volume,
    );
    let (ema_9, ema_14, ema_21) = calc_triple_ema(&table.close, &week_keys);
    let (rsi_14_ema, rsi_14_wilder) = calc_rsi(&table.close, &week_keys);
    let atr_14 = calc_atr(&table.high, &table.low, &table.close, &week_keys);
    Ok(
        EnrichedTable {
            base: table,
            vwap,
            vwapn,
            vwapd,
            ema_9,
            ema_14,
            ema_21,
            rsi_14_ema,
            rsi_14_wilder,
            atr_14,
        },
    )
}

} // verus!
