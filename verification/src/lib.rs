use vstd::prelude::*;

pub mod calendar;
pub mod indicators;
pub mod resampler;
pub mod session;
pub mod smoothing;
pub mod stitcher;
pub mod table;

verus! {

/// One raw market observation: prices are fixed-point integers scaled by
/// 1_000_000_000, the timestamp is in nanoseconds since the epoch.
#[derive(Debug, Clone)]
pub struct Bar {
    pub instrument_name: String,
    pub instrument_id: u32,
    pub ts_event: i64,
    pub open: i64,
    pub high: i64,
    pub low: i64,
    pub close: i64,
    pub volume: u64,
}

/// Failure taxonomy for the core transforms: every public operation either
/// succeeds or surfaces one of these, never a panic.
#[derive(Debug, Clone, PartialEq, Eq, Structural)]
pub enum DataError {
    /// Input columns do not all have the same length.
    LengthMismatch,
    /// The timestamp column is not sorted in ascending order.
    NotSorted,
    /// A timestamp lies outside the range the calendar collaborator supports.
    TimestampOutOfRange,
    /// A price or volume exceeds the magnitude bound under which the
    /// fixed-point accumulators are known not to overflow.
    ValueOutOfBounds,
    /// The calendar collaborator could not resolve a session anchor.
    UnresolvedAnchor,
}

/// Fixed-point scale of every price in the library: one unit of currency is
/// this many fixed-point steps.
pub const PRICE_SCALE: i64 = 1_000_000_000;

/// Largest price magnitude the indicator engine accepts (2^50 fixed-point
/// steps); under this bound every fixed-point accumulator below provably
/// fits in 128 bits.
pub const MAX_ABS_PRICE: i64 = 0x4_0000_0000_0000;

/// Largest per-row volume the indicator engine accepts (2^50).
pub const MAX_VOLUME: u64 = 0x4_0000_0000_0000;

/// Largest row count the indicator engine accepts (2^26).
pub const MAX_ROWS: usize = 0x400_0000;

/// Floor division (round toward negative infinity) for a positive divisor;
/// this is the rounding convention used by every fixed-point quotient in the
/// library, and it coincides with Verus's mathematical `/`.
pub fn div_floor(a: i128, b: i128) -> (r: i128)
    requires
        b > 0,
    ensures
        r == a as int / b as int,
{
    proof {
        lemma_div_floor_in_range(a as int, b as int);
    }
    a.checked_div_euclid(b).unwrap()
}

/// Floor division on `i64`, the machine-width sibling of `div_floor`.
pub fn div_floor_i64(a: i64, b: i64) -> (r: i64)
    requires
        b > 0,
    ensures
        r == a as int / b as int,
{
    proof {
        lemma_div_floor_in_range(a as int, b as int);
    }
    a.checked_div_euclid(b).unwrap()
}

/// A quotient by a divisor of at least one can never leave the range spanned
/// by the dividend and zero.
pub proof fn lemma_div_floor_in_range(a: int, b: int)
    requires
        b >= 1,
    ensures
        a >= 0 ==> 0 <= a / b <= a,
        a < 0 ==> a <= a / b <= 0,
{
    if a >= 0 {
        assert(0 <= a / b <= a) by (nonlinear_arith)
            requires
                a >= 0 && b >= 1,
        ;
    } else {
        assert(a <= a / b <= 0) by (nonlinear_arith)
            requires
                a < 0 && b >= 1,
        ;
    }
}

/// The `int` image of an optional machine integer; missing values stay
/// missing.
pub open spec fn opt_val(o: Option<i64>) -> Option<int> {
    match o {
        Some(v) => Some(v as int),
        None => None,
    }
}

/// All elements of the sequence lie in `[lo, hi]`.
pub open spec fn all_in_range(values: Seq<i64>, lo: int, hi: int) -> bool {
    forall|j: int| 0 <= j < values.len() ==> lo <= #[trigger] values[j] <= hi
}

/// A weighted mean of two values from `[lo, hi]`, rounded toward negative
/// infinity, stays in `[lo, hi]`.
pub proof fn lemma_convex_div(c1: int, c2: int, x: int, y: int, lo: int, hi: int)
    requires
        c1 >= 0,
        c2 >= 0,
        c1 + c2 >= 1,
        lo <= x <= hi,
        lo <= y <= hi,
    ensures
        lo <= (c1 * x + c2 * y) / (c1 + c2) <= hi,
{
    let s = c1 + c2;
    let num = c1 * x + c2 * y;
    assert(s * lo <= num <= s * hi) by (nonlinear_arith)
        requires
            c1 >= 0 && c2 >= 0 && s == c1 + c2 && num == c1 * x + c2 * y && lo <= x <= hi && lo
                <= y <= hi,
    ;
    vstd::arithmetic::div_mod::lemma_div_is_ordered(s * lo, num, s);
    vstd::arithmetic::div_mod::lemma_div_is_ordered(num, s * hi, s);
    vstd::arithmetic::div_mod::lemma_div_multiples_vanish(lo, s);
    vstd::arithmetic::div_mod::lemma_div_multiples_vanish(hi, s);
}

/// A product of bounded factors is bounded by the product of the bounds.
pub proof fn lemma_mul_bound(a: int, b: int, am: int, bm: int)
    requires
        -am <= a <= am,
        -bm <= b <= bm,
        0 <= am,
        0 <= bm,
    ensures
        -(am * bm) <= a * b <= am * bm,
{
    assert(-(am * bm) <= a * b <= am * bm) by (nonlinear_arith)
        requires
            -am <= a <= am && -bm <= b <= bm && 0 <= am && 0 <= bm,
    ;
}

} // verus!
