//! Calendar support for the session classifier.
//!
//! The exchange calendar lives in the America/New_York time zone, so the
//! civil (wall-clock) reading of an instant and the instant of a civil
//! anchor both come from the time-zone database, reached through two
//! trusted wrappers.  All date arithmetic (moving a civil date by whole
//! days) is done here in verified code on day numbers.

use vstd::prelude::*;
use chrono::{Datelike, TimeZone, Timelike};
use crate::div_floor_i64;

verus! {

/// Earliest epoch-millisecond timestamp the calendar accepts; comfortably
/// inside the range chrono can convert (about 262,000 years either way).
pub const TS_MIN_MS: i64 = -8_000_000_000_000_000;

/// Latest epoch-millisecond timestamp the calendar accepts.
pub const TS_MAX_MS: i64 = 8_000_000_000_000_000;

/// Timestamps on which the calendar collaborator is known not to fail.
pub open spec fn in_cal_range(ts: int) -> bool {
    TS_MIN_MS <= ts <= TS_MAX_MS
}

/// The civil (wall-clock) reading of one instant in the exchange time zone:
/// calendar date, hour of day, and day of week (`dow` counts days from
/// Monday, so Sunday is 6).
#[derive(Clone, Copy, Debug, PartialEq, Eq, Structural)]
pub struct Civil {
    pub year: i32,
    pub month: u8,
    pub day: u8,
    pub hour: u8,
    pub dow: u8,
}

/// The civil reading of epoch-millisecond `ts_ms` in America/New_York, as
/// the time-zone database defines it.  A function of the timestamp alone.
pub uninterp spec fn ny_civil_of(ts_ms: int) -> Civil;

/// The epoch-millisecond instant at which the civil time
/// `year-month-day hour:00:00` occurs in America/New_York, or `None` when
/// that civil time does not exist there or is ambiguous (daylight-saving
/// transitions) or is out of the calendar's range.  A function of the civil
/// fields alone.
pub uninterp spec fn ny_anchor_of(year: int, month: int, day: int, hour: int) -> Option<i64>;

/// Relies on chrono's `Utc.timestamp_millis_opt` and `with_timezone`, and on
/// chrono-tz's America/New_York table: reads the local calendar fields of one
/// instant.  Within `in_cal_range` the conversion always succeeds, and chrono
/// documents the field ranges (month 1-12, day 1-31, hour 0-23, weekday 0-6,
/// year within about +/-262,000).
#[verifier::external_body]
pub(crate) fn local_civil(ts_ms: i64) -> (r: Civil)
    requires
        in_cal_range(ts_ms as int),
    ensures
        r == ny_civil_of(ts_ms as int),
        -262_143 <= r.year <= 262_142,
        1 <= r.month <= 12,
        1 <= r.day <= 31,
        r.hour < 24,
        r.dow < 7,
{
    let dt = chrono::Utc
        .timestamp_millis_opt(ts_ms)
        .unwrap()
        .with_timezone(&chrono_tz::America::New_York);
    Civil {
        year: dt.year(),
        month: dt.month() as u8,
        day: dt.day() as u8,
        hour: dt.hour() as u8,
        dow: dt.weekday().num_days_from_monday() as u8,
    }
}

/// Relies on chrono-tz's `with_ymd_and_hms` for America/New_York: resolves a
/// local civil time to the instant it denotes, `None` when the civil time is
/// invalid, does not exist in the zone, or is ambiguous.
#[verifier::external_body]
pub(crate) fn local_anchor(year: i32, month: u8, day: u8, hour: u8) -> (r: Option<i64>)
    ensures
        r == ny_anchor_of(year as int, month as int, day as int, hour as int),
{
    match chrono_tz::America::New_York.with_ymd_and_hms(
        year,
        month as u32,
        day as u32,
        hour as u32,
        0,
        0,
    ) {
        chrono::LocalResult::Single(dt) => Some(dt.with_timezone(&chrono::Utc).timestamp_millis()),
        _ => None,
    }
}

/// Resolves a civil hour anchor to its instant, from the wider integers the
/// date arithmetic works in; the range checks make the casts exact.
pub(crate) fn anchor_of_civil(year: i64, month: i64, day: i64, hour: i64) -> (r: Option<i64>)
    requires
        -262_143 <= year <= 262_142,
        1 <= month <= 12,
        1 <= day <= 31,
        0 <= hour < 24,
    ensures
        r == ny_anchor_of(year as int, month as int, day as int, hour as int),
{
    local_anchor(year as i32, month as u8, day as u8, hour as u8)
}

/// Civil dates the day-number arithmetic accepts: the chrono year range with
/// plausible month and day fields.
pub open spec fn valid_civil(y: int, m: int, d: int) -> bool {
    -262_143 <= y <= 262_142 && 1 <= m <= 12 && 1 <= d <= 31
}

/// The day number of a civil date: days since 1970-01-01 in the proleptic
/// Gregorian calendar (Howard Hinnant's `days_from_civil` algorithm, with
/// floor division throughout).  Opaque: callers reason through
/// `days_from_civil`'s contract, not through this arithmetic.
#[verifier::opaque]
pub open spec fn day_number_of(y: int, m: int, d: int) -> int {
    let yy = if m <= 2 { y - 1 } else { y };
    let era = yy / 400;
    let yoe = yy - era * 400;
    let mp = if m > 2 { m - 3 } else { m + 9 };
    let doy = (153 * mp + 2) / 5 + d - 1;
    let doe = yoe * 365 + yoe / 4 - yoe / 100 + doy;
    era * 146097 + doe - 719468
}

/// The civil date `(year, month, day)` of a day number: the inverse
/// direction of the same algorithm.  Opaque for the same reason as
/// `day_number_of`.
#[verifier::opaque]
pub open spec fn civil_of_day_number(z0: int) -> (int, int, int) {
    let z = z0 + 719468;
    let era = z / 146097;
    let doe = z - era * 146097;
    let yoe = (doe - doe / 1460 + doe / 36524 - doe / 146096) / 365;
    let y = yoe + era * 400;
    let doy = doe - (365 * yoe + yoe / 4 - yoe / 100);
    let mp = (5 * doy + 2) / 153;
    let d = doy - (153 * mp + 2) / 5 + 1;
    let m = if mp < 10 { mp + 3 } else { mp - 9 };
    (if m <= 2 { y + 1 } else { y }, m, d)
}

/// Computes `day_number_of` on machine integers.
pub fn days_from_civil(y: i64, m: i64, d: i64) -> (r: i64)
    requires
        valid_civil(y as int, m as int, d as int),
    ensures
        r == day_number_of(y as int, m as int, d as int),
        -100_000_000 <= r <= 100_000_000,
{
    proof {
        reveal(day_number_of);
    }
    let yy: i64 = if m <= 2 { y - 1 } else { y };
    let era: i64 = div_floor_i64(yy, 400);
    proof {
        crate::lemma_div_floor_in_range(yy as int, 400);
        assert(yy == 400 * (yy as int / 400) + yy as int % 400) by {
            vstd::arithmetic::div_mod::lemma_fundamental_div_mod(yy as int, 400);
        }
    }
    let yoe: i64 = yy - era * 400;
    let mp: i64 = if m > 2 { m - 3 } else { m + 9 };
    let doy: i64 = div_floor_i64(153 * mp + 2, 5) + d - 1;
    let doe: i64 = yoe * 365 + div_floor_i64(yoe, 4) - div_floor_i64(yoe, 100);
    proof {
        crate::lemma_div_floor_in_range(153 * mp as int + 2, 5);
        crate::lemma_div_floor_in_range(yoe as int, 4);
        crate::lemma_div_floor_in_range(yoe as int, 100);
    }
    let doe2: i64 = doe + doy;
    era * 146097 + doe2 - 719468
}

/// Computes `civil_of_day_number` on machine integers.
pub fn civil_from_days(z0: i64) -> (r: (i64, i64, i64))
    requires
        -200_000_000 <= z0 <= 200_000_000,
    ensures
        r.0 == civil_of_day_number(z0 as int).0,
        r.1 == civil_of_day_number(z0 as int).1,
        r.2 == civil_of_day_number(z0 as int).2,
{
    proof {
        reveal(civil_of_day_number);
    }
    let z: i64 = z0 + 719468;
    let era: i64 = div_floor_i64(z, 146097);
    proof {
        crate::lemma_div_floor_in_range(z as int, 146097);
        assert(z == 146097 * (z as int / 146097) + z as int % 146097) by {
            vstd::arithmetic::div_mod::lemma_fundamental_div_mod(z as int, 146097);
        }
    }
    let doe: i64 = z - era * 146097;
    let q1460: i64 = div_floor_i64(doe, 1460);
    let q36524: i64 = div_floor_i64(doe, 36524);
    let q146096: i64 = div_floor_i64(doe, 146096);
    proof {
        crate::lemma_div_floor_in_range(doe as int, 1460);
        crate::lemma_div_floor_in_range(doe as int, 36524);
        crate::lemma_div_floor_in_range(doe as int, 146096);
    }
    let yoe: i64 = div_floor_i64(doe - q1460 + q36524 - q146096, 365);
    proof {
        crate::lemma_div_floor_in_range(doe as int - q1460 as int + q36524 as int - q146096 as int, 365);
        crate::lemma_div_floor_in_range(yoe as int, 4);
        crate::lemma_div_floor_in_range(yoe as int, 100);
    }
    let y: i64 = yoe + era * 400;
    let doy: i64 = doe - (365 * yoe + div_floor_i64(yoe, 4) - div_floor_i64(yoe, 100));
    let mp: i64 = div_floor_i64(5 * doy + 2, 153);
    proof {
        crate::lemma_div_floor_in_range(5 * doy as int + 2, 153);
        crate::lemma_div_floor_in_range(153 * mp as int + 2, 5);
    }
    let d: i64 = doy - div_floor_i64(153 * mp + 2, 5) + 1;
    let m: i64 = if mp < 10 { mp + 3 } else { mp - 9 };
    (if m <= 2 { y + 1 } else { y }, m, d)
}

} // verus!
