//! The session classifier: pure maps from a timestamp to the calendar keys
//! that the indicator recursions group by, under the US futures convention
//! (trading day rolls at 18:00 local, trading week resets Sunday 18:00
//! local, all in the exchange time zone).
//!
//! Each classifier returns `None` exactly when the time-zone database cannot
//! resolve the anchor instant (or, for the subsession ids, when the row lies
//! outside the subsession).

use vstd::prelude::*;
use crate::calendar::{
    anchor_of_civil, civil_from_days, civil_of_day_number, day_number_of, days_from_civil,
    in_cal_range, local_civil, ny_anchor_of, ny_civil_of, valid_civil,
};

verus! {

/// The anchor of the civil date `days` days after the epoch at `hour`
/// o'clock local, or `None` when the date falls outside the calendar or the
/// zone cannot resolve the instant.
pub open spec fn spec_day_anchor(days: int, hour: int) -> Option<i64> {
    let ymd = civil_of_day_number(days);
    if valid_civil(ymd.0, ymd.1, ymd.2) {
        ny_anchor_of(ymd.0, ymd.1, ymd.2, hour)
    } else {
        None
    }
}

/// The week key of `ts`: local midnight of the Monday of the trading week
/// that `ts` falls in, where a Sunday row at or after 18:00 local already
/// belongs to the upcoming week.
pub open spec fn spec_week_start(ts: int) -> Option<i64> {
    let c = ny_civil_of(ts);
    let dn = day_number_of(c.year as int, c.month as int, c.day as int);
    let adj = if c.dow == 6 && c.hour >= 18 {
        dn - c.dow + 7
    } else {
        dn - c.dow
    };
    spec_day_anchor(adj, 0)
}

/// The session key of `ts`: the most recent 18:00 local at or before `ts`.
pub open spec fn spec_session_start(ts: int) -> Option<i64> {
    let c = ny_civil_of(ts);
    if c.hour >= 18 {
        ny_anchor_of(c.year as int, c.month as int, c.day as int, 18)
    } else {
        let dn = day_number_of(c.year as int, c.month as int, c.day as int);
        spec_day_anchor(dn - 1, 18)
    }
}

/// The overnight-subsession id of `ts`: defined exactly when the local hour
/// lies in [18,24) or [0,8), as the 18:00 local anchor that opened the
/// overnight session (and `None` when the zone cannot resolve that anchor).
pub open spec fn spec_night_session_id(ts: int) -> Option<i64> {
    let c = ny_civil_of(ts);
    if c.hour >= 18 {
        ny_anchor_of(c.year as int, c.month as int, c.day as int, 18)
    } else if c.hour < 8 {
        let dn = day_number_of(c.year as int, c.month as int, c.day as int);
        spec_day_anchor(dn - 1, 18)
    } else {
        None
    }
}

/// The day-subsession id of `ts`: defined exactly when the local hour lies
/// in [8,17), as the 08:00 local anchor of that day subsession.
pub open spec fn spec_day_session_id(ts: int) -> Option<i64> {
    let c = ny_civil_of(ts);
    if 8 <= c.hour < 17 {
        ny_anchor_of(c.year as int, c.month as int, c.day as int, 8)
    } else {
        None
    }
}

/// Whether the local hour of `ts` lies in the overnight-subsession range
/// [18,24) or [0,8).
pub open spec fn in_night_hours(ts: int) -> bool {
    ny_civil_of(ts).hour >= 18 || ny_civil_of(ts).hour < 8
}

/// Whether the local hour of `ts` lies in the day-subsession range [8,17).
pub open spec fn in_day_hours(ts: int) -> bool {
    8 <= ny_civil_of(ts).hour < 17
}

/// A subsession id is defined only inside its hour range: outside the range
/// it is `None`, and inside the range it equals the subsession's anchor.
pub proof fn lemma_subsession_membership(ts: int)
    ensures
        !in_night_hours(ts) ==> spec_night_session_id(ts) is None,
        !in_day_hours(ts) ==> spec_day_session_id(ts) is None,
        in_day_hours(ts) ==> spec_day_session_id(ts) == ny_anchor_of(
            ny_civil_of(ts).year as int,
            ny_civil_of(ts).month as int,
            ny_civil_of(ts).day as int,
            8,
        ),
{
}

/// Resolves the anchor of the date `days` days after the epoch at `hour`
/// o'clock local.
fn day_anchor(days: i64, hour: i64) -> (r: Option<i64>)
    requires
        -200_000_000 <= days <= 200_000_000,
        0 <= hour < 24,
    ensures
        r == spec_day_anchor(days as int, hour as int),
{
    let (y, m, d) = civil_from_days(days);
    if -262_143 <= y && y <= 262_142 && 1 <= m && m <= 12 && 1 <= d && d <= 31 {
        anchor_of_civil(y, m, d, hour)
    } else {
        None
    }
}

/// The week key of `ts` (see `spec_week_start`).
pub fn week_start(ts: i64) -> (r: Option<i64>)
    requires
        in_cal_range(ts as int),
    ensures
        r == spec_week_start(ts as int),
{
    let c = local_civil(ts);
    let dn = days_from_civil(c.year as i64, c.month as i64, c.day as i64);
    let adj: i64 = if c.dow == 6 && c.hour >= 18 {
        dn - (c.dow as i64) + 7
    } else {
        dn - (c.dow as i64)
    };
    day_anchor(adj, 0)
}

/// The session key of `ts` (see `spec_session_start`).
pub fn session_start(ts: i64) -> (r: Option<i64>)
    requires
        in_cal_range(ts as int),
    ensures
        r == spec_session_start(ts as int),
{
    let c = local_civil(ts);
    if c.hour >= 18 {
        anchor_of_civil(c.year as i64, c.month as i64, c.day as i64, 18)
    } else {
        let dn = days_from_civil(c.year as i64, c.month as i64, c.day as i64);
        day_anchor(dn - 1, 18)
    }
}

/// The overnight-subsession id of `ts` (see `spec_night_session_id`).
pub fn night_session_id(ts: i64) -> (r: Option<i64>)
    requires
        in_cal_range(ts as int),
    ensures
        r == spec_night_session_id(ts as int),
{
    let c = local_civil(ts);
    if c.hour >= 18 {
        anchor_of_civil(c.year as i64, c.month as i64, c.day as i64, 18)
    } else if c.hour < 8 {
        let dn = days_from_civil(c.year as i64, c.month as i64, c.day as i64);
        day_anchor(dn - 1, 18)
    } else {
        None
    }
}

/// The day-subsession id of `ts` (see `spec_day_session_id`).
pub fn day_session_id(ts: i64) -> (r: Option<i64>)
    requires
        in_cal_range(ts as int),
    ensures
        r == spec_day_session_id(ts as int),
{
    let c = local_civil(ts);
    if 8 <= c.hour && c.hour < 17 {
        anchor_of_civil(c.year as i64, c.month as i64, c.day as i64, 8)
    } else {
        None
    }
}

} // verus!
