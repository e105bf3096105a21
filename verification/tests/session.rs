use chrono::TimeZone;
use dataloader::session::{day_session_id, night_session_id, session_start, week_start};

fn ny_ms(y: i32, mo: u32, d: u32, h: u32, mi: u32, s: u32) -> i64 {
    chrono_tz::America::New_York
        .with_ymd_and_hms(y, mo, d, h, mi, s)
        .unwrap()
        .with_timezone(&chrono::Utc)
        .timestamp_millis()
}

#[test]
fn week_start_is_monday_midnight() {
    // Wednesday noon belongs to the week of the preceding Monday.
    let ts = ny_ms(2024, 5, 15, 12, 0, 0);
    assert_eq!(week_start(ts), Some(ny_ms(2024, 5, 13, 0, 0, 0)));
}

#[test]
fn week_start_sunday_evening_rolls_forward() {
    // Sunday 17:59 still belongs to the ending week; 18:00 opens the next.
    let before = ny_ms(2024, 5, 19, 17, 59, 59);
    let after = ny_ms(2024, 5, 19, 18, 0, 0);
    assert_eq!(week_start(before), Some(ny_ms(2024, 5, 13, 0, 0, 0)));
    assert_eq!(week_start(after), Some(ny_ms(2024, 5, 20, 0, 0, 0)));
}

#[test]
fn session_start_rolls_at_six_pm() {
    // 17:59 belongs to the session opened the previous day at 18:00.
    assert_eq!(
        session_start(ny_ms(2024, 5, 15, 17, 59, 0)),
        Some(ny_ms(2024, 5, 14, 18, 0, 0))
    );
    // 18:00 opens the same day's session.
    assert_eq!(
        session_start(ny_ms(2024, 5, 15, 18, 0, 0)),
        Some(ny_ms(2024, 5, 15, 18, 0, 0))
    );
}

#[test]
fn session_start_across_dst_spring_forward() {
    // 2024-03-10 03:00 EDT (after the 02:00 jump): the session anchor is
    // the previous day's 18:00 EST, across the transition.
    assert_eq!(
        session_start(ny_ms(2024, 3, 10, 3, 0, 0)),
        Some(ny_ms(2024, 3, 9, 18, 0, 0))
    );
}

#[test]
fn session_start_across_dst_fall_back() {
    // 2024-11-03 noon EST (after the clocks fell back): the session anchor
    // is the previous day's 18:00 EDT, across the transition.
    assert_eq!(
        session_start(ny_ms(2024, 11, 3, 12, 0, 0)),
        Some(ny_ms(2024, 11, 2, 18, 0, 0))
    );
}

#[test]
fn night_session_hours() {
    // [18,24) and [0,8) are overnight; the anchor is that session's 18:00.
    let evening = ny_ms(2024, 5, 15, 21, 0, 0);
    let morning = ny_ms(2024, 5, 16, 7, 59, 59);
    let anchor = ny_ms(2024, 5, 15, 18, 0, 0);
    assert_eq!(night_session_id(evening), Some(anchor));
    assert_eq!(night_session_id(morning), Some(anchor));
    // 08:00 and 17:00 fall outside the overnight range.
    assert_eq!(night_session_id(ny_ms(2024, 5, 16, 8, 0, 0)), None);
    assert_eq!(night_session_id(ny_ms(2024, 5, 16, 12, 0, 0)), None);
}

#[test]
fn day_session_hours() {
    // [8,17) is the day subsession; the anchor is that day's 08:00.
    let anchor = ny_ms(2024, 5, 16, 8, 0, 0);
    assert_eq!(day_session_id(ny_ms(2024, 5, 16, 8, 0, 0)), Some(anchor));
    assert_eq!(day_session_id(ny_ms(2024, 5, 16, 16, 59, 59)), Some(anchor));
    assert_eq!(day_session_id(ny_ms(2024, 5, 16, 17, 0, 0)), None);
    assert_eq!(day_session_id(ny_ms(2024, 5, 16, 7, 59, 59)), None);
}
