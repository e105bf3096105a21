use chrono::TimeZone;
use dataloader::indicators::enrich_indicators;
use dataloader::table::OhlcvTable;
use dataloader::{DataError, PRICE_SCALE};

fn ny_ms(y: i32, mo: u32, d: u32, h: u32, mi: u32, s: u32) -> i64 {
    chrono_tz::America::New_York
        .with_ymd_and_hms(y, mo, d, h, mi, s)
        .unwrap()
        .with_timezone(&chrono::Utc)
        .timestamp_millis()
}

#[test]
fn test_indicators_added() {
    let n = 15usize;
    let timestamp: Vec<i64> = (1..=15).collect();
    let open = vec![PRICE_SCALE; n];
    let high = vec![2 * PRICE_SCALE; n];
    let low = vec![PRICE_SCALE / 2; n];
    let close: Vec<i64> = (1..=15).map(|v: i64| v * PRICE_SCALE).collect();
    let volume = vec![100u64; n];
    let table = OhlcvTable::new(timestamp, open, high, low, close, volume).unwrap();
    let out = enrich_indicators(table).unwrap();
    assert_eq!(out.height(), n);
    assert_eq!(out.vwap.len(), n);
    assert_eq!(out.vwapn.len(), n);
    assert_eq!(out.vwapd.len(), n);
    assert_eq!(out.ema_9.len(), n);
    assert_eq!(out.ema_14.len(), n);
    assert_eq!(out.ema_21.len(), n);
    assert_eq!(out.rsi_14_ema.len(), n);
    assert_eq!(out.rsi_14_wilder.len(), n);
    assert_eq!(out.atr_14.len(), n);
}

#[test]
fn test_weekly_reset_and_sessions() {
    let ts = vec![
        ny_ms(2024, 5, 17, 16, 0, 0),
        ny_ms(2024, 5, 17, 17, 0, 0),
        ny_ms(2024, 5, 19, 18, 0, 0),
        ny_ms(2024, 5, 19, 19, 0, 0),
        ny_ms(2024, 5, 20, 9, 0, 0),
    ];
    let close: Vec<i64> = (1..=5).map(|v: i64| v * PRICE_SCALE).collect();
    let open = close.clone();
    let high: Vec<i64> = close.iter().map(|v| v + PRICE_SCALE / 10).collect();
    let low: Vec<i64> = close.iter().map(|v| v - PRICE_SCALE / 10).collect();
    let volume = vec![1u64; 5];
    let table = OhlcvTable::new(ts, open, high, low, close.clone(), volume).unwrap();
    let out = enrich_indicators(table).unwrap();
    // Sunday 18:00 opens a new trading week: the EMA reseeds with the raw close.
    assert_eq!(out.ema_9[2], close[2]);
    // Sunday 18:00 lies in the overnight subsession, not the day subsession.
    assert!(out.vwapn[2].is_some() && out.vwapd[2].is_none());
    // Monday 09:00 lies in the day subsession, not the overnight one.
    assert!(out.vwapd[4].is_some() && out.vwapn[4].is_none());
}

#[test]
fn rsi_extremes_and_range() {
    // Rising closes in one week: no losses, so both RSI variants peg at 100.
    let n = 20usize;
    let base = ny_ms(2024, 5, 14, 9, 0, 0);
    let timestamp: Vec<i64> = (0..n as i64).map(|i| base + i * 60_000).collect();
    let close: Vec<i64> = (1..=n as i64).map(|v| v * PRICE_SCALE).collect();
    let open = close.clone();
    let high: Vec<i64> = close.iter().map(|v| v + 1).collect();
    let low: Vec<i64> = close.iter().map(|v| v - 1).collect();
    let volume = vec![5u64; n];
    let table = OhlcvTable::new(timestamp, open, high, low, close, volume).unwrap();
    let out = enrich_indicators(table).unwrap();
    for i in 0..n {
        assert_eq!(out.rsi_14_ema[i], 100 * PRICE_SCALE);
        assert!(out.rsi_14_ema[i] >= 0 && out.rsi_14_ema[i] <= 100 * PRICE_SCALE);
        if let Some(w) = out.rsi_14_wilder[i] {
            assert_eq!(w, 100 * PRICE_SCALE);
        }
    }
    // Warm-up: the Wilder variant is undefined before the 14th row of the week.
    assert!(out.rsi_14_wilder[12].is_none());
    assert!(out.rsi_14_wilder[13].is_some());
}

#[test]
fn rsi_all_losses_is_zero() {
    // Falling closes in one week: no gains, so the EMA-variant RSI is 0
    // from the second row on.
    let n = 5usize;
    let base = ny_ms(2024, 5, 14, 9, 0, 0);
    let timestamp: Vec<i64> = (0..n as i64).map(|i| base + i * 60_000).collect();
    let close: Vec<i64> = (0..n as i64).map(|v| (100 - v) * PRICE_SCALE).collect();
    let open = close.clone();
    let high = close.clone();
    let low = close.clone();
    let volume = vec![1u64; n];
    let table = OhlcvTable::new(timestamp, open, high, low, close, volume).unwrap();
    let out = enrich_indicators(table).unwrap();
    // Row 0 has no delta (gain = loss = 0): average loss is 0, so RSI is 100.
    assert_eq!(out.rsi_14_ema[0], 100 * PRICE_SCALE);
    for i in 1..n {
        assert_eq!(out.rsi_14_ema[i], 0);
    }
}

#[test]
fn vwap_exact_value() {
    // One row: VWAP is the typical price (h + l + c) / 3 exactly.
    let ts = vec![ny_ms(2024, 5, 14, 9, 0, 0)];
    let table = OhlcvTable::new(
        ts,
        vec![2 * PRICE_SCALE],
        vec![3 * PRICE_SCALE],
        vec![PRICE_SCALE],
        vec![2 * PRICE_SCALE],
        vec![7u64],
    )
    .unwrap();
    let out = enrich_indicators(table).unwrap();
    assert_eq!(out.vwap[0], Some(2 * PRICE_SCALE));
    // 09:00 local: day subsession only.
    assert_eq!(out.vwapd[0], Some(2 * PRICE_SCALE));
    assert_eq!(out.vwapn[0], None);
}

#[test]
fn vwap_zero_volume_is_undefined() {
    let ts = vec![ny_ms(2024, 5, 14, 9, 0, 0)];
    let table = OhlcvTable::new(
        ts,
        vec![PRICE_SCALE],
        vec![PRICE_SCALE],
        vec![PRICE_SCALE],
        vec![PRICE_SCALE],
        vec![0u64],
    )
    .unwrap();
    let out = enrich_indicators(table).unwrap();
    assert_eq!(out.vwap[0], None);
    assert_eq!(out.vwapd[0], None);
}

#[test]
fn ema_exact_recursion() {
    // Two rows, one week: ema_9 step is (2*v + 8*prev) / 10, floored.
    let base = ny_ms(2024, 5, 14, 9, 0, 0);
    let timestamp = vec![base, base + 60_000];
    let close = vec![PRICE_SCALE, 2 * PRICE_SCALE];
    let table = OhlcvTable::new(
        timestamp,
        close.clone(),
        close.clone(),
        close.clone(),
        close.clone(),
        vec![1u64, 1u64],
    )
    .unwrap();
    let out = enrich_indicators(table).unwrap();
    assert_eq!(out.ema_9[0], PRICE_SCALE);
    let expected = (2i128 * (2 * PRICE_SCALE as i128) + 8 * (PRICE_SCALE as i128)) / 10;
    assert_eq!(out.ema_9[1] as i128, expected);
}

#[test]
fn atr_warmup_and_value() {
    // Fourteen identical ranges in one week: ATR appears at row 13 and
    // equals the constant true range high - low.
    let n = 14usize;
    let base = ny_ms(2024, 5, 14, 9, 0, 0);
    let timestamp: Vec<i64> = (0..n as i64).map(|i| base + i * 60_000).collect();
    let close = vec![10 * PRICE_SCALE; n];
    let open = close.clone();
    let high = vec![11 * PRICE_SCALE; n];
    let low = vec![9 * PRICE_SCALE; n];
    let volume = vec![1u64; n];
    let table = OhlcvTable::new(timestamp, open, high, low, close, volume).unwrap();
    let out = enrich_indicators(table).unwrap();
    for i in 0..13 {
        assert!(out.atr_14[i].is_none());
    }
    assert_eq!(out.atr_14[13], Some(2 * PRICE_SCALE));
}

#[test]
fn enrich_rejects_unsorted() {
    let ts = vec![ny_ms(2024, 5, 14, 9, 1, 0), ny_ms(2024, 5, 14, 9, 0, 0)];
    let one = vec![PRICE_SCALE; 2];
    let table = OhlcvTable::new(ts, one.clone(), one.clone(), one.clone(), one, vec![1, 1])
        .unwrap();
    assert!(matches!(enrich_indicators(table), Err(DataError::NotSorted)));
}

#[test]
fn enrich_rejects_length_mismatch() {
    let table = OhlcvTable {
        timestamp: vec![0, 1],
        open: vec![1],
        high: vec![1, 1],
        low: vec![1, 1],
        close: vec![1, 1],
        volume: vec![1, 1],
    };
    assert!(matches!(enrich_indicators(table), Err(DataError::LengthMismatch)));
}

#[test]
fn enrich_rejects_out_of_range_timestamp() {
    let table = OhlcvTable {
        timestamp: vec![i64::MAX],
        open: vec![1],
        high: vec![1],
        low: vec![1],
        close: vec![1],
        volume: vec![1],
    };
    assert!(matches!(enrich_indicators(table), Err(DataError::TimestampOutOfRange)));
}

#[test]
fn enrich_rejects_oversized_price() {
    let ts = vec![ny_ms(2024, 5, 14, 9, 0, 0)];
    let table = OhlcvTable {
        timestamp: ts,
        open: vec![1],
        high: vec![i64::MAX],
        low: vec![1],
        close: vec![1],
        volume: vec![1],
    };
    assert!(matches!(enrich_indicators(table), Err(DataError::ValueOutOfBounds)));
}
