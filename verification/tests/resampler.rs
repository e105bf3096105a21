use dataloader::resampler::{bars_to_dataframe, downsample_to_5min, BUCKET_MS};
use dataloader::table::OhlcvTable;
use dataloader::{Bar, DataError};

fn bar(ts_event: i64, open: i64, high: i64, low: i64, close: i64, volume: u64) -> Bar {
    Bar {
        instrument_name: String::from("X"),
        instrument_id: 1,
        ts_event,
        open,
        high,
        low,
        close,
        volume,
    }
}

#[test]
fn test_downsample() {
    let bars = vec![
        bar(0, 1, 1, 1, 1, 1),
        bar(60_000_000_000, 1, 1, 1, 1, 1),
        bar(120_000_000_000, 1, 1, 1, 1, 1),
        bar(180_000_000_000, 1, 1, 1, 1, 1),
        bar(240_000_000_000, 1, 1, 1, 1, 1),
        bar(300_000_000_000, 1, 1, 1, 1, 1),
    ];
    let df = bars_to_dataframe(&bars);
    let down = downsample_to_5min(&df).unwrap();
    assert_eq!(down.height(), 2);
}

#[test]
fn bars_to_dataframe_scales_nanoseconds() {
    let bars = vec![bar(1_500_000, 2, 3, 1, 2, 9), bar(-1_500_000_000, 5, 6, 4, 5, 8)];
    let df = bars_to_dataframe(&bars);
    // truncating division toward zero, as a machine division would round
    assert_eq!(df.timestamp, vec![1, -1500]);
    assert_eq!(df.open, vec![2, 5]);
    assert_eq!(df.high, vec![3, 6]);
    assert_eq!(df.low, vec![1, 4]);
    assert_eq!(df.close, vec![2, 5]);
    assert_eq!(df.volume, vec![9, 8]);
}

#[test]
fn downsample_aggregates_ohlcv_exactly() {
    // Two buckets; the first has three rows, the second one row.
    let t0 = 0i64;
    let t1 = BUCKET_MS;
    let table = OhlcvTable {
        timestamp: vec![t0, t0 + 60_000, t0 + 120_000, t1 + 30_000],
        open: vec![10, 11, 12, 40],
        high: vec![15, 19, 13, 41],
        low: vec![9, 8, 12, 39],
        close: vec![11, 12, 13, 40],
        volume: vec![5, 6, 7, 8],
    };
    let down = downsample_to_5min(&table).unwrap();
    assert_eq!(down.height(), 2);
    assert_eq!(down.timestamp, vec![0, BUCKET_MS]);
    assert_eq!(down.open, vec![10, 40]); // first
    assert_eq!(down.high, vec![19, 41]); // max
    assert_eq!(down.low, vec![8, 39]); // min
    assert_eq!(down.close, vec![13, 40]); // last
    assert_eq!(down.volume, vec![18, 8]); // sum
}

#[test]
fn downsample_empty_bucket_has_no_row() {
    // Rows in buckets 0 and 2: the empty bucket 1 produces no row.
    let table = OhlcvTable {
        timestamp: vec![0, 2 * BUCKET_MS],
        open: vec![1, 2],
        high: vec![1, 2],
        low: vec![1, 2],
        close: vec![1, 2],
        volume: vec![1, 2],
    };
    let down = downsample_to_5min(&table).unwrap();
    assert_eq!(down.height(), 2);
    assert_eq!(down.timestamp, vec![0, 2 * BUCKET_MS]);
}

#[test]
fn downsample_labels_are_left_edges() {
    // A row anywhere inside [T, T + width) lands in the bucket labeled T,
    // also for negative timestamps.
    let table = OhlcvTable {
        timestamp: vec![-1, 1, BUCKET_MS - 1, BUCKET_MS],
        open: vec![1, 1, 1, 1],
        high: vec![1, 1, 1, 1],
        low: vec![1, 1, 1, 1],
        close: vec![1, 1, 1, 1],
        volume: vec![1, 1, 1, 1],
    };
    let down = downsample_to_5min(&table).unwrap();
    assert_eq!(down.timestamp, vec![-BUCKET_MS, 0, BUCKET_MS]);
    assert_eq!(down.volume, vec![1, 2, 1]);
}

#[test]
fn downsample_rejects_unsorted() {
    let table = OhlcvTable {
        timestamp: vec![1, 0],
        open: vec![1, 1],
        high: vec![1, 1],
        low: vec![1, 1],
        close: vec![1, 1],
        volume: vec![1, 1],
    };
    assert!(matches!(downsample_to_5min(&table), Err(DataError::NotSorted)));
}

#[test]
fn downsample_rejects_length_mismatch() {
    let table = OhlcvTable {
        timestamp: vec![0],
        open: vec![],
        high: vec![1],
        low: vec![1],
        close: vec![1],
        volume: vec![1],
    };
    assert!(matches!(downsample_to_5min(&table), Err(DataError::LengthMismatch)));
}

#[test]
fn downsample_rejects_volume_overflow() {
    let table = OhlcvTable {
        timestamp: vec![0, 1],
        open: vec![1, 1],
        high: vec![1, 1],
        low: vec![1, 1],
        close: vec![1, 1],
        volume: vec![u64::MAX, 1],
    };
    assert!(matches!(downsample_to_5min(&table), Err(DataError::ValueOutOfBounds)));
}
