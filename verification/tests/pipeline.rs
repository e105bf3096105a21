use chrono::TimeZone;
use dataloader::indicators::enrich_indicators;
use dataloader::resampler::{bars_to_dataframe, downsample_to_5min};
use dataloader::stitcher::{stitch_contracts, ContractWindow};
use dataloader::{Bar, PRICE_SCALE};

#[test]
fn pipeline_core_smoke() {
    // One hour of one-minute bars: resample to five-minute buckets, enrich,
    // wrap in a single all-covering window and stitch; every stage must
    // agree on the row count.
    let base_ms = chrono_tz::America::New_York
        .with_ymd_and_hms(2024, 5, 14, 9, 0, 0)
        .unwrap()
        .with_timezone(&chrono::Utc)
        .timestamp_millis();
    let mut bars = Vec::new();
    for i in 0..60i64 {
        bars.push(Bar {
            instrument_name: String::from("CL"),
            instrument_id: 1,
            ts_event: (base_ms + i * 60_000) * 1_000_000,
            open: 70 * PRICE_SCALE,
            high: 71 * PRICE_SCALE,
            low: 69 * PRICE_SCALE,
            close: 70 * PRICE_SCALE + i,
            volume: 10,
        });
    }
    let table = bars_to_dataframe(&bars);
    assert_eq!(table.height(), 60);
    let five_min = downsample_to_5min(&table).unwrap();
    assert_eq!(five_min.height(), 12);
    // Each bucket sums the volume of its five one-minute bars.
    assert!(five_min.volume.iter().all(|&v| v == 50));
    let enriched = enrich_indicators(five_min).unwrap();
    assert_eq!(enriched.height(), 12);
    let window = ContractWindow {
        name: String::from("test"),
        table: enriched,
        start_ts: 0,
        end_ts: i64::MAX,
    };
    let stitched = stitch_contracts(&vec![window]).unwrap();
    assert_eq!(stitched.height(), 12);
    assert!(stitched.contract.iter().all(|c| c == "test"));
}
