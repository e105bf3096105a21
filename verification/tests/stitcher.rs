use dataloader::stitcher::{rollover_windows, stitch_contracts, truncate_contract, ContractWindow};
use dataloader::table::{EnrichedTable, OhlcvTable};
use dataloader::DataError;

fn enriched(ts: Vec<i64>) -> EnrichedTable {
    let n = ts.len();
    EnrichedTable {
        base: OhlcvTable {
            timestamp: ts,
            open: vec![1; n],
            high: vec![1; n],
            low: vec![1; n],
            close: vec![1; n],
            volume: vec![1; n],
        },
        vwap: vec![None; n],
        vwapn: vec![None; n],
        vwapd: vec![None; n],
        ema_9: vec![0; n],
        ema_14: vec![0; n],
        ema_21: vec![0; n],
        rsi_14_ema: vec![0; n],
        rsi_14_wilder: vec![None; n],
        atr_14: vec![None; n],
    }
}

#[test]
fn test_stitch() {
    let windows = vec![
        ContractWindow {
            name: String::from("A"),
            table: enriched(vec![1, 2, 3]),
            start_ts: 1,
            end_ts: 4,
        },
        ContractWindow {
            name: String::from("B"),
            table: enriched(vec![4, 5, 6]),
            start_ts: 4,
            end_ts: 7,
        },
    ];
    let stitched = stitch_contracts(&windows).unwrap();
    assert_eq!(stitched.height(), 6);
    assert_eq!(stitched.contract.len(), 6);
}

#[test]
fn truncate_keeps_only_window_rows_and_tags_them() {
    let w = ContractWindow {
        name: String::from("CLF3"),
        table: enriched(vec![10, 20, 30, 40]),
        start_ts: 20,
        end_ts: 40,
    };
    let out = truncate_contract(&w).unwrap();
    assert_eq!(out.table.base.timestamp, vec![20, 30]);
    assert_eq!(out.contract.len(), 2);
    assert_eq!(out.contract[0], "CLF3");
    assert_eq!(out.contract[1], "CLF3");
}

#[test]
fn stitch_row_count_is_sum_of_filtered_counts() {
    let windows = vec![
        ContractWindow {
            name: String::from("A"),
            table: enriched(vec![1, 2, 3, 4]),
            start_ts: 2,
            end_ts: 4,
        },
        ContractWindow {
            name: String::from("B"),
            table: enriched(vec![4, 5, 6]),
            start_ts: 4,
            end_ts: 6,
        },
        ContractWindow {
            name: String::from("C"),
            table: enriched(vec![7, 8]),
            start_ts: 100,
            end_ts: 200,
        },
    ];
    let stitched = stitch_contracts(&windows).unwrap();
    // 2 rows from A, 2 from B, 0 from C
    assert_eq!(stitched.height(), 4);
    assert_eq!(stitched.table.base.timestamp, vec![2, 3, 4, 5]);
    assert_eq!(stitched.contract, vec!["A", "A", "B", "B"]);
}

#[test]
fn stitch_preserves_supplied_order() {
    // The stitcher concatenates in the order given; it does not sort.
    let windows = vec![
        ContractWindow {
            name: String::from("late"),
            table: enriched(vec![100]),
            start_ts: 0,
            end_ts: 200,
        },
        ContractWindow {
            name: String::from("early"),
            table: enriched(vec![1]),
            start_ts: 0,
            end_ts: 200,
        },
    ];
    let stitched = stitch_contracts(&windows).unwrap();
    assert_eq!(stitched.table.base.timestamp, vec![100, 1]);
    assert_eq!(stitched.contract, vec!["late", "early"]);
}

#[test]
fn stitch_rejects_malformed_window() {
    let mut bad = enriched(vec![1, 2]);
    bad.vwap = vec![None];
    let windows = vec![ContractWindow {
        name: String::from("A"),
        table: bad,
        start_ts: 0,
        end_ts: 10,
    }];
    assert!(matches!(stitch_contracts(&windows), Err(DataError::LengthMismatch)));
}

#[test]
fn rollover_windows_are_chronological() {
    let w = rollover_windows();
    assert_eq!(w.len(), 4);
    assert_eq!(w[0].0, "2022-11-11_2022-12-20_CLF3_ohlcv1m");
    assert_eq!(w[0].1, 1668466800000);
    assert_eq!(w[0].2, 1671055140000);
    assert_eq!(w[3].0, "2023-02-10_2023-03-21_CLJ3_ohlcv1m");
    for j in 0..w.len() {
        assert!(w[j].1 < w[j].2);
    }
    for j in 0..w.len() - 1 {
        assert!(w[j].2 <= w[j + 1].1);
    }
}
