use dataloader::smoothing::{ema_grouped, rma_grouped};

#[test]
fn ema_seeds_on_every_group_change() {
    // Keys change at rows 0, 2 and 4: the EMA equals the raw value there.
    let values = vec![10, 20, 30, 40, 50];
    let keys = vec![1, 1, 2, 2, 3];
    let out = ema_grouped(&values, 9, &keys);
    assert_eq!(out.len(), 5);
    assert_eq!(out[0], 10);
    assert_eq!(out[2], 30);
    assert_eq!(out[4], 50);
    // Inside a group the recursion applies: (2*v + 8*prev) / 10, floored.
    assert_eq!(out[1], (2 * 20 + 8 * 10) / 10);
    assert_eq!(out[3], (2 * 40 + 8 * 30) / 10);
}

#[test]
fn ema_empty_input() {
    let out = ema_grouped(&vec![], 9, &vec![]);
    assert!(out.is_empty());
}

#[test]
fn rma_warmup_then_mean_then_recursion() {
    let values = vec![3, 6, 9, 12];
    let keys = vec![7, 7, 7, 7];
    let out = rma_grouped(&values, 3, &keys);
    // Undefined for the first p - 1 rows of the group.
    assert_eq!(out[0], None);
    assert_eq!(out[1], None);
    // At row p: the simple mean of the group's first p values.
    assert_eq!(out[2], Some((3 + 6 + 9) / 3));
    // Afterwards: avg = (avg * (p - 1) + v) / p, floored.
    assert_eq!(out[3], Some((6 * 2 + 12) / 3));
}

#[test]
fn rma_resets_on_group_change() {
    let values = vec![3, 6, 9, 100, 200];
    let keys = vec![1, 1, 1, 2, 2];
    let out = rma_grouped(&values, 3, &keys);
    assert_eq!(out[2], Some(6));
    // The new group restarts its warm-up from zero rows seen.
    assert_eq!(out[3], None);
    assert_eq!(out[4], None);
}

#[test]
fn rma_mean_rounds_toward_negative_infinity() {
    let values = vec![-1, -2];
    let keys = vec![1, 1];
    let out = rma_grouped(&values, 2, &keys);
    // (-1 + -2) / 2 floored is -2, not -1.
    assert_eq!(out[1], Some(-2));
}
