use nvsmi_gui::history::{MetricHistory, HISTORY_LEN};

#[test]
fn history_starts_empty() {
    let h = MetricHistory::new();
    assert_eq!(h.len(), 0);
    assert_eq!(h.capacity(), HISTORY_LEN);
    assert!(h.values().is_empty());
}

#[test]
fn history_below_capacity_keeps_everything() {
    let mut h = MetricHistory::new();
    for t in [40u64, 41, 42] {
        h.push(t);
    }
    assert_eq!(h.len(), 3);
    assert_eq!(h.values(), vec![40, 41, 42]);
}

#[test]
fn history_keeps_last_capacity_values_in_push_order() {
    let mut h = MetricHistory::new();
    let n = HISTORY_LEN as u64 + 3;
    for v in 0..n {
        h.push(v);
    }
    assert_eq!(h.len(), HISTORY_LEN);
    let expected: Vec<u64> = (3..n).collect();
    assert_eq!(h.values(), expected);
}

#[test]
fn history_drops_oldest_once_full() {
    let mut h = MetricHistory::new();
    h.push(40);
    for _ in 0..HISTORY_LEN - 2 {
        h.push(7);
    }
    h.push(41);
    assert_eq!(h.len(), HISTORY_LEN);
    assert_eq!(h.values()[0], 40);
    h.push(42);
    let v = h.values();
    assert_eq!(v.len(), HISTORY_LEN);
    assert_eq!(v[0], 7);
    assert_eq!(&v[HISTORY_LEN - 2..], &[41, 42]);
}

#[test]
fn history_exactly_full() {
    let mut h = MetricHistory::new();
    for v in 0..HISTORY_LEN as u64 {
        h.push(v);
    }
    assert_eq!(h.len(), HISTORY_LEN);
    assert_eq!(h.values()[0], 0);
    assert_eq!(h.values()[HISTORY_LEN - 1], HISTORY_LEN as u64 - 1);
}
