use minitop::history::HistoricalMetric;

#[test]
fn window_keeps_last_capacity_values() {
    let mut h = HistoricalMetric::new(0u64, 3);
    for v in [10u64, 20, 30, 40] {
        h.update(v);
    }
    assert_eq!(h.get_values(), vec![20, 30, 40]);
    assert_eq!(h.current_value(), 40);
}

#[test]
fn window_never_exceeds_capacity() {
    let mut h = HistoricalMetric::new(0u64, 4);
    for v in 0u64..50 {
        h.update(v);
        assert!(h.get_values().len() <= 4);
    }
    assert_eq!(h.get_values(), vec![46, 47, 48, 49]);
}

#[test]
fn window_shorter_than_capacity_keeps_everything() {
    let mut h = HistoricalMetric::new(7u64, 5);
    assert_eq!(h.get_values(), Vec::<u64>::new());
    assert_eq!(h.current_value(), 7);
    h.update(1);
    h.update(2);
    assert_eq!(h.get_values(), vec![1, 2]);
    assert_eq!(h.max_history_length(), 5);
}

#[test]
fn zero_capacity_keeps_only_current() {
    let mut h = HistoricalMetric::new(0u64, 0);
    h.update(9);
    assert_eq!(h.get_values(), Vec::<u64>::new());
    assert_eq!(h.current_value(), 9);
}

#[test]
fn snapshot_does_not_alias_live_window() {
    let mut h = HistoricalMetric::new(0u64, 2);
    h.update(1);
    let snap = h.get_values();
    h.update(2);
    h.update(3);
    assert_eq!(snap, vec![1]);
    assert_eq!(h.get_values(), vec![2, 3]);
}
