use keccak_cache::{
    flush, input_size_bucket, record_bypass, record_cacheable, snapshot, GlobalMetrics,
    KeccakCacheMetricsSnapshot, LocalMetrics, FLUSH_INTERVAL, INPUT_SIZE_BUCKETS, MAX_INPUT_LEN,
};

#[test]
fn lengths_fall_into_four_buckets() {
    assert_eq!(INPUT_SIZE_BUCKETS, 4);
    for (len, bucket) in [
        (0, 0),
        (1, 0),
        (16, 0),
        (17, 1),
        (32, 1),
        (33, 2),
        (64, 2),
        (65, 3),
        (MAX_INPUT_LEN, 3),
        (usize::MAX, 3),
    ] {
        assert_eq!(input_size_bucket(len), bucket);
    }
}

#[test]
fn events_are_counted_by_kind_and_length() {
    let mut local = LocalMetrics::new();
    let mut totals = GlobalMetrics::new();
    record_cacheable(&mut local, &mut totals, 1, false);
    record_cacheable(&mut local, &mut totals, 17, false);
    record_cacheable(&mut local, &mut totals, 17, true);
    record_cacheable(&mut local, &mut totals, 64, true);
    record_cacheable(&mut local, &mut totals, 65, true);
    record_bypass(&mut local, &mut totals, 0);
    record_bypass(&mut local, &mut totals, MAX_INPUT_LEN + 1);
    record_bypass(&mut local, &mut totals, MAX_INPUT_LEN + 2);
    assert_eq!(snapshot(&totals), KeccakCacheMetricsSnapshot::default());

    flush(&mut local, &mut totals);
    let expected = KeccakCacheMetricsSnapshot {
        hits_by_input_size: [1, 1, 0, 0],
        misses_by_input_size: [0, 1, 1, 1],
        empty_bypasses: 1,
        oversized_bypasses: 2,
    };
    assert_eq!(snapshot(&totals), expected);

    // Nothing is pending any more.
    flush(&mut local, &mut totals);
    assert_eq!(snapshot(&totals), expected);
}

#[test]
fn counts_are_added_to_the_totals_at_the_interval() {
    let mut local = LocalMetrics::default();
    let mut totals = GlobalMetrics::new();
    for _ in 1..FLUSH_INTERVAL {
        record_cacheable(&mut local, &mut totals, 40, false);
    }
    assert_eq!(snapshot(&totals).hits_by_input_size, [0, 0, 0, 0]);
    record_bypass(&mut local, &mut totals, 0);
    assert_eq!(snapshot(&totals).hits_by_input_size, [0, 0, 1023, 0]);
    assert_eq!(snapshot(&totals).empty_bypasses, 1);

    for _ in 0..FLUSH_INTERVAL {
        record_cacheable(&mut local, &mut totals, 40, true);
    }
    assert_eq!(snapshot(&totals).hits_by_input_size, [0, 0, 1023, 0]);
    assert_eq!(snapshot(&totals).misses_by_input_size, [0, 0, 1024, 0]);
}

#[test]
fn two_threads_add_to_the_same_totals() {
    let mut one = LocalMetrics::new();
    let mut two = LocalMetrics::new();
    let mut totals = GlobalMetrics::new();
    for _ in 0..1_500 {
        record_cacheable(&mut one, &mut totals, 10, true);
        record_cacheable(&mut two, &mut totals, 20, true);
    }
    assert_eq!(snapshot(&totals).misses_by_input_size, [1024, 1024, 0, 0]);
    flush(&mut one, &mut totals);
    flush(&mut two, &mut totals);
    assert_eq!(snapshot(&totals).misses_by_input_size, [1500, 1500, 0, 0]);
}
