use gw_psc::since::{
    greater_since, LockValue, Since, LOCK_BY_EPOCH_MASK, LOCK_BY_TIMESTAMP_MASK, LOCK_TYPE_FLAG,
    MAX_TIMESTAMP_MILLIS, VALUE_MASK,
};

#[test]
fn test_greater_since() {
    for t in [0, 999, 1000, 1500, 2000, u64::MAX / 1000 * 1000 - 1] {
        let since_t = greater_since(t)
            .extract_lock_value()
            .unwrap()
            .timestamp()
            .unwrap();
        assert!(since_t > t);
        assert!(since_t.saturating_sub(1000) <= t);
    }
}

#[test]
fn greater_since_is_next_whole_second() {
    let cases: [(u64, u64); 6] = [
        (0, 1000),
        (1, 1000),
        (999, 1000),
        (1000, 2000),
        (1500, 2000),
        (1_700_000_000_500, 1_700_000_001_000),
    ];
    for (t, want) in cases {
        let since = greater_since(t);
        assert_eq!(since.as_u64(), LOCK_BY_TIMESTAMP_MASK | (t / 1000 + 1));
        assert_eq!(
            since.extract_lock_value(),
            Some(LockValue::Timestamp(want))
        );
        assert!(since.is_absolute());
        assert!(!since.is_relative());
    }
}

#[test]
fn greater_since_window_holds_near_the_top() {
    for t in [
        u64::MAX - 1001,
        u64::MAX - 2000,
        MAX_TIMESTAMP_MILLIS,
        MAX_TIMESTAMP_MILLIS - 999,
        MAX_TIMESTAMP_MILLIS - 1000,
    ] {
        let ms = greater_since(t)
            .extract_lock_value()
            .unwrap()
            .timestamp()
            .unwrap();
        assert!(ms > t);
        assert!(ms - t <= 1000);
        assert!(ms - t >= 1);
    }
}

#[test]
fn since_decodes_each_metric() {
    assert_eq!(
        Since::new(42).extract_lock_value(),
        Some(LockValue::BlockNumber(42))
    );
    assert_eq!(
        Since::new(LOCK_BY_EPOCH_MASK | 7).extract_lock_value(),
        Some(LockValue::EpochNumberWithFraction(7))
    );
    assert_eq!(
        Since::new_timestamp_seconds(3).extract_lock_value(),
        Some(LockValue::Timestamp(3000))
    );
    assert_eq!(Since::new(0x6000_0000_0000_0000).extract_lock_value(), None);
    assert!(Since::new(LOCK_TYPE_FLAG | 5).is_relative());
    assert_eq!(
        Since::new(LOCK_TYPE_FLAG | 5).extract_lock_value(),
        Some(LockValue::BlockNumber(5))
    );
    assert_eq!(LockValue::BlockNumber(9).timestamp(), None);
    assert_eq!(LockValue::BlockNumber(9).block_number(), Some(9));
    assert_eq!(LockValue::Timestamp(9).block_number(), None);
    assert_eq!(Since::new_timestamp_seconds(VALUE_MASK).as_u64() & VALUE_MASK, VALUE_MASK);
}
