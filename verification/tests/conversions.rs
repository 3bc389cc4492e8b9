use gcm_exporter::{
    checked_timestamp_from_epoch_nanos, timestamp_from_epoch_nanos, ToI64,
};

#[test]
fn test_u64_to_i64_saturates_at_max() {
    assert_eq!(u64::MAX.to_i64(), i64::MAX);
    assert_eq!((i64::MAX as u64 + 1).to_i64(), i64::MAX);
    assert_eq!((i64::MAX as u64).to_i64(), i64::MAX);
    assert_eq!(7u64.to_i64(), 7i64);
    assert_eq!(0u64.to_i64(), 0i64);
}

#[test]
fn test_i64_to_i64_is_identity() {
    assert_eq!((-5i64).to_i64(), -5i64);
    assert_eq!(i64::MIN.to_i64(), i64::MIN);
    assert_eq!(i64::MAX.to_i64(), i64::MAX);
}

#[test]
fn test_timestamp_split() {
    let t = timestamp_from_epoch_nanos(1_723_249_032_972_447_000u128);
    assert_eq!(t.seconds, 1_723_249_032);
    assert_eq!(t.nanos, 972_447_000);
}

#[test]
fn test_timestamp_at_epoch_is_zero() {
    // the clamped representation of any pre-epoch instant
    let t = timestamp_from_epoch_nanos(0);
    assert_eq!(t.seconds, 0);
    assert_eq!(t.nanos, 0);
}

#[test]
fn test_timestamp_sub_second() {
    let t = timestamp_from_epoch_nanos(999_999_999);
    assert_eq!(t.seconds, 0);
    assert_eq!(t.nanos, 999_999_999);
}

#[test]
fn test_checked_timestamp_overflow() {
    let limit: u128 = (i64::MAX as u128) * 1_000_000_000 + 999_999_999;
    assert!(checked_timestamp_from_epoch_nanos(limit).is_some());
    assert!(checked_timestamp_from_epoch_nanos(limit + 1).is_none());
    let t = checked_timestamp_from_epoch_nanos(1_500_000_000u128).unwrap();
    assert_eq!(t.seconds, 1);
    assert_eq!(t.nanos, 500_000_000);
}
