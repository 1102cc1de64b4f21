use ls2k1000la::rtc::datetime_to_unix_timestamp;

#[test]
fn toy_decodes_wall_time_to_unix_timestamp() {
    ls2k1000la::rtc::test();
}

#[test]
fn toy_rejects_invalid_zero_timestamp() {
    assert!(datetime_to_unix_timestamp(1969, 1, 1, 0, 0, 0).is_none());
}

#[test]
fn converts_known_wall_times() {
    assert_eq!(datetime_to_unix_timestamp(1970, 1, 1, 0, 0, 0), Some(0));
    assert_eq!(datetime_to_unix_timestamp(2025, 6, 12, 8, 34, 56), Some(1_749_717_296_000_000_000));
    assert_eq!(datetime_to_unix_timestamp(2000, 3, 1, 0, 0, 0), Some(951_868_800_000_000_000));
    assert_eq!(datetime_to_unix_timestamp(2024, 2, 29, 23, 59, 59), Some(1_709_251_199_000_000_000));
}

#[test]
fn rejects_impossible_fields() {
    assert!(datetime_to_unix_timestamp(2023, 2, 29, 0, 0, 0).is_none());
    assert!(datetime_to_unix_timestamp(1900 + 125, 4, 31, 0, 0, 0).is_none());
    assert!(datetime_to_unix_timestamp(2025, 0, 1, 0, 0, 0).is_none());
    assert!(datetime_to_unix_timestamp(2025, 13, 1, 0, 0, 0).is_none());
    assert!(datetime_to_unix_timestamp(2025, 1, 0, 0, 0, 0).is_none());
    assert!(datetime_to_unix_timestamp(2025, 1, 1, 24, 0, 0).is_none());
    assert!(datetime_to_unix_timestamp(2025, 1, 1, 0, 60, 0).is_none());
    assert!(datetime_to_unix_timestamp(2025, 1, 1, 0, 0, 60).is_none());
}
