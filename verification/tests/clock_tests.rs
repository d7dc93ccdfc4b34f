use solar_wind::clock::epoch_seconds_of;

#[test]
fn after_epoch_reads_the_seconds() {
    assert_eq!(epoch_seconds_of(false, 0, 0), 0);
    assert_eq!(epoch_seconds_of(false, 1704067200, 999_999_999), 1704067200);
}

#[test]
fn before_epoch_reads_negated_seconds() {
    assert_eq!(epoch_seconds_of(true, 100, 0), -100);
}

#[test]
fn before_epoch_fractions_round_toward_earlier() {
    // Half a second before the epoch is within second -1.
    assert_eq!(epoch_seconds_of(true, 0, 500_000_000), -1);
    assert_eq!(epoch_seconds_of(true, 100, 1), -101);
}

#[test]
fn distances_beyond_the_range_saturate() {
    assert_eq!(epoch_seconds_of(false, u64::MAX, 0), i64::MAX);
    assert_eq!(epoch_seconds_of(true, u64::MAX, 0), i64::MIN);
    assert_eq!(epoch_seconds_of(true, i64::MAX as u64, 1), i64::MIN);
    assert_eq!(epoch_seconds_of(true, i64::MAX as u64, 0), -i64::MAX);
}
