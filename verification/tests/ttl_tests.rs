use link_shorter::ttl::{convert_to_ttl, convert_to_ttl_at, ttl_expired, ttl_expired_at};

#[test]
fn ttl_absolute_from_positive_seconds() {
    assert_eq!(convert_to_ttl_at(5, 1_000), 5_001_000);
    assert_eq!(convert_to_ttl_at(60, 1_700_000_000_000_000), 1_700_000_060_000_000);
}

#[test]
fn ttl_absolute_from_zero_and_negative_seconds() {
    assert_eq!(convert_to_ttl_at(0, 42), 42);
    assert_eq!(convert_to_ttl_at(-1, 10_000_000), 9_000_000);
}

#[test]
fn ttl_absolute_saturates_instead_of_overflowing() {
    assert_eq!(convert_to_ttl_at(i64::MAX, 0), i64::MAX);
    assert_eq!(convert_to_ttl_at(i64::MAX, 1), i64::MAX);
    assert_eq!(convert_to_ttl_at(i64::MIN, 0), i64::MIN);
    assert_eq!(convert_to_ttl_at(-1, i64::MIN), i64::MIN);
}

#[test]
fn ttl_expiry_is_inclusive_at_the_instant() {
    assert!(ttl_expired_at(100, 100));
    assert!(ttl_expired_at(100, 101));
    assert!(!ttl_expired_at(100, 99));
}

#[test]
fn ttl_unparseable_instant_counts_as_expired() {
    // Far outside the range chrono can represent: treated as expired even
    // though the clock has not reached it.
    assert!(ttl_expired_at(i64::MAX, 0));
    assert!(ttl_expired(i64::MAX));
    assert!(ttl_expired_at(i64::MIN, 0));
}

#[test]
fn ttl_real_clock_behaves_like_explicit_clock() {
    // A day ahead of the real clock: not yet expired.
    let tomorrow = convert_to_ttl(86_400);
    assert!(!ttl_expired(tomorrow));
    // A second behind the real clock: already expired.
    let just_past = convert_to_ttl(-1);
    assert!(ttl_expired(just_past));
}
