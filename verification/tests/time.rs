use domain_registry::time::{Timestamp, NANOS_PER_SEC};

#[test]
fn nanos_per_sec_is_a_billion() {
    assert_eq!(NANOS_PER_SEC, 1_000_000_000);
}

#[test]
fn from_parts_counts_nanoseconds() {
    assert_eq!(Timestamp::from_parts(0, 0).nanos, 0);
    assert_eq!(Timestamp::from_parts(0, 999_999_999).nanos, 999_999_999);
    assert_eq!(Timestamp::from_parts(3, 5).nanos, 3_000_000_005);
    assert_eq!(Timestamp::from_parts(1, 2_000_000_000).nanos, 3_000_000_000);
    assert_eq!(Timestamp::from_parts(18_446_744_073, 709_551_615).nanos, u64::MAX);
}

#[test]
fn from_parts_saturates_at_the_end_of_the_range() {
    assert_eq!(Timestamp::from_parts(18_446_744_073, 709_551_616).nanos, u64::MAX);
    assert_eq!(Timestamp::from_parts(18_446_744_074, 0).nanos, u64::MAX);
    assert_eq!(Timestamp::from_parts(u64::MAX, u32::MAX).nanos, u64::MAX);
}
