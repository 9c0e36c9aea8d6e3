use lucia_vesting::amount::{checked_pow10, percent_of, scale_amount};

#[test]
fn powers_of_ten_up_to_the_limit() {
    assert_eq!(checked_pow10(0), Some(1));
    assert_eq!(checked_pow10(1), Some(10));
    assert_eq!(checked_pow10(9), Some(1_000_000_000));
    assert_eq!(checked_pow10(19), Some(10_000_000_000_000_000_000));
}

#[test]
fn powers_of_ten_beyond_the_limit() {
    assert_eq!(checked_pow10(20), None);
    assert_eq!(checked_pow10(21), None);
    assert_eq!(checked_pow10(255), None);
}

#[test]
fn scaling_multiplies_by_a_power_of_ten() {
    assert_eq!(scale_amount(1_000_000, 0), Some(1_000_000));
    assert_eq!(scale_amount(1_000_000, 6), Some(1_000_000_000_000));
    assert_eq!(scale_amount(7, 9), Some(7_000_000_000));
    assert_eq!(scale_amount(1, 19), Some(10_000_000_000_000_000_000));
}

#[test]
fn scaling_at_the_edge_of_the_range() {
    assert_eq!(scale_amount(u64::MAX, 0), Some(u64::MAX));
    assert_eq!(scale_amount(u64::MAX / 10, 1), Some(18_446_744_073_709_551_610));
    assert_eq!(scale_amount(u64::MAX / 10 + 1, 1), None);
    assert_eq!(scale_amount(18_446_744_073_709, 6), Some(18_446_744_073_709_000_000));
    assert_eq!(scale_amount(18_446_744_073_710, 6), None);
}

#[test]
fn scaling_never_wraps() {
    assert_eq!(scale_amount(2, 19), None);
    assert_eq!(scale_amount(1, 20), None);
    assert_eq!(scale_amount(u64::MAX, 1), None);
    assert_eq!(scale_amount(u64::MAX, 255), None);
    assert_eq!(scale_amount(1 << 63, 1), None);
}

#[test]
fn scaling_nothing_is_nothing() {
    assert_eq!(scale_amount(0, 0), Some(0));
    assert_eq!(scale_amount(0, 19), Some(0));
    assert_eq!(scale_amount(0, 20), Some(0));
    assert_eq!(scale_amount(0, 255), Some(0));
}

#[test]
fn percentages_truncate() {
    assert_eq!(percent_of(1_000_000, 0), 0);
    assert_eq!(percent_of(1_000_000, 10), 100_000);
    assert_eq!(percent_of(1_000_000, 100), 1_000_000);
    assert_eq!(percent_of(199, 1), 1);
    assert_eq!(percent_of(99, 1), 0);
    assert_eq!(percent_of(7, 50), 3);
    assert_eq!(percent_of(u64::MAX, 100), u64::MAX);
    assert_eq!(percent_of(u64::MAX, 99), 18_262_276_632_972_456_098);
}
