use lending::shares::shares_to_value;
use lending::shares::value_per_share;
use lending::shares::value_to_shares;
use lending::LendingError;

#[test]
fn price_truncates_toward_zero() {
    assert_eq!(value_per_share(10, 3), Ok(3));
    assert_eq!(value_per_share(0, 3), Ok(0));
    assert_eq!(value_per_share(7, 10), Ok(0));
}

#[test]
fn price_of_empty_pool_fails() {
    assert_eq!(value_per_share(1_000_000, 0), Err(LendingError::PoolEmpty));
    assert_eq!(value_per_share(0, 0), Err(LendingError::PoolEmpty));
}

#[test]
fn price_never_overstates_value() {
    // Truncation law on concrete values: vps * total_shares <= total_value.
    let vps = value_per_share(10, 3).unwrap();
    assert!(vps * 3 <= 10);
    let vps = value_per_share(999_999, 1_000).unwrap();
    assert!(vps * 1_000 <= 999_999);
}

#[test]
fn conversions_truncate() {
    assert_eq!(shares_to_value(5, 7), Ok(35));
    assert_eq!(value_to_shares(34, 7), 4);
    assert_eq!(value_to_shares(35, 7), 5);
}

#[test]
fn conversion_overflow_is_rejected() {
    assert_eq!(
        shares_to_value(u64::MAX, 2),
        Err(LendingError::ArithmeticOverflow)
    );
    assert_eq!(shares_to_value(u64::MAX, 1), Ok(u64::MAX));
}

#[test]
fn round_trip_never_manufactures_value() {
    // value(shares(value(s))) <= value(s), on concrete values.
    let vps = 7;
    let s = 5;
    let v = shares_to_value(s, vps).unwrap();
    let s_back = value_to_shares(v, vps);
    let v_back = shares_to_value(s_back, vps).unwrap();
    assert!(v_back <= v);
    // And a lossy middle step: 34 units buy only 4 shares worth 28.
    let s2 = value_to_shares(34, vps);
    assert!(shares_to_value(s2, vps).unwrap() <= 34);
}
