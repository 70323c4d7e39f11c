use dao_2::errors::DaoError;
use dao_2::treasury::TreasurySplit;

#[test]
fn split_seventy_ten_ten_ten() {
    // main absorbs the remainder: 1000 -> dev 100, ops 100, multisig 100, main 700
    let s = TreasurySplit::split_amount(1000, 70, 10, 10, 10).unwrap();
    assert_eq!(s.dev, 100);
    assert_eq!(s.ops, 100);
    assert_eq!(s.multisig, 100);
    assert_eq!(s.main, 700);
}

#[test]
fn split_sums_exactly_with_rounding() {
    // 33% of 100 floors to 33; main absorbs every rounding loss
    let s = TreasurySplit::split_amount(101, 1, 33, 33, 33).unwrap();
    assert_eq!(s.dev, 33);
    assert_eq!(s.ops, 33);
    assert_eq!(s.multisig, 33);
    assert_eq!(s.main, 101 - 33 - 33 - 33);
    assert_eq!(s.main + s.dev + s.ops + s.multisig, 101);
}

#[test]
fn split_zero_amount() {
    let s = TreasurySplit::split_amount(0, 70, 10, 10, 10).unwrap();
    assert_eq!(s.main + s.dev + s.ops + s.multisig, 0);
}

#[test]
fn split_all_to_main() {
    let s = TreasurySplit::split_amount(12345, 100, 0, 0, 0).unwrap();
    assert_eq!(s.main, 12345);
    assert_eq!(s.dev, 0);
    assert_eq!(s.ops, 0);
    assert_eq!(s.multisig, 0);
}

#[test]
fn split_huge_amount_no_overflow() {
    let a = u64::MAX;
    let s = TreasurySplit::split_amount(a, 70, 10, 10, 10).unwrap();
    assert_eq!(
        s.main as u128 + s.dev as u128 + s.ops as u128 + s.multisig as u128,
        a as u128
    );
}

#[test]
fn split_rejects_shares_not_summing_to_hundred() {
    assert_eq!(
        TreasurySplit::split_amount(1000, 70, 10, 10, 9),
        Err(DaoError::InvalidShares)
    );
    assert_eq!(
        TreasurySplit::split_amount(1000, 70, 10, 10, 11),
        Err(DaoError::InvalidShares)
    );
}
