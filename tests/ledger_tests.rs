use namada_utils::amount::Amount;
use namada_utils::decimal::{ratio, Decimal, LedgerError, DEC_SCALE};
use namada_utils::ledger::{
    get_backer_balance, get_core_balance, get_future_alloc_balance, get_pg_validator_balance,
    get_public_alloc_balance, get_rd_balance, get_total_supply, reconcile, GenesisConfig,
    ReconciliationError,
};

#[test]
fn test_genesis_balance() {
    let sum = get_backer_balance()
        .checked_add(get_rd_balance())
        .unwrap()
        .checked_add(get_core_balance())
        .unwrap()
        .checked_add(get_future_alloc_balance())
        .unwrap()
        .checked_add(get_public_alloc_balance())
        .unwrap()
        .checked_add(get_pg_validator_balance())
        .unwrap();
    assert_eq!(sum, Amount::native_whole(1_000_000_000));
}

#[test]
fn genesis_constants_in_units() {
    assert_eq!(get_backer_balance().raw, 320_364_605_000_000);
    assert_eq!(get_rd_balance().raw, 170_000_000_000_000);
    assert_eq!(get_core_balance().raw, 187_986_994_166_096);
    assert_eq!(get_future_alloc_balance().raw, 160_539_918_535_390);
    assert_eq!(get_public_alloc_balance().raw, 161_108_277_298_514);
    assert_eq!(get_pg_validator_balance().raw, 205_000_000);
    assert_eq!(get_total_supply().raw, 1_000_000_000_000_000);
}

#[test]
fn reconcile_mainnet_leaves_validator_grant() {
    let cats = [
        get_backer_balance(),
        get_core_balance(),
        get_rd_balance(),
        get_future_alloc_balance(),
        get_public_alloc_balance(),
    ];
    let rem = reconcile(&cats, Amount::native_whole(1_000_000_000)).unwrap();
    assert_eq!(rem, Amount::native_whole(205));
    assert_eq!(rem, get_pg_validator_balance());
}

#[test]
fn mainnet_genesis_check_passes() {
    let cfg = GenesisConfig::mainnet();
    assert_eq!(cfg.check(), Ok(Amount::native_whole(205)));
}

#[test]
fn reconcile_underflow_when_categories_exceed_supply() {
    let cats = [Amount::from_raw(60), Amount::from_raw(50)];
    assert_eq!(reconcile(&cats, Amount::from_raw(100)), Err(ReconciliationError::Underflow));
    assert_eq!(reconcile(&cats, Amount::from_raw(110)), Ok(Amount::from_raw(0)));
    assert_eq!(reconcile(&[], Amount::from_raw(7)), Ok(Amount::from_raw(7)));
}

#[test]
fn genesis_check_mismatch_and_underflow() {
    let mut cfg = GenesisConfig::mainnet();
    cfg.validator_grant = Amount::native_whole(204);
    assert_eq!(cfg.check(), Err(ReconciliationError::Mismatch));
    let mut cfg = GenesisConfig::mainnet();
    cfg.backer = Amount::native_whole(400_000_000);
    assert_eq!(cfg.check(), Err(ReconciliationError::Underflow));
}

#[test]
fn amount_checked_arithmetic() {
    let max = Amount::from_raw(u128::MAX);
    assert_eq!(max.checked_add(Amount::from_raw(1)), None);
    assert_eq!(Amount::from_raw(2).checked_add(Amount::from_raw(3)), Some(Amount::from_raw(5)));
    assert_eq!(Amount::from_raw(2).checked_sub(Amount::from_raw(3)), None);
    assert_eq!(Amount::from_raw(5).checked_sub(Amount::from_raw(3)), Some(Amount::from_raw(2)));
    assert_eq!(Amount::from(7u64), Amount::from_raw(7));
    assert_eq!(Amount::native_whole(3).raw, 3_000_000);
    assert!(Amount::zero().is_zero());
}

#[test]
fn ratio_exact_value() {
    let r = ratio(Amount::from_raw(1), Amount::from_raw(3)).unwrap();
    assert_eq!(r.scaled, 333_333_333_333);
    let r = ratio(Amount::from_raw(3), Amount::from_raw(4)).unwrap();
    assert_eq!(r.scaled, 750_000_000_000);
    assert_eq!(r.percentage().unwrap().scaled, 75 * DEC_SCALE);
}

#[test]
fn ratio_scale_invariance() {
    let a = 7u128;
    let b = 9u128;
    for k in [1u128, 2, 5, 1000, 123_456_789] {
        assert_eq!(
            ratio(Amount::from_raw(k * a), Amount::from_raw(k * b)),
            ratio(Amount::from_raw(a), Amount::from_raw(b))
        );
    }
}

#[test]
fn ratio_by_zero_fails() {
    assert_eq!(ratio(Amount::from_raw(5), Amount::zero()), Err(LedgerError::DivisionByZero));
    assert_eq!(ratio(Amount::zero(), Amount::zero()), Err(LedgerError::DivisionByZero));
}

#[test]
fn ratio_overflow_fails() {
    assert_eq!(
        ratio(Amount::from_raw(u128::MAX), Amount::from_raw(1)),
        Err(LedgerError::ArithmeticOverflow)
    );
}

#[test]
fn decimal_arithmetic() {
    let one = Decimal::one();
    let half = ratio(Amount::from_raw(1), Amount::from_raw(2)).unwrap();
    assert_eq!(one.checked_sub(half).unwrap(), half);
    assert_eq!(half.checked_add(half).unwrap(), one);
    assert_eq!(Decimal::zero().checked_sub(one).unwrap().scaled, -DEC_SCALE);
    let big = Decimal { scaled: i128::MAX };
    assert_eq!(big.percentage(), Err(LedgerError::ArithmeticOverflow));
    assert_eq!(big.checked_add(one), Err(LedgerError::ArithmeticOverflow));
}
