use namada_utils::address::{Address, KeyEntry, Keyring, ResolveError};
use namada_utils::amount::Amount;
use namada_utils::batch::{
    build_batch, build_transfer_data, check_disbursement, BatchError, BuildError, LegCheck,
    TransferTarget,
};

const SOURCE: &str = "tnam1qqqqqqqqqqqqqqqqqqqqqqqqqqqqqqqqqqqqqqqq";
const T1: &str = "tnam1pppppppppppppppppppppppppppppppppppppppp";
const T2: &str = "tnam1zzzzzzzzzzzzzzzzzzzzzzzzzzzzzzzzzzzzzzzz";
const T3: &str = "tnam1qxsx2ezu89gx252kwwluqp7hadyp285tkczhaqg0";
const NAM: &str = "tnam1q9vrp45qtphed4q2vc382qrtf2gfykf50vssfe2h";

fn addr(s: &str) -> Address {
    Address { canonical: s.to_string() }
}

fn keyring() -> Keyring {
    Keyring { entries: vec![KeyEntry { alias: "key-0".to_string(), address: addr(SOURCE) }] }
}

fn target(a: &str, amount: u64) -> TransferTarget {
    TransferTarget { address: a.to_string(), amount }
}

#[test]
fn batch_of_three_debits_sixty() {
    let targets = vec![target(T1, 10), target(T2, 20), target(T3, 30)];
    let batch = build_batch(&keyring(), "key-0", &targets, &addr(NAM)).unwrap();
    assert_eq!(batch.legs.len(), 3);
    assert_eq!(batch.total_debit(), Some(Amount::native_whole(60)));
    for (leg, t) in batch.legs.iter().zip(targets.iter()) {
        assert_eq!(leg.source, addr(SOURCE));
        assert_eq!(leg.target.canonical, t.address);
        assert_eq!(leg.token, addr(NAM));
        assert_eq!(leg.amount, Amount::native_whole(t.amount));
    }
}

#[test]
fn landed_balances_grow_by_own_amount() {
    let targets = vec![target(T1, 10), target(T2, 20), target(T3, 30)];
    let batch = build_batch(&keyring(), "key-0", &targets, &addr(NAM)).unwrap();
    let before = vec![Some(Amount::zero()), Some(Amount::native_whole(5)), Some(Amount::zero())];
    let after = vec![
        Some(Amount::native_whole(10)),
        Some(Amount::native_whole(25)),
        Some(Amount::native_whole(30)),
    ];
    assert_eq!(check_disbursement(&batch, &before, &after), vec![LegCheck::Landed; 3]);
    let after_bad =
        vec![Some(Amount::native_whole(10)), None, Some(Amount::native_whole(29))];
    assert_eq!(
        check_disbursement(&batch, &before, &after_bad),
        vec![LegCheck::Landed, LegCheck::Unavailable, LegCheck::Mismatch]
    );
}

#[test]
fn repeated_target_receives_sum_of_its_legs() {
    let targets = vec![target(T1, 10), target(T1, 5)];
    let batch = build_batch(&keyring(), "key-0", &targets, &addr(NAM)).unwrap();
    assert_eq!(batch.received_by(&addr(T1)), Some(Amount::native_whole(15)));
    assert_eq!(batch.received_by(&addr(T2)), Some(Amount::zero()));
    let before = vec![Some(Amount::zero()), Some(Amount::zero())];
    let after = vec![Some(Amount::native_whole(15)), Some(Amount::native_whole(15))];
    assert_eq!(check_disbursement(&batch, &before, &after), vec![LegCheck::Landed; 2]);
}

#[test]
fn zero_amount_leg_is_invalid() {
    let empty = Keyring { entries: vec![] };
    assert_eq!(
        build_transfer_data(&empty, "key-0", T1, &addr(NAM), 0).unwrap_err(),
        BuildError::InvalidAmount
    );
    let targets = vec![target(T1, 10), target(T2, 0), target(T3, 30)];
    assert_eq!(
        build_batch(&keyring(), "key-0", &targets, &addr(NAM)).unwrap_err(),
        BatchError { index: 1, kind: BuildError::InvalidAmount }
    );
}

#[test]
fn leg_errors() {
    let kr = keyring();
    assert_eq!(
        build_transfer_data(&kr, "key-9", T1, &addr(NAM), 1).unwrap_err(),
        BuildError::Source(ResolveError::AliasNotFound)
    );
    assert_eq!(
        build_transfer_data(&kr, "key-0", "tnam1short", &addr(NAM), 1).unwrap_err(),
        BuildError::Target(ResolveError::Malformed)
    );
    assert_eq!(
        build_transfer_data(&kr, "key-0", SOURCE, &addr(NAM), 1).unwrap_err(),
        BuildError::SelfTransfer
    );
    let leg = build_transfer_data(&kr, "key-0", T1, &addr(NAM), 7).unwrap();
    assert_eq!(leg.amount, Amount::from_raw(7_000_000));
}
