use namada_utils::address::Address;
use namada_utils::amount::Amount;
use namada_utils::audit::{category_report, AuditError};
use namada_utils::decimal::{LedgerError, DEC_SCALE};
use namada_utils::roster::{get_top_validators, RosterEntry, RosterError, ValidatorRoster};
use namada_utils::stake::{
    bonded_stake, bonds_total_active, category_totals, get_bonds_to_top_validators, roster_totals,
    category_totals_with_policy, stake_to_validator, Bond, BondDetail, CategoryError, FailurePolicy,
    StakeError, StakeSnapshot, Unbond,
};

const ALICE: &str = "tnam1qqqqqqqqqqqqqqqqqqqqqqqqqqqqqqqqqqqqqqqq";
const BOB: &str = "tnam1pppppppppppppppppppppppppppppppppppppppp";
const OTHER_VALIDATOR: &str = "tnam1zzzzzzzzzzzzzzzzzzzzzzzzzzzzzzzzzzzzzzzz";
const CHORUS_ONE: &str = "tnam1qxsx2ezu89gx252kwwluqp7hadyp285tkczhaqg0";
const INFORMAL: &str = "tnam1q9vrp45qtphed4q2vc382qrtf2gfykf50vssfe2h";

fn addr(s: &str) -> Address {
    Address { canonical: s.to_string() }
}

fn bond(source: &str, validator: &str, raw: u128) -> Bond {
    Bond { source: addr(source), validator: addr(validator), active: Amount::from_raw(raw) }
}

#[test]
fn roster_of_main_network() {
    let roster = get_top_validators();
    assert_eq!(roster.len(), 5);
    let names: Vec<&str> = roster.entries.iter().map(|e| e.name.as_str()).collect();
    assert_eq!(names, vec!["Unit 410 [1]", "Unit 410 [2]", "Chorus One", "P2P.org", "Informal"]);
    assert_eq!(roster.entries[2].address, addr(CHORUS_ONE));
}

#[test]
fn roster_rejects_duplicates() {
    let dup_name = vec![
        RosterEntry { name: "A".to_string(), address: addr(ALICE) },
        RosterEntry { name: "A".to_string(), address: addr(BOB) },
    ];
    assert_eq!(ValidatorRoster::new(dup_name).unwrap_err(), RosterError::DuplicateName);
    let dup_addr = vec![
        RosterEntry { name: "A".to_string(), address: addr(ALICE) },
        RosterEntry { name: "B".to_string(), address: addr(ALICE) },
    ];
    assert_eq!(ValidatorRoster::new(dup_addr).unwrap_err(), RosterError::DuplicateAddress);
    let ok = vec![
        RosterEntry { name: "A".to_string(), address: addr(ALICE) },
        RosterEntry { name: "B".to_string(), address: addr(BOB) },
    ];
    assert_eq!(ValidatorRoster::new(ok).unwrap().len(), 2);
}

#[test]
fn unbonds_do_not_count_as_active() {
    let detail = BondDetail {
        bonds: vec![bond(ALICE, CHORUS_ONE, 300), bond(ALICE, OTHER_VALIDATOR, 200)],
        unbonds: vec![Unbond {
            source: addr(ALICE),
            validator: addr(CHORUS_ONE),
            amount: Amount::from_raw(1_000),
        }],
    };
    assert_eq!(bonds_total_active(&detail), Ok(Amount::from_raw(500)));
    assert_eq!(
        stake_to_validator(&detail, &addr(ALICE), &addr(CHORUS_ONE)),
        Ok(Amount::from_raw(300))
    );
    assert_eq!(stake_to_validator(&detail, &addr(BOB), &addr(CHORUS_ONE)), Ok(Amount::zero()));
}

#[test]
fn active_total_overflow_is_an_error() {
    let detail = BondDetail {
        bonds: vec![bond(ALICE, CHORUS_ONE, u128::MAX), bond(ALICE, INFORMAL, 1)],
        unbonds: vec![],
    };
    assert_eq!(bonds_total_active(&detail), Err(StakeError::ArithmeticOverflow));
}

#[test]
fn roster_attribution_zero_fills() {
    let roster = get_top_validators();
    let detail = BondDetail { bonds: vec![], unbonds: vec![] };
    let v = get_bonds_to_top_validators(&addr(ALICE), &detail, &roster).unwrap();
    assert_eq!(v, vec![Amount::zero(); 5]);
}

#[test]
fn chorus_one_scenario() {
    let roster = get_top_validators();
    let d1 = BondDetail { bonds: vec![bond(ALICE, CHORUS_ONE, 1_000)], unbonds: vec![] };
    let d2 = BondDetail { bonds: vec![bond(BOB, OTHER_VALIDATOR, 500)], unbonds: vec![] };
    let s1 = bonded_stake(&addr(ALICE), &d1, &roster).unwrap();
    let s2 = bonded_stake(&addr(BOB), &d2, &roster).unwrap();
    let snaps = vec![s1, s2];
    let totals = roster_totals(&snaps, &roster).unwrap();
    for (k, entry) in roster.entries.iter().enumerate() {
        if entry.name == "Chorus One" {
            assert_eq!(totals[k], Amount::from_raw(1_000));
        } else {
            assert_eq!(totals[k], Amount::zero());
        }
    }
    assert_eq!(category_totals(&snaps), Ok(Amount::from_raw(1_500)));
}

fn snap(active: u128, per: [u128; 5]) -> StakeSnapshot {
    StakeSnapshot {
        active_bonded: Amount::from_raw(active),
        per_validator: per.iter().map(|x| Amount::from_raw(*x)).collect(),
    }
}

#[test]
fn category_total_of_disjoint_union_is_sum() {
    let a = vec![snap(10, [0; 5]), snap(20, [0; 5])];
    let b = vec![snap(30, [0; 5])];
    let union = vec![snap(10, [0; 5]), snap(20, [0; 5]), snap(30, [0; 5])];
    let reordered = vec![snap(30, [0; 5]), snap(10, [0; 5]), snap(20, [0; 5])];
    let ta = category_totals(&a).unwrap().raw;
    let tb = category_totals(&b).unwrap().raw;
    assert_eq!(category_totals(&union).unwrap().raw, ta + tb);
    assert_eq!(category_totals(&reordered).unwrap().raw, ta + tb);
    assert_eq!(category_totals(&[]), Ok(Amount::zero()));
}

#[test]
fn category_total_overflow_is_an_error() {
    let s = vec![snap(u128::MAX, [0; 5]), snap(1, [0; 5])];
    assert_eq!(category_totals(&s), Err(StakeError::ArithmeticOverflow));
}

#[test]
fn category_report_figures() {
    let roster = get_top_validators();
    let snaps = vec![snap(600, [100, 0, 200, 0, 0]), snap(400, [0, 0, 0, 0, 100])];
    let rep =
        category_report(&snaps, &roster, Amount::from_raw(4_000), Amount::from_raw(10_000)).unwrap();
    assert_eq!(rep.staked, Amount::from_raw(1_000));
    assert_eq!(rep.share_of_total_stake.scaled, DEC_SCALE / 10);
    assert_eq!(rep.staked_fraction.scaled, DEC_SCALE / 4);
    assert_eq!(rep.roster_total, Amount::from_raw(400));
    assert_eq!(rep.roster_share.scaled, DEC_SCALE * 2 / 5);
    assert_eq!(rep.roster_stake[4], Amount::from_raw(100));
}

#[test]
fn category_report_without_stake_divides_by_zero() {
    let roster = get_top_validators();
    let snaps = vec![snap(0, [0; 5])];
    assert_eq!(
        category_report(&snaps, &roster, Amount::from_raw(4_000), Amount::zero()).unwrap_err(),
        AuditError::Ledger(LedgerError::DivisionByZero)
    );
    assert_eq!(
        category_report(&snaps, &roster, Amount::from_raw(4_000), Amount::from_raw(5)).unwrap_err(),
        AuditError::Ledger(LedgerError::DivisionByZero)
    );
}

#[test]
fn failure_policy_fail_fast_and_skip() {
    let results = vec![Some(snap(10, [0; 5])), None, Some(snap(5, [0; 5])), None];
    assert_eq!(
        category_totals_with_policy(&results, FailurePolicy::FailFast).unwrap_err(),
        CategoryError::QueryFailed { index: 1 }
    );
    let partial = category_totals_with_policy(&results, FailurePolicy::SkipFailed).unwrap();
    assert_eq!(partial.total, Amount::from_raw(15));
    assert_eq!(partial.skipped, vec![1, 3]);
    let all = vec![Some(snap(10, [0; 5])), Some(snap(5, [0; 5]))];
    let full = category_totals_with_policy(&all, FailurePolicy::FailFast).unwrap();
    assert_eq!(full.total, Amount::from_raw(15));
    assert!(full.skipped.is_empty());
    let big = vec![Some(snap(u128::MAX, [0; 5])), Some(snap(1, [0; 5]))];
    assert_eq!(
        category_totals_with_policy(&big, FailurePolicy::SkipFailed).unwrap_err(),
        CategoryError::ArithmeticOverflow
    );
}
