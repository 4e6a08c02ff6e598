use namada_utils::address::{parse_address_lines, Address, AddressError, ResolveError};
use namada_utils::amount::{checked_sum, Amount};
use namada_utils::decimal::{fraction_or_zero, share_of_balance, Decimal, LedgerError, DEC_SCALE};
use namada_utils::named::{totals_by_name, NamedAmount};
use namada_utils::ranking::{rank_by_stake, top_shares};
use namada_utils::stake::StakeError;
use namada_utils::text::split_lines;

const A: &str = "tnam1qqqqqqqqqqqqqqqqqqqqqqqqqqqqqqqqqqqqqqqq";
const B: &str = "tnam1pppppppppppppppppppppppppppppppppppppppp";

fn raw(x: u128) -> Amount {
    Amount::from_raw(x)
}

#[test]
fn lines_like_std() {
    for text in ["", "a", "a\n", "a\r\nb", "a\n\nb\n", "\n", "x\r", "one\ntwo\r\nthree"] {
        let expected: Vec<String> = text.lines().map(|l| l.to_string()).collect();
        assert_eq!(split_lines(text), expected, "text {text:?}");
    }
}

#[test]
fn address_file_lines() {
    let text = format!("{A}\n{B}\r\n");
    assert_eq!(
        parse_address_lines(&text).unwrap(),
        vec![Address { canonical: A.to_string() }, Address { canonical: B.to_string() }]
    );
    let bad = format!("{A}\nnot-an-address\n{B}");
    assert_eq!(
        parse_address_lines(&bad).unwrap_err(),
        AddressError { index: 1, kind: ResolveError::Malformed }
    );
    assert_eq!(parse_address_lines("").unwrap().len(), 0);
}

#[test]
fn native_amount_text() {
    assert_eq!(Amount::native_whole(205).to_string_native(), "205.000000");
    assert_eq!(raw(1_500_001).to_string_native(), "1.500001");
    assert_eq!(raw(7).to_string_native(), "0.000007");
    assert_eq!(Amount::zero().to_string_native(), "0.000000");
}

#[test]
fn decimal_text_output() {
    assert_eq!(Decimal::one().to_text(), "1.000000000000");
    assert_eq!(Decimal { scaled: 250_000_000_000 }.to_text(), "0.250000000000");
    assert_eq!(Decimal { scaled: -1_500_000_000_000 }.to_text(), "-1.500000000000");
    assert_eq!(Decimal { scaled: 42 }.to_text(), "0.000000000042");
    let min = Decimal { scaled: i128::MIN }.to_text();
    assert!(min.starts_with("-170141183460469231731687303.7"));
}

#[test]
fn fractions_with_zero_fill() {
    assert_eq!(fraction_or_zero(raw(5), Amount::zero()), Ok(Decimal::zero()));
    assert_eq!(fraction_or_zero(raw(1), raw(4)).unwrap().scaled, DEC_SCALE / 4);
}

#[test]
fn remainder_share_of_balance() {
    let half = Decimal { scaled: DEC_SCALE / 2 };
    assert_eq!(share_of_balance(half, raw(1_000), raw(2_000)).unwrap().scaled, DEC_SCALE / 4);
    let neg = Decimal { scaled: -DEC_SCALE / 2 };
    assert_eq!(share_of_balance(neg, raw(1_000), raw(2_000)).unwrap().scaled, -DEC_SCALE / 4);
    assert_eq!(share_of_balance(half, raw(1), Amount::zero()), Err(LedgerError::DivisionByZero));
    assert_eq!(
        share_of_balance(half, raw(u128::MAX), raw(1)),
        Err(LedgerError::ArithmeticOverflow)
    );
}

fn named(name: &str, x: u128) -> NamedAmount {
    NamedAmount { name: name.to_string(), amount: raw(x) }
}

#[test]
fn totals_grouped_by_name() {
    let entries = vec![named("alpha", 10), named("beta", 5), named("alpha", 7), named("gamma", 0)];
    let totals = totals_by_name(&entries).unwrap();
    let got: Vec<(String, u128)> = totals.iter().map(|t| (t.name.clone(), t.amount.raw)).collect();
    assert_eq!(
        got,
        vec![("alpha".to_string(), 17), ("beta".to_string(), 5), ("gamma".to_string(), 0)]
    );
    assert_eq!(totals_by_name(&[]).unwrap().len(), 0);
    let big = vec![named("x", u128::MAX), named("y", 1), named("x", 1)];
    assert_eq!(totals_by_name(&big).unwrap_err(), StakeError::ArithmeticOverflow);
}

#[test]
fn ranking_by_stake() {
    let stakes = vec![raw(5), raw(40), raw(10), raw(40), raw(1)];
    let order = rank_by_stake(&stakes);
    let ranked: Vec<u128> = order.iter().map(|i| stakes[*i].raw).collect();
    assert_eq!(ranked, vec![40, 40, 10, 5, 1]);
    let mut sorted = order.clone();
    sorted.sort();
    assert_eq!(sorted, vec![0, 1, 2, 3, 4]);
    assert!(rank_by_stake(&[]).is_empty());
}

#[test]
fn cumulative_top_shares() {
    let ranked = vec![raw(50), raw(30), raw(20)];
    let shares = top_shares(&ranked, raw(100), 2).unwrap();
    assert_eq!(shares.len(), 2);
    assert_eq!(shares[0].share.scaled, DEC_SCALE / 2);
    assert_eq!(shares[1].share.scaled, DEC_SCALE * 3 / 10);
    assert_eq!(shares[1].cumulative.scaled, DEC_SCALE * 8 / 10);
    assert_eq!(top_shares(&ranked, raw(100), 10).unwrap()[2].cumulative, Decimal::one());
    assert_eq!(top_shares(&ranked, Amount::zero(), 1).unwrap_err(), LedgerError::DivisionByZero);
    assert_eq!(top_shares(&ranked, Amount::zero(), 0).unwrap().len(), 0);
}

#[test]
fn sum_of_amounts() {
    assert_eq!(checked_sum(&[raw(1), raw(2), raw(3)]), Some(raw(6)));
    assert_eq!(checked_sum(&[]), Some(Amount::zero()));
    assert_eq!(checked_sum(&[raw(u128::MAX), raw(1)]), None);
}
