//! Token amounts in the smallest indivisible unit, with checked arithmetic.
use vstd::prelude::*;

use crate::text::{fixed_point_text, push_fixed_point};

verus! {

/// Number of indivisible units in one whole native token (six decimal places).
pub const NATIVE_SCALE: u128 = 1_000_000;

/// A non-negative token amount, counted in the smallest indivisible unit.
#[derive(Clone, Copy, Debug, PartialEq, Eq, Structural)]
pub struct Amount {
    pub raw: u128,
}

/// Sum of the amounts of a sequence, as a mathematical integer.
pub open spec fn sum_amounts(s: Seq<Amount>) -> int
    decreases s.len(),
{
    if s.len() == 0 {
        0
    } else {
        sum_amounts(s.drop_last()) + s.last().raw
    }
}

/// The sum of a concatenation is the sum of the parts.
pub proof fn lemma_sum_amounts_concat(a: Seq<Amount>, b: Seq<Amount>)
    ensures
        sum_amounts(a + b) == sum_amounts(a) + sum_amounts(b),
    decreases b.len(),
{
    if b.len() == 0 {
        assert(a + b =~= a);
    } else {
        lemma_sum_amounts_concat(a, b.drop_last());
        assert((a + b).drop_last() =~= a + b.drop_last());
    }
}

impl Amount {
    /// The zero amount.
    pub fn zero() -> (r: Amount)
        ensures
            r.raw == 0,
    {
        Amount { raw: 0 }
    }

    /// An amount given directly in indivisible units.
    pub fn from_raw(raw: u128) -> (r: Amount)
        ensures
            r.raw == raw,
    {
        Amount { raw }
    }

    /// An amount of `whole` native tokens.
    pub fn native_whole(whole: u64) -> (r: Amount)
        ensures
            r.raw == whole as int * NATIVE_SCALE as int,
    {
        assert(whole as int * NATIVE_SCALE as int <= u128::MAX) by (nonlinear_arith)
            requires
                whole <= u64::MAX,
        ;
        Amount { raw: whole as u128 * NATIVE_SCALE }
    }

    /// The amount in whole native tokens, written with six decimal places.
    pub fn to_string_native(&self) -> (r: String)
        ensures
            r@ == fixed_point_text(self.raw as nat, NATIVE_SCALE as nat, 6),
    {
        let mut s = String::new();
        push_fixed_point(&mut s, self.raw, NATIVE_SCALE, 6);
        s
    }

    /// `true` exactly when the amount is zero.
    pub fn is_zero(&self) -> (r: bool)
        ensures
            r == (self.raw == 0),
    {
        self.raw == 0
    }

    /// The sum, or `None` when it does not fit the representable range.
    pub fn checked_add(self, other: Amount) -> (r: Option<Amount>)
        ensures
            r is Some <==> self.raw + other.raw <= u128::MAX,
            r is Some ==> r->0.raw == self.raw + other.raw,
    {
        match self.raw.checked_add(other.raw) {
            Some(raw) => Some(Amount { raw }),
            None => None,
        }
    }

    /// The difference, or `None` when `other` exceeds `self`.
    pub fn checked_sub(self, other: Amount) -> (r: Option<Amount>)
        ensures
            r is Some <==> other.raw <= self.raw,
            r is Some ==> r->0.raw == self.raw - other.raw,
    {
        if other.raw <= self.raw {
            Some(Amount { raw: self.raw - other.raw })
        } else {
            None
        }
    }
}

impl From<u64> for Amount {
    fn from(raw: u64) -> (r: Amount) {
        Amount { raw: raw as u128 }
    }
}

impl vstd::std_specs::convert::FromSpecImpl<u64> for Amount {
    open spec fn obeys_from_spec() -> bool {
        true
    }

    open spec fn from_spec(raw: u64) -> Amount {
        Amount { raw: raw as u128 }
    }
}

/// Checked sum of a slice of amounts: `None` exactly when the total does not
/// fit the representable range.
pub fn checked_sum(amounts: &[Amount]) -> (r: Option<Amount>)
    ensures
        r is Some <==> sum_amounts(amounts@) <= u128::MAX,
        r is Some ==> r->0.raw == sum_amounts(amounts@),
{
    let mut total: u128 = 0;
    let mut i: usize = 0;
    while i < amounts.len()
        invariant
            i <= amounts@.len(),
            total == sum_amounts(amounts@.subrange(0, i as int)),
        decreases amounts@.len() - i,
    {
        assert(amounts@.subrange(0, i as int + 1).drop_last() =~= amounts@.subrange(0, i as int));
        match total.checked_add(amounts[i].raw) {
            Some(t) => total = t,
            None => {
                proof {
                    lemma_sum_prefix_monotone(amounts@, i as int + 1, amounts@.len() as int);
                    assert(amounts@.subrange(0, amounts@.len() as int) =~= amounts@);
                }
                return None;
            },
        }
        i += 1;
    }
    assert(amounts@.subrange(0, i as int) =~= amounts@);
    Some(Amount { raw: total })
}

/// Sums of longer prefixes are never smaller.
pub proof fn lemma_sum_prefix_monotone(s: Seq<Amount>, i: int, j: int)
    requires
        0 <= i <= j <= s.len(),
    ensures
        sum_amounts(s.subrange(0, i)) <= sum_amounts(s.subrange(0, j)),
    decreases j - i,
{
    if i < j {
        lemma_sum_prefix_monotone(s, i, j - 1);
        assert(s.subrange(0, j).drop_last() =~= s.subrange(0, j - 1));
    }
    if j == s.len() {
        assert(s.subrange(0, j) =~= s);
    }
}

} // verus!
