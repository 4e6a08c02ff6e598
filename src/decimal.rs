//! Exact fixed-point fractions with twelve decimal places.
use vstd::prelude::*;
use vstd::arithmetic::div_mod::lemma_div_multiples_vanish_quotient;

use crate::amount::Amount;
use crate::text::{append_literal, fixed_point_text, push_fixed_point};

verus! {

/// One whole unit of a `Decimal`: values carry twelve decimal places.
pub const DEC_SCALE: i128 = 1_000_000_000_000;

/// A signed fixed-point number worth `scaled / DEC_SCALE`.
#[derive(Clone, Copy, Debug, PartialEq, Eq, Structural)]
pub struct Decimal {
    pub scaled: i128,
}

/// Why a fraction could not be computed.
#[derive(Clone, Copy, Debug, PartialEq, Eq, Structural)]
pub enum LedgerError {
    /// The denominator of a ratio is zero.
    DivisionByZero,
    /// The result does not fit the representable range.
    ArithmeticOverflow,
}

/// The scaled value of `n / d`, truncated to twelve decimal places.
pub open spec fn ratio_scaled(n: int, d: int) -> int {
    (n * DEC_SCALE) / d
}

/// What `ratio` gives for amounts `n` and `d`.
pub open spec fn ratio_spec(n: int, d: int) -> Result<int, LedgerError> {
    if d == 0 {
        Err(LedgerError::DivisionByZero)
    } else if n * DEC_SCALE > i128::MAX {
        Err(LedgerError::ArithmeticOverflow)
    } else {
        Ok(ratio_scaled(n, d))
    }
}

/// The fits-in-range condition of a scaled value.
pub open spec fn fits_decimal(v: int) -> bool {
    i128::MIN <= v <= i128::MAX
}

/// `numerator / denominator` as a fixed-point number, truncated to twelve
/// decimal places.
pub fn ratio(numerator: Amount, denominator: Amount) -> (r: Result<Decimal, LedgerError>)
    ensures
        denominator.raw == 0 <==> r == Err::<Decimal, LedgerError>(LedgerError::DivisionByZero),
        r == Err::<Decimal, LedgerError>(LedgerError::ArithmeticOverflow) <==> (denominator.raw != 0
            && numerator.raw * DEC_SCALE > i128::MAX),
        r is Ok ==> r->Ok_0.scaled == ratio_scaled(numerator.raw as int, denominator.raw as int),
        match r {
            Ok(v) => ratio_spec(numerator.raw as int, denominator.raw as int) == Ok::<int, LedgerError>(
                v.scaled as int,
            ),
            Err(e) => ratio_spec(numerator.raw as int, denominator.raw as int) == Err::<int, LedgerError>(e),
        },
{
    if denominator.raw == 0 {
        return Err(LedgerError::DivisionByZero);
    }
    if numerator.raw > (i128::MAX / DEC_SCALE) as u128 {
        assert(numerator.raw * DEC_SCALE > i128::MAX) by (nonlinear_arith)
            requires
                numerator.raw > i128::MAX / DEC_SCALE,
                DEC_SCALE == 1_000_000_000_000,
        ;
        return Err(LedgerError::ArithmeticOverflow);
    }
    assert(numerator.raw * DEC_SCALE <= i128::MAX) by (nonlinear_arith)
        requires
            numerator.raw <= i128::MAX / DEC_SCALE,
            DEC_SCALE == 1_000_000_000_000,
    ;
    let scaled_num: u128 = numerator.raw * (DEC_SCALE as u128);
    let q: u128 = scaled_num / denominator.raw;
    assert(q <= scaled_num) by (nonlinear_arith)
        requires
            q == scaled_num / denominator.raw,
            denominator.raw >= 1,
    ;
    Ok(Decimal { scaled: q as i128 })
}

/// Scaling both amounts of a ratio by the same positive factor does not
/// change the ratio.
pub proof fn lemma_ratio_scale_invariant(k: int, a: int, b: int)
    requires
        k > 0,
        a > 0,
        b > 0,
    ensures
        ratio_scaled(k * a, k * b) == ratio_scaled(a, b),
        (k * a) * DEC_SCALE <= i128::MAX ==> a * DEC_SCALE <= i128::MAX,
{
    assert(a <= k * a) by (nonlinear_arith)
        requires
            k > 0,
            a > 0,
    ;
    assert((k * a) * DEC_SCALE == k * (a * DEC_SCALE)) by (nonlinear_arith);
    assert(a * DEC_SCALE >= 0) by (nonlinear_arith)
        requires
            a > 0,
    ;
    lemma_div_multiples_vanish_quotient(k, a * DEC_SCALE, b);
}

/// A fixed-point number written with its sign and twelve decimal places.
pub open spec fn decimal_text(scaled: int) -> Seq<char> {
    if scaled < 0 {
        "-"@ + fixed_point_text((-scaled) as nat, DEC_SCALE as nat, 12)
    } else {
        fixed_point_text(scaled as nat, DEC_SCALE as nat, 12)
    }
}

/// `part / whole`, or zero when `whole` is zero: a delegator with no stake
/// holds no fraction of it at any validator.
pub fn fraction_or_zero(part: Amount, whole: Amount) -> (r: Result<Decimal, LedgerError>)
    ensures
        whole.raw == 0 ==> r == Ok::<Decimal, LedgerError>(Decimal { scaled: 0 }),
        whole.raw != 0 ==> match r {
            Ok(v) => ratio_spec(part.raw as int, whole.raw as int) == Ok::<int, LedgerError>(
                v.scaled as int,
            ),
            Err(e) => ratio_spec(part.raw as int, whole.raw as int) == Err::<int, LedgerError>(e),
        },
{
    if whole.raw == 0 {
        Ok(Decimal { scaled: 0 })
    } else {
        ratio(part, whole)
    }
}

/// Division of an integer by a positive one, truncated toward zero.
pub open spec fn trunc_div(a: int, b: int) -> int {
    if a >= 0 {
        a / b
    } else {
        -((-a) / b)
    }
}

/// `share * total / balance`, truncated toward zero: the part of `balance`
/// that a fraction `share` of `total` makes.
pub fn share_of_balance(share: Decimal, total: Amount, balance: Amount) -> (r: Result<Decimal, LedgerError>)
    ensures
        balance.raw == 0 <==> r == Err::<Decimal, LedgerError>(LedgerError::DivisionByZero),
        r == Err::<Decimal, LedgerError>(LedgerError::ArithmeticOverflow) <==> (balance.raw != 0
            && abs_int(share.scaled as int) * total.raw > i128::MAX),
        r is Ok ==> r->Ok_0.scaled == trunc_div(share.scaled * total.raw, balance.raw as int),
{
    if balance.raw == 0 {
        return Err(LedgerError::DivisionByZero);
    }
    let mag: u128 = if share.scaled < 0 {
        (-(share.scaled + 1)) as u128 + 1
    } else {
        share.scaled as u128
    };
    let prod = match mag.checked_mul(total.raw) {
        Some(p) => p,
        None => return Err(LedgerError::ArithmeticOverflow),
    };
    if prod > i128::MAX as u128 {
        return Err(LedgerError::ArithmeticOverflow);
    }
    let q: u128 = prod / balance.raw;
    assert(q <= prod) by (nonlinear_arith)
        requires
            q == prod / balance.raw,
            balance.raw >= 1,
    ;
    proof {
        if share.scaled < 0 {
            assert(share.scaled * total.raw == -(mag * total.raw)) by (nonlinear_arith)
                requires
                    mag == -share.scaled,
            ;
        }
    }
    if share.scaled < 0 {
        Ok(Decimal { scaled: -(q as i128) })
    } else {
        Ok(Decimal { scaled: q as i128 })
    }
}

/// Absolute value.
pub open spec fn abs_int(a: int) -> int {
    if a < 0 {
        -a
    } else {
        a
    }
}

impl Decimal {
    /// The value written with its sign and twelve decimal places.
    pub fn to_text(&self) -> (r: String)
        ensures
            r@ == decimal_text(self.scaled as int),
    {
        let mut s = String::new();
        let mag: u128 = if self.scaled < 0 {
            append_literal(&mut s, "-");
            (-(self.scaled + 1)) as u128 + 1
        } else {
            self.scaled as u128
        };
        push_fixed_point(&mut s, mag, DEC_SCALE as u128, 12);
        s
    }

    /// The value zero.
    pub fn zero() -> (r: Decimal)
        ensures
            r.scaled == 0,
    {
        Decimal { scaled: 0 }
    }

    /// The value one.
    pub fn one() -> (r: Decimal)
        ensures
            r.scaled == DEC_SCALE,
    {
        Decimal { scaled: DEC_SCALE }
    }

    /// The fraction expressed in percent: the value times one hundred.
    pub fn percentage(self) -> (r: Result<Decimal, LedgerError>)
        ensures
            r is Ok <==> fits_decimal(self.scaled * 100),
            r is Err ==> r == Err::<Decimal, LedgerError>(LedgerError::ArithmeticOverflow),
            r is Ok ==> r->Ok_0.scaled == self.scaled * 100,
    {
        match self.scaled.checked_mul(100) {
            Some(scaled) => Ok(Decimal { scaled }),
            None => Err(LedgerError::ArithmeticOverflow),
        }
    }

    /// The sum, or an overflow error.
    pub fn checked_add(self, other: Decimal) -> (r: Result<Decimal, LedgerError>)
        ensures
            r is Ok <==> fits_decimal(self.scaled + other.scaled),
            r is Err ==> r == Err::<Decimal, LedgerError>(LedgerError::ArithmeticOverflow),
            r is Ok ==> r->Ok_0.scaled == self.scaled + other.scaled,
    {
        match self.scaled.checked_add(other.scaled) {
            Some(scaled) => Ok(Decimal { scaled }),
            None => Err(LedgerError::ArithmeticOverflow),
        }
    }

    /// The difference, or an overflow error.
    pub fn checked_sub(self, other: Decimal) -> (r: Result<Decimal, LedgerError>)
        ensures
            r is Ok <==> fits_decimal(self.scaled - other.scaled),
            r is Err ==> r == Err::<Decimal, LedgerError>(LedgerError::ArithmeticOverflow),
            r is Ok ==> r->Ok_0.scaled == self.scaled - other.scaled,
    {
        match self.scaled.checked_sub(other.scaled) {
            Some(scaled) => Ok(Decimal { scaled }),
            None => Err(LedgerError::ArithmeticOverflow),
        }
    }
}

} // verus!
