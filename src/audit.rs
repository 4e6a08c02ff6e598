//! The audit of one allocation category: its bonded stake, the fractions
//! it makes of the total stake and of its genesis balance, and how much of
//! it the roster's validators hold.
use vstd::prelude::*;

use crate::amount::{checked_sum, sum_amounts, Amount};
use crate::decimal::{ratio, ratio_spec, Decimal, LedgerError};
use crate::roster::ValidatorRoster;
use crate::stake::{
    category_total, category_totals, roster_total, roster_totals, snapshots_cover, StakeError,
    StakeSnapshot,
};

verus! {

/// Why a category could not be audited.
#[derive(Clone, Copy, Debug, PartialEq, Eq, Structural)]
pub enum AuditError {
    Stake(StakeError),
    Ledger(LedgerError),
}

/// The figures of one category.
#[derive(Debug)]
pub struct CategoryReport {
    /// Active stake of all addresses of the category.
    pub staked: Amount,
    /// `staked` over the chain's total stake.
    pub share_of_total_stake: Decimal,
    /// `staked` over the category's genesis balance.
    pub staked_fraction: Decimal,
    /// For each roster validator, the category's stake bonded to it.
    pub roster_stake: Vec<Amount>,
    /// Sum of `roster_stake`.
    pub roster_total: Amount,
    /// `roster_total` over `staked`.
    pub roster_share: Decimal,
}

/// The roster totals of a category, as amounts.
pub open spec fn roster_column_totals(s: Seq<StakeSnapshot>, n: nat) -> Seq<Amount> {
    Seq::new(n, |k: int| Amount { raw: roster_total(s, k) as u128 })
}

/// Some roster total exceeds the representable range.
pub open spec fn roster_overflows(s: Seq<StakeSnapshot>, n: nat) -> bool {
    exists|k: int| 0 <= k < n && #[trigger] roster_total(s, k) > u128::MAX
}

/// What auditing a category gives: the first failing step, in the order
/// stake total, roster totals, their sum, share of total stake, staked
/// fraction, roster share; or the scaled values of the three fractions.
pub open spec fn audit_spec(
    s: Seq<StakeSnapshot>,
    n: nat,
    genesis_balance: int,
    total_staked: int,
) -> Result<(int, int, int), AuditError> {
    let staked = category_total(s);
    let top = sum_amounts(roster_column_totals(s, n));
    if staked > u128::MAX {
        Err(AuditError::Stake(StakeError::ArithmeticOverflow))
    } else if roster_overflows(s, n) || top > u128::MAX {
        Err(AuditError::Stake(StakeError::ArithmeticOverflow))
    } else {
        match ratio_spec(staked, total_staked) {
            Err(e) => Err(AuditError::Ledger(e)),
            Ok(share) => match ratio_spec(staked, genesis_balance) {
                Err(e) => Err(AuditError::Ledger(e)),
                Ok(frac) => match ratio_spec(top, staked) {
                    Err(e) => Err(AuditError::Ledger(e)),
                    Ok(top_share) => Ok((share, frac, top_share)),
                },
            },
        }
    }
}

/// Audits a category from the stake snapshots of its addresses.
pub fn category_report(
    results: &[StakeSnapshot],
    roster: &ValidatorRoster,
    genesis_balance: Amount,
    total_staked: Amount,
) -> (r: Result<CategoryReport, AuditError>)
    requires
        snapshots_cover(results@, roster.entries@.len()),
    ensures
        match r {
            Ok(rep) => {
                &&& audit_spec(
                    results@,
                    roster.entries@.len(),
                    genesis_balance.raw as int,
                    total_staked.raw as int,
                ) == Ok::<(int, int, int), AuditError>(
                    (
                        rep.share_of_total_stake.scaled as int,
                        rep.staked_fraction.scaled as int,
                        rep.roster_share.scaled as int,
                    ),
                )
                &&& rep.staked.raw == category_total(results@)
                &&& rep.roster_stake@ == roster_column_totals(results@, roster.entries@.len())
                &&& rep.roster_total.raw == sum_amounts(rep.roster_stake@)
            },
            Err(e) => audit_spec(
                results@,
                roster.entries@.len(),
                genesis_balance.raw as int,
                total_staked.raw as int,
            ) == Err::<(int, int, int), AuditError>(e),
        },
{
    let ghost n = roster.entries@.len();
    let staked = match category_totals(results) {
        Ok(a) => a,
        Err(e) => return Err(AuditError::Stake(e)),
    };
    let roster_stake = match roster_totals(results, roster) {
        Ok(v) => v,
        Err(e) => return Err(AuditError::Stake(e)),
    };
    assert forall|k: int| 0 <= k < n implies #[trigger] roster_stake@[k]
        == roster_column_totals(results@, n)[k] by {
        assert(roster_stake@[k].raw == roster_total(results@, k));
    }
    assert(roster_stake@ =~= roster_column_totals(results@, n));
    assert forall|k: int| 0 <= k < n implies #[trigger] roster_total(results@, k) <= u128::MAX by {
        assert(roster_stake@[k].raw == roster_total(results@, k));
    }
    assert(!roster_overflows(results@, n));
    let roster_total = match checked_sum(roster_stake.as_slice()) {
        Some(a) => a,
        None => return Err(AuditError::Stake(StakeError::ArithmeticOverflow)),
    };
    let share_of_total_stake = match ratio(staked, total_staked) {
        Ok(d) => d,
        Err(e) => return Err(AuditError::Ledger(e)),
    };
    let staked_fraction = match ratio(staked, genesis_balance) {
        Ok(d) => d,
        Err(e) => return Err(AuditError::Ledger(e)),
    };
    let roster_share = match ratio(roster_total, staked) {
        Ok(d) => d,
        Err(e) => return Err(AuditError::Ledger(e)),
    };
    Ok(
        CategoryReport {
            staked,
            share_of_total_stake,
            staked_fraction,
            roster_stake,
            roster_total,
            roster_share,
        },
    )
}

} // verus!
