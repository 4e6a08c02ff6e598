//! Genesis allocation constants and the reconciliation of category
//! balances against the total supply.
use vstd::prelude::*;

use crate::amount::{lemma_sum_prefix_monotone, sum_amounts, Amount, NATIVE_SCALE};

verus! {

/// Genesis balance of the backers, in whole tokens.
pub const BACKER_WHOLE: u64 = 320_364_605;

/// Genesis balance of the R&D grantees, in whole tokens.
pub const RND_WHOLE: u64 = 170_000_000;

/// Genesis balance of the core team, in indivisible units.
pub const CORE_TEAM_RAW: u64 = 187_986_994_166_096;

/// Genesis balance of the future allocations, in indivisible units.
pub const FUTURE_ALLOC_RAW: u64 = 160_539_918_535_390;

/// Genesis balance of the public allocations, in indivisible units.
pub const PUBLIC_ALLOC_RAW: u64 = 161_108_277_298_514;

/// Genesis balance of the validator grant, in whole tokens.
pub const VALIDATOR_GRANT_WHOLE: u64 = 205;

/// Total supply at genesis, in whole tokens.
pub const TOTAL_SUPPLY_WHOLE: u64 = 1_000_000_000;

/// Genesis balance of the backers.
pub fn get_backer_balance() -> (r: Amount)
    ensures
        r.raw == BACKER_WHOLE * NATIVE_SCALE,
{
    Amount::native_whole(BACKER_WHOLE)
}

/// Genesis balance of the R&D grantees.
pub fn get_rd_balance() -> (r: Amount)
    ensures
        r.raw == RND_WHOLE * NATIVE_SCALE,
{
    Amount::native_whole(RND_WHOLE)
}

/// Genesis balance of the core team.
pub fn get_core_balance() -> (r: Amount)
    ensures
        r.raw == CORE_TEAM_RAW,
{
    Amount::from(CORE_TEAM_RAW)
}

/// Genesis balance of the future allocations.
pub fn get_future_alloc_balance() -> (r: Amount)
    ensures
        r.raw == FUTURE_ALLOC_RAW,
{
    Amount::from(FUTURE_ALLOC_RAW)
}

/// Genesis balance of the public allocations.
pub fn get_public_alloc_balance() -> (r: Amount)
    ensures
        r.raw == PUBLIC_ALLOC_RAW,
{
    Amount::from(PUBLIC_ALLOC_RAW)
}

/// Genesis balance of the validator grant.
pub fn get_pg_validator_balance() -> (r: Amount)
    ensures
        r.raw == VALIDATOR_GRANT_WHOLE * NATIVE_SCALE,
{
    Amount::native_whole(VALIDATOR_GRANT_WHOLE)
}

/// Total supply at genesis.
pub fn get_total_supply() -> (r: Amount)
    ensures
        r.raw == TOTAL_SUPPLY_WHOLE * NATIVE_SCALE,
{
    Amount::native_whole(TOTAL_SUPPLY_WHOLE)
}

/// Why the category balances do not reconcile with the total supply.
#[derive(Clone, Copy, Debug, PartialEq, Eq, Structural)]
pub enum ReconciliationError {
    /// The categories together exceed the total supply.
    Underflow,
    /// The remainder differs from the declared validator grant.
    Mismatch,
}

/// What the remainder of the supply, after the categories, is.
pub open spec fn remainder_spec(categories: Seq<Amount>, total_supply: Amount) -> Result<int, ReconciliationError> {
    if sum_amounts(categories) <= total_supply.raw {
        Ok(total_supply.raw - sum_amounts(categories))
    } else {
        Err(ReconciliationError::Underflow)
    }
}

/// The part of the total supply that the categories leave: the total minus
/// their sum, or `Underflow` when their sum exceeds the total.
pub fn reconcile(categories: &[Amount], total_supply: Amount) -> (r: Result<Amount, ReconciliationError>)
    ensures
        match r {
            Ok(a) => remainder_spec(categories@, total_supply) == Ok::<int, ReconciliationError>(a.raw as int),
            Err(e) => remainder_spec(categories@, total_supply) == Err::<int, ReconciliationError>(e),
        },
{
    let mut left = total_supply;
    let mut i: usize = 0;
    while i < categories.len()
        invariant
            i <= categories@.len(),
            left.raw == total_supply.raw - sum_amounts(categories@.subrange(0, i as int)),
        decreases categories@.len() - i,
    {
        assert(categories@.subrange(0, i as int + 1).drop_last() =~= categories@.subrange(0, i as int));
        match left.checked_sub(categories[i]) {
            Some(l) => left = l,
            None => {
                proof {
                    lemma_sum_prefix_monotone(categories@, i as int + 1, categories@.len() as int);
                    assert(categories@.subrange(0, categories@.len() as int) =~= categories@);
                }
                return Err(ReconciliationError::Underflow);
            },
        }
        i += 1;
    }
    assert(categories@.subrange(0, i as int) =~= categories@);
    Ok(left)
}

/// The declared genesis balances of the categories, the validator grant and
/// the total supply.
#[derive(Clone, Copy, Debug, PartialEq, Eq, Structural)]
pub struct GenesisConfig {
    pub backer: Amount,
    pub core_team: Amount,
    pub rnd: Amount,
    pub future_alloc: Amount,
    pub public_alloc: Amount,
    pub validator_grant: Amount,
    pub total_supply: Amount,
}

impl GenesisConfig {
    /// The categories whose balances are declared, in the order they are
    /// taken from the total supply.
    pub open spec fn categories(self) -> Seq<Amount> {
        seq![self.backer, self.core_team, self.rnd, self.future_alloc, self.public_alloc]
    }

    /// The genesis configuration of the main network.
    pub fn mainnet() -> (r: GenesisConfig)
        ensures
            r.backer.raw == BACKER_WHOLE * NATIVE_SCALE,
            r.core_team.raw == CORE_TEAM_RAW,
            r.rnd.raw == RND_WHOLE * NATIVE_SCALE,
            r.future_alloc.raw == FUTURE_ALLOC_RAW,
            r.public_alloc.raw == PUBLIC_ALLOC_RAW,
            r.validator_grant.raw == VALIDATOR_GRANT_WHOLE * NATIVE_SCALE,
            r.total_supply.raw == TOTAL_SUPPLY_WHOLE * NATIVE_SCALE,
    {
        GenesisConfig {
            backer: get_backer_balance(),
            core_team: get_core_balance(),
            rnd: get_rd_balance(),
            future_alloc: get_future_alloc_balance(),
            public_alloc: get_public_alloc_balance(),
            validator_grant: get_pg_validator_balance(),
            total_supply: get_total_supply(),
        }
    }

    /// The startup invariant: the remainder that the categories leave of
    /// the total supply is exactly the validator grant. Returns that
    /// remainder.
    pub fn check(&self) -> (r: Result<Amount, ReconciliationError>)
        ensures
            match r {
                Ok(a) => remainder_spec(self.categories(), self.total_supply) == Ok::<
                    int,
                    ReconciliationError,
                >(self.validator_grant.raw as int) && a == self.validator_grant,
                Err(ReconciliationError::Underflow) => remainder_spec(
                    self.categories(),
                    self.total_supply,
                ) is Err,
                Err(ReconciliationError::Mismatch) => remainder_spec(
                    self.categories(),
                    self.total_supply,
                ) is Ok && remainder_spec(self.categories(), self.total_supply)->Ok_0
                    != self.validator_grant.raw,
            },
    {
        let cats = [self.backer, self.core_team, self.rnd, self.future_alloc, self.public_alloc];
        assert(cats@ =~= self.categories());
        let rem = reconcile(&cats, self.total_supply)?;
        if rem.raw == self.validator_grant.raw {
            Ok(rem)
        } else {
            Err(ReconciliationError::Mismatch)
        }
    }
}

} // verus!
