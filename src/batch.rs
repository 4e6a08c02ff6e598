//! Building a multi-leg transfer from one source to many targets, and
//! checking afterwards that every leg landed.
use vstd::prelude::*;

use crate::address::{
    looks_like_address, resolve_alias_spec, resolve_literal_spec, Address, KeyEntry, Keyring,
    ResolveError,
};
use crate::amount::{checked_sum, sum_amounts, Amount, NATIVE_SCALE};

verus! {

/// One row of a transfer manifest: where to send, and how many whole tokens.
#[derive(Debug)]
pub struct TransferTarget {
    pub address: String,
    pub amount: u64,
}

/// One leg of a batch: `amount` of `token` moves from `source` to `target`.
#[derive(Debug)]
pub struct TransferLeg {
    pub source: Address,
    pub target: Address,
    pub token: Address,
    pub amount: Amount,
}

/// The legs of one transaction, authorised together by a single signature.
#[derive(Debug)]
pub struct BatchTransfer {
    pub legs: Vec<TransferLeg>,
}

/// Why a leg could not be built.
#[derive(Clone, Copy, Debug, PartialEq, Eq, Structural)]
pub enum BuildError {
    /// The amount is zero: a zero-value leg is always a manifest error.
    InvalidAmount,
    /// The source alias does not resolve.
    Source(ResolveError),
    /// The target is not an address encoding.
    Target(ResolveError),
    /// The target is the source itself.
    SelfTransfer,
}

/// A leg that could not be built, with the position of its target.
#[derive(Clone, Copy, Debug, PartialEq, Eq, Structural)]
pub struct BatchError {
    pub index: usize,
    pub kind: BuildError,
}

/// What building one leg gives: the source and target addresses and the
/// amount in indivisible units, or the first check that failed. The amount
/// is checked first, so a zero amount fails before anything is looked up.
pub open spec fn leg_spec(
    keys: Seq<KeyEntry>,
    source: Seq<char>,
    target: Seq<char>,
    whole: u64,
) -> Result<(Seq<char>, Seq<char>, int), BuildError> {
    if whole == 0 {
        Err(BuildError::InvalidAmount)
    } else {
        match resolve_alias_spec(source, keys) {
            Err(e) => Err(BuildError::Source(e)),
            Ok(src) => match resolve_literal_spec(target) {
                Err(e) => Err(BuildError::Target(e)),
                Ok(tgt) => if src == tgt {
                    Err(BuildError::SelfTransfer)
                } else {
                    Ok((src, tgt, whole * NATIVE_SCALE))
                },
            },
        }
    }
}

/// The leg matches what `leg_spec` gives for it.
pub open spec fn leg_matches(
    leg: TransferLeg,
    keys: Seq<KeyEntry>,
    source: Seq<char>,
    target: Seq<char>,
    whole: u64,
    token: Seq<char>,
) -> bool {
    &&& leg_spec(keys, source, target, whole) == Ok::<(Seq<char>, Seq<char>, int), BuildError>(
        (leg.source@, leg.target@, leg.amount.raw as int),
    )
    &&& leg.token@ == token
}

/// Builds one leg: `source` is a keyring alias, `target` an address
/// encoding, `raw_amount` a number of whole tokens.
pub fn build_transfer_data(
    keyring: &Keyring,
    source: &str,
    target: &str,
    token: &Address,
    raw_amount: u64,
) -> (r: Result<TransferLeg, BuildError>)
    ensures
        match r {
            Ok(leg) => leg_matches(leg, keyring.entries@, source@, target@, raw_amount, token@),
            Err(e) => leg_spec(keyring.entries@, source@, target@, raw_amount) == Err::<
                (Seq<char>, Seq<char>, int),
                BuildError,
            >(e),
        },
{
    if raw_amount == 0 {
        return Err(BuildError::InvalidAmount);
    }
    let src = match keyring.find_address(source) {
        Some(a) => a,
        None => return Err(BuildError::Source(ResolveError::AliasNotFound)),
    };
    if !looks_like_address(target) {
        return Err(BuildError::Target(ResolveError::Malformed));
    }
    let tgt = Address { canonical: target.to_owned() };
    if src.same_as(&tgt) {
        return Err(BuildError::SelfTransfer);
    }
    Ok(TransferLeg { source: src, target: tgt, token: token.clone(), amount: Amount::native_whole(raw_amount) })
}

/// Builds the legs of a batch, one for each target in order, all from the
/// same source and in the same token; stops at the first target whose leg
/// cannot be built.
pub fn build_batch(
    keyring: &Keyring,
    source: &str,
    targets: &[TransferTarget],
    token: &Address,
) -> (r: Result<BatchTransfer, BatchError>)
    ensures
        match r {
            Ok(b) => b.legs@.len() == targets@.len() && forall|i: int|
                0 <= i < targets@.len() ==> leg_matches(
                    #[trigger] b.legs@[i],
                    keyring.entries@,
                    source@,
                    targets@[i].address@,
                    targets@[i].amount,
                    token@,
                ),
            Err(e) => e.index < targets@.len() && leg_spec(
                keyring.entries@,
                source@,
                targets@[e.index as int].address@,
                targets@[e.index as int].amount,
            ) == Err::<(Seq<char>, Seq<char>, int), BuildError>(e.kind) && forall|i: int|
                0 <= i < e.index ==> #[trigger] leg_spec(
                    keyring.entries@,
                    source@,
                    targets@[i].address@,
                    targets@[i].amount,
                ) is Ok,
        },
{
    let mut legs: Vec<TransferLeg> = Vec::new();
    let mut i: usize = 0;
    while i < targets.len()
        invariant
            i <= targets@.len(),
            legs@.len() == i,
            forall|j: int|
                0 <= j < i ==> leg_matches(
                    #[trigger] legs@[j],
                    keyring.entries@,
                    source@,
                    targets@[j].address@,
                    targets@[j].amount,
                    token@,
                ),
        decreases targets@.len() - i,
    {
        match build_transfer_data(keyring, source, targets[i].address.as_str(), token, targets[i].amount) {
            Ok(leg) => legs.push(leg),
            Err(kind) => {
                assert forall|j: int| 0 <= j < i implies #[trigger] leg_spec(
                    keyring.entries@,
                    source@,
                    targets@[j].address@,
                    targets@[j].amount,
                ) is Ok by {
                    assert(leg_matches(
                        legs@[j],
                        keyring.entries@,
                        source@,
                        targets@[j].address@,
                        targets@[j].amount,
                        token@,
                    ));
                }
                return Err(BatchError { index: i, kind });
            },
        }
        i += 1;
    }
    Ok(BatchTransfer { legs })
}

/// Amount of each leg.
pub open spec fn leg_amounts(legs: Seq<TransferLeg>) -> Seq<Amount> {
    legs.map_values(|l: TransferLeg| l.amount)
}

/// Amount of each leg that pays `target`, zero for the others.
pub open spec fn amounts_paid_to(legs: Seq<TransferLeg>, target: Seq<char>) -> Seq<Amount> {
    legs.map_values(|l: TransferLeg| if l.target@ == target { l.amount } else { Amount { raw: 0 } })
}

/// Everything the batch pays to `target`.
pub open spec fn received(legs: Seq<TransferLeg>, target: Seq<char>) -> int {
    sum_amounts(amounts_paid_to(legs, target))
}

impl BatchTransfer {
    /// Everything the batch moves, which its source is debited.
    pub open spec fn debit(&self) -> int {
        sum_amounts(leg_amounts(self.legs@))
    }

    /// The total debit, or `None` when it does not fit the representable
    /// range.
    pub fn total_debit(&self) -> (r: Option<Amount>)
        ensures
            r is Some <==> self.debit() <= u128::MAX,
            r is Some ==> r->0.raw == self.debit(),
    {
        let mut v: Vec<Amount> = Vec::new();
        let mut i: usize = 0;
        while i < self.legs.len()
            invariant
                i <= self.legs@.len(),
                v@ == leg_amounts(self.legs@.subrange(0, i as int)),
            decreases self.legs@.len() - i,
        {
            v.push(self.legs[i].amount);
            i += 1;
            assert(v@ =~= leg_amounts(self.legs@.subrange(0, i as int)));
        }
        assert(self.legs@.subrange(0, i as int) =~= self.legs@);
        checked_sum(v.as_slice())
    }

    /// Everything the batch pays to `target`, or `None` when it does not fit.
    pub fn received_by(&self, target: &Address) -> (r: Option<Amount>)
        ensures
            r is Some <==> received(self.legs@, target@) <= u128::MAX,
            r is Some ==> r->0.raw == received(self.legs@, target@),
    {
        let mut v: Vec<Amount> = Vec::new();
        let mut i: usize = 0;
        while i < self.legs.len()
            invariant
                i <= self.legs@.len(),
                v@ == amounts_paid_to(self.legs@.subrange(0, i as int), target@),
            decreases self.legs@.len() - i,
        {
            if self.legs[i].target.same_as(target) {
                v.push(self.legs[i].amount);
            } else {
                v.push(Amount::zero());
            }
            i += 1;
            assert(v@ =~= amounts_paid_to(self.legs@.subrange(0, i as int), target@));
        }
        assert(self.legs@.subrange(0, i as int) =~= self.legs@);
        checked_sum(v.as_slice())
    }
}

/// Sum of the targets' amounts, in whole tokens.
pub open spec fn whole_total(targets: Seq<TransferTarget>) -> int
    decreases targets.len(),
{
    if targets.len() == 0 {
        0
    } else {
        whole_total(targets.drop_last()) + targets.last().amount
    }
}

/// A batch built from a list of targets debits its source with exactly the
/// sum of the targets' amounts.
pub proof fn lemma_batch_debit(
    legs: Seq<TransferLeg>,
    keys: Seq<KeyEntry>,
    source: Seq<char>,
    targets: Seq<TransferTarget>,
    token: Seq<char>,
)
    requires
        legs.len() == targets.len(),
        forall|i: int|
            0 <= i < targets.len() ==> leg_matches(
                #[trigger] legs[i],
                keys,
                source,
                targets[i].address@,
                targets[i].amount,
                token,
            ),
    ensures
        sum_amounts(leg_amounts(legs)) == whole_total(targets) * NATIVE_SCALE,
    decreases targets.len(),
{
    if targets.len() > 0 {
        let n = targets.len() - 1;
        assert forall|i: int| 0 <= i < n implies leg_matches(
            #[trigger] legs.drop_last()[i],
            keys,
            source,
            targets.drop_last()[i].address@,
            targets.drop_last()[i].amount,
            token,
        ) by {
            assert(leg_matches(legs[i], keys, source, targets[i].address@, targets[i].amount, token));
        }
        lemma_batch_debit(legs.drop_last(), keys, source, targets.drop_last(), token);
        assert(leg_amounts(legs).drop_last() =~= leg_amounts(legs.drop_last()));
        assert(leg_matches(legs[n], keys, source, targets[n].address@, targets[n].amount, token));
        assert(legs[n].amount.raw == targets[n].amount * NATIVE_SCALE);
        assert(whole_total(targets) * NATIVE_SCALE == whole_total(targets.drop_last()) * NATIVE_SCALE
            + targets[n].amount * NATIVE_SCALE) by (nonlinear_arith)
            requires
                whole_total(targets) == whole_total(targets.drop_last()) + targets[n].amount,
        ;
    }
}

/// The outcome of checking one leg's target after submission.
#[derive(Clone, Copy, Debug, PartialEq, Eq, Structural)]
pub enum LegCheck {
    /// The balance grew by exactly what the batch pays the target.
    Landed,
    /// The balance did not grow by what the batch pays the target.
    Mismatch,
    /// A balance of the target could not be looked up.
    Unavailable,
}

/// What checking a leg gives, from its target's balances before and after.
pub open spec fn leg_check_spec(
    legs: Seq<TransferLeg>,
    target: Seq<char>,
    before: Option<Amount>,
    after: Option<Amount>,
) -> LegCheck {
    match (before, after) {
        (Some(b), Some(a)) => if a.raw == b.raw + received(legs, target) {
            LegCheck::Landed
        } else {
            LegCheck::Mismatch
        },
        _ => LegCheck::Unavailable,
    }
}

/// Checks each leg's target against its balances before and after
/// submission. A balance that could not be looked up marks that leg only;
/// the other legs are still checked.
pub fn check_disbursement(
    batch: &BatchTransfer,
    before: &[Option<Amount>],
    after: &[Option<Amount>],
) -> (r: Vec<LegCheck>)
    requires
        before@.len() == batch.legs@.len(),
        after@.len() == batch.legs@.len(),
    ensures
        r@.len() == batch.legs@.len(),
        forall|i: int|
            0 <= i < r@.len() ==> #[trigger] r@[i] == leg_check_spec(
                batch.legs@,
                batch.legs@[i].target@,
                before@[i],
                after@[i],
            ),
{
    let mut out: Vec<LegCheck> = Vec::new();
    let mut i: usize = 0;
    while i < batch.legs.len()
        invariant
            i <= batch.legs@.len(),
            before@.len() == batch.legs@.len(),
            after@.len() == batch.legs@.len(),
            out@.len() == i,
            forall|j: int|
                0 <= j < i ==> #[trigger] out@[j] == leg_check_spec(
                    batch.legs@,
                    batch.legs@[j].target@,
                    before@[j],
                    after@[j],
                ),
        decreases batch.legs@.len() - i,
    {
        let check = match (before[i], after[i]) {
            (Some(b), Some(a)) => match batch.received_by(&batch.legs[i].target) {
                Some(paid) => if b.raw <= u128::MAX - paid.raw && a.raw == b.raw + paid.raw {
                    LegCheck::Landed
                } else {
                    LegCheck::Mismatch
                },
                None => LegCheck::Mismatch,
            },
            _ => LegCheck::Unavailable,
        };
        out.push(check);
        i += 1;
    }
    out
}

} // verus!
