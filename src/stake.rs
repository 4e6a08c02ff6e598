//! Bonded stake of delegators: per-address totals, attribution to the
//! roster's validators, and reduction over a category of addresses.
use vstd::prelude::*;
use vstd::seq_lib::{to_multiset_contains, to_multiset_len, to_multiset_remove};

use crate::address::Address;
use crate::amount::{checked_sum, lemma_sum_amounts_concat, sum_amounts, Amount};
use crate::roster::ValidatorRoster;

verus! {

/// An active bond: stake that `source` currently has bonded to `validator`.
#[derive(Debug)]
pub struct Bond {
    pub source: Address,
    pub validator: Address,
    pub active: Amount,
}

/// A pending unbond. It no longer counts as bonded stake.
#[derive(Debug)]
pub struct Unbond {
    pub source: Address,
    pub validator: Address,
    pub amount: Amount,
}

/// Bonds and unbonds of one delegator at one epoch, as the chain reports them.
#[derive(Debug)]
pub struct BondDetail {
    pub bonds: Vec<Bond>,
    pub unbonds: Vec<Unbond>,
}

/// A checked sum exceeded the representable range.
#[derive(Clone, Copy, Debug, PartialEq, Eq, Structural)]
pub enum StakeError {
    ArithmeticOverflow,
}

/// The active amount of each bond.
pub open spec fn active_amounts(bonds: Seq<Bond>) -> Seq<Amount> {
    bonds.map_values(|b: Bond| b.active)
}

/// Each bond's active amount where it is keyed by (`source`, `validator`),
/// zero elsewhere.
pub open spec fn amounts_to(bonds: Seq<Bond>, source: Seq<char>, validator: Seq<char>) -> Seq<Amount> {
    bonds.map_values(
        |b: Bond|
            if b.source@ == source && b.validator@ == validator {
                b.active
            } else {
                Amount { raw: 0 }
            },
    )
}

/// All active stake of the detail.
pub open spec fn total_active(d: BondDetail) -> int {
    sum_amounts(active_amounts(d.bonds@))
}

/// Active stake of the detail keyed by (`source`, `validator`).
pub open spec fn bonded_to(d: BondDetail, source: Seq<char>, validator: Seq<char>) -> int {
    sum_amounts(amounts_to(d.bonds@, source, validator))
}

/// Sum of the active amounts of all bonds; unbonds are left out.
pub fn bonds_total_active(detail: &BondDetail) -> (r: Result<Amount, StakeError>)
    ensures
        r is Ok <==> total_active(*detail) <= u128::MAX,
        r is Ok ==> r->Ok_0.raw == total_active(*detail),
{
    let mut v: Vec<Amount> = Vec::new();
    let mut i: usize = 0;
    while i < detail.bonds.len()
        invariant
            i <= detail.bonds@.len(),
            v@ == active_amounts(detail.bonds@.subrange(0, i as int)),
        decreases detail.bonds@.len() - i,
    {
        v.push(detail.bonds[i].active);
        i += 1;
        assert(v@ =~= active_amounts(detail.bonds@.subrange(0, i as int)));
    }
    assert(detail.bonds@.subrange(0, i as int) =~= detail.bonds@);
    match checked_sum(v.as_slice()) {
        Some(a) => Ok(a),
        None => Err(StakeError::ArithmeticOverflow),
    }
}

/// Active stake that `source` has bonded to `validator`; a key with no bond
/// contributes zero.
pub fn stake_to_validator(detail: &BondDetail, source: &Address, validator: &Address) -> (r: Result<
    Amount,
    StakeError,
>)
    ensures
        r is Ok <==> bonded_to(*detail, source@, validator@) <= u128::MAX,
        r is Ok ==> r->Ok_0.raw == bonded_to(*detail, source@, validator@),
{
    let mut v: Vec<Amount> = Vec::new();
    let mut i: usize = 0;
    while i < detail.bonds.len()
        invariant
            i <= detail.bonds@.len(),
            v@ == amounts_to(detail.bonds@.subrange(0, i as int), source@, validator@),
        decreases detail.bonds@.len() - i,
    {
        let b = &detail.bonds[i];
        if b.source.same_as(source) && b.validator.same_as(validator) {
            v.push(b.active);
        } else {
            v.push(Amount::zero());
        }
        i += 1;
        assert(v@ =~= amounts_to(detail.bonds@.subrange(0, i as int), source@, validator@));
    }
    assert(detail.bonds@.subrange(0, i as int) =~= detail.bonds@);
    match checked_sum(v.as_slice()) {
        Some(a) => Ok(a),
        None => Err(StakeError::ArithmeticOverflow),
    }
}

/// For each roster validator in order, the active stake that `source` has
/// bonded to it (zero where there is no such bond).
pub fn get_bonds_to_top_validators(
    source: &Address,
    detail: &BondDetail,
    roster: &ValidatorRoster,
) -> (r: Result<Vec<Amount>, StakeError>)
    ensures
        match r {
            Ok(v) => v@.len() == roster.entries@.len() && forall|k: int|
                0 <= k < v@.len() ==> #[trigger] v@[k].raw == bonded_to(
                    *detail,
                    source@,
                    roster.entries@[k].address@,
                ),
            Err(_) => exists|k: int|
                0 <= k < roster.entries@.len() && #[trigger] bonded_to(
                    *detail,
                    source@,
                    roster.entries@[k].address@,
                ) > u128::MAX,
        },
{
    let mut out: Vec<Amount> = Vec::new();
    let mut k: usize = 0;
    while k < roster.entries.len()
        invariant
            k <= roster.entries@.len(),
            out@.len() == k,
            forall|j: int|
                0 <= j < k ==> #[trigger] out@[j].raw == bonded_to(
                    *detail,
                    source@,
                    roster.entries@[j].address@,
                ),
        decreases roster.entries@.len() - k,
    {
        let a = stake_to_validator(detail, source, &roster.entries[k].address)?;
        out.push(a);
        k += 1;
    }
    Ok(out)
}

/// What one delegator contributes to a category: all of its active stake,
/// and the part of it bonded to each roster validator, in roster order.
#[derive(Debug)]
pub struct StakeSnapshot {
    pub active_bonded: Amount,
    pub per_validator: Vec<Amount>,
}

/// Queries' results for one delegator, reduced: its active stake and its
/// attribution to the roster.
pub fn bonded_stake(source: &Address, detail: &BondDetail, roster: &ValidatorRoster) -> (r: Result<
    StakeSnapshot,
    StakeError,
>)
    ensures
        match r {
            Ok(s) => s.active_bonded.raw == total_active(*detail) && s.per_validator@.len()
                == roster.entries@.len() && forall|k: int|
                0 <= k < s.per_validator@.len() ==> #[trigger] s.per_validator@[k].raw == bonded_to(
                    *detail,
                    source@,
                    roster.entries@[k].address@,
                ),
            Err(_) => total_active(*detail) > u128::MAX || exists|k: int|
                0 <= k < roster.entries@.len() && #[trigger] bonded_to(
                    *detail,
                    source@,
                    roster.entries@[k].address@,
                ) > u128::MAX,
        },
{
    let active_bonded = bonds_total_active(detail)?;
    let per_validator = get_bonds_to_top_validators(source, detail, roster)?;
    Ok(StakeSnapshot { active_bonded, per_validator })
}

/// Active stake of each snapshot.
pub open spec fn snapshot_totals(s: Seq<StakeSnapshot>) -> Seq<Amount> {
    s.map_values(|x: StakeSnapshot| x.active_bonded)
}

/// Stake of each snapshot bonded to the `k`-th roster validator.
pub open spec fn snapshot_column(s: Seq<StakeSnapshot>, k: int) -> Seq<Amount> {
    s.map_values(|x: StakeSnapshot| x.per_validator@[k])
}

/// Total active stake of a category.
pub open spec fn category_total(s: Seq<StakeSnapshot>) -> int {
    sum_amounts(snapshot_totals(s))
}

/// Total stake of a category bonded to the `k`-th roster validator.
pub open spec fn roster_total(s: Seq<StakeSnapshot>, k: int) -> int {
    sum_amounts(snapshot_column(s, k))
}

/// Checked sum of the active stake of every address of a category.
pub fn category_totals(results: &[StakeSnapshot]) -> (r: Result<Amount, StakeError>)
    ensures
        r is Ok <==> category_total(results@) <= u128::MAX,
        r is Ok ==> r->Ok_0.raw == category_total(results@),
{
    let mut v: Vec<Amount> = Vec::new();
    let mut i: usize = 0;
    while i < results.len()
        invariant
            i <= results@.len(),
            v@ == snapshot_totals(results@.subrange(0, i as int)),
        decreases results@.len() - i,
    {
        v.push(results[i].active_bonded);
        i += 1;
        assert(v@ =~= snapshot_totals(results@.subrange(0, i as int)));
    }
    assert(results@.subrange(0, i as int) =~= results@);
    match checked_sum(v.as_slice()) {
        Some(a) => Ok(a),
        None => Err(StakeError::ArithmeticOverflow),
    }
}

/// What to do with an address of a category whose query failed.
#[derive(Clone, Copy, Debug, PartialEq, Eq, Structural)]
pub enum FailurePolicy {
    /// Abort the whole category at the first failed address.
    FailFast,
    /// Leave failed addresses out and report which ones they were.
    SkipFailed,
}

/// Why a category total under a failure policy could not be computed.
#[derive(Clone, Copy, Debug, PartialEq, Eq, Structural)]
pub enum CategoryError {
    /// The query for the address at `index` failed.
    QueryFailed { index: usize },
    /// The sum exceeded the representable range.
    ArithmeticOverflow,
}

/// A category total, with the positions of the addresses left out of it.
#[derive(Debug)]
pub struct PartialTotal {
    pub total: Amount,
    pub skipped: Vec<usize>,
}

/// Active stake of each result that arrived, zero for each failed query.
pub open spec fn present_totals(s: Seq<Option<StakeSnapshot>>) -> Seq<Amount> {
    s.map_values(
        |o: Option<StakeSnapshot>|
            match o {
                Some(x) => x.active_bonded,
                None => Amount { raw: 0 },
            },
    )
}

/// Positions of the failed queries, in increasing order.
pub open spec fn failed_positions(s: Seq<Option<StakeSnapshot>>) -> Seq<usize>
    decreases s.len(),
{
    if s.len() == 0 {
        Seq::empty()
    } else if s.last() is None {
        failed_positions(s.drop_last()).push((s.len() - 1) as usize)
    } else {
        failed_positions(s.drop_last())
    }
}

/// The category total when some address queries may have failed: under
/// `FailFast` the first failure aborts, under `SkipFailed` the failed
/// addresses are left out and listed.
pub fn category_totals_with_policy(results: &[Option<StakeSnapshot>], policy: FailurePolicy) -> (r: Result<
    PartialTotal,
    CategoryError,
>)
    ensures
        policy == FailurePolicy::FailFast && failed_positions(results@).len() > 0 ==> r
            == Err::<PartialTotal, CategoryError>(
            CategoryError::QueryFailed { index: failed_positions(results@)[0] },
        ),
        (policy == FailurePolicy::SkipFailed || failed_positions(results@).len() == 0) ==> {
            &&& r is Ok <==> sum_amounts(present_totals(results@)) <= u128::MAX
            &&& r is Err ==> r == Err::<PartialTotal, CategoryError>(CategoryError::ArithmeticOverflow)
            &&& r is Ok ==> r->Ok_0.total.raw == sum_amounts(present_totals(results@))
                && r->Ok_0.skipped@ == failed_positions(results@)
        },
{
    let mut v: Vec<Amount> = Vec::new();
    let mut skipped: Vec<usize> = Vec::new();
    let mut i: usize = 0;
    while i < results.len()
        invariant
            i <= results@.len(),
            v@ == present_totals(results@.subrange(0, i as int)),
            skipped@ == failed_positions(results@.subrange(0, i as int)),
            policy == FailurePolicy::FailFast ==> skipped@.len() == 0,
        decreases results@.len() - i,
    {
        let ghost p = results@.subrange(0, i as int + 1);
        assert(p.drop_last() =~= results@.subrange(0, i as int));
        match &results[i] {
            Some(x) => {
                v.push(x.active_bonded);
            },
            None => {
                if policy == FailurePolicy::FailFast {
                    proof { lemma_failed_positions_first(results@, i as int); }
                    return Err(CategoryError::QueryFailed { index: i });
                }
                v.push(Amount::zero());
                skipped.push(i);
            },
        }
        i += 1;
        assert(v@ =~= present_totals(results@.subrange(0, i as int)));
    }
    assert(results@.subrange(0, i as int) =~= results@);
    match checked_sum(v.as_slice()) {
        Some(total) => Ok(PartialTotal { total, skipped }),
        None => Err(CategoryError::ArithmeticOverflow),
    }
}

/// Where no query before `i` failed and the one at `i` did, `i` is the
/// first failed position.
proof fn lemma_failed_positions_first(s: Seq<Option<StakeSnapshot>>, i: int)
    requires
        0 <= i < s.len(),
        i <= usize::MAX,
        s[i] is None,
        failed_positions(s.subrange(0, i)).len() == 0,
    ensures
        failed_positions(s).len() > 0,
        failed_positions(s)[0] == i,
    decreases s.len(),
{
    if s.len() == i + 1 {
        assert(s.drop_last() =~= s.subrange(0, i));
    } else {
        assert(s.drop_last().subrange(0, i) =~= s.subrange(0, i));
        lemma_failed_positions_first(s.drop_last(), i);
        let f = failed_positions(s.drop_last());
        if s.last() is None {
            assert(f.push((s.len() - 1) as usize)[0] == f[0]);
        }
    }
}

/// Every snapshot attributes stake to a roster of `n` validators.
pub open spec fn snapshots_cover(s: Seq<StakeSnapshot>, n: nat) -> bool {
    forall|i: int| 0 <= i < s.len() ==> (#[trigger] s[i]).per_validator@.len() == n
}

fn column_total(results: &[StakeSnapshot], k: usize) -> (r: Result<Amount, StakeError>)
    requires
        forall|i: int| 0 <= i < results@.len() ==> k < (#[trigger] results@[i]).per_validator@.len(),
    ensures
        r is Ok <==> roster_total(results@, k as int) <= u128::MAX,
        r is Ok ==> r->Ok_0.raw == roster_total(results@, k as int),
{
    let mut v: Vec<Amount> = Vec::new();
    let mut i: usize = 0;
    while i < results.len()
        invariant
            i <= results@.len(),
            forall|i: int| 0 <= i < results@.len() ==> k < (#[trigger] results@[i]).per_validator@.len(),
            v@ == snapshot_column(results@.subrange(0, i as int), k as int),
        decreases results@.len() - i,
    {
        v.push(results[i].per_validator[k]);
        i += 1;
        assert(v@ =~= snapshot_column(results@.subrange(0, i as int), k as int));
    }
    assert(results@.subrange(0, i as int) =~= results@);
    match checked_sum(v.as_slice()) {
        Some(a) => Ok(a),
        None => Err(StakeError::ArithmeticOverflow),
    }
}

/// For each roster validator, the checked sum over a category of the stake
/// bonded to it.
pub fn roster_totals(results: &[StakeSnapshot], roster: &ValidatorRoster) -> (r: Result<
    Vec<Amount>,
    StakeError,
>)
    requires
        snapshots_cover(results@, roster.entries@.len()),
    ensures
        match r {
            Ok(v) => v@.len() == roster.entries@.len() && forall|k: int|
                0 <= k < v@.len() ==> #[trigger] v@[k].raw == roster_total(results@, k),
            Err(_) => exists|k: int|
                0 <= k < roster.entries@.len() && #[trigger] roster_total(results@, k) > u128::MAX,
        },
{
    let n = roster.len();
    let mut out: Vec<Amount> = Vec::new();
    let mut k: usize = 0;
    while k < n
        invariant
            n == roster.entries@.len(),
            snapshots_cover(results@, n as nat),
            k <= n,
            out@.len() == k,
            forall|j: int| 0 <= j < k ==> #[trigger] out@[j].raw == roster_total(results@, j),
        decreases n - k,
    {
        let a = column_total(results, k)?;
        out.push(a);
        k += 1;
    }
    Ok(out)
}

/// A category's total over the union of two disjoint groups of addresses is
/// the sum of the two groups' totals: the reduction does not depend on how
/// the addresses are split.
pub proof fn lemma_category_total_union(a: Seq<StakeSnapshot>, b: Seq<StakeSnapshot>)
    ensures
        category_total(a + b) == category_total(a) + category_total(b),
{
    assert(snapshot_totals(a + b) =~= snapshot_totals(a) + snapshot_totals(b));
    lemma_sum_amounts_concat(snapshot_totals(a), snapshot_totals(b));
}

/// The order in which two groups of per-address results are combined does
/// not change the category's total.
pub proof fn lemma_category_total_commutes(a: Seq<StakeSnapshot>, b: Seq<StakeSnapshot>)
    ensures
        category_total(a + b) == category_total(b + a),
{
    lemma_category_total_union(a, b);
    lemma_category_total_union(b, a);
}

/// A category's total does not depend on the order in which the results
/// of its addresses arrive: any rearrangement gives the same total.
pub proof fn lemma_category_total_permutation(a: Seq<StakeSnapshot>, b: Seq<StakeSnapshot>)
    requires
        a.to_multiset() == b.to_multiset(),
    ensures
        category_total(a) == category_total(b),
    decreases a.len(),
{
    to_multiset_len(a);
    to_multiset_len(b);
    if a.len() == 0 {
        assert(snapshot_totals(a) =~= Seq::<Amount>::empty());
        assert(snapshot_totals(b) =~= Seq::<Amount>::empty());
    } else {
        let n = a.len() - 1;
        let x = a[n];
        assert(a.contains(x));
        to_multiset_contains(a, x);
        to_multiset_contains(b, x);
        let j = choose|j: int| 0 <= j < b.len() && b[j] == x;
        to_multiset_remove(a, n);
        to_multiset_remove(b, j);
        assert(a.remove(n) =~= a.drop_last());
        lemma_category_total_permutation(a.drop_last(), b.remove(j));
        assert(snapshot_totals(a).drop_last() =~= snapshot_totals(a.drop_last()));
        let front = b.subrange(0, j);
        let back = b.subrange(j + 1, b.len() as int);
        assert(b =~= front + seq![x] + back);
        assert(b.remove(j) =~= front + back);
        lemma_category_total_union(front + seq![x], back);
        lemma_category_total_union(front, seq![x]);
        lemma_category_total_union(front, back);
        let single = snapshot_totals(seq![x]);
        assert(single.len() == 1);
        assert(single.last() == x.active_bonded);
        assert(single.drop_last() =~= Seq::<Amount>::empty());
        assert(sum_amounts(single.drop_last()) == 0);
        assert(category_total(seq![x]) == x.active_bonded.raw);
        assert(category_total(a) == category_total(a.drop_last()) + x.active_bonded.raw);
        assert(category_total(b) == category_total(front) + x.active_bonded.raw + category_total(back));
        assert(category_total(b.remove(j)) == category_total(front) + category_total(back));
    }
}

} // verus!
