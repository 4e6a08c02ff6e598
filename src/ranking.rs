//! Ranking validators by bonded stake, with their shares of the total.
use vstd::prelude::*;

use crate::amount::Amount;
use crate::decimal::{fits_decimal, ratio, ratio_spec, Decimal, LedgerError, DEC_SCALE};

verus! {

/// `r` lists each position of a sequence of length `n` exactly once.
pub open spec fn is_permutation(r: Seq<usize>, n: nat) -> bool {
    &&& r.len() == n
    &&& forall|i: int| 0 <= i < r.len() ==> #[trigger] r[i] < n
    &&& forall|i: int, j: int| 0 <= i < j < r.len() ==> #[trigger] r[i] != #[trigger] r[j]
}

/// Positions of `stakes`, from the largest stake to the smallest.
pub fn rank_by_stake(stakes: &[Amount]) -> (r: Vec<usize>)
    ensures
        is_permutation(r@, stakes@.len()),
        forall|i: int, j: int|
            0 <= i < j < r@.len() ==> stakes@[#[trigger] r@[i] as int].raw >= stakes@[#[trigger] r@[j] as int].raw,
{
    let n = stakes.len();
    let mut idx: Vec<usize> = Vec::new();
    let mut k: usize = 0;
    while k < n
        invariant
            n == stakes@.len(),
            k <= n,
            idx@.len() == k,
            forall|i: int| 0 <= i < k ==> #[trigger] idx@[i] == i,
        decreases n - k,
    {
        idx.push(k);
        k += 1;
    }
    let mut i: usize = 0;
    while i < n
        invariant
            n == stakes@.len(),
            i <= n,
            is_permutation(idx@, n as nat),
            forall|a: int, b: int|
                0 <= a < b < n && a < i ==> stakes@[#[trigger] idx@[a] as int].raw >= stakes@[#[trigger] idx@[b] as int].raw,
        decreases n - i,
    {
        let mut best: usize = i;
        let mut j: usize = i + 1;
        while j < n
            invariant
                n == stakes@.len(),
                i <= best < n,
                i < j <= n,
                best < j,
                is_permutation(idx@, n as nat),
                forall|m: int| i <= m < j ==> stakes@[idx@[best as int] as int].raw >= stakes@[#[trigger] idx@[m] as int].raw,
            decreases n - j,
        {
            if stakes[idx[j]].raw > stakes[idx[best]].raw {
                best = j;
            }
            j += 1;
        }
        let ghost old_idx = idx@;
        let a = idx[i];
        let b = idx[best];
        idx.set(i, b);
        idx.set(best, a);
        assert(idx@ =~= old_idx.update(i as int, b).update(best as int, a));
        assert forall|x: int, y: int| 0 <= x < y < idx@.len() implies #[trigger] idx@[x] != #[trigger] idx@[y] by {
            let px = if x == i { best as int } else if x == best { i as int } else { x };
            let py = if y == i { best as int } else if y == best { i as int } else { y };
            assert(idx@[x] == old_idx[px]);
            assert(idx@[y] == old_idx[py]);
            assert(px != py);
        }
        assert forall|p: int, q: int|
            0 <= p < q < n && p < i + 1 implies stakes@[#[trigger] idx@[p] as int].raw >= stakes@[#[trigger] idx@[q] as int].raw by {
            let pq = if q == i { best as int } else if q == best { i as int } else { q };
            assert(idx@[q] == old_idx[pq]);
            if p < i {
                let pp = if p == best { i as int } else { p };
                assert(idx@[p] == old_idx[p]);
            } else {
                assert(idx@[p] == old_idx[best as int]);
            }
        }
        i += 1;
    }
    idx
}

/// Sum of the shares of the first `k` ranked stakes.
pub open spec fn cumulative_share(ranked: Seq<Amount>, total: int, k: int) -> int
    decreases k,
{
    if k <= 0 {
        0
    } else {
        cumulative_share(ranked, total, k - 1) + ratio_spec(ranked[k - 1].raw as int, total)->Ok_0
    }
}

/// Every share of the first `n` ranked stakes, and every running sum of
/// them, can be computed and fits.
pub open spec fn shares_fit(ranked: Seq<Amount>, total: int, n: int) -> bool {
    &&& (n == 0 || total != 0)
    &&& forall|k: int| 0 <= k < n ==> (#[trigger] ranked[k]).raw * DEC_SCALE <= i128::MAX
    &&& forall|k: int| 0 <= k < n ==> fits_decimal(#[trigger] cumulative_share(ranked, total, k + 1))
}

/// One ranked validator's share of the total stake, and the share of all
/// validators ranked up to and including it.
#[derive(Clone, Copy, Debug, PartialEq, Eq, Structural)]
pub struct RankedShare {
    pub share: Decimal,
    pub cumulative: Decimal,
}

/// For the first `limit` stakes in the given order, each one's share of
/// `total` and the running sum of those shares.
pub fn top_shares(ranked: &[Amount], total: Amount, limit: usize) -> (r: Result<Vec<RankedShare>, LedgerError>)
    ensures
        ({
            let n = if limit < ranked@.len() { limit as int } else { ranked@.len() as int };
            &&& r == Err::<Vec<RankedShare>, LedgerError>(LedgerError::DivisionByZero) <==> (n > 0
                && total.raw == 0)
            &&& r is Ok <==> shares_fit(ranked@, total.raw as int, n)
        }),
        r matches Ok(v) ==> {
                &&& v@.len() == if limit < ranked@.len() { limit as int } else { ranked@.len() as int }
                &&& forall|k: int| 0 <= k < v@.len() ==> ratio_spec(ranked@[k].raw as int, total.raw as int)
                    == Ok::<int, LedgerError>((#[trigger] v@[k]).share.scaled as int)
                &&& forall|k: int| 0 <= k < v@.len() ==> (#[trigger] v@[k]).cumulative.scaled
                    == cumulative_share(ranked@, total.raw as int, k + 1)
            },
{
    let n = if limit < ranked.len() { limit } else { ranked.len() };
    let mut out: Vec<RankedShare> = Vec::new();
    let mut cumulative = Decimal::zero();
    let mut k: usize = 0;
    if n > 0 && total.raw == 0 {
        return Err(LedgerError::DivisionByZero);
    }
    while k < n
        invariant
            n <= ranked@.len(),
            n == if limit < ranked@.len() { limit as int } else { ranked@.len() as int },
            k <= n,
            out@.len() == k,
            cumulative.scaled == cumulative_share(ranked@, total.raw as int, k as int),
            forall|m: int| 0 <= m < k ==> ratio_spec(ranked@[m].raw as int, total.raw as int)
                == Ok::<int, LedgerError>((#[trigger] out@[m]).share.scaled as int),
            forall|m: int| 0 <= m < k ==> (#[trigger] out@[m]).cumulative.scaled
                == cumulative_share(ranked@, total.raw as int, m + 1),
            n == 0 || total.raw != 0,
            forall|m: int| 0 <= m < k ==> (#[trigger] ranked@[m]).raw * DEC_SCALE <= i128::MAX,
            forall|m: int| 0 <= m < k ==> fits_decimal(#[trigger] cumulative_share(ranked@, total.raw as int, m + 1)),
        decreases n - k,
    {
        let share = ratio(ranked[k], total)?;
        assert(cumulative_share(ranked@, total.raw as int, k as int + 1) == cumulative.scaled
            + share.scaled);
        cumulative = match cumulative.checked_add(share) {
            Ok(c) => c,
            Err(e) => {
                assert(!fits_decimal(cumulative_share(ranked@, total.raw as int, k as int + 1)));
                assert(!shares_fit(ranked@, total.raw as int, n as int));
                return Err(e);
            },
        };
        out.push(RankedShare { share, cumulative });
        k += 1;
    }
    Ok(out)
}

} // verus!
