//! Totals of amounts grouped by the name they are recorded under, such as
//! the grantees of a category.
use vstd::prelude::*;

use crate::amount::{lemma_sum_prefix_monotone, sum_amounts, Amount};
use crate::stake::StakeError;

verus! {

/// An amount recorded under a name.
#[derive(Debug)]
pub struct NamedAmount {
    pub name: String,
    pub amount: Amount,
}

/// Each entry's amount where it is recorded under `name`, zero elsewhere.
pub open spec fn amounts_named(entries: Seq<NamedAmount>, name: Seq<char>) -> Seq<Amount> {
    entries.map_values(|e: NamedAmount| if e.name@ == name { e.amount } else { Amount { raw: 0 } })
}

/// Everything recorded under `name`.
pub open spec fn name_total(entries: Seq<NamedAmount>, name: Seq<char>) -> int {
    sum_amounts(amounts_named(entries, name))
}

proof fn lemma_sum_zeros(s: Seq<Amount>)
    requires
        forall|i: int| 0 <= i < s.len() ==> (#[trigger] s[i]).raw == 0,
    ensures
        sum_amounts(s) == 0,
    decreases s.len(),
{
    if s.len() > 0 {
        lemma_sum_zeros(s.drop_last());
    }
}

proof fn lemma_name_total_push(p: Seq<NamedAmount>, e: NamedAmount, name: Seq<char>)
    ensures
        name_total(p.push(e), name) == name_total(p, name) + (if e.name@ == name {
            e.amount.raw as int
        } else {
            0
        }),
{
    assert(amounts_named(p.push(e), name).drop_last() =~= amounts_named(p, name));
}

/// Some entry of `s` is recorded under `name`.
pub open spec fn has_name(s: Seq<NamedAmount>, name: Seq<char>) -> bool {
    exists|k: int| 0 <= k < s.len() && #[trigger] s[k].name@ == name
}

/// `out` holds the names of `p` once each, in some order, with their totals.
pub open spec fn grouped(out: Seq<NamedAmount>, p: Seq<NamedAmount>) -> bool {
    &&& forall|a: int, b: int|
        0 <= a < b < out.len() ==> #[trigger] out[a].name@ != #[trigger] out[b].name@
    &&& forall|k: int|
        0 <= k < out.len() ==> (#[trigger] out[k]).amount.raw == name_total(p, out[k].name@)
    &&& forall|j: int| 0 <= j < p.len() ==> has_name(out, (#[trigger] p[j]).name@)
    &&& forall|k: int| 0 <= k < out.len() ==> has_name(p, (#[trigger] out[k]).name@)
}

#[verifier::rlimit(50)]
fn add_entry(out: &mut Vec<NamedAmount>, e: &NamedAmount, Ghost(p): Ghost<Seq<NamedAmount>>) -> (r: bool)
    requires
        grouped(old(out)@, p),
    ensures
        r ==> grouped(final(out)@, p.push(*e)),
        !r ==> name_total(p.push(*e), e.name@) > u128::MAX,
{
    let ghost name = e.name@;
    let ghost q = p.push(*e);
    assert forall|n: Seq<char>| true implies #[trigger] name_total(q, n) == name_total(p, n) + (
    if name == n {
        e.amount.raw as int
    } else {
        0
    }) by {
        lemma_name_total_push(p, *e, n);
    }
    let mut k: usize = 0;
    while k < out.len() && !(out[k].name == e.name)
        invariant
            name == e.name@,
            k <= out@.len(),
            forall|m: int| 0 <= m < k ==> (#[trigger] out@[m]).name@ != name,
        decreases out@.len() - k,
    {
        k += 1;
    }
    let ghost old_out = out@;
    if k < out.len() {
        match out[k].amount.checked_add(e.amount) {
            Some(sum) => {
                assert(old_out[k as int].name@ == name);
                let entry = NamedAmount { name: e.name.clone(), amount: sum };
                out.set(k, entry);
                assert forall|j: int| 0 <= j < q.len() implies has_name(out@, (#[trigger] q[j]).name@) by {
                    if j < p.len() {
                        assert(q[j] == p[j]);
                        let m = choose|m: int| 0 <= m < old_out.len() && #[trigger] old_out[m].name@ == p[j].name@;
                        assert(out@[m].name@ == q[j].name@);
                    } else {
                        assert(out@[k as int].name@ == q[j].name@);
                    }
                }
                assert forall|m: int| 0 <= m < out@.len() implies has_name(q, (#[trigger] out@[m]).name@) by {
                    let j = choose|j: int| 0 <= j < p.len() && #[trigger] p[j].name@ == old_out[m].name@;
                    assert(q[j] == p[j]);
                    assert(q[j].name@ == out@[m].name@);
                }
                assert forall|m: int| 0 <= m < out@.len() implies (#[trigger] out@[m]).amount.raw
                    == name_total(q, out@[m].name@) by {
                    if m != k {
                        assert(old_out[m].name@ != name);
                    }
                }
                assert forall|a: int, b: int| 0 <= a < b < out@.len() implies #[trigger] out@[a].name@
                    != #[trigger] out@[b].name@ by {
                    assert(old_out[a].name@ != old_out[b].name@);
                }
                        true
            },
            None => false,
        }
    } else {
        assert forall|j: int| 0 <= j < p.len() implies (#[trigger] amounts_named(p, name)[j]).raw
            == 0 by {
            if p[j].name@ == name {
                let m = choose|m: int| 0 <= m < old_out.len() && #[trigger] old_out[m].name@ == p[j].name@;
                assert(old_out[m].name@ != name);
            }
        }
        proof { lemma_sum_zeros(amounts_named(p, name)); }
        out.push(NamedAmount { name: e.name.clone(), amount: e.amount });
        assert forall|j: int| 0 <= j < q.len() implies has_name(out@, (#[trigger] q[j]).name@) by {
            if j < p.len() {
                assert(q[j] == p[j]);
                let m = choose|m: int| 0 <= m < old_out.len() && #[trigger] old_out[m].name@ == p[j].name@;
                assert(out@[m].name@ == q[j].name@);
            } else {
                assert(out@[old_out.len() as int].name@ == q[j].name@);
            }
        }
        assert forall|m: int| 0 <= m < out@.len() implies has_name(q, (#[trigger] out@[m]).name@) by {
            if m < old_out.len() {
                let j = choose|j: int| 0 <= j < p.len() && #[trigger] p[j].name@ == old_out[m].name@;
                assert(q[j] == p[j]);
                assert(q[j].name@ == out@[m].name@);
            } else {
                assert(q[p.len() as int].name@ == out@[m].name@);
            }
        }
        assert forall|m: int| 0 <= m < out@.len() implies (#[trigger] out@[m]).amount.raw
            == name_total(q, out@[m].name@) by {
            if m < old_out.len() {
                assert(old_out[m].name@ != name);
            }
        }
        assert forall|a: int, b: int| 0 <= a < b < out@.len() implies #[trigger] out@[a].name@
            != #[trigger] out@[b].name@ by {
            if b < old_out.len() {
                assert(old_out[a].name@ != old_out[b].name@);
            } else {
                assert(old_out[a].name@ != name);
            }
        }
        true
    }
}

/// Every name that the entries carry, once, with the checked sum of the
/// amounts recorded under it.
pub fn totals_by_name(entries: &[NamedAmount]) -> (r: Result<Vec<NamedAmount>, StakeError>)
    ensures
        match r {
            Ok(v) => grouped(v@, entries@),
            Err(_) => exists|i: int|
                0 <= i < entries@.len() && name_total(entries@, (#[trigger] entries@[i]).name@)
                    > u128::MAX,
        },
{
    let mut out: Vec<NamedAmount> = Vec::new();
    let mut i: usize = 0;
    while i < entries.len()
        invariant
            i <= entries@.len(),
            grouped(out@, entries@.subrange(0, i as int)),
        decreases entries@.len() - i,
    {
        let ghost p = entries@.subrange(0, i as int);
        assert(p.push(entries@[i as int]) =~= entries@.subrange(0, i as int + 1));
        if !add_entry(&mut out, &entries[i], Ghost(p)) {
            proof {
                let name = entries@[i as int].name@;
                assert(amounts_named(entries@.subrange(0, i as int + 1), name) =~= amounts_named(
                    entries@,
                    name,
                ).subrange(0, i as int + 1));
                assert(amounts_named(entries@, name).subrange(
                    0,
                    amounts_named(entries@, name).len() as int,
                ) =~= amounts_named(entries@, name));
                lemma_sum_prefix_monotone(
                    amounts_named(entries@, name),
                    i as int + 1,
                    entries@.len() as int,
                );
            }
            return Err(StakeError::ArithmeticOverflow);
        }
        i += 1;
    }
    assert(entries@.subrange(0, i as int) =~= entries@);
    Ok(out)
}

} // verus!
