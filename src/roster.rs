//! The fixed roster of named anchor validators.
use vstd::prelude::*;

use crate::address::Address;

verus! {

/// One named validator of the roster.
#[derive(Debug)]
pub struct RosterEntry {
    pub name: String,
    pub address: Address,
}

/// An ordered mapping from validator name to validator address, with
/// pairwise distinct names and pairwise distinct addresses.
#[derive(Debug)]
pub struct ValidatorRoster {
    pub entries: Vec<RosterEntry>,
}

/// Why a roster was refused when it was loaded.
#[derive(Clone, Copy, Debug, PartialEq, Eq, Structural)]
pub enum RosterError {
    /// Two entries carry the same name.
    DuplicateName,
    /// Two entries carry the same validator address.
    DuplicateAddress,
}

pub open spec fn names_distinct(s: Seq<RosterEntry>) -> bool {
    forall|i: int, j: int| 0 <= i < j < s.len() ==> #[trigger] s[i].name@ != #[trigger] s[j].name@
}

pub open spec fn addresses_distinct(s: Seq<RosterEntry>) -> bool {
    forall|i: int, j: int|
        0 <= i < j < s.len() ==> #[trigger] s[i].address@ != #[trigger] s[j].address@
}

impl ValidatorRoster {
    /// Names and addresses are pairwise distinct.
    pub open spec fn wf(&self) -> bool {
        names_distinct(self.entries@) && addresses_distinct(self.entries@)
    }

    /// Loads a roster, refusing one whose names or addresses repeat.
    pub fn new(entries: Vec<RosterEntry>) -> (r: Result<ValidatorRoster, RosterError>)
        ensures
            match r {
                Ok(roster) => roster.wf() && roster.entries@ == entries@,
                Err(RosterError::DuplicateName) => !names_distinct(entries@),
                Err(RosterError::DuplicateAddress) => names_distinct(entries@)
                    && !addresses_distinct(entries@),
            },
    {
        let n = entries.len();
        let mut j: usize = 0;
        while j < n
            invariant
                n == entries@.len(),
                j <= n,
                forall|a: int, b: int|
                    0 <= a < b < j ==> #[trigger] entries@[a].name@ != #[trigger] entries@[b].name@,
            decreases n - j,
        {
            let mut i: usize = 0;
            while i < j
                invariant
                    n == entries@.len(),
                    i <= j < n,
                    forall|a: int, b: int|
                        0 <= a < b < j ==> #[trigger] entries@[a].name@
                            != #[trigger] entries@[b].name@,
                    forall|a: int| 0 <= a < i ==> #[trigger] entries@[a].name@ != entries@[j as int].name@,
                decreases j - i,
            {
                if entries[i].name == entries[j].name {
                    return Err(RosterError::DuplicateName);
                }
                i += 1;
            }
            j += 1;
        }
        let mut j: usize = 0;
        while j < n
            invariant
                n == entries@.len(),
                j <= n,
                names_distinct(entries@),
                forall|a: int, b: int|
                    0 <= a < b < j ==> #[trigger] entries@[a].address@
                        != #[trigger] entries@[b].address@,
            decreases n - j,
        {
            let mut i: usize = 0;
            while i < j
                invariant
                    n == entries@.len(),
                    i <= j < n,
                    names_distinct(entries@),
                    forall|a: int, b: int|
                        0 <= a < b < j ==> #[trigger] entries@[a].address@
                            != #[trigger] entries@[b].address@,
                    forall|a: int|
                        0 <= a < i ==> #[trigger] entries@[a].address@
                            != entries@[j as int].address@,
                decreases j - i,
            {
                if entries[i].address.same_as(&entries[j].address) {
                    return Err(RosterError::DuplicateAddress);
                }
                i += 1;
            }
            j += 1;
        }
        Ok(ValidatorRoster { entries })
    }

    /// Number of validators in the roster.
    pub fn len(&self) -> (r: usize)
        ensures
            r == self.entries@.len(),
    {
        self.entries.len()
    }
}

/// Names of the anchor validators of the main network, in roster order.
pub open spec fn top_validator_names() -> Seq<Seq<char>> {
    seq!["Unit 410 [1]"@, "Unit 410 [2]"@, "Chorus One"@, "P2P.org"@, "Informal"@]
}

/// Addresses of the anchor validators of the main network, in roster order.
pub open spec fn top_validator_addresses() -> Seq<Seq<char>> {
    seq![
        "tnam1qyctcwkgthr06k7lx38zmjka5dakmvhhyyr0zafu"@,
        "tnam1q9vnysn3jj9l3rnucr0zt4jpuy224wdl7c0gezrj"@,
        "tnam1qxsx2ezu89gx252kwwluqp7hadyp285tkczhaqg0"@,
        "tnam1q8jrrf8s22cwd22yxhwc38tlvahplh2wyqjzl9gx"@,
        "tnam1q9vrp45qtphed4q2vc382qrtf2gfykf50vssfe2h"@,
    ]
}

fn roster_entry(name: &str, address: &str) -> (r: RosterEntry)
    ensures
        r.name@ == name@,
        r.address@ == address@,
{
    RosterEntry { name: name.to_owned(), address: Address { canonical: address.to_owned() } }
}

/// The roster of anchor validators of the main network.
pub fn get_top_validators() -> (r: ValidatorRoster)
    ensures
        r.wf(),
        r.entries@.len() == 5,
        forall|k: int|
            0 <= k < 5 ==> #[trigger] r.entries@[k].name@ == top_validator_names()[k]
                && r.entries@[k].address@ == top_validator_addresses()[k],
{
    let mut entries: Vec<RosterEntry> = Vec::new();
    entries.push(roster_entry("Unit 410 [1]", "tnam1qyctcwkgthr06k7lx38zmjka5dakmvhhyyr0zafu"));
    entries.push(roster_entry("Unit 410 [2]", "tnam1q9vnysn3jj9l3rnucr0zt4jpuy224wdl7c0gezrj"));
    entries.push(roster_entry("Chorus One", "tnam1qxsx2ezu89gx252kwwluqp7hadyp285tkczhaqg0"));
    entries.push(roster_entry("P2P.org", "tnam1q8jrrf8s22cwd22yxhwc38tlvahplh2wyqjzl9gx"));
    entries.push(roster_entry("Informal", "tnam1q9vrp45qtphed4q2vc382qrtf2gfykf50vssfe2h"));
    proof {
        reveal_strlit("Unit 410 [1]");
        reveal_strlit("Unit 410 [2]");
        reveal_strlit("Chorus One");
        reveal_strlit("P2P.org");
        reveal_strlit("Informal");
        reveal_strlit("tnam1qyctcwkgthr06k7lx38zmjka5dakmvhhyyr0zafu");
        reveal_strlit("tnam1q9vnysn3jj9l3rnucr0zt4jpuy224wdl7c0gezrj");
        reveal_strlit("tnam1qxsx2ezu89gx252kwwluqp7hadyp285tkczhaqg0");
        reveal_strlit("tnam1q8jrrf8s22cwd22yxhwc38tlvahplh2wyqjzl9gx");
        reveal_strlit("tnam1q9vrp45qtphed4q2vc382qrtf2gfykf50vssfe2h");
        let s = entries@;
        assert(s[0].name@[10] != s[1].name@[10]);
        assert forall|i: int, j: int| 0 <= i < j < s.len() implies #[trigger] s[i].name@
            != #[trigger] s[j].name@ by {
            if i == 0 && j == 1 {
                assert(s[i].name@[10] != s[j].name@[10]);
            } else {
                assert(s[i].name@.len() != s[j].name@.len());
            }
        }
        assert forall|i: int, j: int| 0 <= i < j < s.len() implies #[trigger] s[i].address@
            != #[trigger] s[j].address@ by {
            if i == 1 && j == 4 {
                assert(s[i].address@[8] != s[j].address@[8]);
            } else {
                assert(s[i].address@[6] != s[j].address@[6]);
            }
        }
    }
    ValidatorRoster { entries }
}

} // verus!
