//! Configuration and genesis-account records that the loaders hand over.
use vstd::prelude::*;

verus! {

/// The chain and accounts that the tools work with.
#[derive(Debug)]
pub struct ConfigParams {
    pub chain_id: String,
    pub ibc_tokens: Vec<String>,
    pub transparent_addresses: Vec<String>,
}

/// One genesis account of a category, with its balance in indivisible units.
#[derive(Debug)]
pub struct Record {
    pub address: String,
    pub amount: u64,
    pub category: String,
    pub name: String,
}

/// One IBC denomination trace and its short display name.
#[derive(Debug)]
pub struct IbcNickname {
    pub trace: String,
    pub nickname: String,
}

/// The traces of the main network's IBC tokens, in table order.
pub open spec fn mainnet_ibc_traces() -> Seq<Seq<char>> {
    seq![
        "transfer/channel-1/uosmo"@,
        "transfer/channel-2/uatom"@,
        "transfer/channel-3/utia"@,
        "transfer/channel-0/stuosmo"@,
        "transfer/channel-0/stuatom"@,
        "transfer/channel-0/stutia"@,
    ]
}

/// The short names of the main network's IBC tokens, in table order.
pub open spec fn mainnet_ibc_nicknames() -> Seq<Seq<char>> {
    seq!["OSMO"@, "ATOM"@, "TIA"@, "stOSMO"@, "stATOM"@, "stTIA"@]
}

fn nickname_entry(trace: &str, nickname: &str) -> (r: IbcNickname)
    ensures
        r.trace@ == trace@,
        r.nickname@ == nickname@,
{
    IbcNickname { trace: trace.to_owned(), nickname: nickname.to_owned() }
}

/// The display names of the main network's IBC tokens.
pub fn get_mainnet_ibc_nicknames() -> (r: Vec<IbcNickname>)
    ensures
        r@.len() == 6,
        forall|k: int|
            0 <= k < 6 ==> #[trigger] r@[k].trace@ == mainnet_ibc_traces()[k] && r@[k].nickname@
                == mainnet_ibc_nicknames()[k],
{
    let mut r: Vec<IbcNickname> = Vec::new();
    r.push(nickname_entry("transfer/channel-1/uosmo", "OSMO"));
    r.push(nickname_entry("transfer/channel-2/uatom", "ATOM"));
    r.push(nickname_entry("transfer/channel-3/utia", "TIA"));
    r.push(nickname_entry("transfer/channel-0/stuosmo", "stOSMO"));
    r.push(nickname_entry("transfer/channel-0/stuatom", "stATOM"));
    r.push(nickname_entry("transfer/channel-0/stutia", "stTIA"));
    r
}

/// The nickname of the first entry with the given trace.
pub open spec fn nickname_of(table: Seq<IbcNickname>, trace: Seq<char>) -> Option<Seq<char>>
    decreases table.len(),
{
    if table.len() == 0 {
        None
    } else if table[0].trace@ == trace {
        Some(table[0].nickname@)
    } else {
        nickname_of(table.drop_first(), trace)
    }
}

/// The display name of a token: its nickname where the table has one, the
/// trace itself otherwise.
pub fn display_name(table: &Vec<IbcNickname>, trace: &str) -> (r: String)
    ensures
        r@ == match nickname_of(table@, trace@) {
            Some(n) => n,
            None => trace@,
        },
{
    let key = trace.to_owned();
    let mut i: usize = 0;
    assert(table@.subrange(0, table@.len() as int) =~= table@);
    while i < table.len()
        invariant
            i <= table@.len(),
            key@ == trace@,
            nickname_of(table@, trace@) == nickname_of(
                table@.subrange(i as int, table@.len() as int),
                trace@,
            ),
        decreases table@.len() - i,
    {
        let ghost rest = table@.subrange(i as int, table@.len() as int);
        assert(rest.drop_first() =~= table@.subrange(i as int + 1, table@.len() as int));
        assert(rest[0] == table@[i as int]);
        if table[i].trace == key {
            return table[i].nickname.clone();
        }
        i += 1;
    }
    key
}

} // verus!
