//! Chain addresses, manifest references to them, and their resolution.
use vstd::prelude::*;
use vstd::string::StrSliceExecFns;

use crate::text::{lines_of, split_lines};

verus! {

/// A resolved chain identity, held in its canonical textual encoding.
#[derive(Debug)]
pub struct Address {
    pub canonical: String,
}

impl View for Address {
    type V = Seq<char>;

    open spec fn view(&self) -> Seq<char> {
        self.canonical@
    }
}

impl Clone for Address {
    fn clone(&self) -> (r: Address)
        ensures
            r == *self,
    {
        Address { canonical: self.canonical.clone() }
    }
}

impl PartialEq for Address {
    fn eq(&self, other: &Address) -> (r: bool) {
        self.canonical == other.canonical
    }
}

impl vstd::std_specs::cmp::PartialEqSpecImpl for Address {
    open spec fn obeys_eq_spec() -> bool {
        true
    }

    open spec fn eq_spec(&self, other: &Address) -> bool {
        self@ == other@
    }
}

impl Address {
    /// `true` exactly when both addresses have the same canonical form.
    pub fn same_as(&self, other: &Address) -> (r: bool)
        ensures
            r == (self@ == other@),
    {
        self.canonical == other.canonical
    }
}

/// A reference to an address as a manifest writes it: either the address
/// encoding itself or an alias that the keyring knows.
#[derive(Debug)]
pub enum AddressRef {
    Literal(String),
    Alias(String),
}

/// Why a reference could not be resolved.
#[derive(Clone, Copy, Debug, PartialEq, Eq, Structural)]
pub enum ResolveError {
    /// The text does not have the shape of an address encoding.
    Malformed,
    /// The keyring holds no address under that alias.
    AliasNotFound,
}

/// The text starts with `tnam`, the human-readable part of every address of
/// the chain.
pub open spec fn has_address_prefix(s: Seq<char>) -> bool {
    s.len() >= 4 && s[0] == 't' && s[1] == 'n' && s[2] == 'a' && s[3] == 'm'
}

/// A character of the bech32 data alphabet (digits but `1`, lowercase
/// letters but `b`, `i`, `o`).
pub open spec fn is_bech32_char(c: char) -> bool {
    ('0' <= c <= '9' && c != '1') || ('a' <= c <= 'z' && c != 'b' && c != 'i' && c != 'o')
}

/// Length of an encoded address: `tnam1`, 34 data characters, 6 of checksum.
pub const ADDRESS_ENCODING_LEN: usize = 45;

/// The shape of an address encoding: the prefix `tnam1` followed by
/// exactly 40 characters of the bech32 alphabet. The checksum that the last
/// six characters carry is checked where the address is decoded for the
/// chain.
pub open spec fn is_address_encoding(s: Seq<char>) -> bool {
    &&& s.len() == ADDRESS_ENCODING_LEN
    &&& has_address_prefix(s)
    &&& s[4] == '1'
    &&& forall|i: int| 5 <= i < s.len() ==> is_bech32_char(#[trigger] s[i])
}

fn bech32_char(c: char) -> (r: bool)
    ensures
        r == is_bech32_char(c),
{
    ('0' <= c && c <= '9' && c != '1') || ('a' <= c && c <= 'z' && c != 'b' && c != 'i' && c != 'o')
}

/// `true` exactly when the text has the shape of an address encoding.
pub fn looks_like_address(s: &str) -> (r: bool)
    ensures
        r == is_address_encoding(s@),
{
    let n = s.unicode_len();
    if n != ADDRESS_ENCODING_LEN {
        return false;
    }
    if !(s.get_char(0) == 't' && s.get_char(1) == 'n' && s.get_char(2) == 'a' && s.get_char(3)
        == 'm' && s.get_char(4) == '1') {
        return false;
    }
    let mut i: usize = 5;
    while i < n
        invariant
            n == s@.len(),
            5 <= i <= n,
            forall|j: int| 5 <= j < i ==> is_bech32_char(#[trigger] s@[j]),
        decreases n - i,
    {
        if !bech32_char(s.get_char(i)) {
            return false;
        }
        i += 1;
    }
    true
}

/// The boundary decision between a literal address and an alias, made once
/// for each manifest entry: text that starts with the chain's prefix is a
/// literal.
pub fn classify_reference(s: &str) -> (r: AddressRef)
    ensures
        has_address_prefix(s@) ==> (r matches AddressRef::Literal(t) && t@ == s@),
        !has_address_prefix(s@) ==> (r matches AddressRef::Alias(t) && t@ == s@),
{
    let n = s.unicode_len();
    let owned = s.to_owned();
    if n >= 4 && s.get_char(0) == 't' && s.get_char(1) == 'n' && s.get_char(2) == 'a'
        && s.get_char(3) == 'm' {
        AddressRef::Literal(owned)
    } else {
        AddressRef::Alias(owned)
    }
}

/// One alias known to the keyring.
#[derive(Debug)]
pub struct KeyEntry {
    pub alias: String,
    pub address: Address,
}

/// A snapshot of the keyring's aliases.
#[derive(Debug)]
pub struct Keyring {
    pub entries: Vec<KeyEntry>,
}

/// The address of the first entry with the given alias.
pub open spec fn find_alias(entries: Seq<KeyEntry>, alias: Seq<char>) -> Option<Address>
    decreases entries.len(),
{
    if entries.len() == 0 {
        None
    } else if entries[0].alias@ == alias {
        Some(entries[0].address)
    } else {
        find_alias(entries.drop_first(), alias)
    }
}

/// What resolving a literal gives: the text itself, when it has the shape
/// of an address encoding.
pub open spec fn resolve_literal_spec(s: Seq<char>) -> Result<Seq<char>, ResolveError> {
    if is_address_encoding(s) {
        Ok(s)
    } else {
        Err(ResolveError::Malformed)
    }
}

/// What resolving an alias against the keyring's entries gives.
pub open spec fn resolve_alias_spec(a: Seq<char>, entries: Seq<KeyEntry>) -> Result<Seq<char>, ResolveError> {
    match find_alias(entries, a) {
        Some(addr) => Ok(addr@),
        None => Err(ResolveError::AliasNotFound),
    }
}

/// What resolving a reference against the keyring's entries gives.
pub open spec fn resolve_spec(r: AddressRef, entries: Seq<KeyEntry>) -> Result<Seq<char>, ResolveError> {
    match r {
        AddressRef::Literal(s) => resolve_literal_spec(s@),
        AddressRef::Alias(a) => resolve_alias_spec(a@, entries),
    }
}

/// What resolving a manifest text gives, after it has been classified.
pub open spec fn resolve_text_spec(s: Seq<char>, entries: Seq<KeyEntry>) -> Result<Seq<char>, ResolveError> {
    if has_address_prefix(s) {
        resolve_literal_spec(s)
    } else {
        resolve_alias_spec(s, entries)
    }
}

impl Keyring {
    /// The address stored under `alias`, if any (the first such entry).
    pub fn find_address(&self, alias: &str) -> (r: Option<Address>)
        ensures
            r == find_alias(self.entries@, alias@),
    {
        let key = alias.to_owned();
        let mut i: usize = 0;
        assert(self.entries@.subrange(0, self.entries@.len() as int) =~= self.entries@);
        while i < self.entries.len()
            invariant
                i <= self.entries@.len(),
                key@ == alias@,
                find_alias(self.entries@, alias@) == find_alias(
                    self.entries@.subrange(i as int, self.entries@.len() as int),
                    alias@,
                ),
            decreases self.entries@.len() - i,
        {
            let ghost rest = self.entries@.subrange(i as int, self.entries@.len() as int);
            assert(rest.drop_first() =~= self.entries@.subrange(
                i as int + 1,
                self.entries@.len() as int,
            ));
            assert(rest[0] == self.entries@[i as int]);
            if self.entries[i].alias == key {
                return Some(self.entries[i].address.clone());
            }
            i += 1;
        }
        None
    }
}

/// Resolves a reference: a literal must have the shape of an address
/// encoding, an alias must be known to the keyring.
pub fn resolve(r: &AddressRef, keyring: &Keyring) -> (res: Result<Address, ResolveError>)
    ensures
        match res {
            Ok(a) => resolve_spec(*r, keyring.entries@) == Ok::<Seq<char>, ResolveError>(a@),
            Err(e) => resolve_spec(*r, keyring.entries@) == Err::<Seq<char>, ResolveError>(e),
        },
{
    match r {
        AddressRef::Literal(s) => {
            if looks_like_address(s.as_str()) {
                Ok(Address { canonical: s.clone() })
            } else {
                Err(ResolveError::Malformed)
            }
        },
        AddressRef::Alias(a) => match keyring.find_address(a.as_str()) {
            Some(addr) => Ok(addr),
            None => Err(ResolveError::AliasNotFound),
        },
    }
}

/// Resolution failure of one entry of a list, with its position.
#[derive(Clone, Copy, Debug, PartialEq, Eq, Structural)]
pub struct AddressError {
    pub index: usize,
    pub kind: ResolveError,
}

/// Resolves every manifest entry in order, classifying each first; stops at
/// the first entry that does not resolve.
pub fn get_addresses(keyring: &Keyring, refs: &Vec<String>) -> (res: Result<Vec<Address>, AddressError>)
    ensures
        match res {
            Ok(v) => v@.len() == refs@.len() && forall|i: int|
                0 <= i < refs@.len() ==> resolve_text_spec(
                    #[trigger] refs@[i]@,
                    keyring.entries@,
                ) == Ok::<Seq<char>, ResolveError>(v@[i]@),
            Err(e) => e.index < refs@.len() && resolve_text_spec(
                refs@[e.index as int]@,
                keyring.entries@,
            ) == Err::<Seq<char>, ResolveError>(e.kind) && forall|i: int|
                0 <= i < e.index ==> #[trigger] resolve_text_spec(
                    refs@[i]@,
                    keyring.entries@,
                ) is Ok,
        },
{
    let mut out: Vec<Address> = Vec::new();
    let mut i: usize = 0;
    while i < refs.len()
        invariant
            i <= refs@.len(),
            out@.len() == i,
            forall|j: int|
                0 <= j < i ==> resolve_text_spec(
                    #[trigger] refs@[j]@,
                    keyring.entries@,
                ) == Ok::<Seq<char>, ResolveError>(out@[j]@),
        decreases refs@.len() - i,
    {
        let r = classify_reference(refs[i].as_str());
        match resolve(&r, keyring) {
            Ok(a) => out.push(a),
            Err(kind) => {
                return Err(AddressError { index: i, kind });
            },
        }
        i += 1;
    }
    Ok(out)
}

/// Reads one address per line of a text. Every line must have the shape of
/// an address encoding; the first one that does not is reported.
pub fn parse_address_lines(text: &str) -> (r: Result<Vec<Address>, AddressError>)
    ensures
        match r {
            Ok(v) => v@.len() == lines_of(text@).len() && forall|i: int|
                0 <= i < v@.len() ==> #[trigger] v@[i]@ == lines_of(text@)[i]
                    && is_address_encoding(lines_of(text@)[i]),
            Err(e) => e.kind == ResolveError::Malformed && e.index < lines_of(text@).len()
                && !is_address_encoding(lines_of(text@)[e.index as int]) && forall|j: int|
                0 <= j < e.index ==> is_address_encoding(#[trigger] lines_of(text@)[j]),
        },
{
    let lines = split_lines(text);
    let ghost l = lines_of(text@);
    let mut out: Vec<Address> = Vec::new();
    let mut i: usize = 0;
    while i < lines.len()
        invariant
            lines.deep_view() == l,
            l == lines_of(text@),
            i <= l.len(),
            out@.len() == i,
            forall|j: int| 0 <= j < i ==> #[trigger] out@[j]@ == l[j] && is_address_encoding(l[j]),
        decreases l.len() - i,
    {
        assert(lines[i as int]@ == l[i as int]);
        if !looks_like_address(lines[i].as_str()) {
            assert forall|j: int| 0 <= j < i implies is_address_encoding(#[trigger] l[j]) by {
                assert(out@[j]@ == l[j]);
            }
            return Err(AddressError { index: i, kind: ResolveError::Malformed });
        }
        out.push(Address { canonical: lines[i].clone() });
        i += 1;
    }
    Ok(out)
}

} // verus!
