//! The record types held by the modeled ledger and registry, and the
//! creator list this issuer binds to every metadata record.

use vstd::prelude::*;
use crate::addr::Address;

verus! {

/// One entry of a metadata record's creator list.
#[derive(Clone, Copy, PartialEq, Eq, Structural, Debug)]
pub struct CreatorEntry {
    pub address: Address,
    pub verified: bool,
    /// Royalty share in whole percent; a record's entries sum to 100.
    pub share: u8,
}

/// A mint identity known to the token ledger, with its recorded mint
/// authority. Created once, immutable thereafter.
#[derive(Clone, Copy, PartialEq, Eq, Structural, Debug)]
pub struct MintInfo {
    pub mint: Address,
    pub authority: Address,
}

/// A holding account: the balance one owner holds of one mint identity.
#[derive(Clone, Copy, PartialEq, Eq, Structural, Debug)]
pub struct Holding {
    /// The holding account's own address.
    pub account: Address,
    /// The mint identity whose units it holds.
    pub mint: Address,
    pub balance: u64,
}

/// A metadata record bound to a mint identity.
#[derive(Debug)]
pub struct MetadataRecord {
    pub mint: Address,
    pub title: String,
    pub symbol: String,
    pub uri: String,
    pub creators: Vec<CreatorEntry>,
    pub seller_fee_basis_points: u16,
    pub is_mutable: bool,
}

/// Mathematical image of a metadata record.
#[verifier::ext_equal]
pub ghost struct MetadataRecordV {
    pub mint: Address,
    pub title: Seq<char>,
    pub symbol: Seq<char>,
    pub uri: Seq<char>,
    pub creators: Seq<CreatorEntry>,
    pub seller_fee_basis_points: u16,
    pub is_mutable: bool,
}

impl View for MetadataRecord {
    type V = MetadataRecordV;

    open spec fn view(&self) -> MetadataRecordV {
        MetadataRecordV {
            mint: self.mint,
            title: self.title@,
            symbol: self.symbol@,
            uri: self.uri@,
            creators: self.creators@,
            seller_fee_basis_points: self.seller_fee_basis_points,
            is_mutable: self.is_mutable,
        }
    }
}

/// A master-edition record bound to a mint identity. `max_supply` of
/// `None` permits unlimited derivative copies, `Some(n)` at most `n`,
/// and `Some(0)` none at all.
#[derive(Clone, Copy, Debug)]
pub struct EditionRecord {
    pub mint: Address,
    pub max_supply: Option<u64>,
}

/// The edition record permits no derivative copies at all.
pub open spec fn permits_no_copies(e: EditionRecord) -> bool {
    e.max_supply == Some(0u64)
}

/// The edition record permits unlimited derivative copies.
pub open spec fn permits_unlimited_copies(e: EditionRecord) -> bool {
    e.max_supply is None
}

/// The sum of the royalty shares of a creator list.
pub open spec fn shares_sum(s: Seq<CreatorEntry>) -> int
    decreases s.len(),
{
    if s.len() == 0 {
        0
    } else {
        shares_sum(s.drop_last()) + s.last().share
    }
}

/// The sum of a prefix of a creator list never exceeds the whole sum.
pub proof fn lemma_shares_sum_take_le(s: Seq<CreatorEntry>, i: int)
    requires
        0 <= i <= s.len(),
    ensures
        shares_sum(s.take(i)) <= shares_sum(s),
    decreases s.len() - i,
{
    if i == s.len() {
        assert(s.take(i) =~= s);
    } else {
        assert(s.take(i + 1).drop_last() =~= s.take(i));
        assert(s.take(i + 1).last() == s[i]);
        lemma_shares_sum_take_le(s, i + 1);
    }
}

/// The creator list this issuer binds: the caller-supplied creator key
/// first with the whole share, the mint authority second with none, and
/// neither marked verified.
pub open spec fn creator_list(creator_key: Address, authority: Address) -> Seq<CreatorEntry> {
    seq![
        CreatorEntry { address: creator_key, verified: false, share: 100u8 },
        CreatorEntry { address: authority, verified: false, share: 0u8 },
    ]
}

/// Builds the creator list of `creator_list`.
pub fn build_creator_list(creator_key: Address, authority: Address) -> (r: Vec<CreatorEntry>)
    ensures
        r@ == creator_list(creator_key, authority),
{
    let mut v: Vec<CreatorEntry> = Vec::new();
    v.push(CreatorEntry { address: creator_key, verified: false, share: 100 });
    v.push(CreatorEntry { address: authority, verified: false, share: 0 });
    proof {
        assert(v@ =~= creator_list(creator_key, authority));
    }
    v
}

/// Law: the constructed creator list sums to exactly 100, whatever
/// creator key and authority are supplied.
pub proof fn lemma_creator_shares_sum(creator_key: Address, authority: Address)
    ensures
        shares_sum(creator_list(creator_key, authority)) == 100,
{
    let s = creator_list(creator_key, authority);
    let s1 = s.drop_last();
    let s2 = s1.drop_last();
    assert(s2.len() == 0);
    assert(shares_sum(s2) == 0);
    assert(s1.last().share == 100);
    assert(shares_sum(s1) == 100);
    assert(s.last().share == 0);
}

/// The fixed symbol this issuer stamps on every metadata record.
pub open spec fn symbol_seq() -> Seq<char> {
    "symb"@
}

/// Builds the fixed symbol as an owned string.
pub fn symbol_string() -> (r: String)
    ensures
        r@ == symbol_seq(),
{
    String::from_str("symb")
}

} // verus!
