//! A verified model of the durable state owned by the two external
//! programs: the token ledger's mint identities and holding accounts,
//! and the metadata registry's metadata and master-edition records.
//!
//! Each operation models one published call contract: what it checks, in
//! which order it fails, and what it appends or updates. All checks
//! precede every mutation, so a refused call leaves the ledger exactly
//! as it was.

use vstd::prelude::*;
use vstd::pervasive::VecAdditionalExecFns;
use crate::addr::Address;
use crate::error::IssueError;
use crate::records::{
    CreatorEntry, EditionRecord, Holding, MetadataRecord, MetadataRecordV, MintInfo, shares_sum,
};
use crate::registry::{edition_pda_of, metadata_pda_of};

verus! {

/// Mathematical image of the whole modeled ledger.
#[verifier::ext_equal]
pub ghost struct LedgerV {
    pub mints: Seq<MintInfo>,
    pub holdings: Seq<Holding>,
    pub metadata: Seq<MetadataRecordV>,
    pub editions: Seq<EditionRecord>,
}

/// The modeled ledger.
pub struct Ledger {
    pub mints: Vec<MintInfo>,
    pub holdings: Vec<Holding>,
    pub metadata: Vec<MetadataRecord>,
    pub editions: Vec<EditionRecord>,
}

impl View for Ledger {
    type V = LedgerV;

    open spec fn view(&self) -> LedgerV {
        LedgerV {
            mints: self.mints@,
            holdings: self.holdings@,
            metadata: self.metadata@.map_values(|r: MetadataRecord| r@),
            editions: self.editions@,
        }
    }
}

/// A mint identity is recorded.
pub open spec fn has_mint(l: LedgerV, mint: Address) -> bool {
    exists|i: int| 0 <= i < l.mints.len() && (#[trigger] l.mints[i]).mint == mint
}

/// The index of a recorded mint identity.
pub open spec fn mint_index(l: LedgerV, mint: Address) -> int {
    choose|i: int| 0 <= i < l.mints.len() && (#[trigger] l.mints[i]).mint == mint
}

/// The authority recorded when the mint identity was established.
pub open spec fn mint_authority_of(l: LedgerV, mint: Address) -> Address {
    l.mints[mint_index(l, mint)].authority
}

/// A holding account exists at this address.
pub open spec fn has_holding(l: LedgerV, account: Address) -> bool {
    exists|i: int| 0 <= i < l.holdings.len() && (#[trigger] l.holdings[i]).account == account
}

/// The index of the holding account at this address.
pub open spec fn holding_index(l: LedgerV, account: Address) -> int {
    choose|i: int| 0 <= i < l.holdings.len() && (#[trigger] l.holdings[i]).account == account
}

/// The holding account at this address.
pub open spec fn holding_of(l: LedgerV, account: Address) -> Holding {
    l.holdings[holding_index(l, account)]
}

/// A metadata record is bound to this mint identity.
pub open spec fn has_metadata(l: LedgerV, mint: Address) -> bool {
    exists|i: int| 0 <= i < l.metadata.len() && (#[trigger] l.metadata[i]).mint == mint
}

/// The index of the metadata record bound to this mint identity.
pub open spec fn metadata_index(l: LedgerV, mint: Address) -> int {
    choose|i: int| 0 <= i < l.metadata.len() && (#[trigger] l.metadata[i]).mint == mint
}

/// The metadata record bound to this mint identity.
pub open spec fn metadata_rec(l: LedgerV, mint: Address) -> MetadataRecordV {
    l.metadata[metadata_index(l, mint)]
}

/// A master-edition record is bound to this mint identity.
pub open spec fn has_edition(l: LedgerV, mint: Address) -> bool {
    exists|i: int| 0 <= i < l.editions.len() && (#[trigger] l.editions[i]).mint == mint
}

/// The index of the master-edition record bound to this mint identity.
pub open spec fn edition_index(l: LedgerV, mint: Address) -> int {
    choose|i: int| 0 <= i < l.editions.len() && (#[trigger] l.editions[i]).mint == mint
}

/// The master-edition record bound to this mint identity.
pub open spec fn edition_rec(l: LedgerV, mint: Address) -> EditionRecord {
    l.editions[edition_index(l, mint)]
}

/// Well-formedness of the modeled ledger: every key occurs at most
/// once; every holding account and metadata record points at a recorded
/// mint identity; every edition record presupposes its metadata record;
/// and every recorded creator list sums to 100.
pub open spec fn wf(l: LedgerV) -> bool {
    &&& forall|i: int, j: int|
        0 <= i < j < l.mints.len() ==> (#[trigger] l.mints[i]).mint != (#[trigger] l.mints[j]).mint
    &&& forall|i: int, j: int|
        0 <= i < j < l.holdings.len() ==> (#[trigger] l.holdings[i]).account != (
        #[trigger] l.holdings[j]).account
    &&& forall|i: int, j: int|
        0 <= i < j < l.metadata.len() ==> (#[trigger] l.metadata[i]).mint != (
        #[trigger] l.metadata[j]).mint
    &&& forall|i: int, j: int|
        0 <= i < j < l.editions.len() ==> (#[trigger] l.editions[i]).mint != (
        #[trigger] l.editions[j]).mint
    &&& forall|i: int| 0 <= i < l.holdings.len() ==> has_mint(l, (#[trigger] l.holdings[i]).mint)
    &&& forall|i: int| 0 <= i < l.metadata.len() ==> has_mint(l, (#[trigger] l.metadata[i]).mint)
    &&& forall|i: int|
        0 <= i < l.metadata.len() ==> shares_sum((#[trigger] l.metadata[i]).creators) == 100
    &&& forall|i: int| 0 <= i < l.editions.len() ==> has_metadata(l, (#[trigger] l.editions[i]).mint)
}

/// Any index whose entry carries the looked-up mint is the index the
/// lookup denotes.
pub proof fn lemma_mint_index(l: LedgerV, i: int)
    requires
        wf(l),
        0 <= i < l.mints.len(),
    ensures
        mint_index(l, l.mints[i].mint) == i,
        has_mint(l, l.mints[i].mint),
{
    let m = l.mints[i].mint;
    assert(has_mint(l, m));
    let j = mint_index(l, m);
    assert(0 <= j < l.mints.len() && l.mints[j].mint == m);
    if i < j {
        assert(l.mints[i].mint != l.mints[j].mint);
    } else if j < i {
        assert(l.mints[j].mint != l.mints[i].mint);
    }
}

/// As `lemma_mint_index`, for holding accounts.
pub proof fn lemma_holding_index(l: LedgerV, i: int)
    requires
        wf(l),
        0 <= i < l.holdings.len(),
    ensures
        holding_index(l, l.holdings[i].account) == i,
        has_holding(l, l.holdings[i].account),
{
    let a = l.holdings[i].account;
    assert(has_holding(l, a));
    let j = holding_index(l, a);
    assert(0 <= j < l.holdings.len() && l.holdings[j].account == a);
    if i < j {
        assert(l.holdings[i].account != l.holdings[j].account);
    } else if j < i {
        assert(l.holdings[j].account != l.holdings[i].account);
    }
}

/// As `lemma_mint_index`, for metadata records.
pub proof fn lemma_metadata_index(l: LedgerV, i: int)
    requires
        wf(l),
        0 <= i < l.metadata.len(),
    ensures
        metadata_index(l, l.metadata[i].mint) == i,
        has_metadata(l, l.metadata[i].mint),
{
    let m = l.metadata[i].mint;
    assert(has_metadata(l, m));
    let j = metadata_index(l, m);
    assert(0 <= j < l.metadata.len() && l.metadata[j].mint == m);
    if i < j {
        assert(l.metadata[i].mint != l.metadata[j].mint);
    } else if j < i {
        assert(l.metadata[j].mint != l.metadata[i].mint);
    }
}

/// As `lemma_mint_index`, for master-edition records.
pub proof fn lemma_edition_index(l: LedgerV, i: int)
    requires
        wf(l),
        0 <= i < l.editions.len(),
    ensures
        edition_index(l, l.editions[i].mint) == i,
        has_edition(l, l.editions[i].mint),
{
    let m = l.editions[i].mint;
    assert(has_edition(l, m));
    let j = edition_index(l, m);
    assert(0 <= j < l.editions.len() && l.editions[j].mint == m);
    if i < j {
        assert(l.editions[i].mint != l.editions[j].mint);
    } else if j < i {
        assert(l.editions[j].mint != l.editions[i].mint);
    }
}

/// Recorded mints carry over to any ledger whose mint table is the same
/// or grown by one.
pub proof fn lemma_has_mint_extends(l0: LedgerV, l1: LedgerV, m: Address)
    requires
        has_mint(l0, m),
        l1.mints == l0.mints || (exists|x: MintInfo| l1.mints == l0.mints.push(x)),
    ensures
        has_mint(l1, m),
{
    let w = choose|i: int| 0 <= i < l0.mints.len() && (#[trigger] l0.mints[i]).mint == m;
    assert(l1.mints[w] == l0.mints[w]);
}

/// Bound metadata records carry over to any ledger whose metadata table
/// is the same or grown by one.
pub proof fn lemma_has_metadata_extends(l0: LedgerV, l1: LedgerV, m: Address)
    requires
        has_metadata(l0, m),
        l1.metadata == l0.metadata || (exists|x: MetadataRecordV| l1.metadata == l0.metadata.push(x)),
    ensures
        has_metadata(l1, m),
{
    let w = choose|i: int| 0 <= i < l0.metadata.len() && (#[trigger] l0.metadata[i]).mint == m;
    assert(l1.metadata[w] == l0.metadata[w]);
}

/// Bound edition records carry over to any ledger whose edition table
/// is the same or grown by one.
pub proof fn lemma_has_edition_extends(l0: LedgerV, l1: LedgerV, m: Address)
    requires
        has_edition(l0, m),
        l1.editions == l0.editions || (exists|x: EditionRecord| l1.editions == l0.editions.push(x)),
    ensures
        has_edition(l1, m),
{
    let w = choose|i: int| 0 <= i < l0.editions.len() && (#[trigger] l0.editions[i]).mint == m;
    assert(l1.editions[w] == l0.editions[w]);
}

/// Two ledgers with the same mint table record the same mint
/// identities.
pub proof fn lemma_mints_unchanged(l0: LedgerV, l1: LedgerV)
    requires
        l1.mints == l0.mints,
    ensures
        forall|m: Address| #[trigger] has_mint(l1, m) <==> has_mint(l0, m),
{
    assert forall|m: Address| #[trigger] has_mint(l1, m) <==> has_mint(l0, m) by {
        if has_mint(l0, m) {
            lemma_has_mint_extends(l0, l1, m);
        }
        if has_mint(l1, m) {
            lemma_has_mint_extends(l1, l0, m);
        }
    }
}

/// The mint lookup agrees between two ledgers with the same mint table.
pub proof fn lemma_mint_lookup_same(l0: LedgerV, l1: LedgerV, m: Address)
    requires
        has_mint(l0, m),
        l1.mints == l0.mints,
    ensures
        has_mint(l1, m),
        mint_index(l1, m) == mint_index(l0, m),
        mint_authority_of(l1, m) == mint_authority_of(l0, m),
{
    lemma_has_mint_extends(l0, l1, m);
    let w0 = mint_index(l0, m);
    assert(0 <= w0 < l0.mints.len() && l0.mints[w0].mint == m);
    let w1 = mint_index(l1, m);
    assert(0 <= w1 < l1.mints.len() && l1.mints[w1].mint == m);
}

/// Establishing a fresh mint identity preserves well-formedness.
pub proof fn lemma_wf_register_mint(l: LedgerV, mint: Address, authority: Address)
    requires
        wf(l),
        !has_mint(l, mint),
    ensures
        wf(LedgerV { mints: l.mints.push(MintInfo { mint, authority }), ..l }),
{
    let l1 = LedgerV { mints: l.mints.push(MintInfo { mint, authority }), ..l };
    assert forall|a: int, b: int| 0 <= a < b < l1.mints.len() implies (
    #[trigger] l1.mints[a]).mint != (#[trigger] l1.mints[b]).mint by {
        assert(l1.mints[a] == l.mints[a]);
        if b < l1.mints.len() - 1 {
            assert(l1.mints[b] == l.mints[b]);
        } else {
            assert(has_mint(l, l.mints[a].mint));
        }
    }
    assert forall|k: int| 0 <= k < l1.holdings.len() implies has_mint(
        l1,
        (#[trigger] l1.holdings[k]).mint,
    ) by {
        assert(has_mint(l, l.holdings[k].mint));
        lemma_has_mint_extends(l, l1, l.holdings[k].mint);
    }
    assert forall|k: int| 0 <= k < l1.metadata.len() implies has_mint(
        l1,
        (#[trigger] l1.metadata[k]).mint,
    ) by {
        assert(has_mint(l, l.metadata[k].mint));
        lemma_has_mint_extends(l, l1, l.metadata[k].mint);
    }
    assert forall|k: int| 0 <= k < l1.editions.len() implies has_metadata(
        l1,
        (#[trigger] l1.editions[k]).mint,
    ) by {
        assert(has_metadata(l, l.editions[k].mint));
        lemma_has_metadata_extends(l, l1, l.editions[k].mint);
    }
}

/// Creating a fresh holding account of a recorded mint preserves
/// well-formedness.
pub proof fn lemma_wf_register_holding(l: LedgerV, account: Address, mint: Address)
    requires
        wf(l),
        has_mint(l, mint),
        !has_holding(l, account),
    ensures
        wf(LedgerV { holdings: l.holdings.push(Holding { account, mint, balance: 0u64 }), ..l }),
{
    let l1 = LedgerV {
        holdings: l.holdings.push(Holding { account, mint, balance: 0u64 }),
        ..l
    };
    assert forall|a: int, b: int| 0 <= a < b < l1.holdings.len() implies (
    #[trigger] l1.holdings[a]).account != (#[trigger] l1.holdings[b]).account by {
        assert(l1.holdings[a] == l.holdings[a]);
        if b < l1.holdings.len() - 1 {
            assert(l1.holdings[b] == l.holdings[b]);
        } else {
            assert(has_holding(l, l.holdings[a].account));
        }
    }
    assert forall|k: int| 0 <= k < l1.holdings.len() implies has_mint(
        l1,
        (#[trigger] l1.holdings[k]).mint,
    ) by {
        if k < l1.holdings.len() - 1 {
            assert(l1.holdings[k] == l.holdings[k]);
            assert(has_mint(l, l.holdings[k].mint));
            lemma_has_mint_extends(l, l1, l.holdings[k].mint);
        } else {
            assert(l1.holdings[k].mint == mint);
            lemma_has_mint_extends(l, l1, mint);
        }
    }
    assert forall|k: int| 0 <= k < l1.metadata.len() implies has_mint(
        l1,
        (#[trigger] l1.metadata[k]).mint,
    ) by {
        assert(has_mint(l, l.metadata[k].mint));
        lemma_has_mint_extends(l, l1, l.metadata[k].mint);
    }
    assert forall|k: int| 0 <= k < l1.editions.len() implies has_metadata(
        l1,
        (#[trigger] l1.editions[k]).mint,
    ) by {
        assert(has_metadata(l, l.editions[k].mint));
        lemma_has_metadata_extends(l, l1, l.editions[k].mint);
    }
}

/// Which refusal, if any, the token ledger's mint call answers with:
/// the destination must be a holding account of the mint identity, the
/// signer must be the recorded mint authority, and the balance must not
/// overflow the ledger's supply cap.
pub open spec fn mint_check(
    l: LedgerV,
    mint: Address,
    dest: Address,
    signer: Address,
    amount: u64,
) -> Option<IssueError> {
    if !has_holding(l, dest) || holding_of(l, dest).mint != mint {
        Some(IssueError::AddressDerivationError)
    } else if signer != mint_authority_of(l, mint) {
        Some(IssueError::AuthorizationError)
    } else if holding_of(l, dest).balance + amount > u64::MAX {
        Some(IssueError::InvariantViolationError)
    } else {
        None
    }
}

/// The ledger after a successful mint call: the destination's balance
/// grows by `amount`, nothing else moves.
pub open spec fn mint_apply(l: LedgerV, dest: Address, amount: u64) -> LedgerV {
    let i = holding_index(l, dest);
    let h = l.holdings[i];
    LedgerV {
        holdings: l.holdings.update(i, Holding { balance: (h.balance + amount) as u64, ..h }),
        ..l
    }
}

/// A successful mint call preserves well-formedness, the recorded
/// tables and every lookup but the destination's balance.
pub proof fn lemma_wf_mint_apply(l: LedgerV, mint: Address, dest: Address, amount: u64)
    requires
        wf(l),
        has_holding(l, dest),
    ensures
        wf(mint_apply(l, dest, amount)),
        mint_apply(l, dest, amount).mints == l.mints,
        mint_apply(l, dest, amount).metadata == l.metadata,
        mint_apply(l, dest, amount).editions == l.editions,
        mint_apply(l, dest, amount).holdings.len() == l.holdings.len(),
        has_holding(mint_apply(l, dest, amount), dest),
        holding_index(mint_apply(l, dest, amount), dest) == holding_index(l, dest),
        holding_of(mint_apply(l, dest, amount), dest) == (Holding {
            balance: (holding_of(l, dest).balance + amount) as u64,
            ..holding_of(l, dest)
        }),
        forall|a: Address|
            has_holding(l, a) <==> #[trigger] has_holding(mint_apply(l, dest, amount), a),
        forall|a: Address|
            has_holding(l, a) && a != dest ==> #[trigger] holding_of(
                mint_apply(l, dest, amount),
                a,
            ) == holding_of(l, a),
{
    let l1 = mint_apply(l, dest, amount);
    let i = holding_index(l, dest);
    assert(0 <= i < l.holdings.len() && l.holdings[i].account == dest);
    assert(l1.holdings[i].account == dest);
    assert forall|a: int, b: int| 0 <= a < b < l1.holdings.len() implies (
    #[trigger] l1.holdings[a]).account != (#[trigger] l1.holdings[b]).account by {
        assert(l1.holdings[a].account == l.holdings[a].account);
        assert(l1.holdings[b].account == l.holdings[b].account);
    }
    assert forall|k: int| 0 <= k < l1.holdings.len() implies has_mint(
        l1,
        (#[trigger] l1.holdings[k]).mint,
    ) by {
        assert(l1.holdings[k].mint == l.holdings[k].mint);
        assert(has_mint(l, l.holdings[k].mint));
        lemma_has_mint_extends(l, l1, l.holdings[k].mint);
    }
    assert forall|k: int| 0 <= k < l1.metadata.len() implies has_mint(
        l1,
        (#[trigger] l1.metadata[k]).mint,
    ) by {
        assert(has_mint(l, l.metadata[k].mint));
        lemma_has_mint_extends(l, l1, l.metadata[k].mint);
    }
    assert forall|k: int| 0 <= k < l1.editions.len() implies has_metadata(
        l1,
        (#[trigger] l1.editions[k]).mint,
    ) by {
        assert(has_metadata(l, l.editions[k].mint));
        lemma_has_metadata_extends(l, l1, l.editions[k].mint);
    }
    assert forall|a: Address| has_holding(l, a) <==> #[trigger] has_holding(l1, a) by {
        if has_holding(l, a) {
            let w = holding_index(l, a);
            assert(0 <= w < l.holdings.len() && l.holdings[w].account == a);
            assert(l1.holdings[w].account == a);
        }
        if has_holding(l1, a) {
            let w = holding_index(l1, a);
            assert(0 <= w < l1.holdings.len() && l1.holdings[w].account == a);
            assert(l.holdings[w].account == a);
            assert(has_holding(l, a));
        }
    }
    assert forall|a: Address| has_holding(l, a) && a != dest implies #[trigger] holding_of(
        l1,
        a,
    ) == holding_of(l, a) by {
        let w = holding_index(l, a);
        assert(0 <= w < l.holdings.len() && l.holdings[w].account == a);
        assert(w != i);
        assert(l1.holdings[w] == l.holdings[w]);
        let w1 = holding_index(l1, a);
        assert(0 <= w1 < l1.holdings.len() && l1.holdings[w1].account == a);
        assert(l.holdings[w1].account == a);
        if w != w1 {
            assert(l.holdings[w].account != l.holdings[w1].account);
        }
    }
    let w1 = holding_index(l1, dest);
    assert(0 <= w1 < l1.holdings.len() && l1.holdings[w1].account == dest);
    assert(l.holdings[w1].account == dest);
    if w1 != i {
        assert(l.holdings[w1].account != l.holdings[i].account);
    }
}

/// Which refusal, if any, the registry's create-metadata call answers
/// with: the record address must be the registry's derivation for the
/// mint, the signer must be the recorded mint authority, no record may
/// exist yet, and the creator shares must sum to 100.
pub open spec fn metadata_check(
    l: LedgerV,
    mint: Address,
    record_addr: Address,
    signer: Address,
    creators: Seq<CreatorEntry>,
) -> Option<IssueError> {
    if record_addr != metadata_pda_of(mint) {
        Some(IssueError::AddressDerivationError)
    } else if signer != mint_authority_of(l, mint) {
        Some(IssueError::AuthorizationError)
    } else if has_metadata(l, mint) {
        Some(IssueError::DuplicateRecordError)
    } else if shares_sum(creators) != 100 {
        Some(IssueError::InvariantViolationError)
    } else {
        None
    }
}

/// The ledger after a successful create-metadata call: the new record,
/// keyed by the mint identity, is appended.
pub open spec fn metadata_apply(
    l: LedgerV,
    mint: Address,
    title: Seq<char>,
    symbol: Seq<char>,
    uri: Seq<char>,
    creators: Seq<CreatorEntry>,
    fee_basis_points: u16,
    is_mutable: bool,
) -> LedgerV {
    LedgerV {
        metadata: l.metadata.push(
            MetadataRecordV {
                mint,
                title,
                symbol,
                uri,
                creators,
                seller_fee_basis_points: fee_basis_points,
                is_mutable,
            },
        ),
        ..l
    }
}

/// A successful create-metadata call preserves well-formedness and
/// binds exactly the appended record to the mint identity.
pub proof fn lemma_wf_metadata_apply(
    l: LedgerV,
    mint: Address,
    title: Seq<char>,
    symbol: Seq<char>,
    uri: Seq<char>,
    creators: Seq<CreatorEntry>,
    fee_basis_points: u16,
    is_mutable: bool,
)
    requires
        wf(l),
        has_mint(l, mint),
        !has_metadata(l, mint),
        shares_sum(creators) == 100,
    ensures
        wf(metadata_apply(l, mint, title, symbol, uri, creators, fee_basis_points, is_mutable)),
        has_metadata(
            metadata_apply(l, mint, title, symbol, uri, creators, fee_basis_points, is_mutable),
            mint,
        ),
        metadata_rec(
            metadata_apply(l, mint, title, symbol, uri, creators, fee_basis_points, is_mutable),
            mint,
        ) == (MetadataRecordV {
            mint,
            title,
            symbol,
            uri,
            creators,
            seller_fee_basis_points: fee_basis_points,
            is_mutable,
        }),
        forall|m: Address|
            m != mint ==> (has_metadata(l, m) <==> #[trigger] has_metadata(
                metadata_apply(
                    l,
                    mint,
                    title,
                    symbol,
                    uri,
                    creators,
                    fee_basis_points,
                    is_mutable,
                ),
                m,
            )),
{
    let l1 = metadata_apply(l, mint, title, symbol, uri, creators, fee_basis_points, is_mutable);
    let n = l.metadata.len() as int;
    let rec = MetadataRecordV {
        mint,
        title,
        symbol,
        uri,
        creators,
        seller_fee_basis_points: fee_basis_points,
        is_mutable,
    };
    assert(l1.metadata[n] == rec);
    assert forall|a: int, b: int| 0 <= a < b < l1.metadata.len() implies (
    #[trigger] l1.metadata[a]).mint != (#[trigger] l1.metadata[b]).mint by {
        assert(l1.metadata[a] == l.metadata[a]);
        if b < n {
            assert(l1.metadata[b] == l.metadata[b]);
        } else {
            assert(has_metadata(l, l.metadata[a].mint));
        }
    }
    assert forall|k: int| 0 <= k < l1.holdings.len() implies has_mint(
        l1,
        (#[trigger] l1.holdings[k]).mint,
    ) by {
        assert(has_mint(l, l.holdings[k].mint));
        lemma_has_mint_extends(l, l1, l.holdings[k].mint);
    }
    assert forall|k: int| 0 <= k < l1.metadata.len() implies has_mint(
        l1,
        (#[trigger] l1.metadata[k]).mint,
    ) && shares_sum(l1.metadata[k].creators) == 100 by {
        if k < n {
            assert(l1.metadata[k] == l.metadata[k]);
            assert(has_mint(l, l.metadata[k].mint));
            lemma_has_mint_extends(l, l1, l.metadata[k].mint);
        } else {
            assert(l1.metadata[k] == rec);
            lemma_has_mint_extends(l, l1, mint);
        }
    }
    assert forall|k: int| 0 <= k < l1.editions.len() implies has_metadata(
        l1,
        (#[trigger] l1.editions[k]).mint,
    ) by {
        assert(has_metadata(l, l.editions[k].mint));
        lemma_has_metadata_extends(l, l1, l.editions[k].mint);
    }
    assert(has_metadata(l1, mint));
    let j = metadata_index(l1, mint);
    assert(0 <= j < l1.metadata.len() && l1.metadata[j].mint == mint);
    if j < n {
        assert(l.metadata[j].mint == mint);
        assert(has_metadata(l, mint));
    }
    assert(metadata_rec(l1, mint) == rec);
    assert forall|m: Address| m != mint implies (has_metadata(l, m) <==> #[trigger] has_metadata(
        l1,
        m,
    )) by {
        if has_metadata(l, m) {
            lemma_has_metadata_extends(l, l1, m);
        }
        if has_metadata(l1, m) {
            let w = metadata_index(l1, m);
            assert(0 <= w < l1.metadata.len() && l1.metadata[w].mint == m);
            if w < n {
                assert(l.metadata[w].mint == m);
                assert(has_metadata(l, m));
            }
        }
    }
}

/// Which refusal, if any, the registry's create-master-edition call
/// answers with: the record address must be the registry's derivation
/// for the mint, the named holding account must be one of the mint, the
/// signer must be the recorded mint authority, the metadata record must
/// already exist, no edition record may exist yet, and the holding
/// balance must be exactly 1.
pub open spec fn edition_check(
    l: LedgerV,
    mint: Address,
    record_addr: Address,
    signer: Address,
    dest: Address,
) -> Option<IssueError> {
    if record_addr != edition_pda_of(mint) {
        Some(IssueError::AddressDerivationError)
    } else if !has_holding(l, dest) || holding_of(l, dest).mint != mint {
        Some(IssueError::AddressDerivationError)
    } else if signer != mint_authority_of(l, mint) {
        Some(IssueError::AuthorizationError)
    } else if !has_metadata(l, mint) {
        Some(IssueError::InvariantViolationError)
    } else if has_edition(l, mint) {
        Some(IssueError::DuplicateRecordError)
    } else if holding_of(l, dest).balance != 1 {
        Some(IssueError::InvariantViolationError)
    } else {
        None
    }
}

/// The ledger after a successful create-master-edition call: the new
/// record, keyed by the mint identity and carrying the copy-limit
/// policy, is appended.
pub open spec fn edition_apply(l: LedgerV, mint: Address, max_supply: Option<u64>) -> LedgerV {
    LedgerV { editions: l.editions.push(EditionRecord { mint, max_supply }), ..l }
}

/// A successful create-master-edition call preserves well-formedness
/// and binds exactly the appended record to the mint identity.
pub proof fn lemma_wf_edition_apply(l: LedgerV, mint: Address, max_supply: Option<u64>)
    requires
        wf(l),
        has_metadata(l, mint),
        !has_edition(l, mint),
    ensures
        wf(edition_apply(l, mint, max_supply)),
        has_edition(edition_apply(l, mint, max_supply), mint),
        edition_rec(edition_apply(l, mint, max_supply), mint) == (EditionRecord {
            mint,
            max_supply,
        }),
        forall|m: Address|
            m != mint ==> (has_edition(l, m) <==> #[trigger] has_edition(
                edition_apply(l, mint, max_supply),
                m,
            )),
{
    let l1 = edition_apply(l, mint, max_supply);
    let n = l.editions.len() as int;
    let rec = EditionRecord { mint, max_supply };
    assert(l1.editions[n] == rec);
    assert forall|a: int, b: int| 0 <= a < b < l1.editions.len() implies (
    #[trigger] l1.editions[a]).mint != (#[trigger] l1.editions[b]).mint by {
        assert(l1.editions[a] == l.editions[a]);
        if b < n {
            assert(l1.editions[b] == l.editions[b]);
        } else {
            assert(has_edition(l, l.editions[a].mint));
        }
    }
    assert forall|k: int| 0 <= k < l1.holdings.len() implies has_mint(
        l1,
        (#[trigger] l1.holdings[k]).mint,
    ) by {
        assert(has_mint(l, l.holdings[k].mint));
        lemma_has_mint_extends(l, l1, l.holdings[k].mint);
    }
    assert forall|k: int| 0 <= k < l1.metadata.len() implies has_mint(
        l1,
        (#[trigger] l1.metadata[k]).mint,
    ) by {
        assert(has_mint(l, l.metadata[k].mint));
        lemma_has_mint_extends(l, l1, l.metadata[k].mint);
    }
    assert forall|k: int| 0 <= k < l1.editions.len() implies has_metadata(
        l1,
        (#[trigger] l1.editions[k]).mint,
    ) by {
        if k < n {
            assert(l1.editions[k] == l.editions[k]);
            assert(has_metadata(l, l.editions[k].mint));
            lemma_has_metadata_extends(l, l1, l.editions[k].mint);
        } else {
            assert(l1.editions[k] == rec);
            lemma_has_metadata_extends(l, l1, mint);
        }
    }
    assert(has_edition(l1, mint));
    let j = edition_index(l1, mint);
    assert(0 <= j < l1.editions.len() && l1.editions[j].mint == mint);
    if j < n {
        assert(l.editions[j].mint == mint);
        assert(has_edition(l, mint));
    }
    assert(edition_rec(l1, mint) == rec);
    assert forall|m: Address| m != mint implies (has_edition(l, m) <==> #[trigger] has_edition(
        l1,
        m,
    )) by {
        if has_edition(l, m) {
            let w = edition_index(l, m);
            assert(0 <= w < l.editions.len() && l.editions[w].mint == m);
            assert(l1.editions[w] == l.editions[w]);
        }
        if has_edition(l1, m) {
            let w = edition_index(l1, m);
            assert(0 <= w < l1.editions.len() && l1.editions[w].mint == m);
            if w < n {
                assert(l.editions[w].mint == m);
                assert(has_edition(l, m));
            }
        }
    }
}

/// The creator shares of `creators` sum to exactly 100.
fn creators_sum_is_100(creators: &Vec<CreatorEntry>) -> (r: bool)
    ensures
        r == (shares_sum(creators@) == 100),
{
    let n = creators.len();
    let mut acc: u64 = 0;
    let mut i: usize = 0;
    while i < n
        invariant
            i <= n,
            n == creators@.len(),
            acc == shares_sum(creators@.take(i as int)),
            acc <= 100,
        decreases n - i,
    {
        let s = creators[i].share;
        proof {
            assert(creators@.take(i as int + 1).drop_last() =~= creators@.take(i as int));
            assert(creators@.take(i as int + 1).last() == creators@[i as int]);
        }
        if (s as u64) > 100 - acc {
            proof {
                crate::records::lemma_shares_sum_take_le(creators@, i as int + 1);
            }
            return false;
        }
        acc = acc + (s as u64);
        i = i + 1;
    }
    proof {
        assert(creators@.take(n as int) =~= creators@);
    }
    acc == 100
}

impl Ledger {
    /// An empty ledger.
    pub fn new() -> (r: Ledger)
        ensures
            r@ == (LedgerV {
                mints: Seq::<MintInfo>::empty(),
                holdings: Seq::<Holding>::empty(),
                metadata: Seq::<MetadataRecordV>::empty(),
                editions: Seq::<EditionRecord>::empty(),
            }),
            wf(r@),
    {
        let l = Ledger {
            mints: Vec::new(),
            holdings: Vec::new(),
            metadata: Vec::new(),
            editions: Vec::new(),
        };
        proof {
            assert(l@ =~= LedgerV {
                mints: Seq::<MintInfo>::empty(),
                holdings: Seq::<Holding>::empty(),
                metadata: Seq::<MetadataRecordV>::empty(),
                editions: Seq::<EditionRecord>::empty(),
            });
        }
        l
    }

    /// The index of the recorded mint identity, if one exists.
    fn find_mint(&self, mint: Address) -> (r: Option<usize>)
        ensures
            match r {
                Some(i) => i < self@.mints.len() && self@.mints[i as int].mint == mint,
                None => !has_mint(self@, mint),
            },
    {
        let n = self.mints.len();
        let mut i: usize = 0;
        while i < n
            invariant
                n == self@.mints.len(),
                i <= n,
                forall|j: int| 0 <= j < i ==> (#[trigger] self@.mints[j]).mint != mint,
            decreases n - i,
        {
            if self.mints[i].mint == mint {
                return Some(i);
            }
            i += 1;
        }
        None
    }

    /// The index of the recorded mint identity.
    fn mint_position(&self, mint: Address) -> (r: usize)
        requires
            has_mint(self@, mint),
        ensures
            r < self@.mints.len(),
            self@.mints[r as int].mint == mint,
    {
        match self.find_mint(mint) {
            Some(i) => i,
            None => {
                proof {
                    assert(false);
                }
                0
            },
        }
    }

    /// The index of the holding account at `account`, if one exists.
    pub(crate) fn find_holding(&self, account: Address) -> (r: Option<usize>)
        ensures
            match r {
                Some(i) => i < self@.holdings.len() && self@.holdings[i as int].account
                    == account,
                None => !has_holding(self@, account),
            },
    {
        let n = self.holdings.len();
        let mut i: usize = 0;
        while i < n
            invariant
                n == self@.holdings.len(),
                i <= n,
                forall|j: int| 0 <= j < i ==> (#[trigger] self@.holdings[j]).account != account,
            decreases n - i,
        {
            if self.holdings[i].account == account {
                return Some(i);
            }
            i += 1;
        }
        None
    }

    /// The index of the metadata record bound to `mint`, if one exists.
    fn find_metadata(&self, mint: Address) -> (r: Option<usize>)
        ensures
            match r {
                Some(i) => i < self@.metadata.len() && self@.metadata[i as int].mint == mint,
                None => !has_metadata(self@, mint),
            },
    {
        let n = self.metadata.len();
        let mut i: usize = 0;
        while i < n
            invariant
                n == self@.metadata.len(),
                i <= n,
                forall|j: int| 0 <= j < i ==> (#[trigger] self@.metadata[j]).mint != mint,
            decreases n - i,
        {
            if self.metadata[i].mint == mint {
                return Some(i);
            }
            i += 1;
        }
        None
    }

    /// The index of the master-edition record bound to `mint`, if one
    /// exists.
    fn find_edition(&self, mint: Address) -> (r: Option<usize>)
        ensures
            match r {
                Some(i) => i < self@.editions.len() && self@.editions[i as int].mint == mint,
                None => !has_edition(self@, mint),
            },
    {
        let n = self.editions.len();
        let mut i: usize = 0;
        while i < n
            invariant
                n == self@.editions.len(),
                i <= n,
                forall|j: int| 0 <= j < i ==> (#[trigger] self@.editions[j]).mint != mint,
            decreases n - i,
        {
            if self.editions[i].mint == mint {
                return Some(i);
            }
            i += 1;
        }
        None
    }

    /// Establishes a fresh mint identity with its recorded authority.
    /// A mint identity is created once; a second creation is refused.
    pub fn register_mint(&mut self, mint: Address, authority: Address) -> (r: Result<
        (),
        IssueError,
    >)
        requires
            wf(old(self)@),
        ensures
            wf(final(self)@),
            match r {
                Ok(()) => !has_mint(old(self)@, mint) && final(self)@ == (LedgerV {
                    mints: old(self)@.mints.push(MintInfo { mint, authority }),
                    ..old(self)@
                }),
                Err(e) => {
                    &&& e == IssueError::DuplicateRecordError
                    &&& has_mint(old(self)@, mint)
                    &&& final(self)@ == old(self)@
                },
            },
    {
        match self.find_mint(mint) {
            Some(i) => {
                proof {
                    assert(self@.mints[i as int].mint == mint);
                    assert(has_mint(self@, mint));
                }
                Err(IssueError::DuplicateRecordError)
            },
            None => {
                let ghost l0 = self@;
                self.mints.push(MintInfo { mint, authority });
                proof {
                    lemma_wf_register_mint(l0, mint, authority);
                    assert(self@ =~= LedgerV {
                        mints: l0.mints.push(MintInfo { mint, authority }),
                        ..l0
                    });
                }
                Ok(())
            },
        }
    }

    /// Creates a holding account for `mint` at address `account`, with
    /// a balance of zero. A holding account is created once; a second
    /// creation is refused.
    pub fn register_holding(&mut self, account: Address, mint: Address) -> (r: Result<
        (),
        IssueError,
    >)
        requires
            wf(old(self)@),
            has_mint(old(self)@, mint),
        ensures
            wf(final(self)@),
            forall|m: Address| #[trigger] has_mint(final(self)@, m) <==> has_mint(old(self)@, m),
            match r {
                Ok(()) => !has_holding(old(self)@, account) && final(self)@ == (LedgerV {
                    holdings: old(self)@.holdings.push(Holding { account, mint, balance: 0u64 }),
                    ..old(self)@
                }),
                Err(e) => {
                    &&& e == IssueError::DuplicateRecordError
                    &&& has_holding(old(self)@, account)
                    &&& final(self)@ == old(self)@
                },
            },
    {
        match self.find_holding(account) {
            Some(i) => {
                proof {
                    assert(self@.holdings[i as int].account == account);
                    assert(has_holding(self@, account));
                }
                Err(IssueError::DuplicateRecordError)
            },
            None => {
                let ghost l0 = self@;
                self.holdings.push(Holding { account, mint, balance: 0 });
                proof {
                    lemma_wf_register_holding(l0, account, mint);
                    assert(self@ =~= LedgerV {
                        holdings: l0.holdings.push(Holding { account, mint, balance: 0u64 }),
                        ..l0
                    });
                    lemma_mints_unchanged(l0, self@);
                }
                Ok(())
            },
        }
    }

    /// Phase 1, the unit minter's ledger effect: mints `amount` units of
    /// `mint` into the holding account at `dest`, authorized by
    /// `signer`. Refusals and their order are those of `mint_check`; a
    /// refused call leaves the ledger unchanged.
    pub fn mint_units(&mut self, mint: Address, dest: Address, signer: Address, amount: u64) -> (r:
        Result<(), IssueError>)
        requires
            wf(old(self)@),
            has_mint(old(self)@, mint),
        ensures
            wf(final(self)@),
            final(self)@.mints == old(self)@.mints,
            match r {
                Ok(()) => mint_check(old(self)@, mint, dest, signer, amount) is None
                    && final(self)@ == mint_apply(old(self)@, dest, amount),
                Err(e) => mint_check(old(self)@, mint, dest, signer, amount) == Some(e)
                    && final(self)@ == old(self)@,
            },
    {
        let i = match self.find_holding(dest) {
            Some(i) => i,
            None => {
                return Err(IssueError::AddressDerivationError);
            },
        };
        proof {
            assert(self@.holdings[i as int].account == dest);
            lemma_holding_index(self@, i as int);
        }
        let h = self.holdings[i];
        if h.mint != mint {
            return Err(IssueError::AddressDerivationError);
        }
        let mi = self.mint_position(mint);
        proof {
            lemma_mint_index(self@, mi as int);
        }
        if signer != self.mints[mi].authority {
            return Err(IssueError::AuthorizationError);
        }
        if amount > u64::MAX - h.balance {
            return Err(IssueError::InvariantViolationError);
        }
        let ghost l0 = self@;
        self.holdings.set(i, Holding { account: h.account, mint: h.mint, balance: h.balance + amount });
        proof {
            lemma_wf_mint_apply(l0, mint, dest, amount);
            assert(self@ =~= mint_apply(l0, dest, amount));
        }
        Ok(())
    }

    /// Phase 2, the metadata binder's registry effect: binds a metadata
    /// record carrying `title`, `symbol`, `uri` and `creators` to
    /// `mint`, at the record address `record_addr`, authorized by
    /// `signer`. Refusals and their order are those of
    /// `metadata_check`; a refused call leaves the ledger unchanged.
    pub fn create_metadata(
        &mut self,
        mint: Address,
        record_addr: Address,
        signer: Address,
        title: String,
        symbol: String,
        uri: String,
        creators: Vec<CreatorEntry>,
        fee_basis_points: u16,
        is_mutable: bool,
    ) -> (r: Result<(), IssueError>)
        requires
            wf(old(self)@),
            has_mint(old(self)@, mint),
        ensures
            wf(final(self)@),
            final(self)@.mints == old(self)@.mints,
            match r {
                Ok(()) => metadata_check(old(self)@, mint, record_addr, signer, creators@)
                    is None && final(self)@ == metadata_apply(
                    old(self)@,
                    mint,
                    title@,
                    symbol@,
                    uri@,
                    creators@,
                    fee_basis_points,
                    is_mutable,
                ),
                Err(e) => metadata_check(old(self)@, mint, record_addr, signer, creators@)
                    == Some(e) && final(self)@ == old(self)@,
            },
    {
        let expected = crate::registry::metadata_record_address(&mint);
        if record_addr != expected {
            return Err(IssueError::AddressDerivationError);
        }
        let mi = self.mint_position(mint);
        proof {
            lemma_mint_index(self@, mi as int);
        }
        if signer != self.mints[mi].authority {
            return Err(IssueError::AuthorizationError);
        }
        if let Some(j) = self.find_metadata(mint) {
            proof {
                assert(self@.metadata[j as int].mint == mint);
                assert(has_metadata(self@, mint));
            }
            return Err(IssueError::DuplicateRecordError);
        }
        if !creators_sum_is_100(&creators) {
            return Err(IssueError::InvariantViolationError);
        }
        let ghost l0 = self@;
        let ghost recv = MetadataRecordV {
            mint,
            title: title@,
            symbol: symbol@,
            uri: uri@,
            creators: creators@,
            seller_fee_basis_points: fee_basis_points,
            is_mutable,
        };
        let rec = MetadataRecord {
            mint,
            title,
            symbol,
            uri,
            creators,
            seller_fee_basis_points: fee_basis_points,
            is_mutable,
        };
        self.metadata.push(rec);
        proof {
            lemma_wf_metadata_apply(
                l0,
                mint,
                recv.title,
                recv.symbol,
                recv.uri,
                recv.creators,
                fee_basis_points,
                is_mutable,
            );
            assert(self@.metadata =~= l0.metadata.push(recv));
            assert(self@ =~= metadata_apply(
                l0,
                mint,
                recv.title,
                recv.symbol,
                recv.uri,
                recv.creators,
                fee_basis_points,
                is_mutable,
            ));
        }
        Ok(())
    }

    /// Phase 3, the edition registrar's registry effect: binds a
    /// master-edition record carrying the copy-limit policy
    /// `max_supply` to `mint`, at the record address `record_addr`,
    /// authorized by `signer`; `dest` names the holding account whose
    /// balance must be exactly 1. Refusals and their order are those of
    /// `edition_check`; a refused call leaves the ledger unchanged.
    pub fn create_master_edition_record(
        &mut self,
        mint: Address,
        record_addr: Address,
        signer: Address,
        dest: Address,
        max_supply: Option<u64>,
    ) -> (r: Result<(), IssueError>)
        requires
            wf(old(self)@),
            has_mint(old(self)@, mint),
        ensures
            wf(final(self)@),
            final(self)@.mints == old(self)@.mints,
            match r {
                Ok(()) => edition_check(old(self)@, mint, record_addr, signer, dest) is None
                    && final(self)@ == edition_apply(old(self)@, mint, max_supply),
                Err(e) => edition_check(old(self)@, mint, record_addr, signer, dest) == Some(e)
                    && final(self)@ == old(self)@,
            },
    {
        let expected = crate::registry::edition_record_address(&mint);
        if record_addr != expected {
            return Err(IssueError::AddressDerivationError);
        }
        let i = match self.find_holding(dest) {
            Some(i) => i,
            None => {
                return Err(IssueError::AddressDerivationError);
            },
        };
        proof {
            assert(self@.holdings[i as int].account == dest);
            lemma_holding_index(self@, i as int);
        }
        let h = self.holdings[i];
        if h.mint != mint {
            return Err(IssueError::AddressDerivationError);
        }
        let mi = self.mint_position(mint);
        proof {
            lemma_mint_index(self@, mi as int);
        }
        if signer != self.mints[mi].authority {
            return Err(IssueError::AuthorizationError);
        }
        match self.find_metadata(mint) {
            None => {
                return Err(IssueError::InvariantViolationError);
            },
            Some(j) => {
                proof {
                    assert(self@.metadata[j as int].mint == mint);
                    assert(has_metadata(self@, mint));
                }
            },
        }
        if let Some(k) = self.find_edition(mint) {
            proof {
                assert(self@.editions[k as int].mint == mint);
                assert(has_edition(self@, mint));
            }
            return Err(IssueError::DuplicateRecordError);
        }
        if h.balance != 1 {
            return Err(IssueError::InvariantViolationError);
        }
        let ghost l0 = self@;
        self.editions.push(EditionRecord { mint, max_supply });
        proof {
            lemma_wf_edition_apply(l0, mint, max_supply);
            assert(self@ =~= edition_apply(l0, mint, max_supply));
        }
        Ok(())
    }

    /// The balance held at `account`, if a holding account exists
    /// there.
    pub fn balance_of(&self, account: Address) -> (r: Option<u64>)
        requires
            wf(self@),
        ensures
            match r {
                Some(b) => has_holding(self@, account) && b == holding_of(self@, account).balance,
                None => !has_holding(self@, account),
            },
    {
        match self.find_holding(account) {
            Some(i) => {
                proof {
                    assert(self@.holdings[i as int].account == account);
                    lemma_holding_index(self@, i as int);
                }
                Some(self.holdings[i].balance)
            },
            None => None,
        }
    }

    /// The metadata record bound to `mint`, if one exists.
    pub fn metadata_of(&self, mint: Address) -> (r: Option<&MetadataRecord>)
        requires
            wf(self@),
        ensures
            match r {
                Some(m) => has_metadata(self@, mint) && m@ == metadata_rec(self@, mint),
                None => !has_metadata(self@, mint),
            },
    {
        match self.find_metadata(mint) {
            Some(i) => {
                proof {
                    assert(self@.metadata[i as int].mint == mint);
                    lemma_metadata_index(self@, i as int);
                }
                Some(&self.metadata[i])
            },
            None => None,
        }
    }

    /// The master-edition record bound to `mint`, if one exists.
    pub fn edition_of(&self, mint: Address) -> (r: Option<EditionRecord>)
        requires
            wf(self@),
        ensures
            match r {
                Some(e) => has_edition(self@, mint) && e == edition_rec(self@, mint),
                None => !has_edition(self@, mint),
            },
    {
        match self.find_edition(mint) {
            Some(i) => {
                proof {
                    assert(self@.editions[i as int].mint == mint);
                    lemma_edition_index(self@, i as int);
                }
                Some(self.editions[i])
            },
            None => None,
        }
    }
}

} // verus!
