//! The orchestration protocol: one entry point that mints exactly one
//! unit, binds the metadata record, and seals the master-edition
//! record, in strict order, against the modeled ledger.
//!
//! The whole operation is all-or-nothing: the first refusal aborts it
//! and every earlier ledger effect is discarded, so a caller sees
//! either the full three-phase effect or the untouched ledger. The
//! encoded registry calls that a host program submits on a real ledger
//! are built by `metadata_instruction` and `edition_instruction` from
//! the same inputs.

use vstd::prelude::*;
use crate::addr::Address;
use crate::error::IssueError;
use crate::ledger::{
    edition_apply, edition_check, edition_rec, has_edition, has_holding, has_metadata, has_mint,
    holding_index, holding_of, lemma_has_edition_extends, lemma_has_metadata_extends, lemma_has_mint_extends,
    lemma_holding_index, lemma_metadata_index, lemma_mint_lookup_same, lemma_wf_edition_apply,
    lemma_wf_metadata_apply, lemma_wf_mint_apply, metadata_apply, metadata_check, metadata_index,
    metadata_rec, mint_apply, mint_authority_of, mint_check, wf, Ledger, LedgerV,
};
use crate::records::{
    build_creator_list, creator_list, permits_no_copies, permits_unlimited_copies, symbol_seq,
    symbol_string, EditionRecord, Holding, MetadataRecordV,
};
use crate::registry::{edition_ix_of, edition_ix_raw, metadata_ix_of, metadata_ix_raw};
use solana_program::instruction::Instruction;

verus! {

/// The account-capability bundle the operation is invoked with. Every
/// address is validated only for identity or ownership, never
/// deserialized.
#[derive(Clone, Copy, PartialEq, Eq, Structural, Debug)]
pub struct AccountSet {
    /// The signer: must be the authority recorded for `mint`.
    pub mint_authority: Address,
    /// The mint identity the token is issued under.
    pub mint: Address,
    /// The token ledger program.
    pub token_program: Address,
    /// The metadata record address; must be the registry's derivation
    /// for `mint`.
    pub metadata: Address,
    /// The destination holding account; must be one of `mint`.
    pub token_account: Address,
    /// The metadata registry program.
    pub token_metadata_program: Address,
    /// The account funding the created records; also recorded as their
    /// update authority.
    pub payer: Address,
    /// The system program.
    pub system_program: Address,
    /// The rent sysvar.
    pub rent: Address,
    /// The master-edition record address; must be the registry's
    /// derivation for `mint`.
    pub master_edition: Address,
}

/// Phase 1 as one spec-level transition: the first refusal of
/// `mint_check`, or the minted ledger.
pub open spec fn mint_step(
    l: LedgerV,
    mint: Address,
    dest: Address,
    signer: Address,
    amount: u64,
) -> Result<LedgerV, IssueError> {
    match mint_check(l, mint, dest, signer, amount) {
        Some(e) => Err(e),
        None => Ok(mint_apply(l, dest, amount)),
    }
}

/// Phase 2 as one spec-level transition.
pub open spec fn metadata_step(
    l: LedgerV,
    mint: Address,
    record_addr: Address,
    signer: Address,
    title: Seq<char>,
    symbol: Seq<char>,
    uri: Seq<char>,
    creators: Seq<crate::records::CreatorEntry>,
    fee_basis_points: u16,
    is_mutable: bool,
) -> Result<LedgerV, IssueError> {
    match metadata_check(l, mint, record_addr, signer, creators) {
        Some(e) => Err(e),
        None => Ok(metadata_apply(l, mint, title, symbol, uri, creators, fee_basis_points, is_mutable)),
    }
}

/// Phase 3 as one spec-level transition.
pub open spec fn edition_step(
    l: LedgerV,
    mint: Address,
    record_addr: Address,
    signer: Address,
    dest: Address,
    max_supply: Option<u64>,
) -> Result<LedgerV, IssueError> {
    match edition_check(l, mint, record_addr, signer, dest) {
        Some(e) => Err(e),
        None => Ok(edition_apply(l, mint, max_supply)),
    }
}

/// The whole operation as one spec-level run: mint one unit, bind the
/// metadata record with this issuer's fixed symbol, fee of zero,
/// mutable flag and creator list, then seal the master edition; the
/// first refusal ends the run.
pub open spec fn issue_run(
    l: LedgerV,
    a: AccountSet,
    creator_key: Address,
    uri: Seq<char>,
    title: Seq<char>,
    max_supply: Option<u64>,
) -> Result<LedgerV, IssueError> {
    match mint_step(l, a.mint, a.token_account, a.mint_authority, 1u64) {
        Err(e) => Err(e),
        Ok(l1) => match metadata_step(
            l1,
            a.mint,
            a.metadata,
            a.mint_authority,
            title,
            symbol_seq(),
            uri,
            creator_list(creator_key, a.mint_authority),
            0u16,
            true,
        ) {
            Err(e) => Err(e),
            Ok(l2) => edition_step(
                l2,
                a.mint,
                a.master_edition,
                a.mint_authority,
                a.token_account,
                max_supply,
            ),
        },
    }
}

impl Ledger {
    /// Discards a phase-1 effect: takes the `amount` minted units back
    /// out of the holding account at `dest`.
    fn revert_mint(&mut self, dest: Address, amount: u64, Ghost(l): Ghost<LedgerV>)
        requires
            wf(l),
            has_holding(l, dest),
            holding_of(l, dest).balance + amount <= u64::MAX,
            old(self)@ == mint_apply(l, dest, amount),
        ensures
            final(self)@ == l,
    {
        proof {
            lemma_wf_mint_apply(l, holding_of(l, dest).mint, dest, amount);
        }
        let i = match self.find_holding(dest) {
            Some(i) => i,
            None => {
                proof {
                    assert(false);
                }
                return;
            },
        };
        proof {
            assert(self@.holdings[i as int].account == dest);
            lemma_holding_index(self@, i as int);
        }
        let h = self.holdings[i];
        self.holdings.set(i, Holding { account: h.account, mint: h.mint, balance: h.balance - amount });
        proof {
            assert(self@.holdings =~= l.holdings);
            assert(self@ =~= l);
        }
    }

    /// Discards a phase-2 effect: unbinds the metadata record just
    /// appended.
    fn revert_metadata(&mut self, Ghost(l): Ghost<LedgerV>, Ghost(rec): Ghost<MetadataRecordV>)
        requires
            old(self)@ == (LedgerV { metadata: l.metadata.push(rec), ..l }),
        ensures
            final(self)@ == l,
    {
        proof {
            assert(self@.metadata.len() == l.metadata.len() + 1);
        }
        let _ = self.metadata.pop();
        proof {
            assert forall|i: int| 0 <= i < self@.metadata.len() implies #[trigger] self@.metadata[i]
                == l.metadata[i] by {
                assert(self.metadata@[i] == old(self).metadata@[i]);
                assert(self@.metadata[i] == old(self)@.metadata[i]);
                assert(old(self)@.metadata[i] == l.metadata.push(rec)[i]);
            }
            assert(self@.metadata =~= l.metadata);
            assert(self@ =~= l);
        }
    }

    /// The single entry point: issues the master-edition token record
    /// for `accounts.mint`, carrying `title`, `uri` and the creator
    /// list headed by `creator_key`, with unlimited derivative copies
    /// permitted.
    ///
    /// The result and the ledger after the call are exactly those of
    /// the spec-level run `issue_run`: on success the three phase
    /// effects, on refusal the untouched ledger and the first phase's
    /// error.
    pub fn create_master_edition(
        &mut self,
        accounts: &AccountSet,
        creator_key: Address,
        uri: String,
        title: String,
    ) -> (r: Result<(), IssueError>)
        requires
            wf(old(self)@),
            has_mint(old(self)@, accounts.mint),
        ensures
            wf(final(self)@),
            match r {
                Ok(()) => issue_run(old(self)@, *accounts, creator_key, uri@, title@, None)
                    == Ok::<LedgerV, IssueError>(final(self)@),
                Err(e) => issue_run(old(self)@, *accounts, creator_key, uri@, title@, None)
                    == Err::<LedgerV, IssueError>(e) && final(self)@ == old(self)@,
            },
    {
        let ghost l0 = self@;
        // Phase 1: mint exactly one indivisible unit.
        let r1 = self.mint_units(accounts.mint, accounts.token_account, accounts.mint_authority, 1);
        if let Err(e) = r1 {
            return Err(e);
        }
        let ghost l1 = self@;
        proof {
            assert(l1 == mint_apply(l0, accounts.token_account, 1u64));
            lemma_has_mint_extends(l0, l1, accounts.mint);
        }
        // Phase 2: bind the metadata record.
        let creators = build_creator_list(creator_key, accounts.mint_authority);
        let symbol = symbol_string();
        let ghost recv = MetadataRecordV {
            mint: accounts.mint,
            title: title@,
            symbol: symbol@,
            uri: uri@,
            creators: creators@,
            seller_fee_basis_points: 0u16,
            is_mutable: true,
        };
        let r2 = self.create_metadata(
            accounts.mint,
            accounts.metadata,
            accounts.mint_authority,
            title,
            symbol,
            uri,
            creators,
            0,
            true,
        );
        if let Err(e) = r2 {
            self.revert_mint(accounts.token_account, 1, Ghost(l0));
            return Err(e);
        }
        let ghost l2 = self@;
        proof {
            assert(l2 == (LedgerV { metadata: l1.metadata.push(recv), ..l1 }));
            lemma_has_mint_extends(l1, l2, accounts.mint);
        }
        // Phase 3: seal the master edition, permitting unlimited copies.
        let r3 = self.create_master_edition_record(
            accounts.mint,
            accounts.master_edition,
            accounts.mint_authority,
            accounts.token_account,
            None,
        );
        if let Err(e) = r3 {
            self.revert_metadata(Ghost(l1), Ghost(recv));
            self.revert_mint(accounts.token_account, 1, Ghost(l0));
            return Err(e);
        }
        Ok(())
    }
}

/// The encoded create-metadata call of phase 2, built exactly as the
/// operation fixes it: this issuer's symbol, a fee of zero, the
/// mutable flag set, and the creator list headed by `creator_key`.
/// Title and uri must fit the encoding's 32-bit length prefix; see
/// `crate::registry::MAX_TEXT_CHARS`.
pub fn metadata_instruction(
    accounts: &AccountSet,
    creator_key: Address,
    title: &String,
    uri: &String,
) -> (r: Instruction)
    requires
        title@.len() <= crate::registry::MAX_TEXT_CHARS,
        uri@.len() <= crate::registry::MAX_TEXT_CHARS,
    ensures
        r == metadata_ix_of(
            accounts.metadata,
            accounts.mint,
            accounts.mint_authority,
            accounts.payer,
            accounts.system_program,
            accounts.rent,
            title@,
            symbol_seq(),
            uri@,
            0u16,
            creator_list(creator_key, accounts.mint_authority),
            true,
        ),
{
    let creators = build_creator_list(creator_key, accounts.mint_authority);
    let symbol = symbol_string();
    proof {
        reveal_strlit("symb");
    }
    metadata_ix_raw(
        &accounts.metadata,
        &accounts.mint,
        &accounts.mint_authority,
        &accounts.payer,
        &accounts.system_program,
        &accounts.rent,
        title,
        &symbol,
        uri,
        0,
        &creators,
        true,
    )
}

/// The encoded create-master-edition call of phase 3, carrying the
/// caller's copy-limit policy.
pub fn edition_instruction(accounts: &AccountSet, max_supply: Option<u64>) -> (r: Instruction)
    ensures
        r == edition_ix_of(
            accounts.master_edition,
            accounts.mint,
            accounts.mint_authority,
            accounts.payer,
            accounts.metadata,
            accounts.token_program,
            accounts.system_program,
            accounts.rent,
            max_supply,
        ),
{
    edition_ix_raw(
        &accounts.master_edition,
        &accounts.mint,
        &accounts.mint_authority,
        &accounts.payer,
        &accounts.metadata,
        &accounts.token_program,
        &accounts.system_program,
        &accounts.rent,
        max_supply,
    )
}

/// The sequencing state of one mint identity's issuance, read off the
/// ledger: each phase's effect moves it one step forward, and no
/// transition leads back.
#[derive(Clone, Copy, PartialEq, Eq, Structural, Debug)]
pub enum IssuePhase {
    /// No unit minted, no record bound.
    Uninitialized,
    /// The destination holding account holds at least one unit.
    Minted,
    /// A metadata record is bound to the mint identity.
    MetadataBound,
    /// A master-edition record seals the mint identity.
    EditionSealed,
}

/// The sequencing state of `mint`, with `dest` as the destination
/// holding account.
pub open spec fn issue_phase(l: LedgerV, mint: Address, dest: Address) -> IssuePhase {
    if has_edition(l, mint) {
        IssuePhase::EditionSealed
    } else if has_metadata(l, mint) {
        IssuePhase::MetadataBound
    } else if has_holding(l, dest) && holding_of(l, dest).mint == mint && holding_of(
        l,
        dest,
    ).balance > 0 {
        IssuePhase::Minted
    } else {
        IssuePhase::Uninitialized
    }
}

/// Law: a successful run starts from an uninitialized mint identity and
/// walks the sequencing states in strict order, one phase each, ending
/// sealed.
pub proof fn lemma_issue_walks_the_phases(
    l: LedgerV,
    a: AccountSet,
    creator_key: Address,
    uri: Seq<char>,
    title: Seq<char>,
    max_supply: Option<u64>,
)
    requires
        wf(l),
        has_mint(l, a.mint),
        issue_run(l, a, creator_key, uri, title, max_supply) is Ok,
    ensures
        issue_phase(l, a.mint, a.token_account) == IssuePhase::Uninitialized,
        issue_phase(mint_apply(l, a.token_account, 1u64), a.mint, a.token_account)
            == IssuePhase::Minted,
        issue_phase(
            metadata_apply(
                mint_apply(l, a.token_account, 1u64),
                a.mint,
                title,
                symbol_seq(),
                uri,
                creator_list(creator_key, a.mint_authority),
                0u16,
                true,
            ),
            a.mint,
            a.token_account,
        ) == IssuePhase::MetadataBound,
        issue_phase(
            issue_run(l, a, creator_key, uri, title, max_supply)->Ok_0,
            a.mint,
            a.token_account,
        ) == IssuePhase::EditionSealed,
{
    let creators = creator_list(creator_key, a.mint_authority);
    assert(mint_check(l, a.mint, a.token_account, a.mint_authority, 1u64) is None);
    let l1 = mint_apply(l, a.token_account, 1u64);
    lemma_wf_mint_apply(l, a.mint, a.token_account, 1u64);
    assert(metadata_check(l1, a.mint, a.metadata, a.mint_authority, creators) is None);
    let l2 = metadata_apply(l1, a.mint, title, symbol_seq(), uri, creators, 0u16, true);
    lemma_has_mint_extends(l, l1, a.mint);
    lemma_wf_metadata_apply(l1, a.mint, title, symbol_seq(), uri, creators, 0u16, true);
    assert(edition_check(l2, a.mint, a.master_edition, a.mint_authority, a.token_account) is None);
    let l3 = edition_apply(l2, a.mint, max_supply);
    lemma_wf_edition_apply(l2, a.mint, max_supply);
    assert(issue_run(l, a, creator_key, uri, title, max_supply) == Ok::<LedgerV, IssueError>(l3));
    // before the run: no record is bound, and the destination is empty
    assert(!has_metadata(l, a.mint)) by {
        if has_metadata(l, a.mint) {
            lemma_has_metadata_extends(l, l1, a.mint);
        }
    }
    assert(!has_edition(l, a.mint)) by {
        if has_edition(l, a.mint) {
            lemma_has_edition_extends(l, l1, a.mint);
            lemma_has_edition_extends(l1, l2, a.mint);
        }
    }
    assert(holding_of(l2, a.token_account) == holding_of(l1, a.token_account));
    assert(holding_of(l, a.token_account).balance == 0);
    // after phase 1: one unit, still no record
    assert(!has_edition(l1, a.mint)) by {
        if has_edition(l1, a.mint) {
            lemma_has_edition_extends(l1, l2, a.mint);
        }
    }
    assert(holding_of(l1, a.token_account).balance == 1);
    // after phase 2: the metadata record, not yet sealed
    assert(issue_phase(l2, a.mint, a.token_account) == IssuePhase::MetadataBound);
    // after phase 3: sealed
    assert(issue_phase(l3, a.mint, a.token_account) == IssuePhase::EditionSealed);
}

/// Law: after a successful run, the destination holding account holds
/// exactly one unit, and exactly one metadata record and one
/// master-edition record are bound to the mint identity (well-formedness
/// admits at most one record per key, and both now exist), carrying
/// exactly the inputs of the run.
pub proof fn lemma_issue_success(
    l: LedgerV,
    a: AccountSet,
    creator_key: Address,
    uri: Seq<char>,
    title: Seq<char>,
    max_supply: Option<u64>,
)
    requires
        wf(l),
        has_mint(l, a.mint),
        issue_run(l, a, creator_key, uri, title, max_supply) is Ok,
    ensures
        ({
            let l3 = issue_run(l, a, creator_key, uri, title, max_supply)->Ok_0;
            &&& wf(l3)
            &&& l3.mints == l.mints
            &&& has_mint(l3, a.mint)
            &&& mint_authority_of(l3, a.mint) == a.mint_authority
            &&& a.metadata == crate::registry::metadata_pda_of(a.mint)
            &&& a.master_edition == crate::registry::edition_pda_of(a.mint)
            &&& has_holding(l3, a.token_account)
            &&& holding_of(l3, a.token_account).mint == a.mint
            &&& holding_of(l3, a.token_account).balance == 1
            &&& has_metadata(l3, a.mint)
            &&& metadata_rec(l3, a.mint) == (MetadataRecordV {
                mint: a.mint,
                title,
                symbol: symbol_seq(),
                uri,
                creators: creator_list(creator_key, a.mint_authority),
                seller_fee_basis_points: 0u16,
                is_mutable: true,
            })
            &&& has_edition(l3, a.mint)
            &&& edition_rec(l3, a.mint) == (EditionRecord { mint: a.mint, max_supply })
        }),
{
    let creators = creator_list(creator_key, a.mint_authority);
    assert(mint_check(l, a.mint, a.token_account, a.mint_authority, 1u64) is None);
    let l1 = mint_apply(l, a.token_account, 1u64);
    lemma_wf_mint_apply(l, a.mint, a.token_account, 1u64);
    lemma_has_mint_extends(l, l1, a.mint);
    assert(metadata_check(l1, a.mint, a.metadata, a.mint_authority, creators) is None);
    let l2 = metadata_apply(l1, a.mint, title, symbol_seq(), uri, creators, 0u16, true);
    lemma_wf_metadata_apply(l1, a.mint, title, symbol_seq(), uri, creators, 0u16, true);
    assert(edition_check(l2, a.mint, a.master_edition, a.mint_authority, a.token_account) is None);
    let l3 = edition_apply(l2, a.mint, max_supply);
    lemma_wf_edition_apply(l2, a.mint, max_supply);
    assert(issue_run(l, a, creator_key, uri, title, max_supply) == Ok::<LedgerV, IssueError>(l3));
    assert(l3.mints == l.mints);
    lemma_mint_lookup_same(l, l3, a.mint);
    // the lookups of l3 agree with those of l2, whose tables they share
    assert(has_holding(l2, a.token_account));
    let w = holding_index(l2, a.token_account);
    assert(0 <= w < l2.holdings.len() && l2.holdings[w].account == a.token_account);
    assert(l3.holdings[w].account == a.token_account);
    lemma_holding_index(l3, w);
    assert(holding_of(l3, a.token_account) == holding_of(l2, a.token_account));
    assert(has_metadata(l2, a.mint));
    let wm = metadata_index(l2, a.mint);
    assert(0 <= wm < l2.metadata.len() && l2.metadata[wm].mint == a.mint);
    assert(l3.metadata[wm].mint == a.mint);
    lemma_metadata_index(l3, wm);
    assert(metadata_rec(l3, a.mint) == metadata_rec(l2, a.mint));
}

/// Law: re-running the operation against the same mint identity after
/// a successful run — with any creator key, title, uri and copy-limit
/// policy — is refused with `DuplicateRecordError`. (By the `Err`
/// contract of `create_master_edition`, the refused rerun also leaves
/// the ledger unchanged.)
pub proof fn lemma_issue_rerun_duplicate(
    l: LedgerV,
    a: AccountSet,
    creator_key: Address,
    uri: Seq<char>,
    title: Seq<char>,
    max_supply: Option<u64>,
    creator_key2: Address,
    uri2: Seq<char>,
    title2: Seq<char>,
    max_supply2: Option<u64>,
)
    requires
        wf(l),
        has_mint(l, a.mint),
        issue_run(l, a, creator_key, uri, title, max_supply) is Ok,
    ensures
        issue_run(
            issue_run(l, a, creator_key, uri, title, max_supply)->Ok_0,
            a,
            creator_key2,
            uri2,
            title2,
            max_supply2,
        ) == Err::<LedgerV, IssueError>(IssueError::DuplicateRecordError),
{
    lemma_issue_success(l, a, creator_key, uri, title, max_supply);
    let l3 = issue_run(l, a, creator_key, uri, title, max_supply)->Ok_0;
    // the rerun's phase 1 goes through: the holding account, recorded
    // authority and supply cap still admit one more unit
    assert(mint_check(l3, a.mint, a.token_account, a.mint_authority, 1u64) is None);
    let l4 = mint_apply(l3, a.token_account, 1u64);
    lemma_wf_mint_apply(l3, a.mint, a.token_account, 1u64);
    lemma_mint_lookup_same(l3, l4, a.mint);
    // the rerun's phase 2 is refused: a metadata record is already bound
    lemma_has_metadata_extends(l3, l4, a.mint);
    assert(metadata_check(
        l4,
        a.mint,
        a.metadata,
        a.mint_authority,
        creator_list(creator_key2, a.mint_authority),
    ) == Some(IssueError::DuplicateRecordError));
}

/// Law: a signer other than the recorded mint authority is refused
/// with `AuthorizationError` in phase 1, before any ledger effect. (By
/// the `Err` contract of `create_master_edition`, the ledger is left
/// unchanged.)
pub proof fn lemma_issue_wrong_signer(
    l: LedgerV,
    a: AccountSet,
    creator_key: Address,
    uri: Seq<char>,
    title: Seq<char>,
    max_supply: Option<u64>,
)
    requires
        wf(l),
        has_mint(l, a.mint),
        has_holding(l, a.token_account),
        holding_of(l, a.token_account).mint == a.mint,
        a.mint_authority != mint_authority_of(l, a.mint),
    ensures
        issue_run(l, a, creator_key, uri, title, max_supply) == Err::<LedgerV, IssueError>(
            IssueError::AuthorizationError,
        ),
{
}

/// Law: the copy-limit policy round-trips through the registry
/// unchanged. Sealing with `max_supply` binds an edition record whose
/// policy is exactly `max_supply`; it permits no derivative copies
/// exactly when `max_supply` is `Some(0)`, and unlimited copies
/// exactly when it is `None`.
pub proof fn lemma_max_supply_round_trip(
    l: LedgerV,
    mint: Address,
    record_addr: Address,
    signer: Address,
    dest: Address,
    max_supply: Option<u64>,
)
    requires
        wf(l),
        edition_check(l, mint, record_addr, signer, dest) is None,
    ensures
        ({
            let l1 = edition_apply(l, mint, max_supply);
            &&& wf(l1)
            &&& has_edition(l1, mint)
            &&& edition_rec(l1, mint) == (EditionRecord { mint, max_supply })
            &&& (permits_no_copies(edition_rec(l1, mint)) <==> max_supply == Some(0u64))
            &&& (permits_unlimited_copies(edition_rec(l1, mint)) <==> max_supply is None)
        }),
{
    lemma_wf_edition_apply(l, mint, max_supply);
}

} // verus!
