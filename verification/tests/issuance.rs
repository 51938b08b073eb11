//! Scenario tests for the issuance protocol against the modeled ledger.

use master_edition::addr::Address;
use master_edition::error::IssueError;
use master_edition::issue::AccountSet;
use master_edition::ledger::Ledger;
use master_edition::records::{build_creator_list, CreatorEntry};
use master_edition::registry::{edition_record_address, metadata_record_address};

fn addr(x: u64) -> Address {
    Address::from_u64(x)
}

/// A fresh ledger holding one mint identity with its authority and an
/// empty holding account, plus the account bundle with correctly
/// derived record addresses.
fn fresh_setup() -> (Ledger, AccountSet) {
    let authority = addr(1);
    let mint = addr(2);
    let token_account = addr(3);
    let mut ledger = Ledger::new();
    ledger.register_mint(mint, authority).unwrap();
    ledger.register_holding(token_account, mint).unwrap();
    let accounts = AccountSet {
        mint_authority: authority,
        mint,
        token_program: addr(100),
        metadata: metadata_record_address(&mint),
        token_account,
        token_metadata_program: addr(101),
        payer: addr(4),
        system_program: addr(102),
        rent: addr(103),
        master_edition: edition_record_address(&mint),
    };
    (ledger, accounts)
}

#[test]
fn successful_run_binds_all_records() {
    let (mut ledger, accounts) = fresh_setup();
    let k = addr(7);
    let r = ledger.create_master_edition(&accounts, k, "ipfs://abc".to_string(), "Piece #1".to_string());
    assert_eq!(r, Ok(()));
    assert_eq!(ledger.balance_of(accounts.token_account), Some(1));
    let m = ledger.metadata_of(accounts.mint).unwrap();
    assert_eq!(m.title, "Piece #1");
    assert_eq!(m.symbol, "symb");
    assert_eq!(m.uri, "ipfs://abc");
    assert_eq!(m.seller_fee_basis_points, 0);
    assert!(m.is_mutable);
    assert_eq!(m.creators.len(), 2);
    assert_eq!(m.creators[0], CreatorEntry { address: k, verified: false, share: 100 });
    assert_eq!(
        m.creators[1],
        CreatorEntry { address: accounts.mint_authority, verified: false, share: 0 },
    );
    let e = ledger.edition_of(accounts.mint).unwrap();
    assert_eq!(e.max_supply, None);
}

#[test]
fn rerun_fails_with_duplicate_and_leaves_state() {
    let (mut ledger, accounts) = fresh_setup();
    let k = addr(7);
    ledger
        .create_master_edition(&accounts, k, "ipfs://abc".to_string(), "Piece #1".to_string())
        .unwrap();
    let r = ledger.create_master_edition(&accounts, k, "ipfs://abc".to_string(), "Piece #1".to_string());
    assert_eq!(r, Err(IssueError::DuplicateRecordError));
    // the refused rerun left everything exactly as it was
    assert_eq!(ledger.balance_of(accounts.token_account), Some(1));
    assert_eq!(ledger.metadata_of(accounts.mint).unwrap().title, "Piece #1");
    assert_eq!(ledger.edition_of(accounts.mint).unwrap().max_supply, None);
}

#[test]
fn wrong_signer_fails_with_authorization_before_any_effect() {
    let (mut ledger, mut accounts) = fresh_setup();
    accounts.mint_authority = addr(99);
    let r = ledger.create_master_edition(&accounts, addr(7), "u".to_string(), "t".to_string());
    assert_eq!(r, Err(IssueError::AuthorizationError));
    assert_eq!(ledger.balance_of(accounts.token_account), Some(0));
    assert!(ledger.metadata_of(accounts.mint).is_none());
    assert!(ledger.edition_of(accounts.mint).is_none());
}

#[test]
fn wrong_metadata_address_fails_with_derivation_error() {
    let (mut ledger, mut accounts) = fresh_setup();
    accounts.metadata = addr(55);
    let r = ledger.create_master_edition(&accounts, addr(7), "u".to_string(), "t".to_string());
    assert_eq!(r, Err(IssueError::AddressDerivationError));
    assert_eq!(ledger.balance_of(accounts.token_account), Some(0));
    assert!(ledger.metadata_of(accounts.mint).is_none());
}

#[test]
fn wrong_edition_address_fails_and_discards_earlier_phases() {
    let (mut ledger, mut accounts) = fresh_setup();
    accounts.master_edition = addr(56);
    let r = ledger.create_master_edition(&accounts, addr(7), "u".to_string(), "t".to_string());
    assert_eq!(r, Err(IssueError::AddressDerivationError));
    // phases 1 and 2 had succeeded; their effects were discarded together
    assert_eq!(ledger.balance_of(accounts.token_account), Some(0));
    assert!(ledger.metadata_of(accounts.mint).is_none());
    assert!(ledger.edition_of(accounts.mint).is_none());
}

#[test]
fn destination_of_another_mint_fails_with_derivation_error() {
    let (mut ledger, mut accounts) = fresh_setup();
    let other_mint = addr(20);
    let other_holding = addr(21);
    ledger.register_mint(other_mint, accounts.mint_authority).unwrap();
    ledger.register_holding(other_holding, other_mint).unwrap();
    accounts.token_account = other_holding;
    let r = ledger.create_master_edition(&accounts, addr(7), "u".to_string(), "t".to_string());
    assert_eq!(r, Err(IssueError::AddressDerivationError));
    assert_eq!(ledger.balance_of(other_holding), Some(0));
}

#[test]
fn max_supply_zero_round_trips() {
    let (mut ledger, accounts) = fresh_setup();
    ledger
        .mint_units(accounts.mint, accounts.token_account, accounts.mint_authority, 1)
        .unwrap();
    ledger
        .create_metadata(
            accounts.mint,
            accounts.metadata,
            accounts.mint_authority,
            "t".to_string(),
            "symb".to_string(),
            "u".to_string(),
            build_creator_list(addr(7), accounts.mint_authority),
            0,
            true,
        )
        .unwrap();
    let r = ledger.create_master_edition_record(
        accounts.mint,
        accounts.master_edition,
        accounts.mint_authority,
        accounts.token_account,
        Some(0),
    );
    assert_eq!(r, Ok(()));
    assert_eq!(ledger.edition_of(accounts.mint).unwrap().max_supply, Some(0));
}

#[test]
fn max_supply_bounded_round_trips() {
    let (mut ledger, accounts) = fresh_setup();
    ledger
        .mint_units(accounts.mint, accounts.token_account, accounts.mint_authority, 1)
        .unwrap();
    ledger
        .create_metadata(
            accounts.mint,
            accounts.metadata,
            accounts.mint_authority,
            "t".to_string(),
            "symb".to_string(),
            "u".to_string(),
            build_creator_list(addr(7), accounts.mint_authority),
            0,
            true,
        )
        .unwrap();
    ledger
        .create_master_edition_record(
            accounts.mint,
            accounts.master_edition,
            accounts.mint_authority,
            accounts.token_account,
            Some(5),
        )
        .unwrap();
    assert_eq!(ledger.edition_of(accounts.mint).unwrap().max_supply, Some(5));
}

#[test]
fn max_supply_unlimited_round_trips() {
    let (mut ledger, accounts) = fresh_setup();
    let r = ledger.create_master_edition(&accounts, addr(7), "u".to_string(), "t".to_string());
    assert_eq!(r, Ok(()));
    assert_eq!(ledger.edition_of(accounts.mint).unwrap().max_supply, None);
}

#[test]
fn creator_list_always_sums_to_100() {
    for k in [0u64, 1, 7, 42, u64::MAX] {
        let creators = build_creator_list(addr(k), addr(1));
        let sum: u32 = creators.iter().map(|c| c.share as u32).sum();
        assert_eq!(sum, 100);
        assert_eq!(creators.len(), 2);
        assert_eq!(creators[0].address, addr(k));
        assert_eq!(creators[0].share, 100);
        assert!(!creators[0].verified);
        assert_eq!(creators[1].address, addr(1));
        assert_eq!(creators[1].share, 0);
        assert!(!creators[1].verified);
    }
}

#[test]
fn duplicate_mint_registration_is_refused() {
    let mut ledger = Ledger::new();
    ledger.register_mint(addr(2), addr(1)).unwrap();
    let r = ledger.register_mint(addr(2), addr(9));
    assert_eq!(r, Err(IssueError::DuplicateRecordError));
}

#[test]
fn duplicate_holding_registration_is_refused() {
    let mut ledger = Ledger::new();
    ledger.register_mint(addr(2), addr(1)).unwrap();
    ledger.register_holding(addr(3), addr(2)).unwrap();
    let r = ledger.register_holding(addr(3), addr(2));
    assert_eq!(r, Err(IssueError::DuplicateRecordError));
}

#[test]
fn supply_cap_overflow_is_refused() {
    let mut ledger = Ledger::new();
    ledger.register_mint(addr(2), addr(1)).unwrap();
    ledger.register_holding(addr(3), addr(2)).unwrap();
    ledger.mint_units(addr(2), addr(3), addr(1), u64::MAX).unwrap();
    let r = ledger.mint_units(addr(2), addr(3), addr(1), 1);
    assert_eq!(r, Err(IssueError::InvariantViolationError));
    assert_eq!(ledger.balance_of(addr(3)), Some(u64::MAX));
}

#[test]
fn edition_without_metadata_is_refused() {
    let (mut ledger, accounts) = fresh_setup();
    ledger
        .mint_units(accounts.mint, accounts.token_account, accounts.mint_authority, 1)
        .unwrap();
    let r = ledger.create_master_edition_record(
        accounts.mint,
        accounts.master_edition,
        accounts.mint_authority,
        accounts.token_account,
        None,
    );
    assert_eq!(r, Err(IssueError::InvariantViolationError));
}

#[test]
fn edition_with_balance_not_one_is_refused() {
    let (mut ledger, accounts) = fresh_setup();
    ledger
        .create_metadata(
            accounts.mint,
            accounts.metadata,
            accounts.mint_authority,
            "t".to_string(),
            "symb".to_string(),
            "u".to_string(),
            build_creator_list(addr(7), accounts.mint_authority),
            0,
            true,
        )
        .unwrap();
    // balance is still 0, not 1
    let r = ledger.create_master_edition_record(
        accounts.mint,
        accounts.master_edition,
        accounts.mint_authority,
        accounts.token_account,
        None,
    );
    assert_eq!(r, Err(IssueError::InvariantViolationError));
}

#[test]
fn metadata_with_bad_share_sum_is_refused() {
    let (mut ledger, accounts) = fresh_setup();
    let creators = vec![CreatorEntry { address: addr(7), verified: false, share: 50 }];
    let r = ledger.create_metadata(
        accounts.mint,
        accounts.metadata,
        accounts.mint_authority,
        "t".to_string(),
        "symb".to_string(),
        "u".to_string(),
        creators,
        0,
        true,
    );
    assert_eq!(r, Err(IssueError::InvariantViolationError));
    assert!(ledger.metadata_of(accounts.mint).is_none());
}
