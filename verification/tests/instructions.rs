//! Cross-checks of the trusted registry items against the registry
//! crate called directly: derived record addresses and encoded calls
//! must agree with what the registry itself computes.

use master_edition::addr::Address;
use master_edition::issue::{edition_instruction, metadata_instruction, AccountSet};
use master_edition::registry::{edition_record_address, metadata_record_address};
use mpl_token_metadata::accounts::{MasterEdition, Metadata};
use mpl_token_metadata::instructions::{
    CreateMasterEditionV3, CreateMasterEditionV3InstructionArgs, CreateMetadataAccountV3,
    CreateMetadataAccountV3InstructionArgs,
};
use mpl_token_metadata::types::{Creator, DataV2};
use solana_program::pubkey::Pubkey;

fn addr(x: u64) -> Address {
    Address::from_u64(x)
}

/// The key an address denotes: its four words in little-endian order.
fn pk(a: &Address) -> Pubkey {
    let mut b = [0u8; 32];
    b[0..8].copy_from_slice(&a.w0.to_le_bytes());
    b[8..16].copy_from_slice(&a.w1.to_le_bytes());
    b[16..24].copy_from_slice(&a.w2.to_le_bytes());
    b[24..32].copy_from_slice(&a.w3.to_le_bytes());
    Pubkey::new_from_array(b)
}

fn to_addr(p: &Pubkey) -> Address {
    let b = p.to_bytes();
    Address {
        w0: u64::from_le_bytes(b[0..8].try_into().unwrap()),
        w1: u64::from_le_bytes(b[8..16].try_into().unwrap()),
        w2: u64::from_le_bytes(b[16..24].try_into().unwrap()),
        w3: u64::from_le_bytes(b[24..32].try_into().unwrap()),
    }
}

fn bundle() -> AccountSet {
    let mint = addr(2);
    AccountSet {
        mint_authority: addr(1),
        mint,
        token_program: addr(100),
        metadata: metadata_record_address(&mint),
        token_account: addr(3),
        token_metadata_program: addr(101),
        payer: addr(4),
        system_program: addr(102),
        rent: addr(103),
        master_edition: edition_record_address(&mint),
    }
}

#[test]
fn metadata_address_matches_registry_derivation() {
    let mint = addr(2);
    let (expected, _bump) = Metadata::find_pda(&pk(&mint));
    assert_eq!(metadata_record_address(&mint), to_addr(&expected));
    // a different mint derives a different record address
    assert_ne!(metadata_record_address(&addr(9)), to_addr(&expected));
}

#[test]
fn edition_address_matches_registry_derivation() {
    let mint = addr(2);
    let (expected, _bump) = MasterEdition::find_pda(&pk(&mint));
    assert_eq!(edition_record_address(&mint), to_addr(&expected));
    assert_ne!(edition_record_address(&mint), metadata_record_address(&mint));
}

#[test]
fn metadata_instruction_matches_registry_encoding() {
    let a = bundle();
    let k = addr(7);
    let ix = metadata_instruction(&a, k, &"Piece #1".to_string(), &"ipfs://abc".to_string());
    let expected = CreateMetadataAccountV3 {
        metadata: pk(&a.metadata),
        mint: pk(&a.mint),
        mint_authority: pk(&a.mint_authority),
        payer: pk(&a.payer),
        update_authority: (pk(&a.payer), true),
        system_program: pk(&a.system_program),
        rent: Some(pk(&a.rent)),
    }
    .instruction(CreateMetadataAccountV3InstructionArgs {
        data: DataV2 {
            name: "Piece #1".to_string(),
            symbol: "symb".to_string(),
            uri: "ipfs://abc".to_string(),
            seller_fee_basis_points: 0,
            creators: Some(vec![
                Creator { address: pk(&k), verified: false, share: 100 },
                Creator { address: pk(&a.mint_authority), verified: false, share: 0 },
            ]),
            collection: None,
            uses: None,
        },
        is_mutable: true,
        collection_details: None,
    });
    assert_eq!(ix, expected);
}

#[test]
fn edition_instruction_matches_registry_encoding() {
    let a = bundle();
    let ix = edition_instruction(&a, None);
    let expected = CreateMasterEditionV3 {
        edition: pk(&a.master_edition),
        mint: pk(&a.mint),
        update_authority: pk(&a.payer),
        mint_authority: pk(&a.mint_authority),
        payer: pk(&a.payer),
        metadata: pk(&a.metadata),
        token_program: pk(&a.token_program),
        system_program: pk(&a.system_program),
        rent: Some(pk(&a.rent)),
    }
    .instruction(CreateMasterEditionV3InstructionArgs { max_supply: None });
    assert_eq!(ix, expected);
    // the copy-limit policy is carried into the encoding
    let ix_zero = edition_instruction(&a, Some(0));
    assert_ne!(ix_zero, expected);
    let expected_zero = CreateMasterEditionV3 {
        edition: pk(&a.master_edition),
        mint: pk(&a.mint),
        update_authority: pk(&a.payer),
        mint_authority: pk(&a.mint_authority),
        payer: pk(&a.payer),
        metadata: pk(&a.metadata),
        token_program: pk(&a.token_program),
        system_program: pk(&a.system_program),
        rent: Some(pk(&a.rent)),
    }
    .instruction(CreateMasterEditionV3InstructionArgs { max_supply: Some(0) });
    assert_eq!(ix_zero, expected_zero);
}
