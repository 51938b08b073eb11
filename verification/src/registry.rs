//! The metadata registry's pure computations, reached through trusted
//! declarations: the deterministic record-address derivation and the
//! encoding of the registry's two creation calls.
//!
//! Nothing here performs a ledger effect; each item either derives an
//! address or encodes an instruction from its arguments alone. The
//! cross-program invocations that carry these instructions are made by
//! the host program, outside this library.

use vstd::prelude::*;
use crate::addr::Address;
use crate::records::CreatorEntry;
use mpl_token_metadata::accounts::{MasterEdition, Metadata};
use mpl_token_metadata::instructions::{
    CreateMasterEditionV3, CreateMasterEditionV3InstructionArgs, CreateMetadataAccountV3,
    CreateMetadataAccountV3InstructionArgs,
};
use mpl_token_metadata::types::{Creator, DataV2};
use solana_program::instruction::Instruction;
use solana_program::pubkey::Pubkey;

verus! {

#[verifier::external_type_specification]
#[verifier::external_body]
pub struct ExPubkey(Pubkey);

#[verifier::external_type_specification]
#[verifier::external_body]
pub struct ExInstruction(Instruction);

/// The most characters a metadata string handed to the registry's
/// encoder may carry. The encoding prefixes each string with its byte
/// length as 32 bits and refuses anything longer; a character takes at
/// most four bytes, so this bound keeps every admitted string within
/// the prefix.
pub const MAX_TEXT_CHARS: u32 = 0x3FFF_FFFF;

/// The 32-byte key that an address's four little-endian words denote.
pub uninterp spec fn pubkey_of(a: Address) -> Pubkey;

/// The registry's derived metadata-record address for a mint identity.
pub uninterp spec fn metadata_pda_of(mint: Address) -> Address;

/// The registry's derived master-edition-record address for a mint
/// identity.
pub uninterp spec fn edition_pda_of(mint: Address) -> Address;

/// The registry's create-metadata call, encoded from its arguments
/// alone.
pub uninterp spec fn metadata_ix_of(
    metadata: Address,
    mint: Address,
    authority: Address,
    payer: Address,
    system_program: Address,
    rent: Address,
    title: Seq<char>,
    symbol: Seq<char>,
    uri: Seq<char>,
    fee_basis_points: u16,
    creators: Seq<CreatorEntry>,
    is_mutable: bool,
) -> Instruction;

/// The registry's create-master-edition call, encoded from its
/// arguments alone.
pub uninterp spec fn edition_ix_of(
    edition: Address,
    mint: Address,
    authority: Address,
    payer: Address,
    metadata: Address,
    token_program: Address,
    system_program: Address,
    rent: Address,
    max_supply: Option<u64>,
) -> Instruction;

/// Relies on solana_program::pubkey::Pubkey::new_from_array: a key is
/// exactly its 32 bytes, here the address's words in little-endian
/// order.
#[verifier::external_body]
pub(crate) fn to_pubkey(a: &Address) -> (r: Pubkey)
    ensures
        r == pubkey_of(*a),
{
    let mut b = [0u8; 32];
    b[0..8].copy_from_slice(&a.w0.to_le_bytes());
    b[8..16].copy_from_slice(&a.w1.to_le_bytes());
    b[16..24].copy_from_slice(&a.w2.to_le_bytes());
    b[24..32].copy_from_slice(&a.w3.to_le_bytes());
    Pubkey::new_from_array(b)
}

/// Relies on mpl_token_metadata::accounts::Metadata::find_pda: the
/// metadata-record address is a deterministic derivation from the mint
/// identity alone, and Pubkey::to_bytes hands its 32 bytes back.
#[verifier::external_body]
fn derive_metadata_pda(mint: &Address) -> (r: Address)
    ensures
        r == metadata_pda_of(*mint),
{
    let (p, _bump) = Metadata::find_pda(&to_pubkey(mint));
    let b = p.to_bytes();
    Address {
        w0: u64::from_le_bytes(b[0..8].try_into().unwrap()),
        w1: u64::from_le_bytes(b[8..16].try_into().unwrap()),
        w2: u64::from_le_bytes(b[16..24].try_into().unwrap()),
        w3: u64::from_le_bytes(b[24..32].try_into().unwrap()),
    }
}

/// Relies on mpl_token_metadata::accounts::MasterEdition::find_pda: the
/// master-edition-record address is a deterministic derivation from the
/// mint identity alone, and Pubkey::to_bytes hands its 32 bytes back.
#[verifier::external_body]
fn derive_edition_pda(mint: &Address) -> (r: Address)
    ensures
        r == edition_pda_of(*mint),
{
    let (p, _bump) = MasterEdition::find_pda(&to_pubkey(mint));
    let b = p.to_bytes();
    Address {
        w0: u64::from_le_bytes(b[0..8].try_into().unwrap()),
        w1: u64::from_le_bytes(b[8..16].try_into().unwrap()),
        w2: u64::from_le_bytes(b[16..24].try_into().unwrap()),
        w3: u64::from_le_bytes(b[24..32].try_into().unwrap()),
    }
}

/// The registry's derived metadata-record address for `mint`.
pub fn metadata_record_address(mint: &Address) -> (r: Address)
    ensures
        r == metadata_pda_of(*mint),
{
    derive_metadata_pda(mint)
}

/// The registry's derived master-edition-record address for `mint`.
pub fn edition_record_address(mint: &Address) -> (r: Address)
    ensures
        r == edition_pda_of(*mint),
{
    derive_edition_pda(mint)
}

/// Relies on mpl_token_metadata::instructions::CreateMetadataAccountV3
/// (with types::DataV2 and types::Creator, plain records of the given
/// fields): encodes the registry's create-metadata call from its
/// arguments alone. The payer doubles as the record's update authority
/// and signs. The encoder refuses a string whose byte length exceeds
/// its 32-bit length prefix, and a list likewise; the bounds below
/// leave those inputs out.
#[verifier::external_body]
pub(crate) fn metadata_ix_raw(
    metadata: &Address,
    mint: &Address,
    authority: &Address,
    payer: &Address,
    system_program: &Address,
    rent: &Address,
    title: &String,
    symbol: &String,
    uri: &String,
    fee_basis_points: u16,
    creators: &Vec<CreatorEntry>,
    is_mutable: bool,
) -> (r: Instruction)
    requires
        title@.len() <= MAX_TEXT_CHARS,
        symbol@.len() <= MAX_TEXT_CHARS,
        uri@.len() <= MAX_TEXT_CHARS,
        creators@.len() <= u32::MAX,
    ensures
        r == metadata_ix_of(
            *metadata,
            *mint,
            *authority,
            *payer,
            *system_program,
            *rent,
            title@,
            symbol@,
            uri@,
            fee_basis_points,
            creators@,
            is_mutable,
        ),
{
    let list = creators.iter().map(|c| Creator {
        address: to_pubkey(&c.address), verified: c.verified, share: c.share,
    }).collect();
    let data = DataV2 {
        name: title.clone(), symbol: symbol.clone(), uri: uri.clone(),
        seller_fee_basis_points: fee_basis_points, creators: Some(list),
        collection: None, uses: None,
    };
    CreateMetadataAccountV3 {
        metadata: to_pubkey(metadata), mint: to_pubkey(mint), mint_authority: to_pubkey(authority),
        payer: to_pubkey(payer), update_authority: (to_pubkey(payer), true),
        system_program: to_pubkey(system_program), rent: Some(to_pubkey(rent)),
    }.instruction(CreateMetadataAccountV3InstructionArgs { data, is_mutable, collection_details: None })
}

/// Relies on mpl_token_metadata::instructions::CreateMasterEditionV3:
/// encodes the registry's create-master-edition call from its arguments
/// alone. The payer doubles as the record's update authority.
#[verifier::external_body]
pub(crate) fn edition_ix_raw(
    edition: &Address,
    mint: &Address,
    authority: &Address,
    payer: &Address,
    metadata: &Address,
    token_program: &Address,
    system_program: &Address,
    rent: &Address,
    max_supply: Option<u64>,
) -> (r: Instruction)
    ensures
        r == edition_ix_of(
            *edition,
            *mint,
            *authority,
            *payer,
            *metadata,
            *token_program,
            *system_program,
            *rent,
            max_supply,
        ),
{
    CreateMasterEditionV3 {
        edition: to_pubkey(edition), mint: to_pubkey(mint),
        update_authority: to_pubkey(payer), mint_authority: to_pubkey(authority),
        payer: to_pubkey(payer), metadata: to_pubkey(metadata),
        token_program: to_pubkey(token_program), system_program: to_pubkey(system_program),
        rent: Some(to_pubkey(rent)),
    }.instruction(CreateMasterEditionV3InstructionArgs { max_supply })
}

} // verus!
