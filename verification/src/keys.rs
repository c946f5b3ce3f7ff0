//! Derivation of the ledger account key that backs an EVM address.
//!
//! The contract under execution lives at a program-derived key; every other
//! address lives at a key derived from a base account and the base58 text of
//! the address. Both derivations are computed by the ledger's own library and
//! the base58 codec; this module decides which one applies and reports the
//! inputs for which no key exists.

use vstd::prelude::*;
use vstd::utf8::encode_utf8;
use crate::address::{AccountKey, Address};

verus! {

/// Longest seed, in bytes, that the ledger accepts for a seed-derived key.
pub const MAX_SEED_LEN: usize = 32;

/// Why an address has no ledger account key.
#[derive(Clone, Copy, Debug, PartialEq, Eq, Structural)]
pub enum KeyError {
    /// The ledger finds no program-derived key: the seed is longer than it
    /// accepts, or no bump seed puts the key off the signature curve.
    NoProgramAddress,
    /// The seed text is longer than `MAX_SEED_LEN` bytes.
    MaxSeedLengthExceeded,
    /// The program id ends in the marker reserved for program-derived keys.
    IllegalOwner,
}

/// The three ways in which the ledger library refuses to derive a key.
enum LedgerKeyError {
    MaxSeedLengthExceeded,
    InvalidSeeds,
    IllegalOwner,
}

/// The base58 text that `bs58::encode(bytes).into_string()` returns, with the
/// default alphabet.
pub uninterp spec fn base58_text(bytes: Seq<u8>) -> Seq<char>;

/// The key that `Pubkey::try_find_program_address` returns for the one-seed
/// list holding `seed` and for `program_id`, without the bump seed; `None`
/// where it finds no key.
pub uninterp spec fn program_address(seed: Seq<u8>, program_id: Seq<u8>) -> Option<Seq<u8>>;

/// The key that `Pubkey::create_with_seed` returns for `base`, `seed` and
/// `owner` where it accepts them.
pub uninterp spec fn seeded_address(base: Seq<u8>, seed: Seq<char>, owner: Seq<u8>) -> Seq<u8>;

/// The bytes of `ProgramDerivedAddress`, the marker that ends the hash input
/// of every program-derived key.
pub open spec fn pda_marker() -> Seq<u8> {
    seq![
        80u8, 114u8, 111u8, 103u8, 114u8, 97u8, 109u8, 68u8, 101u8, 114u8, 105u8, 118u8, 101u8,
        100u8, 65u8, 100u8, 100u8, 114u8, 101u8, 115u8, 115u8,
    ]
}

/// Whether `seed`, as UTF-8, is too long for a seed-derived key.
pub open spec fn seed_too_long(seed: Seq<char>) -> bool {
    encode_utf8(seed).len() > MAX_SEED_LEN
}

/// Whether `owner` ends in the marker of program-derived keys, which the
/// ledger refuses as the owner of a seed-derived key.
pub open spec fn owner_is_marked(owner: Seq<u8>) -> bool {
    owner.len() >= pda_marker().len() && owner.subrange(
        owner.len() - pda_marker().len(),
        owner.len() as int,
    ) == pda_marker()
}

/// The program-derived key of `seed` under `program_id`, or why there is
/// none.
pub open spec fn program_key_of(seed: Seq<u8>, program_id: Seq<u8>) -> Result<Seq<u8>, KeyError> {
    match program_address(seed, program_id) {
        Some(key) => Ok(key),
        None => Err(KeyError::NoProgramAddress),
    }
}

/// The key derived from `base_account` and the text `seed` for an account of
/// `program_id`, or why the ledger refuses one: a seed that is too long
/// first, then a program id that ends in the marker.
pub open spec fn seeded_key_of(base_account: Seq<u8>, seed: Seq<char>, program_id: Seq<u8>) -> Result<
    Seq<u8>,
    KeyError,
> {
    if seed_too_long(seed) {
        Err(KeyError::MaxSeedLengthExceeded)
    } else if owner_is_marked(program_id) {
        Err(KeyError::IllegalOwner)
    } else {
        Ok(seeded_address(base_account, seed, program_id))
    }
}

/// The ledger account key of `address`, or why there is none.
///
/// The contract under execution has the program-derived key of its own
/// address bytes; any other address has the key derived from `base_account`
/// and the base58 text of its bytes.
pub open spec fn derived_key(
    address: Seq<u8>,
    contract_id: Seq<u8>,
    program_id: Seq<u8>,
    base_account: Seq<u8>,
) -> Result<Seq<u8>, KeyError> {
    if address == contract_id {
        program_key_of(address, program_id)
    } else {
        seeded_key_of(base_account, base58_text(address), program_id)
    }
}

/// The outcome of a key derivation with the key taken by its bytes.
pub open spec fn key_result_view(r: Result<AccountKey, KeyError>) -> Result<Seq<u8>, KeyError> {
    match r {
        Ok(key) => Ok(key@),
        Err(e) => Err(e),
    }
}

/// Calls `bs58::encode(bytes).into_string()`. Trusted: the text is the one
/// that `base58_text` names; nothing is claimed of its length or characters.
#[verifier::external_body]
fn base58_encode(bytes: &[u8]) -> (text: String)
    ensures
        text@ == base58_text(bytes@),
{
    bs58::encode(bytes).into_string()
}

/// Calls `Pubkey::try_find_program_address` on the one-seed list holding
/// `seed` and drops the bump seed. Trusted: the outcome is the one that
/// `program_address` names.
#[verifier::external_body]
fn find_program_address(seed: &[u8], program_id: &AccountKey) -> (found: Option<AccountKey>)
    ensures
        match found {
            Some(key) => program_address(seed@, program_id@) == Some(key@),
            None => program_address(seed@, program_id@) is None,
        },
{
    let id = solana_program::pubkey::Pubkey::new_from_array(program_id.0);
    match solana_program::pubkey::Pubkey::try_find_program_address(&[seed], &id) {
        Some((key, _)) => Some(AccountKey(key.to_bytes())),
        None => None,
    }
}

/// Calls `Pubkey::create_with_seed`. Trusted, as its source shows: a seed of
/// more than `MAX_SEED_LEN` bytes is refused first, then an owner that ends
/// in the marker of program-derived keys; it never reports invalid seeds;
/// otherwise the key is the one that `seeded_address` names.
#[verifier::external_body]
fn create_with_seed(base: &AccountKey, seed: &str, owner: &AccountKey) -> (made: Result<
    AccountKey,
    LedgerKeyError,
>)
    ensures
        match made {
            Ok(key) => !seed_too_long(seed@) && !owner_is_marked(owner@) && key@ == seeded_address(
                base@,
                seed@,
                owner@,
            ),
            Err(LedgerKeyError::MaxSeedLengthExceeded) => seed_too_long(seed@),
            Err(LedgerKeyError::IllegalOwner) => !seed_too_long(seed@) && owner_is_marked(owner@),
            Err(LedgerKeyError::InvalidSeeds) => false,
        },
{
    let base = solana_program::pubkey::Pubkey::new_from_array(base.0);
    let owner = solana_program::pubkey::Pubkey::new_from_array(owner.0);
    match solana_program::pubkey::Pubkey::create_with_seed(&base, seed, &owner) {
        Ok(key) => Ok(AccountKey(key.to_bytes())),
        Err(solana_program::pubkey::PubkeyError::MaxSeedLengthExceeded) => Err(
            LedgerKeyError::MaxSeedLengthExceeded,
        ),
        Err(solana_program::pubkey::PubkeyError::InvalidSeeds) => Err(LedgerKeyError::InvalidSeeds),
        Err(solana_program::pubkey::PubkeyError::IllegalOwner) => Err(LedgerKeyError::IllegalOwner),
    }
}

/// Derives the key that only `program_id` can sign for from `seed`.
pub fn program_key(seed: &[u8], program_id: &AccountKey) -> (r: Result<AccountKey, KeyError>)
    ensures
        key_result_view(r) == program_key_of(seed@, program_id@),
{
    match find_program_address(seed, program_id) {
        Some(key) => Ok(key),
        None => Err(KeyError::NoProgramAddress),
    }
}

/// Derives the key of an account of `program_id` from `base_account` and the
/// text `seed`.
pub fn seeded_key(base_account: &AccountKey, seed: &str, program_id: &AccountKey) -> (r: Result<
    AccountKey,
    KeyError,
>)
    ensures
        key_result_view(r) == seeded_key_of(base_account@, seed@, program_id@),
{
    match create_with_seed(base_account, seed, program_id) {
        Ok(key) => Ok(key),
        Err(LedgerKeyError::MaxSeedLengthExceeded) => Err(KeyError::MaxSeedLengthExceeded),
        Err(LedgerKeyError::IllegalOwner) => Err(KeyError::IllegalOwner),
        Err(LedgerKeyError::InvalidSeeds) => {
            proof {
                assert(false);
            }
            vstd::pervasive::unreached()
        },
    }
}

/// Computes the ledger account key of `address` for a session that executes
/// `contract_id` under `program_id` with `base_account`.
pub fn derive_key(
    address: &Address,
    contract_id: &Address,
    program_id: &AccountKey,
    base_account: &AccountKey,
) -> (r: Result<AccountKey, KeyError>)
    ensures
        key_result_view(r) == derived_key(address@, contract_id@, program_id@, base_account@),
{
    if *address == *contract_id {
        program_key(address.0.as_slice(), program_id)
    } else {
        let seed = base58_encode(address.0.as_slice());
        seeded_key(base_account, seed.as_str(), program_id)
    }
}

/// Key determinism: two derivations from the same address, contract, program
/// id and base account agree, whenever and wherever they are computed.
pub proof fn lemma_key_deterministic(
    first: Result<AccountKey, KeyError>,
    second: Result<AccountKey, KeyError>,
    address: Seq<u8>,
    contract_id: Seq<u8>,
    program_id: Seq<u8>,
    base_account: Seq<u8>,
)
    requires
        key_result_view(first) == derived_key(address, contract_id, program_id, base_account),
        key_result_view(second) == derived_key(address, contract_id, program_id, base_account),
    ensures
        first == second,
{
    if let Ok(a) = first {
        let b = second->Ok_0;
        assert(a.0 =~= b.0);
    }
}

} // verus!
