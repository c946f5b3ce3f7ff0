use evm_account_storage::account_storage::{Account, EmulatorAccountStorage, Lookup, SolanaAccount};
use evm_account_storage::address::{bytes_eq, AccountKey, Address};
use evm_account_storage::contract::DecodeError;
use evm_account_storage::effects::{Apply, ApplyEvent, Basic};
use evm_account_storage::keys::{derive_key, program_key, seeded_key, KeyError, MAX_SEED_LEN};
use evm_account_storage::report::{hex_address, AccountJSON};
use evm_account_storage::solidity_account::SolidityAccount;
use solana_program::pubkey::Pubkey;

const BASE: AccountKey = AccountKey([7u8; 32]);
const PROGRAM: AccountKey = AccountKey([9u8; 32]);
const CONTRACT: Address = Address([0xc0u8; 20]);
const CALLER: Address = Address([0xcau8; 20]);

fn session() -> EmulatorAccountStorage {
    EmulatorAccountStorage::new(BASE, PROGRAM, CONTRACT, CALLER, Some(1234), Some(1_600_000_000))
}

fn address(last: u8) -> Address {
    let mut bytes = [0x11u8; 20];
    bytes[19] = last;
    Address(bytes)
}

fn fetch_key(storage: &EmulatorAccountStorage, address: &Address) -> AccountKey {
    match storage.lookup(address) {
        Lookup::Fetch(key) => key,
        other => panic!("expected a fetch, got {:?}", other),
    }
}

fn contract_account(code: &[u8]) -> Account {
    let mut data = vec![2u8];
    data.extend_from_slice(&[0x55u8; 32]);
    data.extend_from_slice(&(code.len() as u32).to_le_bytes());
    data.extend_from_slice(code);
    data.extend(std::iter::repeat(0u8).take(code.len() / 8 + 1));
    data.extend(std::iter::repeat(0u8).take(256));
    Account { lamports: 42, data, owner: PROGRAM }
}

fn modify(address: Address) -> Apply {
    Apply::Modify {
        address,
        basic: Basic { balance: [0u8; 32], nonce: [0u8; 32] },
        code: None,
        storage: Vec::new(),
        reset_storage: false,
    }
}

fn entry(address: &Address, writable: bool, new: bool) -> AccountJSON {
    AccountJSON { address: format!("0x{}", hex::encode(address.0)), writable, new }
}

#[test]
fn byte_strings_compare_by_content() {
    assert!(bytes_eq(&[1, 2, 3], &[1, 2, 3]));
    assert!(!bytes_eq(&[1, 2, 3], &[1, 2, 4]));
    assert!(!bytes_eq(&[1, 2, 3], &[1, 2]));
    assert!(bytes_eq(&[], &[]));
    assert_eq!(address(1), address(1));
    assert_ne!(address(1), address(2));
    assert_ne!(BASE, PROGRAM);
}

#[test]
fn new_session_is_empty_and_keeps_its_environment() {
    let storage = session();
    assert_eq!(storage.block_number(), 1234);
    assert_eq!(storage.block_timestamp(), 1_600_000_000);
    assert_eq!(storage.origin(), CONTRACT);
    let report = storage.get_used_accounts(&"succeed".to_string(), &Vec::new());
    assert!(report.accounts.is_empty());
    assert_eq!(report.result, "");
    assert_eq!(report.exit_status, "succeed");
}

#[test]
fn failed_ledger_questions_count_as_zero() {
    let storage = EmulatorAccountStorage::new(BASE, PROGRAM, CONTRACT, CALLER, None, None);
    assert_eq!(storage.block_number(), 0);
    assert_eq!(storage.block_timestamp(), 0);
    assert_eq!(EmulatorAccountStorage::slot_or_default(None), 0);
    assert_eq!(EmulatorAccountStorage::slot_or_default(Some(77)), 77);
    let negative = EmulatorAccountStorage::new(BASE, PROGRAM, CONTRACT, CALLER, Some(u64::MAX), Some(-5));
    assert_eq!(negative.block_number(), u64::MAX);
    assert_eq!(negative.block_timestamp(), -5);
}

#[test]
fn fresh_account_is_not_writable() {
    let account = Account { lamports: 5, data: vec![1, 2, 3], owner: PROGRAM };
    let cached = SolanaAccount::new(account, BASE);
    assert!(!cached.writable);
    assert_eq!(cached.key, BASE);
    assert_eq!(cached.account.lamports, 5);
    assert_eq!(cached.account.data, vec![1, 2, 3]);
    assert_eq!(cached.account.owner, PROGRAM);
}

#[test]
fn contract_key_is_the_program_derived_key() {
    let storage = session();
    let key = fetch_key(&storage, &CONTRACT);
    let program = Pubkey::new_from_array(PROGRAM.0);
    let (expected, _) = Pubkey::find_program_address(&[&CONTRACT.0], &program);
    assert_eq!(key.0, expected.to_bytes());
    assert_ne!(key.0[..20], CONTRACT.0[..]);
}

#[test]
fn other_key_is_derived_from_base_and_base58_seed() {
    let storage = session();
    let who = address(3);
    let key = fetch_key(&storage, &who);
    let seed = bs58::encode(who.0).into_string();
    let expected = Pubkey::create_with_seed(
        &Pubkey::new_from_array(BASE.0),
        &seed,
        &Pubkey::new_from_array(PROGRAM.0),
    )
    .unwrap();
    assert_eq!(key.0, expected.to_bytes());
    assert_eq!(fetch_key(&storage, &CALLER), derive_key(&CALLER, &CONTRACT, &PROGRAM, &BASE).unwrap());
}

#[test]
fn key_of_a_known_address() {
    let who = Address([0u8; 20]);
    let key = derive_key(&who, &CONTRACT, &AccountKey([0u8; 32]), &AccountKey([0u8; 32])).unwrap();
    let seed = "1".repeat(20);
    let expected = Pubkey::create_with_seed(
        &Pubkey::new_from_array([0u8; 32]),
        &seed,
        &Pubkey::new_from_array([0u8; 32]),
    )
    .unwrap();
    assert_eq!(key.0, expected.to_bytes());
}

#[test]
fn key_derivation_repeats_itself() {
    let who = address(8);
    let first = derive_key(&who, &CONTRACT, &PROGRAM, &BASE);
    let second = derive_key(&who, &CONTRACT, &PROGRAM, &BASE);
    assert_eq!(first, second);
    let contract = derive_key(&CONTRACT, &CONTRACT, &PROGRAM, &BASE);
    assert_eq!(contract, derive_key(&CONTRACT, &CONTRACT, &PROGRAM, &BASE));
    assert_ne!(first, contract);
    assert_ne!(first, derive_key(&address(9), &CONTRACT, &PROGRAM, &BASE));
    assert_ne!(first, derive_key(&who, &CONTRACT, &PROGRAM, &PROGRAM));
    assert_ne!(first, derive_key(&who, &CONTRACT, &BASE, &BASE));
}

#[test]
fn marked_program_id_owns_no_seed_derived_key() {
    let mut id = [1u8; 32];
    id[11..].copy_from_slice(b"ProgramDerivedAddress");
    let marked = AccountKey(id);
    assert_eq!(derive_key(&address(1), &CONTRACT, &marked, &BASE), Err(KeyError::IllegalOwner));
    let storage = EmulatorAccountStorage::new(BASE, marked, CONTRACT, CALLER, None, None);
    assert_eq!(storage.lookup(&address(1)), Lookup::Underivable(KeyError::IllegalOwner));
    assert!(matches!(storage.lookup(&CONTRACT), Lookup::Fetch(_)));
}

#[test]
fn seed_longer_than_the_limit_is_refused() {
    assert_eq!(MAX_SEED_LEN, 32);
    let longest = "a".repeat(32);
    let too_long = "a".repeat(33);
    let expected = Pubkey::create_with_seed(
        &Pubkey::new_from_array(BASE.0),
        &longest,
        &Pubkey::new_from_array(PROGRAM.0),
    )
    .unwrap();
    assert_eq!(seeded_key(&BASE, &longest, &PROGRAM), Ok(AccountKey(expected.to_bytes())));
    assert_eq!(seeded_key(&BASE, &too_long, &PROGRAM), Err(KeyError::MaxSeedLengthExceeded));
    let wide = "\u{20ac}".repeat(11);
    assert_eq!(wide.chars().count(), 11);
    assert_eq!(seeded_key(&BASE, &wide, &PROGRAM), Err(KeyError::MaxSeedLengthExceeded));
    assert!(seeded_key(&BASE, &"\u{20ac}".repeat(10), &PROGRAM).is_ok());
    assert!(seeded_key(&BASE, "", &PROGRAM).is_ok());
}

#[test]
fn seed_length_is_checked_before_the_program_id() {
    let mut id = [0u8; 32];
    id[11..].copy_from_slice(b"ProgramDerivedAddress");
    let marked = AccountKey(id);
    assert_eq!(seeded_key(&BASE, &"b".repeat(40), &marked), Err(KeyError::MaxSeedLengthExceeded));
    assert_eq!(seeded_key(&BASE, "seed", &marked), Err(KeyError::IllegalOwner));
    let mut near = id;
    near[31] = b'S';
    assert!(seeded_key(&BASE, "seed", &AccountKey(near)).is_ok());
}

#[test]
fn program_key_is_the_one_the_ledger_finds() {
    let program = Pubkey::new_from_array(PROGRAM.0);
    let (expected, _) = Pubkey::find_program_address(&[b"vault"], &program);
    assert_eq!(program_key(b"vault", &PROGRAM), Ok(AccountKey(expected.to_bytes())));
    let (empty, _) = Pubkey::find_program_address(&[b""], &program);
    assert_eq!(program_key(b"", &PROGRAM), Ok(AccountKey(empty.to_bytes())));
    assert_eq!(program_key(&[0u8; 33], &PROGRAM), Err(KeyError::NoProgramAddress));
}

#[test]
fn absent_account_awaits_creation() {
    let mut storage = session();
    let who = address(1);
    let key = fetch_key(&storage, &who);
    assert!(!storage.create_acc_if_not_exists(&who, key, None));
    assert_eq!(storage.lookup(&who), Lookup::Pending);
    let report = storage.get_used_accounts(&"ok".to_string(), &Vec::new());
    assert_eq!(report.accounts, vec![entry(&who, false, true)]);
    let missing = storage.apply_to_account(&who, || 1u8, |_view: &SolidityAccount| 2u8);
    assert_eq!(missing, Ok(1));
}

#[test]
fn found_account_is_cached_unmodified() {
    let mut storage = session();
    let who = address(2);
    let key = fetch_key(&storage, &who);
    assert!(storage.create_acc_if_not_exists(&who, key, Some(contract_account(&[1, 2, 3]))));
    assert_eq!(storage.lookup(&who), Lookup::Cached);
    let report = storage.get_used_accounts(&"ok".to_string(), &Vec::new());
    assert_eq!(report.accounts, vec![entry(&who, false, false)]);
}

#[test]
fn resolving_again_changes_nothing() {
    let mut storage = session();
    let found = address(1);
    let absent = address(2);
    let found_key = fetch_key(&storage, &found);
    let absent_key = fetch_key(&storage, &absent);
    assert!(storage.create_acc_if_not_exists(&found, found_key, Some(contract_account(&[9]))));
    assert!(!storage.create_acc_if_not_exists(&absent, absent_key, None));
    let before = storage.get_used_accounts(&"ok".to_string(), &Vec::new());
    assert_eq!(before.accounts.len(), 2);

    assert!(storage.create_acc_if_not_exists(&found, absent_key, None));
    assert!(storage.create_acc_if_not_exists(&found, found_key, Some(contract_account(&[1, 2]))));
    assert!(!storage.create_acc_if_not_exists(&absent, absent_key, Some(contract_account(&[3]))));
    assert!(!storage.create_acc_if_not_exists(&absent, found_key, None));
    assert_eq!(storage.lookup(&found), Lookup::Cached);
    assert_eq!(storage.lookup(&absent), Lookup::Pending);

    let after = storage.get_used_accounts(&"ok".to_string(), &Vec::new());
    assert_eq!(after, before);
    let code_len = storage.apply_to_account(&found, || 0, |view: &SolidityAccount| view.extension.code.len());
    assert_eq!(code_len, Ok(1));
    let key_seen = storage.apply_to_account(&found, || BASE, |view: &SolidityAccount| view.solana_address);
    assert_eq!(key_seen, Ok(found_key));
}

#[test]
fn modify_marks_the_cached_account() {
    let mut storage = session();
    let who = address(5);
    let key = fetch_key(&storage, &who);
    storage.create_acc_if_not_exists(&who, key, Some(contract_account(&[])));
    let events = storage.apply(vec![modify(who)]);
    assert_eq!(events, vec![ApplyEvent::Modified(who)]);
    let report = storage.get_used_accounts(&"succeed".to_string(), &vec![0xde, 0xad]);
    assert_eq!(report.accounts, vec![entry(&who, true, false)]);
    assert_eq!(report.result, "dead");
    assert_eq!(report.exit_status, "succeed");
}

#[test]
fn modify_of_an_unknown_address_is_reported_and_changes_nothing() {
    let mut storage = session();
    let cached = address(1);
    let pending = address(2);
    let stranger = address(3);
    let cached_key = fetch_key(&storage, &cached);
    let pending_key = fetch_key(&storage, &pending);
    storage.create_acc_if_not_exists(&cached, cached_key, Some(contract_account(&[])));
    storage.create_acc_if_not_exists(&pending, pending_key, None);
    let before = storage.get_used_accounts(&"ok".to_string(), &Vec::new());
    let events = storage.apply(vec![modify(stranger), modify(pending)]);
    assert_eq!(
        events,
        vec![ApplyEvent::AccountNotFound(stranger), ApplyEvent::AccountNotFound(pending)]
    );
    assert_eq!(storage.get_used_accounts(&"ok".to_string(), &Vec::new()), before);
    assert!(matches!(storage.lookup(&stranger), Lookup::Fetch(_)));
}

#[test]
fn delete_is_reported_and_changes_nothing() {
    let mut storage = session();
    let who = address(1);
    let key = fetch_key(&storage, &who);
    storage.create_acc_if_not_exists(&who, key, Some(contract_account(&[])));
    let events = storage.apply(vec![Apply::Delete { address: who }, Apply::Delete { address: address(2) }]);
    assert_eq!(events, vec![ApplyEvent::Deleted(who), ApplyEvent::Deleted(address(2))]);
    let report = storage.get_used_accounts(&"ok".to_string(), &Vec::new());
    assert_eq!(report.accounts, vec![entry(&who, false, false)]);
    assert_eq!(storage.lookup(&who), Lookup::Cached);
}

#[test]
fn effects_apply_in_order_and_marks_stay() {
    let mut storage = session();
    let a = address(1);
    let b = address(2);
    let c = address(3);
    for who in [a, b, c] {
        let key = fetch_key(&storage, &who);
        storage.create_acc_if_not_exists(&who, key, Some(contract_account(&[])));
    }
    let events = storage.apply(vec![
        modify(c),
        Apply::Delete { address: a },
        modify(address(4)),
        modify(c),
        modify(a),
    ]);
    assert_eq!(
        events,
        vec![
            ApplyEvent::Modified(c),
            ApplyEvent::Deleted(a),
            ApplyEvent::AccountNotFound(address(4)),
            ApplyEvent::Modified(c),
            ApplyEvent::Modified(a),
        ]
    );
    assert!(storage.apply(Vec::new()).is_empty());
    let report = storage.get_used_accounts(&"ok".to_string(), &Vec::new());
    assert_eq!(
        report.accounts,
        vec![entry(&a, true, false), entry(&b, false, false), entry(&c, true, false)]
    );
}

#[test]
fn report_lists_cached_accounts_then_new_ones() {
    let mut storage = session();
    let order = [(address(1), false), (address(2), true), (address(3), false), (address(4), true)];
    for (who, found) in order {
        let key = fetch_key(&storage, &who);
        let fetched = if found { Some(contract_account(&[])) } else { None };
        assert_eq!(storage.create_acc_if_not_exists(&who, key, fetched), found);
    }
    let report = storage.get_used_accounts(&"revert".to_string(), &vec![1, 2, 3, 15, 16]);
    assert_eq!(
        report.accounts,
        vec![
            entry(&address(2), false, false),
            entry(&address(4), false, false),
            entry(&address(1), false, true),
            entry(&address(3), false, true),
        ]
    );
    assert_eq!(report.result, "0102030f10");
    assert_eq!(report.exit_status, "revert");
}

#[test]
fn address_text_is_prefixed_lowercase_hex() {
    let mut bytes = [0u8; 20];
    bytes[0] = 0xab;
    bytes[1] = 0x0c;
    bytes[19] = 0xff;
    assert_eq!(hex_address(&bytes), "0xab0c0000000000000000000000000000000000ff");
    assert_eq!(hex_address(&[]), "0x");
    assert_eq!(hex_address(&[0x00, 0x9a, 0xf0]), "0x009af0");
}

#[test]
fn account_view_is_a_fresh_copy() {
    let mut storage = session();
    let code = [0x60u8, 0x01, 0x60, 0x02, 0x01, 0x00, 0x5b, 0x00, 0xfe];
    let key = fetch_key(&storage, &CONTRACT);
    storage.create_acc_if_not_exists(&CONTRACT, key, Some(contract_account(&code)));
    let seen = storage.apply_to_contract(
        || Vec::new(),
        |view: &SolidityAccount| {
            assert_eq!(view.lamports, 42);
            assert_eq!(view.solana_address, key);
            assert_eq!(view.tag, 2);
            assert_eq!(view.data.owner, AccountKey([0x55u8; 32]));
            assert_eq!(view.data.code_size, 9);
            assert_eq!(view.extension.valids.len(), 2);
            assert_eq!(view.extension.storage.data.len(), 256);
            view.extension.code.to_vec()
        },
    );
    assert_eq!(seen, Ok(code.to_vec()));
    let again = storage.apply_to_account(&CONTRACT, || 0usize, |view: &SolidityAccount| view.extension.code.len());
    assert_eq!(again, Ok(9));
    let report = storage.get_used_accounts(&"ok".to_string(), &Vec::new());
    assert_eq!(report.accounts, vec![entry(&CONTRACT, false, false)]);
}

#[test]
fn caller_and_contract_views_use_the_session_addresses() {
    let mut storage = session();
    let caller_key = fetch_key(&storage, &CALLER);
    storage.create_acc_if_not_exists(&CALLER, caller_key, Some(contract_account(&[1, 2])));
    let caller = storage.apply_to_caller(|| None, |view: &SolidityAccount| Some(view.data.code_size));
    assert_eq!(caller, Ok(Some(2)));
    let contract = storage.apply_to_contract(|| None, |view: &SolidityAccount| Some(view.data.code_size));
    assert_eq!(contract, Ok(None));
    let unknown = storage.apply_to_account(&address(1), || "missing", |_view: &SolidityAccount| "found");
    assert_eq!(unknown, Ok("missing"));
}

#[test]
fn undecodable_account_gives_the_decode_error() {
    let mut storage = session();
    let short = address(1);
    let no_layout = address(2);
    let no_trie = address(3);
    let bad = [
        (short, vec![1u8; 36], DecodeError::MetadataTooShort),
        (no_layout, {
            let mut data = vec![2u8; 33];
            data.extend_from_slice(&100u32.to_le_bytes());
            data.extend_from_slice(&[0u8; 50]);
            data
        }, DecodeError::LayoutTooShort),
        (no_trie, {
            let mut data = vec![2u8; 33];
            data.extend_from_slice(&8u32.to_le_bytes());
            data.extend_from_slice(&[0u8; 10 + 255]);
            data
        }, DecodeError::InvalidTrie),
    ];
    for (who, data, expected) in bad {
        let key = fetch_key(&storage, &who);
        let account = Account { lamports: 0, data, owner: PROGRAM };
        assert!(storage.create_acc_if_not_exists(&who, key, Some(account)));
        let r = storage.apply_to_account(&who, || 0u8, |_view: &SolidityAccount| 1u8);
        assert_eq!(r, Err(expected));
    }
}
