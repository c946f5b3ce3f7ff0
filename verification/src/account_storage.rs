//! The account cache of one emulation session.
//!
//! A session maps EVM addresses to ledger accounts. Each address is resolved
//! at most once: the ledger's answer is kept, as a cached account or as an
//! address awaiting creation. Nothing here talks to the ledger; the caller
//! asks it for the key that `lookup` hands out and brings the answer back.

use vstd::prelude::*;
use crate::address::{AccountKey, Address};
use crate::contract::DecodeError;
use crate::effects::{lemma_marks_push, marks, Apply, ApplyEvent, ApplyEventView};
use crate::keys::{derive_key, derived_key, KeyError};
use crate::report::{address_text, hex_address, hex_encode, hex_text, AccountJSON, AccountJSONView, Report, ReportView};
use crate::solidity_account::{decoded, SolidityAccount};

verus! {

/// A ledger account as the ledger returns it.
#[derive(Debug)]
pub struct Account {
    /// Balance of the account.
    pub lamports: u64,
    /// Raw contents of the account.
    pub data: Vec<u8>,
    /// Program that owns the account.
    pub owner: AccountKey,
}

/// What an `Account` stands for.
pub struct AccountView {
    pub lamports: u64,
    pub data: Seq<u8>,
    pub owner: Seq<u8>,
}

impl View for Account {
    type V = AccountView;

    open spec fn view(&self) -> AccountView {
        AccountView { lamports: self.lamports, data: self.data@, owner: self.owner@ }
    }
}

/// A cached ledger account: what the ledger returned, the key it was
/// fetched under, and whether the session has modified it.
#[derive(Debug)]
pub struct SolanaAccount {
    /// The account as fetched.
    pub account: Account,
    /// The derived key under which it was fetched.
    pub key: AccountKey,
    /// Set once an effect of the interpreter has touched the account.
    pub writable: bool,
}

/// What a `SolanaAccount` stands for.
pub struct SolanaAccountView {
    pub account: AccountView,
    pub key: Seq<u8>,
    pub writable: bool,
}

impl View for SolanaAccount {
    type V = SolanaAccountView;

    open spec fn view(&self) -> SolanaAccountView {
        SolanaAccountView { account: self.account@, key: self.key@, writable: self.writable }
    }
}

impl SolanaAccount {
    /// A freshly fetched account: not yet modified.
    pub fn new(account: Account, key: AccountKey) -> (cached: SolanaAccount)
        ensures
            cached@ == (SolanaAccountView { account: account@, key: key@, writable: false }),
    {
        SolanaAccount { account, key, writable: false }
    }
}

/// What the session knows of an address, and what has to happen next.
#[derive(Clone, Copy, Debug, PartialEq, Eq)]
pub enum Lookup {
    /// A ledger account backs the address; it is cached.
    Cached,
    /// The ledger had no account for the address; it awaits creation.
    Pending,
    /// The address is new to the session: the ledger is to be asked for the
    /// account under this key.
    Fetch(AccountKey),
    /// The address is new to the session and has no ledger key.
    Underivable(KeyError),
}

/// A `Lookup` with the key taken by its bytes.
pub enum LookupView {
    Cached,
    Pending,
    Fetch(Seq<u8>),
    Underivable(KeyError),
}

impl View for Lookup {
    type V = LookupView;

    open spec fn view(&self) -> LookupView {
        match *self {
            Lookup::Cached => LookupView::Cached,
            Lookup::Pending => LookupView::Pending,
            Lookup::Fetch(key) => LookupView::Fetch(key@),
            Lookup::Underivable(e) => LookupView::Underivable(e),
        }
    }
}

/// The ledger's answer to a fetch, as a value of the model.
pub open spec fn fetched_view(fetched: Option<Account>) -> Option<AccountView> {
    match fetched {
        Some(account) => Some(account@),
        None => None,
    }
}

/// The state of a session: the cached accounts in the order in which they
/// were first accessed, the addresses awaiting creation in that order too,
/// and the values fixed when the session began.
pub struct StorageView {
    pub accounts: Seq<(Seq<u8>, SolanaAccountView)>,
    pub new_accounts: Seq<Seq<u8>>,
    pub program_id: Seq<u8>,
    pub contract_id: Seq<u8>,
    pub caller_id: Seq<u8>,
    pub base_account: Seq<u8>,
    pub block_number: u64,
    pub block_timestamp: i64,
}

impl StorageView {
    /// No address is cached twice, none awaits creation twice, and none is
    /// both cached and awaiting creation.
    pub open spec fn wf(self) -> bool {
        &&& forall|i: int, j: int|
            0 <= i < j < self.accounts.len() ==> self.accounts[i].0 != self.accounts[j].0
        &&& forall|i: int, j: int|
            0 <= i < j < self.new_accounts.len() ==> self.new_accounts[i] != self.new_accounts[j]
        &&& forall|i: int, j: int|
            0 <= i < self.accounts.len() && 0 <= j < self.new_accounts.len()
                ==> self.accounts[i].0 != self.new_accounts[j]
    }

    /// Whether a ledger account is cached for `address`.
    pub open spec fn is_cached(self, address: Seq<u8>) -> bool {
        exists|i: int| 0 <= i < self.accounts.len() && self.accounts[i].0 == address
    }

    /// Whether `address` awaits creation.
    pub open spec fn is_pending(self, address: Seq<u8>) -> bool {
        exists|i: int| 0 <= i < self.new_accounts.len() && self.new_accounts[i] == address
    }

    /// The account cached for `address`, if there is one.
    pub open spec fn cached(self, address: Seq<u8>) -> Option<SolanaAccountView> {
        if self.is_cached(address) {
            let i = choose|i: int| 0 <= i < self.accounts.len() && self.accounts[i].0 == address;
            Some(self.accounts[i].1)
        } else {
            None
        }
    }

    /// What the session knows of `address`: the known answer, or the key
    /// under which the ledger is to be asked.
    pub open spec fn lookup(self, address: Seq<u8>) -> LookupView {
        if self.is_cached(address) {
            LookupView::Cached
        } else if self.is_pending(address) {
            LookupView::Pending
        } else {
            match derived_key(address, self.contract_id, self.program_id, self.base_account) {
                Ok(key) => LookupView::Fetch(key),
                Err(e) => LookupView::Underivable(e),
            }
        }
    }

    /// The session after the ledger answered `fetched` for `address` under
    /// `key`. An address that the session already knows keeps its entry.
    pub open spec fn after_fetch(
        self,
        address: Seq<u8>,
        key: Seq<u8>,
        fetched: Option<AccountView>,
    ) -> StorageView {
        if self.is_cached(address) || self.is_pending(address) {
            self
        } else {
            match fetched {
                Some(account) => StorageView {
                    accounts: self.accounts.push(
                        (address, SolanaAccountView { account, key, writable: false }),
                    ),
                    ..self
                },
                None => StorageView { new_accounts: self.new_accounts.push(address), ..self },
            }
        }
    }

    /// Whether a ledger account backs `address` once the ledger answered
    /// `fetched` for it.
    pub open spec fn backed(self, address: Seq<u8>, fetched: Option<AccountView>) -> bool {
        self.is_cached(address) || (!self.is_pending(address) && fetched is Some)
    }

    /// Whether the account at `address` may be handed out: `d` can be called
    /// where none is cached, `f` on every view that shows the cached one.
    pub open spec fn admits<U, D: FnOnce() -> U, F: FnOnce(&SolidityAccount) -> U>(
        self,
        address: Seq<u8>,
        d: D,
        f: F,
    ) -> bool {
        match self.cached(address) {
            None => call_requires(d, ()),
            Some(entry) => forall|view: SolidityAccount|
                view.shows(entry.key, entry.account.lamports, entry.account.data)
                    ==> #[trigger] call_requires(f, (&view,)),
        }
    }

    /// Whether `r` is what handing out the account at `address` gives: what
    /// `d` returns where none is cached; the decode error where the cached
    /// bytes are no contract account; else what `f` returns for a view that
    /// shows the cached account.
    pub open spec fn hands<U, D: FnOnce() -> U, F: FnOnce(&SolidityAccount) -> U>(
        self,
        address: Seq<u8>,
        d: D,
        f: F,
        r: Result<U, DecodeError>,
    ) -> bool {
        match self.cached(address) {
            None => r matches Ok(u) && call_ensures(d, (), u),
            Some(entry) => match decoded(entry.account.data) {
                Ok(_) => r matches Ok(u) && exists|view: SolidityAccount|
                    view.shows(entry.key, entry.account.lamports, entry.account.data)
                        && #[trigger] call_ensures(f, (&view,), u),
                Err(e) => r matches Err(x) && x == e,
            },
        }
    }

    /// The session after the effects `values`: every cached account that
    /// one of them modifies is marked as modified; nothing else changes.
    pub open spec fn after_apply(self, values: Seq<Apply>) -> StorageView {
        StorageView {
            accounts: Seq::new(
                self.accounts.len(),
                |i: int|
                    (
                        self.accounts[i].0,
                        SolanaAccountView {
                            writable: self.accounts[i].1.writable || marks(
                                values,
                                self.accounts[i].0,
                            ),
                            ..self.accounts[i].1
                        },
                    ),
            ),
            ..self
        }
    }

    /// What applying `effect` reports in this session.
    pub open spec fn event_of(self, effect: Apply) -> ApplyEventView {
        match effect {
            Apply::Modify { address, .. } => if self.is_cached(address@) {
                ApplyEventView::Modified(address@)
            } else {
                ApplyEventView::AccountNotFound(address@)
            },
            Apply::Delete { address } => ApplyEventView::Deleted(address@),
        }
    }

    /// The report of this session for a run that ended with `status` and
    /// returned `result`: the cached accounts in the order of their first
    /// access, none of them new, then the addresses awaiting creation.
    pub open spec fn report(self, status: Seq<char>, result: Seq<u8>) -> ReportView {
        ReportView {
            accounts: Seq::new(
                self.accounts.len() + self.new_accounts.len(),
                |i: int|
                    if i < self.accounts.len() {
                        AccountJSONView {
                            address: address_text(self.accounts[i].0),
                            writable: self.accounts[i].1.writable,
                            new: false,
                        }
                    } else {
                        AccountJSONView {
                            address: address_text(self.new_accounts[i - self.accounts.len()]),
                            writable: false,
                            new: true,
                        }
                    },
            ),
            result: hex_text(result),
            exit_status: status,
        }
    }
}

/// The account cache of one session, with the values fixed at its start.
pub struct EmulatorAccountStorage {
    accounts: Vec<(Address, SolanaAccount)>,
    new_accounts: Vec<Address>,
    program_id: AccountKey,
    contract_id: Address,
    caller_id: Address,
    base_account: AccountKey,
    block_number: u64,
    block_timestamp: i64,
}

impl View for EmulatorAccountStorage {
    type V = StorageView;

    closed spec fn view(&self) -> StorageView {
        StorageView {
            accounts: Seq::new(
                self.accounts@.len(),
                |i: int| (self.accounts@[i].0@, self.accounts@[i].1@),
            ),
            new_accounts: Seq::new(self.new_accounts@.len(), |i: int| self.new_accounts@[i]@),
            program_id: self.program_id@,
            contract_id: self.contract_id@,
            caller_id: self.caller_id@,
            base_account: self.base_account@,
            block_number: self.block_number,
            block_timestamp: self.block_timestamp,
        }
    }
}

impl EmulatorAccountStorage {
    /// The slot that a session runs at when the ledger answered `slot` to
    /// the question for its current slot: the slot, or 0 where the question
    /// failed. The block time is asked for this slot.
    pub fn slot_or_default(slot: Option<u64>) -> (number: u64)
        ensures
            number == (match slot {
                Some(s) => s,
                None => 0,
            }),
    {
        match slot {
            Some(s) => s,
            None => 0,
        }
    }

    /// Starts a session with an empty cache. `slot` and `timestamp` are the
    /// ledger's answers for its current slot and for the time of that slot's
    /// block; a question that failed counts as 0.
    pub fn new(
        base_account: AccountKey,
        program_id: AccountKey,
        contract_id: Address,
        caller_id: Address,
        slot: Option<u64>,
        timestamp: Option<i64>,
    ) -> (storage: EmulatorAccountStorage)
        ensures
            storage@ == (StorageView {
                accounts: Seq::empty(),
                new_accounts: Seq::empty(),
                program_id: program_id@,
                contract_id: contract_id@,
                caller_id: caller_id@,
                base_account: base_account@,
                block_number: match slot {
                    Some(s) => s,
                    None => 0,
                },
                block_timestamp: match timestamp {
                    Some(t) => t,
                    None => 0,
                },
            }),
            storage@.wf(),
    {
        let block_number = Self::slot_or_default(slot);
        let block_timestamp = match timestamp {
            Some(t) => t,
            None => 0,
        };
        let storage = EmulatorAccountStorage {
            accounts: Vec::new(),
            new_accounts: Vec::new(),
            program_id,
            contract_id,
            caller_id,
            base_account,
            block_number,
            block_timestamp,
        };
        assert(storage@.accounts =~= Seq::empty());
        assert(storage@.new_accounts =~= Seq::empty());
        storage
    }

    /// Where `address` stands among the cached accounts.
    fn position(&self, address: &Address) -> (found: Option<usize>)
        ensures
            match found {
                Some(i) => i < self.accounts@.len() && self@.accounts[i as int].0 == address@,
                None => !self@.is_cached(address@),
            },
    {
        let mut i: usize = 0;
        while i < self.accounts.len()
            invariant
                i <= self.accounts@.len(),
                forall|j: int| 0 <= j < i ==> self@.accounts[j].0 != address@,
            decreases self.accounts@.len() - i,
        {
            if self.accounts[i].0 == *address {
                return Some(i);
            }
            i += 1;
        }
        None
    }

    /// Whether `address` awaits creation.
    fn is_pending(&self, address: &Address) -> (pending: bool)
        ensures
            pending == self@.is_pending(address@),
    {
        let mut i: usize = 0;
        while i < self.new_accounts.len()
            invariant
                i <= self.new_accounts@.len(),
                forall|j: int| 0 <= j < i ==> self@.new_accounts[j] != address@,
            decreases self.new_accounts@.len() - i,
        {
            if self.new_accounts[i] == *address {
                assert(self@.new_accounts[i as int] == address@);
                return true;
            }
            i += 1;
        }
        false
    }

    /// Says what the session knows of `address`. For an address it has not
    /// seen, derives the key under which the ledger is to be asked; the
    /// answer goes to `create_acc_if_not_exists`. The session is not changed
    /// and the ledger is not needed.
    pub fn lookup(&self, address: &Address) -> (known: Lookup)
        ensures
            known@ == self@.lookup(address@),
    {
        if self.position(address).is_some() {
            Lookup::Cached
        } else if self.is_pending(address) {
            Lookup::Pending
        } else {
            match derive_key(address, &self.contract_id, &self.program_id, &self.base_account) {
                Ok(key) => Lookup::Fetch(key),
                Err(e) => Lookup::Underivable(e),
            }
        }
    }

    /// Records the ledger's answer for `address`, asked under `key`, and says
    /// whether a ledger account backs the address. An account that was found
    /// is cached, unmodified; an address without account awaits creation,
    /// whether the ledger had none or the question failed. An address that
    /// the session already knows keeps its entry and its answer.
    pub fn create_acc_if_not_exists(
        &mut self,
        address: &Address,
        key: AccountKey,
        fetched: Option<Account>,
    ) -> (backed: bool)
        requires
            old(self)@.wf(),
        ensures
            final(self)@ == old(self)@.after_fetch(address@, key@, fetched_view(fetched)),
            backed == old(self)@.backed(address@, fetched_view(fetched)),
            final(self)@.wf(),
    {
        if self.position(address).is_some() {
            return true;
        }
        if self.is_pending(address) {
            return false;
        }
        match fetched {
            Some(account) => {
                let ghost before = self@;
                self.accounts.push((*address, SolanaAccount::new(account, key)));
                assert(self@.accounts =~= before.accounts.push(
                    (address@, SolanaAccountView { account: account@, key: key@, writable: false }),
                ));
                assert(self@.new_accounts =~= before.new_accounts);
                true
            },
            None => {
                let ghost before = self@;
                self.new_accounts.push(*address);
                assert(self@.new_accounts =~= before.new_accounts.push(address@));
                assert(self@.accounts =~= before.accounts);
                false
            },
        }
    }

    /// Applies the effects of a run, in order. A `Modify` marks the cached
    /// account at its address as modified; where the address is not cached
    /// it changes nothing and reports the disagreement. A `Delete` changes
    /// nothing. Returns what each effect reported, in the same order.
    pub fn apply(&mut self, values: Vec<Apply>) -> (events: Vec<ApplyEvent>)
        requires
            old(self)@.wf(),
        ensures
            final(self)@ == old(self)@.after_apply(values@),
            events@.len() == values@.len(),
            forall|j: int|
                0 <= j < values@.len() ==> (#[trigger] events@[j])@ == old(self)@.event_of(
                    values@[j],
                ),
            final(self)@.wf(),
    {
        let ghost before = self@;
        let mut events: Vec<ApplyEvent> = Vec::new();
        let mut n: usize = 0;
        assert(self@.accounts =~= before.after_apply(values@.take(0)).accounts) by {
            assert forall|a: Seq<u8>| !marks(values@.take(0), a) by {}
        }
        while n < values.len()
            invariant
                n <= values@.len(),
                before.wf(),
                self@ == before.after_apply(values@.take(n as int)),
                events@.len() == n,
                forall|j: int|
                    0 <= j < n ==> (#[trigger] events@[j])@ == before.event_of(values@[j]),
            decreases values@.len() - n,
        {
            let ghost current = self@;
            proof {
                assert forall|a: Seq<u8>| current.is_cached(a) == before.is_cached(a) by {
                    if current.is_cached(a) {
                        let i = choose|i: int|
                            0 <= i < current.accounts.len() && current.accounts[i].0 == a;
                        assert(before.accounts[i].0 == a);
                    }
                    if before.is_cached(a) {
                        let i = choose|i: int|
                            0 <= i < before.accounts.len() && before.accounts[i].0 == a;
                        assert(current.accounts[i].0 == a);
                    }
                }
            }
            match &values[n] {
                Apply::Modify { address, .. } => {
                    match self.position(address) {
                        Some(i) => {
                            self.accounts[i].1.writable = true;
                            events.push(ApplyEvent::Modified(*address));
                        },
                        None => {
                            events.push(ApplyEvent::AccountNotFound(*address));
                        },
                    }
                },
                Apply::Delete { address } => {
                    events.push(ApplyEvent::Deleted(*address));
                },
            }
            proof {
                let target = before.after_apply(values@.take(n + 1));
                assert forall|k: int| 0 <= k < before.accounts.len() implies self@.accounts[k]
                    == target.accounts[k] by {
                    lemma_marks_push(values@, n as int, before.accounts[k].0);
                    assert(current.accounts[k].0 == before.accounts[k].0);
                    if values@[n as int].modifies() == Some(before.accounts[k].0) {
                        assert(current.is_cached(before.accounts[k].0));
                    }
                }
                assert(self@.accounts =~= target.accounts);
            }
            assert(self@.new_accounts =~= before.new_accounts);
            n += 1;
        }
        assert(values@.take(n as int) =~= values@);
        events
    }

    /// Hands the account at `address` to `f`, or calls `d` where the session
    /// has no account cached for it. `f` gets a fresh decoding of a copy of
    /// the cached bytes: what it writes through the view does not reach the
    /// cache. Cached bytes that are no contract account give the decode
    /// error, and neither `d` nor `f` is called.
    pub fn apply_to_account<U, D, F>(&self, address: &Address, d: D, f: F) -> (r: Result<
        U,
        DecodeError,
    >) where D: FnOnce() -> U, F: FnOnce(&SolidityAccount) -> U
        requires
            self@.wf(),
            self@.admits(address@, d, f),
        ensures
            self@.hands(address@, d, f, r),
    {
        match self.position(address) {
            None => Ok(d()),
            Some(i) => {
                let entry = &self.accounts[i].1;
                proof {
                    let j = choose|j: int|
                        0 <= j < self@.accounts.len() && self@.accounts[j].0 == address@;
                    assert(j == i);
                }
                let mut account_data = entry.account.data.clone();
                match SolidityAccount::new(
                    entry.key,
                    account_data.as_mut_slice(),
                    entry.account.lamports,
                ) {
                    Ok(view) => {
                        let u = f(&view);
                        let r: Result<U, DecodeError> = Ok(u);
                        assert(r->Ok_0 == u);
                        assert(exists|v: SolidityAccount|
                            v.shows(entry@.key, entry@.account.lamports, entry@.account.data)
                                && #[trigger] call_ensures(f, (&v,), r->Ok_0));
                        r
                    },
                    Err(e) => Err(e),
                }
            },
        }
    }

    /// `apply_to_account` for the contract under execution.
    pub fn apply_to_contract<U, D, F>(&self, d: D, f: F) -> (r: Result<U, DecodeError>) where
        D: FnOnce() -> U,
        F: FnOnce(&SolidityAccount) -> U,

        requires
            self@.wf(),
            self@.admits(self@.contract_id, d, f),
        ensures
            self@.hands(self@.contract_id, d, f, r),
    {
        self.apply_to_account(&self.contract_id, d, f)
    }

    /// `apply_to_account` for the sender of the transaction.
    pub fn apply_to_caller<U, D, F>(&self, d: D, f: F) -> (r: Result<U, DecodeError>) where
        D: FnOnce() -> U,
        F: FnOnce(&SolidityAccount) -> U,

        requires
            self@.wf(),
            self@.admits(self@.caller_id, d, f),
        ensures
            self@.hands(self@.caller_id, d, f, r),
    {
        self.apply_to_account(&self.caller_id, d, f)
    }

    /// Reports the session after a run that ended with `status` and
    /// returned `result`.
    pub fn get_used_accounts(&self, status: &String, result: &Vec<u8>) -> (report: Report)
        ensures
            report@ == self@.report(status@, result@),
    {
        let mut arr: Vec<AccountJSON> = Vec::new();
        let mut i: usize = 0;
        while i < self.accounts.len()
            invariant
                i <= self.accounts@.len(),
                arr@.len() == i,
                forall|j: int|
                    0 <= j < i ==> (#[trigger] arr@[j])@ == self@.report(
                        status@,
                        result@,
                    ).accounts[j],
            decreases self.accounts@.len() - i,
        {
            let entry = &self.accounts[i];
            arr.push(
                AccountJSON {
                    address: hex_address(entry.0.0.as_slice()),
                    writable: entry.1.writable,
                    new: false,
                },
            );
            i += 1;
        }
        let mut k: usize = 0;
        while k < self.new_accounts.len()
            invariant
                k <= self.new_accounts@.len(),
                arr@.len() == self.accounts@.len() + k,
                forall|j: int|
                    0 <= j < self.accounts@.len() + k ==> (#[trigger] arr@[j])@ == self@.report(
                        status@,
                        result@,
                    ).accounts[j],
            decreases self.new_accounts@.len() - k,
        {
            arr.push(
                AccountJSON {
                    address: hex_address(self.new_accounts[k].0.as_slice()),
                    writable: false,
                    new: true,
                },
            );
            k += 1;
        }
        let report = Report {
            accounts: arr,
            result: hex_encode(result.as_slice()),
            exit_status: status.clone(),
        };
        assert(report@.accounts =~= self@.report(status@, result@).accounts);
        report
    }

    /// The address that the interpreter takes as the origin of the
    /// transaction: the contract under execution.
    pub fn origin(&self) -> (address: Address)
        ensures
            address@ == self@.contract_id,
    {
        self.contract_id
    }

    /// The block number of the session: the ledger slot captured at its start.
    pub fn block_number(&self) -> (number: u64)
        ensures
            number == self@.block_number,
    {
        self.block_number
    }

    /// The block timestamp of the session, captured at its start.
    pub fn block_timestamp(&self) -> (timestamp: i64)
        ensures
            timestamp == self@.block_timestamp,
    {
        self.block_timestamp
    }
}

/// What a session keeps: resolving an address and applying effects leave no
/// address twice in the cache or among the addresses awaiting creation, and
/// none in both; every cached entry stays at its place with its address, its
/// key and its contents; effects change no address awaiting creation.
pub proof fn lemma_session_keeps_entries(
    session: StorageView,
    address: Seq<u8>,
    key: Seq<u8>,
    fetched: Option<AccountView>,
    values: Seq<Apply>,
)
    requires
        session.wf(),
    ensures
        session.after_fetch(address, key, fetched).wf(),
        session.after_apply(values).wf(),
        forall|i: int|
            0 <= i < session.accounts.len() ==> #[trigger] session.after_fetch(
                address,
                key,
                fetched,
            ).accounts[i] == session.accounts[i],
        session.after_apply(values).accounts.len() == session.accounts.len(),
        session.after_apply(values).new_accounts == session.new_accounts,
        forall|i: int|
            0 <= i < session.accounts.len() ==> {
                let entry = #[trigger] session.after_apply(values).accounts[i];
                &&& entry.0 == session.accounts[i].0
                &&& entry.1.key == session.accounts[i].1.key
                &&& entry.1.account == session.accounts[i].1.account
            },
{
}

/// A cached account that one of the effects modifies is marked as modified
/// afterwards; one that none of them modifies keeps its mark.
pub proof fn lemma_modify_marks_cached(session: StorageView, values: Seq<Apply>, address: Seq<u8>)
    requires
        session.wf(),
        session.is_cached(address),
    ensures
        session.after_apply(values).cached(address) matches Some(entry) && session.cached(
            address,
        ) matches Some(before) && entry.writable == (before.writable || marks(values, address)),
{
    let after = session.after_apply(values);
    let i = choose|i: int| 0 <= i < session.accounts.len() && session.accounts[i].0 == address;
    assert(after.accounts[i].0 == address);
    let j = choose|j: int| 0 <= j < after.accounts.len() && after.accounts[j].0 == address;
    assert(session.accounts[j].0 == address);
    assert(i == j);
}

/// Idempotence: once an address has been resolved, the session knows the
/// answer without the ledger, and resolving it again, whatever the ledger
/// would answer now, changes neither the cached accounts nor the addresses
/// awaiting creation, nor the answer.
pub proof fn lemma_resolve_idempotent(
    session: StorageView,
    address: Seq<u8>,
    key: Seq<u8>,
    fetched: Option<AccountView>,
    other_key: Seq<u8>,
    other_fetched: Option<AccountView>,
)
    requires
        session.wf(),
    ensures
        ({
            let resolved = session.after_fetch(address, key, fetched);
            &&& resolved.wf()
            &&& resolved.lookup(address) is Cached || resolved.lookup(address) is Pending
            &&& resolved.lookup(address) is Cached <==> session.backed(address, fetched)
            &&& resolved.after_fetch(address, other_key, other_fetched) == resolved
            &&& resolved.after_fetch(address, other_key, other_fetched).accounts.len()
                == resolved.accounts.len()
            &&& resolved.after_fetch(address, other_key, other_fetched).new_accounts.len()
                == resolved.new_accounts.len()
            &&& resolved.backed(address, other_fetched) == session.backed(address, fetched)
        }),
{
    let resolved = session.after_fetch(address, key, fetched);
    if !session.is_cached(address) && !session.is_pending(address) {
        match fetched {
            Some(account) => {
                let n = session.accounts.len() as int;
                assert(resolved.accounts[n].0 == address);
            },
            None => {
                let n = session.new_accounts.len() as int;
                assert(resolved.new_accounts[n] == address);
            },
        }
    }
}

} // verus!
