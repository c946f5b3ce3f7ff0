//! The effects that the interpreter emits after a run, and what applying
//! each of them reports.

use vstd::prelude::*;
use crate::address::Address;

verus! {

/// Balance and nonce of an account, each a 256-bit big-endian number.
#[derive(Clone, Copy, Debug)]
pub struct Basic {
    pub balance: [u8; 32],
    pub nonce: [u8; 32],
}

/// One state-transition effect of the interpreter.
#[derive(Debug)]
pub enum Apply {
    /// The account at `address` changed.
    Modify {
        address: Address,
        /// Its balance and nonce after the run.
        basic: Basic,
        /// Its new code, where the run deployed one.
        code: Option<Vec<u8>>,
        /// The storage slots that the run wrote, key and value.
        storage: Vec<([u8; 32], [u8; 32])>,
        /// Whether its storage is to be emptied before the slots are written.
        reset_storage: bool,
    },
    /// The account at `address` was destroyed.
    Delete { address: Address },
}

impl Apply {
    /// The address that this effect modifies, if it modifies one.
    pub open spec fn modifies(self) -> Option<Seq<u8>> {
        match self {
            Apply::Modify { address, .. } => Some(address@),
            Apply::Delete { .. } => None,
        }
    }
}

/// Whether one of `values` modifies `address`.
pub open spec fn marks(values: Seq<Apply>, address: Seq<u8>) -> bool {
    exists|j: int| 0 <= j < values.len() && #[trigger] values[j].modifies() == Some(address)
}

/// What applying one effect reports.
#[derive(Clone, Copy, Debug, PartialEq, Eq)]
pub enum ApplyEvent {
    /// The cached account at this address is now marked as modified.
    Modified(Address),
    /// The interpreter modified this address, which the session never
    /// cached: the run and the cache disagree.
    AccountNotFound(Address),
    /// The account at this address was destroyed; the cache is as before.
    Deleted(Address),
}

/// An `ApplyEvent` with the address taken by its bytes.
pub enum ApplyEventView {
    Modified(Seq<u8>),
    AccountNotFound(Seq<u8>),
    Deleted(Seq<u8>),
}

impl View for ApplyEvent {
    type V = ApplyEventView;

    open spec fn view(&self) -> ApplyEventView {
        match *self {
            ApplyEvent::Modified(address) => ApplyEventView::Modified(address@),
            ApplyEvent::AccountNotFound(address) => ApplyEventView::AccountNotFound(address@),
            ApplyEvent::Deleted(address) => ApplyEventView::Deleted(address@),
        }
    }
}

/// An effect list with one effect more modifies what the shorter list
/// modifies, and what the added effect modifies.
pub proof fn lemma_marks_push(values: Seq<Apply>, n: int, address: Seq<u8>)
    requires
        0 <= n < values.len(),
    ensures
        marks(values.take(n + 1), address) == (marks(values.take(n), address)
            || values[n].modifies() == Some(address)),
{
    let shorter = values.take(n);
    let longer = values.take(n + 1);
    if marks(shorter, address) {
        let j = choose|j: int| 0 <= j < shorter.len() && #[trigger] shorter[j].modifies() == Some(address);
        assert(longer[j].modifies() == Some(address));
    }
    if values[n].modifies() == Some(address) {
        assert(longer[n].modifies() == Some(address));
    }
    if marks(longer, address) {
        let j = choose|j: int| 0 <= j < longer.len() && #[trigger] longer[j].modifies() == Some(address);
        if j < n {
            assert(shorter[j].modifies() == Some(address));
        }
    }
}

} // verus!
