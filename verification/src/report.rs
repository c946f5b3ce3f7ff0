//! The summary of a session for an outside observer.

use vstd::prelude::*;
use vstd::string::StringExecFns;

verus! {

/// One account that the session used.
#[derive(Debug, PartialEq, Eq)]
pub struct AccountJSON {
    /// The EVM address: `0x` and 40 lowercase hex digits.
    pub address: String,
    /// Whether the session modified the account.
    pub writable: bool,
    /// Whether the ledger has no account for the address yet.
    pub new: bool,
}

/// What an `AccountJSON` stands for.
pub struct AccountJSONView {
    pub address: Seq<char>,
    pub writable: bool,
    pub new: bool,
}

impl View for AccountJSON {
    type V = AccountJSONView;

    open spec fn view(&self) -> AccountJSONView {
        AccountJSONView { address: self.address@, writable: self.writable, new: self.new }
    }
}

/// The report of a session: the accounts it used, the output of the run in
/// hex, and the status with which the run ended.
#[derive(Debug, PartialEq, Eq)]
pub struct Report {
    pub accounts: Vec<AccountJSON>,
    pub result: String,
    pub exit_status: String,
}

/// What a `Report` stands for.
pub struct ReportView {
    pub accounts: Seq<AccountJSONView>,
    pub result: Seq<char>,
    pub exit_status: Seq<char>,
}

impl View for Report {
    type V = ReportView;

    open spec fn view(&self) -> ReportView {
        ReportView {
            accounts: Seq::new(self.accounts@.len(), |i: int| self.accounts@[i]@),
            result: self.result@,
            exit_status: self.exit_status@,
        }
    }
}

/// The lowercase hex digit of a number below 16.
pub open spec fn hex_digit(nibble: int) -> char {
    seq!['0', '1', '2', '3', '4', '5', '6', '7', '8', '9', 'a', 'b', 'c', 'd', 'e', 'f'][nibble]
}

/// The lowercase hex text of `bytes`: two digits for each byte, the high
/// half first.
pub open spec fn hex_text(bytes: Seq<u8>) -> Seq<char> {
    Seq::new(
        2 * bytes.len(),
        |i: int|
            hex_digit(
                if i % 2 == 0 {
                    bytes[i / 2] as int / 16
                } else {
                    bytes[i / 2] as int % 16
                },
            ),
    )
}

/// The text of an address in a report: `0x`, then its bytes in hex.
pub open spec fn address_text(address: Seq<u8>) -> Seq<char> {
    seq!['0', 'x'] + hex_text(address)
}

/// Calls `hex::encode`. Trusted, as its documentation says: the text holds
/// two lowercase hex digits for each byte, in order, the high half first.
#[verifier::external_body]
pub(crate) fn hex_encode(bytes: &[u8]) -> (text: String)
    ensures
        text@ == hex_text(bytes@),
{
    hex::encode(bytes)
}

/// Writes `bytes` as an address of a report.
pub fn hex_address(bytes: &[u8]) -> (text: String)
    ensures
        text@ == address_text(bytes@),
{
    let digits = hex_encode(bytes);
    proof {
        reveal_strlit("0x");
    }
    let text = String::from_str("0x").concat(digits.as_str());
    assert("0x"@ =~= seq!['0', 'x']);
    text
}

} // verus!
