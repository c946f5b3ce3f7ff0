//! The structured view of one contract account, decoded from its raw bytes.

use vstd::prelude::*;
use vstd::slice::slice_subrange;
use crate::address::AccountKey;
use crate::contract::{layout, unpacked, Data, DataView, DecodeError, Extension, Layout};

verus! {

/// Bytes before the code of a contract account: the kind tag and the
/// metadata record.
pub const HEADER_LEN: usize = 37;

/// What the bytes of an account say before any region is read.
pub struct Decoded {
    /// The kind tag, byte 0 of the account.
    pub tag: u8,
    /// The metadata record, bytes 1 to 36.
    pub data: DataView,
    /// Lengths of the code, the bitmap and the storage trie that follow.
    pub sizes: Layout,
}

/// Decodes the fixed part of an account and sizes its regions, or says why
/// the bytes are no contract account.
pub open spec fn decoded(bytes: Seq<u8>) -> Result<Decoded, DecodeError> {
    if bytes.len() < HEADER_LEN {
        Err(DecodeError::MetadataTooShort)
    } else {
        let data = unpacked(bytes.subrange(1, HEADER_LEN as int));
        match layout(data.code_size, (bytes.len() - HEADER_LEN) as nat) {
            Ok(sizes) => Ok(Decoded { tag: bytes[0], data, sizes }),
            Err(e) => Err(e),
        }
    }
}

/// A contract account as the interpreter sees it: its ledger key and
/// balance, its metadata, and windows over its code, bitmap and storage.
#[derive(Debug)]
pub struct SolidityAccount<'a> {
    /// Key of the ledger account that holds the contract.
    pub solana_address: AccountKey,
    /// Balance of that ledger account.
    pub lamports: u64,
    /// The kind tag that precedes the metadata.
    pub tag: u8,
    /// The metadata record.
    pub data: Data,
    /// Code, bitmap and storage trie.
    pub extension: Extension<'a>,
}

impl<'a> SolidityAccount<'a> {
    /// Whether this view shows the account with key `key`, balance
    /// `lamports` and contents `bytes`.
    pub open spec fn shows(&self, key: Seq<u8>, lamports: u64, bytes: Seq<u8>) -> bool {
        &&& decoded(bytes) matches Ok(d)
        &&& self.solana_address@ == key
        &&& self.lamports == lamports
        &&& self.tag == d.tag
        &&& self.data@ == d.data
        &&& self.extension.code@ == bytes.subrange(
            HEADER_LEN as int,
            HEADER_LEN + d.sizes.code,
        )
        &&& self.extension.valids@ == bytes.subrange(
            HEADER_LEN + d.sizes.code,
            HEADER_LEN + d.sizes.code + d.sizes.valids,
        )
        &&& self.extension.storage.data@ == bytes.subrange(
            HEADER_LEN + d.sizes.code + d.sizes.valids,
            bytes.len() as int,
        )
    }

    /// Decodes `data`, the raw bytes of the ledger account `solana_address`
    /// with balance `lamports`. The windows of the view lie over `data`.
    pub fn new(solana_address: AccountKey, data: &'a mut [u8], lamports: u64) -> (r: Result<
        SolidityAccount<'a>,
        DecodeError,
    >)
        ensures
            match r {
                Ok(account) => {
                    &&& account.shows(solana_address@, lamports, old(data)@)
                    &&& final(data)@ == old(data)@.subrange(0, HEADER_LEN as int)
                        + final(account.extension.code)@ + final(account.extension.valids)@
                        + final(account.extension.storage.data)@
                },
                Err(e) => {
                    &&& decoded(old(data)@) == Err::<Decoded, DecodeError>(e)
                    &&& final(data)@ == old(data)@
                },
            },
    {
        if data.len() < HEADER_LEN {
            return Err(DecodeError::MetadataTooShort);
        }
        let ghost bytes = data@;
        let (head, remaining) = data.split_at_mut(HEADER_LEN);
        let tag: u8 = head[0];
        let meta = Data::unpack(slice_subrange(head, 1, HEADER_LEN));
        let ghost fixed = head@;
        let ghost rest = remaining@;
        assert(fixed.subrange(1, HEADER_LEN as int) =~= bytes.subrange(1, HEADER_LEN as int));
        match Extension::unpack(&meta, remaining) {
            Ok(extension) => {
                proof {
                    let d = decoded(bytes)->Ok_0;
                    assert(extension.code@ =~= bytes.subrange(
                        HEADER_LEN as int,
                        HEADER_LEN + d.sizes.code,
                    ));
                    assert(extension.valids@ =~= bytes.subrange(
                        HEADER_LEN + d.sizes.code,
                        HEADER_LEN + d.sizes.code + d.sizes.valids,
                    ));
                    assert(extension.storage.data@ =~= bytes.subrange(
                        HEADER_LEN + d.sizes.code + d.sizes.valids,
                        bytes.len() as int,
                    ));
                }
                Ok(SolidityAccount { solana_address, lamports, tag, data: meta, extension })
            },
            Err(e) => {
                assert(fixed + rest =~= bytes);
                Err(e)
            },
        }
    }
}

} // verus!
