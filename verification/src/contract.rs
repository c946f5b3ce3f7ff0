//! The binary layout of a contract account: a fixed metadata record, then the
//! code, the jump-validity bitmap and the storage trie, sized by the code
//! length alone.

use vstd::prelude::*;
use crate::address::AccountKey;

verus! {

/// Bytes that the root table of a storage trie takes: 32 slots of two
/// little-endian 32-bit words. A region that cannot hold it is no trie.
pub const TRIE_HEADER_LEN: usize = 256;

/// Why the bytes of an account do not decode to a contract.
#[derive(Clone, Copy, Debug, PartialEq, Eq, Structural)]
pub enum DecodeError {
    /// The account is too short to hold the kind tag and the metadata record.
    MetadataTooShort,
    /// The bytes after the metadata are fewer than the code and its bitmap take.
    LayoutTooShort,
    /// The bytes left for the storage trie cannot hold a trie root.
    InvalidTrie,
}

/// Metadata of a contract account.
#[derive(Clone, Copy, Debug)]
pub struct Data {
    /// Key of the ledger account that owns this contract's data.
    pub owner: AccountKey,
    /// Length of the contract code in bytes.
    pub code_size: u32,
}

/// What a `Data` stands for: the owner's 32 bytes and the code length.
pub struct DataView {
    pub owner: Seq<u8>,
    pub code_size: u32,
}

impl View for Data {
    type V = DataView;

    open spec fn view(&self) -> DataView {
        DataView { owner: self.owner@, code_size: self.code_size }
    }
}

/// The number whose little-endian bytes are the first four of `bytes`.
pub open spec fn le_u32(bytes: Seq<u8>) -> int {
    bytes[0] + bytes[1] * 0x100 + bytes[2] * 0x1_0000 + bytes[3] * 0x100_0000
}

/// The four little-endian bytes of `value`.
pub open spec fn le_bytes(value: u32) -> Seq<u8> {
    seq![
        (value % 0x100) as u8,
        (value / 0x100 % 0x100) as u8,
        (value / 0x1_0000 % 0x100) as u8,
        (value / 0x100_0000) as u8,
    ]
}

/// The metadata that the first 36 bytes of `input` encode.
pub open spec fn unpacked(input: Seq<u8>) -> DataView {
    DataView { owner: input.subrange(0, 32), code_size: le_u32(input.subrange(32, 36)) as u32 }
}

/// The 36 bytes that encode `data`: the owner key, then the code length.
pub open spec fn packed(data: DataView) -> Seq<u8> {
    data.owner + le_bytes(data.code_size)
}

/// Length of the jump-validity bitmap of a code of `code_size` bytes: one bit
/// for each code byte, and one byte more so that the last bit always has a
/// byte to stand in.
pub open spec fn valids_size(code_size: u32) -> nat {
    (code_size / 8 + 1) as nat
}

/// Lengths of the three regions of a contract account.
pub struct Layout {
    pub code: nat,
    pub valids: nat,
    pub storage: nat,
}

/// How `len` bytes after the metadata divide for a code of `code_size` bytes,
/// or why they do not.
pub open spec fn layout(code_size: u32, len: nat) -> Result<Layout, DecodeError> {
    if len < code_size + valids_size(code_size) {
        Err(DecodeError::LayoutTooShort)
    } else if len - code_size - valids_size(code_size) < TRIE_HEADER_LEN {
        Err(DecodeError::InvalidTrie)
    } else {
        Ok(
            Layout {
                code: code_size as nat,
                valids: valids_size(code_size),
                storage: (len - code_size - valids_size(code_size)) as nat,
            },
        )
    }
}

impl Data {
    /// Length of the encoded metadata record.
    pub const SIZE: usize = 36;

    /// Decodes the metadata record from the first `SIZE` bytes of `input`.
    pub fn unpack(input: &[u8]) -> (data: Data)
        requires
            input@.len() >= Data::SIZE,
        ensures
            data@ == unpacked(input@),
    {
        let mut owner: [u8; 32] = [0u8; 32];
        let mut i: usize = 0;
        while i < 32
            invariant
                i <= 32,
                input@.len() >= 36,
                forall|j: int| 0 <= j < i ==> owner@[j] == input@[j],
            decreases 32 - i,
        {
            owner[i] = input[i];
            i += 1;
        }
        let b0: u32 = input[32] as u32;
        let b1: u32 = input[33] as u32;
        let b2: u32 = input[34] as u32;
        let b3: u32 = input[35] as u32;
        let code_size: u32 = b0 + b1 * 0x100 + b2 * 0x1_0000 + b3 * 0x100_0000;
        assert(owner@ =~= input@.subrange(0, 32));
        Data { owner: AccountKey(owner), code_size }
    }

    /// Encodes the metadata record into the first `SIZE` bytes of `dst` and
    /// leaves the rest of `dst` as it is.
    pub fn pack(&self, dst: &mut [u8])
        requires
            old(dst)@.len() >= Data::SIZE,
        ensures
            final(dst)@ == packed(self@) + old(dst)@.subrange(Data::SIZE as int, old(dst)@.len() as int),
    {
        let mut i: usize = 0;
        while i < 32
            invariant
                i <= 32,
                dst@.len() == old(dst)@.len(),
                dst@.len() >= 36,
                forall|j: int| 0 <= j < i ==> dst@[j] == self.owner.0@[j],
                forall|j: int| 32 <= j < dst@.len() ==> dst@[j] == old(dst)@[j],
            decreases 32 - i,
        {
            dst[i] = self.owner.0[i];
            i += 1;
        }
        let size: u32 = self.code_size;
        dst[32] = (size % 0x100) as u8;
        dst[33] = (size / 0x100 % 0x100) as u8;
        dst[34] = (size / 0x1_0000 % 0x100) as u8;
        dst[35] = (size / 0x100_0000) as u8;
        assert(dst@ =~= packed(self@) + old(dst)@.subrange(36, old(dst)@.len() as int));
    }
}

/// The storage trie of a contract, held in place in its region of the account.
#[derive(Debug)]
pub struct Hamt<'a> {
    /// The bytes of the trie, root table first.
    pub data: &'a mut [u8],
}

impl<'a> Hamt<'a> {
    /// Takes `data` as a storage trie if it can hold a trie root.
    pub fn new(data: &'a mut [u8]) -> (r: Result<Hamt<'a>, DecodeError>)
        ensures
            match r {
                Ok(trie) => {
                    &&& old(data)@.len() >= TRIE_HEADER_LEN
                    &&& trie.data@ == old(data)@
                    &&& final(data)@ == final(trie.data)@
                },
                Err(e) => {
                    &&& old(data)@.len() < TRIE_HEADER_LEN
                    &&& e == DecodeError::InvalidTrie
                    &&& final(data)@ == old(data)@
                },
            },
    {
        if data.len() < TRIE_HEADER_LEN {
            return Err(DecodeError::InvalidTrie);
        }
        Ok(Hamt { data })
    }
}

/// The variable part of a contract account: three windows that together
/// cover the bytes after the metadata, each exactly once.
#[derive(Debug)]
pub struct Extension<'a> {
    /// The contract code.
    pub code: &'a mut [u8],
    /// The jump-validity bitmap, one bit for each code byte.
    pub valids: &'a mut [u8],
    /// The storage trie.
    pub storage: Hamt<'a>,
}

impl<'a> Extension<'a> {
    /// Divides `remaining`, the bytes after the metadata, into code, bitmap
    /// and storage trie as `data.code_size` prescribes. No byte is copied:
    /// what is written through a window is written to `remaining`.
    pub fn unpack(data: &Data, remaining: &'a mut [u8]) -> (r: Result<Extension<'a>, DecodeError>)
        ensures
            match r {
                Ok(ext) => {
                    &&& layout(data.code_size, old(remaining)@.len()) matches Ok(sizes)
                    &&& ext.code@ == old(remaining)@.subrange(0, sizes.code as int)
                    &&& ext.valids@ == old(remaining)@.subrange(
                        sizes.code as int,
                        (sizes.code + sizes.valids) as int,
                    )
                    &&& ext.storage.data@ == old(remaining)@.subrange(
                        (sizes.code + sizes.valids) as int,
                        old(remaining)@.len() as int,
                    )
                    &&& ext.code@.len() == sizes.code
                    &&& ext.valids@.len() == sizes.valids
                    &&& ext.storage.data@.len() == sizes.storage
                    &&& final(remaining)@ == final(ext.code)@ + final(ext.valids)@
                        + final(ext.storage.data)@
                },
                Err(e) => {
                    &&& layout(data.code_size, old(remaining)@.len()) == Err::<Layout, DecodeError>(e)
                    &&& final(remaining)@ == old(remaining)@
                },
            },
    {
        let len: usize = remaining.len();
        let code_size: usize = data.code_size as usize;
        let valids_size: usize = (data.code_size / 8) as usize + 1;
        if code_size > len || valids_size > len - code_size {
            return Err(DecodeError::LayoutTooShort);
        }
        let (code, rest) = remaining.split_at_mut(code_size);
        let (valids, storage) = rest.split_at_mut(valids_size);
        match Hamt::new(storage) {
            Ok(storage) => Ok(Extension { code, valids, storage }),
            Err(e) => Err(e),
        }
    }
}

/// Partition law: whenever the bytes after the metadata hold the code, its
/// bitmap and a trie root, they divide into regions of `code_size`,
/// `code_size / 8 + 1` and all remaining bytes, which add up to the whole.
pub proof fn lemma_layout_partitions(code_size: u32, len: nat)
    requires
        len >= code_size + code_size / 8 + 1 + TRIE_HEADER_LEN,
    ensures
        layout(code_size, len) matches Ok(sizes) && sizes.code == code_size && sizes.valids
            == code_size / 8 + 1 && sizes.storage == len - code_size - code_size / 8 - 1
            && sizes.code + sizes.valids + sizes.storage == len,
{
}

/// Round trip: decoding 36 bytes and encoding the result gives the same 36
/// bytes back, bit for bit.
pub proof fn lemma_pack_unpack(bytes: Seq<u8>)
    requires
        bytes.len() >= Data::SIZE,
    ensures
        packed(unpacked(bytes)) == bytes.subrange(0, Data::SIZE as int),
{
    let tail = bytes.subrange(32, 36);
    lemma_le_bytes_of_le_u32(tail[0], tail[1], tail[2], tail[3]);
    assert(tail =~= seq![tail[0], tail[1], tail[2], tail[3]]);
    assert(packed(unpacked(bytes)) =~= bytes.subrange(0, 36));
}

/// The little-endian bytes of the number that four bytes encode are those
/// four bytes.
proof fn lemma_le_bytes_of_le_u32(b0: u8, b1: u8, b2: u8, b3: u8)
    ensures
        0 <= le_u32(seq![b0, b1, b2, b3]) <= u32::MAX,
        le_bytes(le_u32(seq![b0, b1, b2, b3]) as u32) == seq![b0, b1, b2, b3],
{
    let x: int = b0 + b1 * 0x100 + b2 * 0x1_0000 + b3 * 0x100_0000;
    assert(le_u32(seq![b0, b1, b2, b3]) == x);
    assert(x % 0x100 == b0);
    assert(x / 0x100 == b1 + b2 * 0x100 + b3 * 0x1_0000);
    assert(x / 0x100 % 0x100 == b1);
    assert(x / 0x1_0000 == b2 + b3 * 0x100);
    assert(x / 0x1_0000 % 0x100 == b2);
    assert(x / 0x100_0000 == b3);
    assert(le_bytes(x as u32) =~= seq![b0, b1, b2, b3]);
}

/// The number that the little-endian bytes of `value` encode is `value`.
proof fn lemma_le_u32_of_le_bytes(value: u32)
    ensures
        le_bytes(value).len() == 4,
        le_u32(le_bytes(value)) == value,
{
    let x: int = value as int;
    assert(x == x % 0x100 + (x / 0x100 % 0x100) * 0x100 + (x / 0x1_0000 % 0x100) * 0x1_0000 + (x
        / 0x100_0000) * 0x100_0000);
}

/// Round trip: encoding a metadata record and decoding the bytes gives the
/// same owner key and code length back.
pub proof fn lemma_unpack_pack(data: DataView)
    requires
        data.owner.len() == 32,
    ensures
        packed(data).len() == Data::SIZE,
        unpacked(packed(data)) == data,
{
    let bytes = packed(data);
    lemma_le_u32_of_le_bytes(data.code_size);
    assert(bytes.subrange(0, 32) =~= data.owner);
    assert(bytes.subrange(32, 36) =~= le_bytes(data.code_size));
}

} // verus!
