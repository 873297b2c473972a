//! Offsets into a pile, and the word that holds either an offset or a heap address.
//!
//! An offset is stored as the 64-bit little-endian word `(offset << 1) | 1`: the low bit is set,
//! and the top two bits of the offset are reserved zero, so the largest offset is `2^62 - 1`.
//! A word whose low bit is clear is the (non-null) address of a dirty node on the heap, which
//! never appears in persisted bytes.
use vstd::prelude::*;
use vstd::bytes::{
    lemma_auto_spec_u64_to_from_le_bytes, spec_u64_from_le_bytes, spec_u64_to_le_bytes,
    u64_from_le_bytes, u64_to_le_bytes,
};
use crate::blob::{Primitive, ValidateBlob};

verus! {

/// The largest legal offset, `2^62 - 1`.
pub const OFFSET_MAX: u64 = 0x3fff_ffff_ffff_ffff;

/// Whether `raw` is the stored form of a legal offset: low bit set, top bit clear.
pub open spec fn is_offset_word(raw: u64) -> bool {
    raw % 2 == 1 && raw / 2 <= OFFSET_MAX
}

/// Whether `raw` is the stored form of a heap address: low bit clear, not null.
pub open spec fn is_heap_word(raw: u64) -> bool {
    raw % 2 == 0 && raw != 0
}

/// The stored word of the offset `o`.
pub open spec fn offset_word(o: nat) -> u64 {
    (2 * o + 1) as u64
}

/// A legal offset from the start of a pile.
#[derive(Clone, Copy, Debug, PartialEq, Eq, Hash, PartialOrd, Ord)]
pub struct Offset {
    offset: u64,
}

impl View for Offset {
    type V = nat;

    closed spec fn view(&self) -> nat {
        self.offset as nat
    }
}

/// The bytes of a pointer blob did not hold a legal offset.
#[derive(Debug, Clone, Copy, PartialEq, Eq)]
pub struct ValidateOffsetError;

impl Offset {
    #[verifier::type_invariant]
    spec fn inv(self) -> bool {
        self.offset <= OFFSET_MAX
    }

    /// Offsets are equal when their values are.
    pub proof fn lemma_view_injective(a: Offset, b: Offset)
        requires
            a@ == b@,
        ensures
            a == b,
    {
    }

    /// Makes an offset, unless `n` has a reserved bit set.
    pub fn new(n: u64) -> (r: Option<Offset>)
        ensures
            r is Some <==> n <= OFFSET_MAX,
            r matches Some(o) ==> o@ == n,
    {
        if n <= OFFSET_MAX {
            Some(Offset { offset: n })
        } else {
            None
        }
    }

    pub fn get(self) -> (r: u64)
        ensures
            r == self@,
            r <= OFFSET_MAX,
    {
        proof {
            use_type_invariant(self);
        }
        self.offset
    }

    /// The word that stores this offset.
    pub fn to_word(self) -> (r: u64)
        ensures
            r == offset_word(self@),
            is_offset_word(r),
    {
        proof {
            use_type_invariant(self);
        }
        2 * self.offset + 1
    }

    /// The offset a legal stored word holds.
    pub closed spec fn spec_from_word(raw: u64) -> Offset {
        Offset { offset: raw / 2 }
    }

    /// Reads an offset back from its stored word.
    pub fn from_word(raw: u64) -> (r: Option<Offset>)
        ensures
            r is Some <==> is_offset_word(raw),
            r matches Some(o) ==> o@ == raw / 2 && offset_word(o@) == raw,
            r matches Some(o) ==> o == Offset::spec_from_word(raw),
    {
        if raw % 2 == 1 && raw / 2 <= OFFSET_MAX {
            Some(Offset { offset: raw / 2 })
        } else {
            None
        }
    }
}

impl ValidateBlob for Offset {
    type Error = ValidateOffsetError;

    open spec fn blob_size() -> nat {
        8
    }

    open spec fn blob_valid(b: Seq<u8>) -> bool {
        is_offset_word(spec_u64_from_le_bytes(b))
    }

    open spec fn blob_decodes(b: Seq<u8>, v: Offset) -> bool {
        v@ == spec_u64_from_le_bytes(b) / 2
    }

    open spec fn blob_error(b: Seq<u8>) -> ValidateOffsetError {
        ValidateOffsetError
    }

    open spec fn value_wf(v: Offset) -> bool {
        v@ <= OFFSET_MAX
    }

    proof fn lemma_decodes_unique(b: Seq<u8>, v1: Offset, v2: Offset) {
    }

    fn blob_len() -> (r: usize) {
        8
    }

    fn validate(blob: &[u8]) -> (r: Result<Offset, ValidateOffsetError>) {
        match Offset::from_word(u64_from_le_bytes(blob)) {
            Some(o) => Ok(o),
            None => Err(ValidateOffsetError),
        }
    }
}

impl Primitive for Offset {
    open spec fn to_blob(v: Offset) -> Seq<u8> {
        spec_u64_to_le_bytes(offset_word(v@))
    }

    fn write_blob(&self, dst: &mut Vec<u8>) {
        let mut bytes = u64_to_le_bytes(self.to_word());
        dst.append(&mut bytes);
    }

    proof fn lemma_blob_round_trip(v: Offset) {
        lemma_auto_spec_u64_to_from_le_bytes();
    }
}

/// What an `OffsetMut` word holds.
#[derive(Clone, Copy, Debug, PartialEq, Eq)]
pub enum Kind {
    /// A persistent offset into the pile.
    Offset(Offset),
    /// The address of a dirty node on the heap.
    Ptr(u64),
}

/// A word that holds either a persistent offset or the address of a dirty heap node,
/// told apart by its low bit.
#[derive(Clone, Copy, Debug, PartialEq, Eq, Hash)]
pub struct OffsetMut {
    raw: u64,
}

impl View for OffsetMut {
    type V = u64;

    closed spec fn view(&self) -> u64 {
        self.raw
    }
}

impl OffsetMut {
    #[verifier::type_invariant]
    spec fn inv(self) -> bool {
        is_offset_word(self.raw) || is_heap_word(self.raw)
    }

    /// The word of a persistent offset.
    pub fn from_offset(offset: Offset) -> (r: OffsetMut)
        ensures
            r@ == offset_word(offset@),
    {
        OffsetMut { raw: offset.to_word() }
    }

    /// The word of a heap address, unless the address is null or odd.
    pub fn from_heap_addr(addr: u64) -> (r: Option<OffsetMut>)
        ensures
            r is Some <==> is_heap_word(addr),
            r matches Some(w) ==> w@ == addr,
    {
        if addr % 2 == 0 && addr != 0 {
            Some(OffsetMut { raw: addr })
        } else {
            None
        }
    }

    /// Tells a persistent offset from a heap address.
    pub fn kind(&self) -> (r: Kind)
        ensures
            is_offset_word(self@) <==> r is Offset,
            r matches Kind::Offset(o) ==> offset_word(o@) == self@,
            r matches Kind::Ptr(addr) ==> addr == self@ && is_heap_word(addr),
    {
        proof {
            use_type_invariant(self);
        }
        match Offset::from_word(self.raw) {
            Some(o) => Kind::Offset(o),
            None => Kind::Ptr(self.raw),
        }
    }

    /// The offset this word holds, if it is persistent.
    pub fn get_offset(&self) -> (r: Option<Offset>)
        ensures
            r is Some <==> is_offset_word(self@),
            r matches Some(o) ==> offset_word(o@) == self@,
    {
        match self.kind() {
            Kind::Offset(o) => Some(o),
            Kind::Ptr(_) => None,
        }
    }

    /// The heap address this word holds, if it is dirty.
    pub fn get_ptr(&self) -> (r: Option<u64>)
        ensures
            r is Some <==> !is_offset_word(self@),
            r matches Some(addr) ==> addr == self@,
    {
        match self.kind() {
            Kind::Offset(_) => None,
            Kind::Ptr(addr) => Some(addr),
        }
    }
}

/// A persisted word is always an offset: heap addresses do not validate.
impl ValidateBlob for OffsetMut {
    type Error = ValidateOffsetError;

    open spec fn blob_size() -> nat {
        8
    }

    open spec fn blob_valid(b: Seq<u8>) -> bool {
        is_offset_word(spec_u64_from_le_bytes(b))
    }

    open spec fn blob_decodes(b: Seq<u8>, v: OffsetMut) -> bool {
        v@ == spec_u64_from_le_bytes(b)
    }

    open spec fn blob_error(b: Seq<u8>) -> ValidateOffsetError {
        ValidateOffsetError
    }

    open spec fn value_wf(v: OffsetMut) -> bool {
        is_offset_word(v@) || is_heap_word(v@)
    }

    proof fn lemma_decodes_unique(b: Seq<u8>, v1: OffsetMut, v2: OffsetMut) {
    }

    fn blob_len() -> (r: usize) {
        8
    }

    fn validate(blob: &[u8]) -> (r: Result<OffsetMut, ValidateOffsetError>) {
        match Offset::from_word(u64_from_le_bytes(blob)) {
            Some(o) => Ok(OffsetMut::from_offset(o)),
            None => Err(ValidateOffsetError),
        }
    }
}

} // verus!
