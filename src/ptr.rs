//! Pointers into piles: validated pointers, and owned pointers that may be dirty.
use vstd::prelude::*;
use core::marker::PhantomData;
use vstd::bytes::{spec_u64_from_le_bytes, u64_from_le_bytes};
use crate::blob::ValidateBlob;
use crate::offset::{OFFSET_MAX, Offset, ValidateOffsetError, is_offset_word};

verus! {

/// A pointer to a `T` whose offset was read from a legal blob, or made on purpose.
///
/// What it points to is validated when it is read.
#[derive(Debug)]
pub struct ValidPtr<T> {
    raw: Offset,
    marker: PhantomData<T>,
}

impl<T> Clone for ValidPtr<T> {
    fn clone(&self) -> (r: ValidPtr<T>)
        ensures
            r@ == self@,
    {
        ValidPtr { raw: self.raw, marker: PhantomData }
    }
}

impl<T> Copy for ValidPtr<T> {
}

impl<T> View for ValidPtr<T> {
    type V = Offset;

    closed spec fn view(&self) -> Offset {
        self.raw
    }
}

impl<T> ValidPtr<T> {
    pub fn new(raw: Offset) -> (r: ValidPtr<T>)
        ensures
            r@ == raw,
    {
        ValidPtr { raw, marker: PhantomData }
    }

    /// The offset of the pointee.
    pub open spec fn raw(&self) -> Offset {
        self@
    }

    pub fn get_raw(&self) -> (r: Offset)
        ensures
            r == self@,
    {
        self.raw
    }
}

impl<T> Default for ValidPtr<T> {
    /// A pointer to the start of the pile.
    fn default() -> (r: ValidPtr<T>)
        ensures
            r@@ == 0,
    {
        ValidPtr::new(Offset::new(0).unwrap())
    }
}

/// The blob of a pointer is the word of its offset.
impl<T> ValidateBlob for ValidPtr<T> {
    type Error = ValidateOffsetError;

    open spec fn blob_size() -> nat {
        8
    }

    open spec fn blob_valid(b: Seq<u8>) -> bool {
        is_offset_word(spec_u64_from_le_bytes(b))
    }

    open spec fn blob_decodes(b: Seq<u8>, v: ValidPtr<T>) -> bool {
        v@@ == spec_u64_from_le_bytes(b) / 2
    }

    open spec fn blob_error(b: Seq<u8>) -> ValidateOffsetError {
        ValidateOffsetError
    }

    open spec fn value_wf(v: ValidPtr<T>) -> bool {
        v@@ <= OFFSET_MAX
    }

    proof fn lemma_decodes_unique(b: Seq<u8>, v1: ValidPtr<T>, v2: ValidPtr<T>) {
        Offset::lemma_view_injective(v1@, v2@);
    }

    fn blob_len() -> (r: usize) {
        8
    }

    fn validate(blob: &[u8]) -> (r: Result<ValidPtr<T>, ValidateOffsetError>) {
        match Offset::from_word(u64_from_le_bytes(blob)) {
            Some(o) => Ok(ValidPtr::new(o)),
            None => Err(ValidateOffsetError),
        }
    }
}

/// An owned pointer in a mutable pile: either persistent, at an offset, or dirty, a node on
/// the heap that has not been written out yet.
///
/// Dropping a dirty pointer frees its node; a persistent one owns no memory.
#[derive(Debug)]
pub enum OwnedPtr<T> {
    Persistent(Offset),
    Dirty(Box<T>),
}

impl<T> OwnedPtr<T> {
    /// Whether the pointee lives on the heap.
    pub fn is_dirty(&self) -> (r: bool)
        ensures
            r == self is Dirty,
    {
        match self {
            OwnedPtr::Persistent(_) => false,
            OwnedPtr::Dirty(_) => true,
        }
    }
}

} // verus!
