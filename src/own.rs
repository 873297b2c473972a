//! An owned pointer together with the metadata of its pointee.
use vstd::prelude::*;

verus! {

/// An owned pointer into a zone, with the metadata that describes its pointee (unit for a
/// sized pointee, a length for a slice, a height for a tree).
#[derive(Debug)]
pub struct Own<P, M> {
    ptr: P,
    metadata: M,
}

impl<P, M: Copy> Own<P, M> {
    pub closed spec fn spec_ptr(&self) -> P {
        self.ptr
    }

    pub closed spec fn spec_metadata(&self) -> M {
        self.metadata
    }

    /// Pairs a pointer with its pointee's metadata.
    pub fn from_raw_parts(ptr: P, metadata: M) -> (r: Own<P, M>)
        ensures
            r.spec_ptr() == ptr,
            r.spec_metadata() == metadata,
    {
        Own { ptr, metadata }
    }

    pub fn metadata(&self) -> (r: M)
        ensures
            r == self.spec_metadata(),
    {
        self.metadata
    }

    pub fn ptr(&self) -> (r: &P)
        ensures
            *r == self.spec_ptr(),
    {
        &self.ptr
    }
}

} // verus!
