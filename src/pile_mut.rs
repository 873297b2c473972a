//! Copy-on-write piles: pointers are persistent offsets or dirty nodes on the heap.
use vstd::prelude::*;
use vstd::bytes::{lemma_auto_spec_u64_to_from_le_bytes, spec_u64_to_le_bytes};
use crate::blob::{Primitive, ValidateBlob};
use crate::encode::{Encode, VecDumper, fits};
use crate::offset::{Offset, offset_word};
use crate::pile::{Error, PileZone, TryPile, blob_at, in_range, read_spec, tip_offset};
use crate::ptr::{OwnedPtr, ValidPtr};

verus! {

/// Mutable pile whose bytes are not trusted: every read validates them.
#[derive(Clone, Copy, Debug)]
pub struct TryPileMut<'p>(TryPile<'p>);

/// Mutable pile whose bytes are trusted.
#[derive(Clone, Copy, Debug)]
pub struct PileMut<'p>(TryPileMut<'p>);

impl<'p> View for TryPileMut<'p> {
    type V = Seq<u8>;

    closed spec fn view(&self) -> Seq<u8> {
        self.0@
    }
}

impl<'p> View for PileMut<'p> {
    type V = Seq<u8>;

    closed spec fn view(&self) -> Seq<u8> {
        self.0@
    }
}

/// A reference to a value in a mutable pile: into a dirty node, or to a copy loaded from the
/// pile's bytes.
#[derive(Debug)]
pub enum Ref<'a, T> {
    Dirty(&'a T),
    Persistent(T),
}

impl<'a, T> Ref<'a, T> {
    /// The value referred to.
    pub open spec fn value(self) -> T {
        match self {
            Ref::Dirty(t) => *t,
            Ref::Persistent(t) => t,
        }
    }

    pub fn get(&self) -> (r: &T)
        ensures
            *r == self.value(),
    {
        match self {
            Ref::Dirty(t) => *t,
            Ref::Persistent(t) => t,
        }
    }
}

/// A zone whose pointers may be dirty.
pub trait PileZoneMut<'p>: PileZone<'p> {
    /// Moves `src` into a new dirty node.
    fn allocate<T>(&self, src: T) -> (r: OwnedPtr<T>)
        ensures
            r matches OwnedPtr::Dirty(b) && *b == src,
    ;
}

impl<'p> Default for TryPileMut<'p> {
    /// A mutable pile over nothing.
    fn default() -> (r: TryPileMut<'p>)
        ensures
            r@.len() == 0,
    {
        TryPileMut(TryPile::empty())
    }
}

impl<'p> PileZone<'p> for TryPileMut<'p> {
    open spec fn pile_bytes(&self) -> Seq<u8> {
        self@
    }

    fn get_try_pile(&self) -> (r: TryPile<'p>) {
        self.0
    }

    fn slice(&self) -> (r: &'p [u8]) {
        self.0.slice()
    }
}

impl<'p> PileZoneMut<'p> for TryPileMut<'p> {
    fn allocate<T>(&self, src: T) -> (r: OwnedPtr<T>) {
        OwnedPtr::Dirty(Box::new(src))
    }
}

impl<'p> PileZone<'p> for PileMut<'p> {
    open spec fn pile_bytes(&self) -> Seq<u8> {
        self@
    }

    fn get_try_pile(&self) -> (r: TryPile<'p>) {
        self.0.0
    }

    fn slice(&self) -> (r: &'p [u8]) {
        self.0.slice()
    }
}

impl<'p> PileZoneMut<'p> for PileMut<'p> {
    fn allocate<T>(&self, src: T) -> (r: OwnedPtr<T>) {
        self.0.allocate(src)
    }
}

impl<'p> From<TryPileMut<'p>> for PileMut<'p> {
    fn from(pile: TryPileMut<'p>) -> (r: PileMut<'p>)
        ensures
            r@ == pile@,
    {
        PileMut(pile)
    }
}

impl<'p> vstd::std_specs::convert::FromSpecImpl<TryPileMut<'p>> for PileMut<'p> {
    open spec fn obeys_from_spec() -> bool {
        true
    }

    closed spec fn from_spec(pile: TryPileMut<'p>) -> PileMut<'p> {
        PileMut(pile)
    }
}

impl<'p> TryPileMut<'p> {
    /// A mutable pile over the bytes of `pile`.
    pub fn new(pile: TryPile<'p>) -> (r: TryPileMut<'p>)
        ensures
            r@ == pile@,
    {
        TryPileMut(pile)
    }

    /// Moves `src` into a new dirty node.
    pub fn allocate<T>(&self, src: T) -> (r: OwnedPtr<T>)
        ensures
            r matches OwnedPtr::Dirty(b) && *b == src,
    {
        OwnedPtr::Dirty(Box::new(src))
    }

    /// A persistent owned pointer to what `ptr` points to.
    pub fn clone_ptr<T>(ptr: &ValidPtr<T>) -> (r: OwnedPtr<T>)
        ensures
            r == OwnedPtr::<T>::Persistent(ptr@),
    {
        OwnedPtr::Persistent(ptr.get_raw())
    }

    /// The dirty node `ptr` points to, or the offset of its persistent pointee.
    pub fn try_get_dirty<'a, T>(ptr: &'a OwnedPtr<T>) -> (r: Result<&'a T, Offset>)
        ensures
            match *ptr {
                OwnedPtr::Persistent(o) => r == Err::<&T, Offset>(o),
                OwnedPtr::Dirty(b) => r matches Ok(t) && *t == *b,
            },
    {
        match ptr {
            OwnedPtr::Persistent(o) => Err(*o),
            OwnedPtr::Dirty(b) => Ok(&**b),
        }
    }

    /// Reads what `ptr` points to: a dirty node directly, a persistent pointee from the pile's
    /// bytes, validated.
    pub fn try_get<'a, T: ValidateBlob>(&self, ptr: &'a OwnedPtr<T>) -> (r: Result<
        Ref<'a, T>,
        Error<T::Error>,
    >)
        requires
            T::blob_size() <= usize::MAX,
        ensures
            match *ptr {
                OwnedPtr::Dirty(b) => r matches Ok(t) && t.value() == *b,
                OwnedPtr::Persistent(o) => read_spec(
                    self@,
                    o,
                    match r {
                        Ok(t) => Ok(t.value()),
                        Err(e) => Err(e),
                    },
                ),
            },
    {
        match Self::try_get_dirty(ptr) {
            Ok(t) => Ok(Ref::Dirty(t)),
            Err(offset) => {
                let v = self.0.try_get_impl::<T>(offset)?;
                Ok(Ref::Persistent(v))
            },
        }
    }

    /// Takes the value `ptr` owns: a dirty node is moved out, a persistent pointee is read from
    /// the pile's bytes, validated.
    pub fn try_take<T: ValidateBlob>(&self, ptr: OwnedPtr<T>) -> (r: Result<T, Error<T::Error>>)
        requires
            T::blob_size() <= usize::MAX,
        ensures
            match ptr {
                OwnedPtr::Dirty(b) => r == Ok::<T, Error<T::Error>>(*b),
                OwnedPtr::Persistent(o) => read_spec(self@, o, r),
            },
    {
        match ptr {
            OwnedPtr::Dirty(b) => Ok(*b),
            OwnedPtr::Persistent(offset) => self.0.try_get_impl::<T>(offset),
        }
    }

    /// Makes `ptr` dirty, so that its pointee can be changed: a persistent pointee is loaded
    /// and copied to a new heap node, which `ptr` then points to.
    pub fn make_dirty<T: ValidateBlob>(&self, ptr: &mut OwnedPtr<T>) -> (r: Result<
        (),
        Error<T::Error>,
    >)
        requires
            T::blob_size() <= usize::MAX,
        ensures
            match *old(ptr) {
                OwnedPtr::Dirty(_) => r is Ok && *final(ptr) == *old(ptr),
                OwnedPtr::Persistent(o) => {
                    &&& r is Err ==> *final(ptr) == *old(ptr)
                    &&& read_spec(
                        self@,
                        o,
                        match r {
                            Ok(_) => Ok(*(*final(ptr))->Dirty_0),
                            Err(e) => Err(e),
                        },
                    )
                    &&& r is Ok ==> (*final(ptr) is Dirty)
                },
            },
    {
        let persistent = match ptr {
            OwnedPtr::Persistent(o) => Some(*o),
            OwnedPtr::Dirty(_) => None,
        };
        match persistent {
            Some(offset) => {
                let v = self.0.try_get_impl::<T>(offset)?;
                *ptr = OwnedPtr::Dirty(Box::new(v));
                Ok(())
            },
            None => Ok(()),
        }
    }

    /// A mutable reference to what `ptr` points to, copying a persistent pointee to a new
    /// dirty node first: copy-on-write. The pointer then points to the new node; the old
    /// offset is left behind.
    pub fn try_get_mut<'a, T: ValidateBlob>(&self, ptr: &'a mut OwnedPtr<T>) -> (r: Result<
        &'a mut T,
        Error<T::Error>,
    >)
        requires
            T::blob_size() <= usize::MAX,
        ensures
            match *old(ptr) {
                OwnedPtr::Dirty(b) => {
                    &&& r matches Ok(m) && *m == *b
                    &&& r matches Ok(m) && *final(ptr) == OwnedPtr::Dirty(Box::new(*final(m)))
                },
                OwnedPtr::Persistent(o) => match r {
                    Ok(m) => {
                        &&& read_spec(self@, o, Ok::<T, Error<T::Error>>(*m))
                        &&& *final(ptr) == OwnedPtr::Dirty(Box::new(*final(m)))
                    },
                    Err(e) => {
                        &&& read_spec(self@, o, Err::<T, Error<T::Error>>(e))
                        &&& *final(ptr) == *old(ptr)
                    },
                },
            },
    {
        self.make_dirty(ptr)?;
        match ptr {
            OwnedPtr::Dirty(b) => Ok(&mut **b),
            OwnedPtr::Persistent(o) => Err(Error { offset: *o, kind: crate::pile::ErrorKind::Offset }),
        }
    }

    /// Encodes `value` and the dirty nodes it owns as the bytes to append to the pile: the
    /// dirty nodes first, children before parents, then the value's own blob.
    pub fn encode_dirty<T: Encode>(&self, value: &T) -> (r: Vec<u8>)
        requires
            fits(self@.len() + value.dirty_bytes(self@.len()).len()),
        ensures
            r@ == value.dirty_bytes(self@.len()) + value.blob_bytes(self@.len()),
    {
        let mut dumper = VecDumper::new(*self, Vec::new());
        let mut state = value.make_encode_state();
        proof {
            value.lemma_init_state(state, dumper.pos());
        }
        value.encode_poll(&mut state, &mut dumper);
        let _offset = dumper.encode_value(value, &state);
        dumper.into_buf()
    }
}

/// Encoding round-trips through validation.
///
/// A primitive `v`, allocated and encoded after the bytes of a pile, reads back: the tip of
/// the extended pile is a legal pointer to the offset where `v` was written, namely the old
/// length of the pile, and the blob there validates to `v`.
pub proof fn lemma_alloc_encode_round_trip<T: Primitive>(pile: Seq<u8>, v: T)
    requires
        T::value_wf(v),
        fits(pile.len() + T::blob_size()),
    ensures
        ({
            let len = pile.len();
            let ptr = OwnedPtr::Dirty(Box::new(v));
            let out = pile + ptr.dirty_bytes(len) + ptr.blob_bytes(len);
            let tip = blob_at(out, tip_offset::<ValidPtr<T>>(out), 8);
            let blob = blob_at(out, len, T::blob_size());
            &&& in_range(out, tip_offset::<ValidPtr<T>>(out), 8)
            &&& ValidPtr::<T>::blob_valid(tip)
            &&& forall|q: ValidPtr<T>| #[trigger] ValidPtr::<T>::blob_decodes(tip, q) ==> q@@ == len
            &&& in_range(out, len, T::blob_size())
            &&& T::blob_valid(blob)
            &&& T::blob_decodes(blob, v)
        }),
{
    let len = pile.len();
    let ptr = OwnedPtr::Dirty(Box::new(v));
    let out = pile + ptr.dirty_bytes(len) + ptr.blob_bytes(len);
    T::lemma_blob_round_trip(v);
    lemma_auto_spec_u64_to_from_le_bytes();
    let word = offset_word(len);
    assert(ptr.dirty_bytes(len) =~= T::to_blob(v));
    assert(ptr.blob_bytes(len) == spec_u64_to_le_bytes(word));
    assert(out.len() == len + T::blob_size() + 8);
    assert(tip_offset::<ValidPtr<T>>(out) == len + T::blob_size());
    assert(blob_at(out, len, T::blob_size()) =~= T::to_blob(v));
    assert(blob_at(out, tip_offset::<ValidPtr<T>>(out), 8) =~= spec_u64_to_le_bytes(word));
    assert forall|q: ValidPtr<T>| #[trigger] ValidPtr::<T>::blob_decodes(
        blob_at(out, tip_offset::<ValidPtr<T>>(out), 8),
        q,
    ) implies q@@ == len by {
    }
}

impl<'p> PileMut<'p> {
    /// The fallible mutable pile over the same bytes.
    pub fn try_pile_mut(&self) -> (r: TryPileMut<'p>)
        ensures
            r@ == self@,
    {
        self.0
    }
}

} // verus!
