//! Piles: read-only zones over a byte slice, addressed by offsets from its start.
//!
//! A pile is the concatenation of its blobs. The tip, the root of the graph it holds, is the
//! last blob of the pile; pointers inside blobs are offsets to blobs written before them.
use vstd::prelude::*;
use vstd::slice::slice_subrange;
use crate::blob::{ValidateArrayError, ValidateBlob, ValidateBoolError, element_blob};
use crate::offset::{OFFSET_MAX, Offset};
use crate::ptr::ValidPtr;

verus! {

/// The bytes `[offset, offset + size)` of `pile`.
pub open spec fn blob_at(pile: Seq<u8>, offset: nat, size: nat) -> Seq<u8> {
    pile.subrange(offset as int, (offset + size) as int)
}

/// Whether the region `[offset, offset + size)` lies inside `pile`.
pub open spec fn in_range(pile: Seq<u8>, offset: nat, size: nat) -> bool {
    offset + size <= pile.len()
}

/// The offset of the tip of type `T`: its blob ends where the pile ends.
pub open spec fn tip_offset<T: ValidateBlob>(pile: Seq<u8>) -> nat {
    if T::blob_size() <= pile.len() {
        (pile.len() - T::blob_size()) as nat
    } else {
        0
    }
}

/// What went wrong when reading a blob from a pile.
#[derive(Debug, Clone, Copy, PartialEq, Eq)]
pub enum ErrorKind<E> {
    /// The blob does not lie inside the pile.
    Offset,
    /// The blob's bytes are not a legal value; holds the type's own error.
    Value(E),
}

/// An error reading a blob from a pile, with the offset it was read at.
#[derive(Debug, Clone, Copy, PartialEq, Eq)]
pub struct Error<E> {
    pub offset: Offset,
    pub kind: ErrorKind<E>,
}

/// The result of reading a `T` at `offset` from `pile`, in every case.
pub open spec fn read_spec<T: ValidateBlob>(
    pile: Seq<u8>,
    offset: Offset,
    r: Result<T, Error<T::Error>>,
) -> bool {
    let b = blob_at(pile, offset@, T::blob_size());
    if !in_range(pile, offset@, T::blob_size()) {
        r == Err::<T, Error<T::Error>>(Error { offset, kind: ErrorKind::Offset })
    } else if !T::blob_valid(b) {
        r == Err::<T, Error<T::Error>>(
            Error { offset, kind: ErrorKind::Value(T::blob_error(b)) },
        )
    } else {
        r matches Ok(v) && T::blob_decodes(b, v)
    }
}

/// Fallible pile: its bytes are not trusted, so every read validates them and reports bad ones.
#[derive(Clone, Copy, Debug)]
pub struct TryPile<'p> {
    slice: &'p [u8],
}

/// A pile whose bytes are trusted to hold what is read from them.
#[derive(Clone, Copy, Debug)]
pub struct Pile<'p>(TryPile<'p>);

/// The empty pile's bytes.
pub const EMPTY_SLICE: [u8; 0] = [];

impl<'p> View for TryPile<'p> {
    type V = Seq<u8>;

    closed spec fn view(&self) -> Seq<u8> {
        self.slice@
    }
}

impl<'p> View for Pile<'p> {
    type V = Seq<u8>;

    closed spec fn view(&self) -> Seq<u8> {
        self.0@
    }
}

/// A zone that is a pile over a byte slice.
pub trait PileZone<'p> {
    /// The bytes of the pile.
    spec fn pile_bytes(&self) -> Seq<u8>;

    fn get_try_pile(&self) -> (r: TryPile<'p>)
        ensures
            r@ == self.pile_bytes(),
    ;

    fn slice(&self) -> (r: &'p [u8])
        ensures
            r@ == self.pile_bytes(),
    ;
}

impl<'p> PileZone<'p> for TryPile<'p> {
    open spec fn pile_bytes(&self) -> Seq<u8> {
        self@
    }

    fn get_try_pile(&self) -> (r: TryPile<'p>) {
        *self
    }

    fn slice(&self) -> (r: &'p [u8]) {
        self.slice
    }
}

impl<'p> TryPile<'p> {
    #[verifier::type_invariant]
    spec fn inv(self) -> bool {
        self.slice@.len() <= OFFSET_MAX
    }

    /// Runs `f` on a pile over `slice`.
    pub fn new<R, F: FnOnce(TryPile<'p>) -> R>(slice: &'p [u8], f: F) -> (r: R)
        requires
            slice@.len() <= OFFSET_MAX,
            forall|pile: TryPile<'p>| pile@ == slice@ ==> f.requires((pile,)),
        ensures
            exists|pile: TryPile<'p>| pile@ == slice@ && f.ensures((pile,), r),
    {
        let pile = TryPile { slice };
        assert(pile@ == slice@);
        let r = f(pile);
        r
    }

    /// Creates an empty pile: the earliest version of any pile has nothing in it.
    pub fn empty() -> (r: TryPile<'static>)
        ensures
            r@.len() == 0,
    {
        TryPile { slice: EMPTY_SLICE.as_slice() }
    }

    pub fn len(&self) -> (r: usize)
        ensures
            r == self@.len(),
            r <= OFFSET_MAX,
    {
        proof {
            use_type_invariant(self);
        }
        self.slice.len()
    }

    /// Makes a pointer to a `T` at `offset`, unchecked: nothing about a pile's bytes is assumed
    /// by a pointer until it is read.
    pub fn new_valid_ptr<T>(offset: u64) -> (r: ValidPtr<T>)
        requires
            offset <= OFFSET_MAX,
        ensures
            r@@ == offset,
    {
        ValidPtr::new(Offset::new(offset).unwrap())
    }

    /// Nothing in a read-only pile is dirty: the offset of the pointee is all there is.
    pub fn try_get_dirty<'a, T>(ptr: &'a ValidPtr<T>) -> (r: Result<&'a T, Offset>)
        ensures
            r == Err::<&T, Offset>(ptr@),
    {
        Err(ptr.get_raw())
    }

    /// The bytes `[offset, offset + size)`, or an `Offset` error when they do not lie inside
    /// the pile.
    pub fn get_blob<E>(&self, offset: Offset, size: usize) -> (r: Result<&'p [u8], Error<E>>)
        ensures
            r is Ok <==> in_range(self@, offset@, size as nat),
            r matches Ok(b) ==> b@ == blob_at(self@, offset@, size as nat),
            r matches Err(e) ==> (e == Error::<E> { offset, kind: ErrorKind::Offset }),
    {
        let len = self.len() as u64;
        let start = offset.get();
        if start <= len && (size as u64) <= len - start {
            let end = start + size as u64;
            Ok(slice_subrange(self.slice, start as usize, end as usize))
        } else {
            Err(Error { offset, kind: ErrorKind::Offset })
        }
    }

    /// Reads and validates the blob of a `T` at `offset`.
    pub fn try_get_impl<T: ValidateBlob>(&self, offset: Offset) -> (r: Result<T, Error<T::Error>>)
        requires
            T::blob_size() <= usize::MAX,
        ensures
            read_spec(self@, offset, r),
    {
        let size = T::blob_len();
        let blob = self.get_blob(offset, size)?;
        match T::validate(blob) {
            Ok(v) => Ok(v),
            Err(err) => Err(Error { offset, kind: ErrorKind::Value(err) }),
        }
    }

    /// Reads the tip: the `T` whose blob ends where the pile ends.
    pub fn try_get_tip<T: ValidateBlob>(&self) -> (r: Result<T, Error<T::Error>>)
        requires
            T::blob_size() <= usize::MAX,
        ensures
            exists|o: Offset| o@ == tip_offset::<T>(self@) && read_spec(self@, o, r),
    {
        let offset = self.len().saturating_sub(T::blob_len());
        let offset = Offset::new(offset as u64).unwrap();
        self.try_get_impl(offset)
    }

    /// Reads the value a validated pointer points to.
    pub fn try_get<T: ValidateBlob>(&self, ptr: &ValidPtr<T>) -> (r: Result<T, Error<T::Error>>)
        requires
            T::blob_size() <= usize::MAX,
        ensures
            read_spec(self@, ptr.raw(), r),
    {
        self.try_get_impl(ptr.get_raw())
    }
}

/// The error type of `test_trypile`: that of reading a pair of bools.
pub type TrypileError = Error<ValidateArrayError<ValidateBoolError, 2>>;

/// What `test_trypile` returns after the first `n` pointer pairs: the sum so far, or the error
/// of the first read that failed. Reads go in index order, `ptr1[i]` before `ptr2[i]`, and
/// `ptr2[i]` is read only when the pair behind `ptr1[i]` differs.
pub open spec fn trypile_result(
    pile: Seq<u8>,
    ptr1: Seq<ValidPtr<[bool; 2]>>,
    ptr2: Seq<ValidPtr<u8>>,
    n: nat,
) -> Result<nat, TrypileError>
    decreases n,
{
    if n == 0 {
        Ok(0)
    } else {
        match trypile_result(pile, ptr1, ptr2, (n - 1) as nat) {
            Err(e) => Err(e),
            Ok(sum) => {
                let p1 = ptr1[n - 1]@;
                let p2 = ptr2[n - 1]@;
                let pair = blob_at(pile, p1@, 2);
                if !in_range(pile, p1@, 2) {
                    Err(Error { offset: p1, kind: ErrorKind::Offset })
                } else if !<[bool; 2]>::blob_valid(pair) {
                    Err(Error { offset: p1, kind: ErrorKind::Value(<[bool; 2]>::blob_error(pair)) })
                } else if pair[0] == pair[1] {
                    Ok(sum)
                } else if !in_range(pile, p2@, 1) {
                    Err(Error { offset: p2, kind: ErrorKind::Offset })
                } else {
                    Ok(sum + pile[p2@ as int] as nat)
                }
            },
        }
    }
}

/// Adds up the bytes behind `ptr2[i]` for each `i` whose pair of bools behind `ptr1[i]`
/// differ; the first read that fails ends the walk, and its error is returned.
pub fn test_trypile<'p>(
    pile: &TryPile<'p>,
    ptr1: &[ValidPtr<[bool; 2]>; 100],
    ptr2: &[ValidPtr<u8>; 100],
) -> (r: Result<usize, TrypileError>)
    ensures
        match r {
            Ok(sum) => trypile_result(pile@, ptr1@, ptr2@, 100) == Ok::<nat, TrypileError>(
                sum as nat,
            ),
            Err(e) => trypile_result(pile@, ptr1@, ptr2@, 100) == Err::<nat, TrypileError>(e),
        },
{
    let mut sum: usize = 0;
    let mut i: usize = 0;
    while i < 100
        invariant
            0 <= i <= 100,
            sum <= 255 * i,
            trypile_result(pile@, ptr1@, ptr2@, i as nat) == Ok::<nat, TrypileError>(sum as nat),
        decreases 100 - i,
    {
        let ghost o1 = ptr1@[i as int]@@;
        let pair = match pile.try_get(&ptr1[i]) {
            Ok(pair) => pair,
            Err(e) => {
                proof {
                    lemma_trypile_err(pile@, ptr1@, ptr2@, (i + 1) as nat, 100, e);
                }
                return Err(e);
            },
        };
        let a = pair[0];
        let b = pair[1];
        proof {
            let blob = blob_at(pile@, o1, 2);
            assert(element_blob(blob, 1, 0)[0] == blob[0]);
            assert(element_blob(blob, 1, 1)[0] == blob[1]);
            assert(<bool>::blob_decodes(element_blob(blob, 1, 0), a));
            assert(<bool>::blob_decodes(element_blob(blob, 1, 1), b));
            assert(<bool>::blob_valid(element_blob(blob, 1, 0)));
            assert(<bool>::blob_valid(element_blob(blob, 1, 1)));
        }
        if a != b {
            let n = match pile.try_get(&ptr2[i]) {
                Ok(n) => n,
                Err(e) => {
                    let e2 = Error { offset: e.offset, kind: ErrorKind::Offset };
                    proof {
                        lemma_trypile_err(pile@, ptr1@, ptr2@, (i + 1) as nat, 100, e2);
                    }
                    return Err(e2);
                },
            };
            sum = sum + n as usize;
        }
        i = i + 1;
    }
    Ok(sum)
}

proof fn lemma_trypile_err(
    pile: Seq<u8>,
    ptr1: Seq<ValidPtr<[bool; 2]>>,
    ptr2: Seq<ValidPtr<u8>>,
    i: nat,
    n: nat,
    e: TrypileError,
)
    requires
        i <= n,
        trypile_result(pile, ptr1, ptr2, i) == Err::<nat, TrypileError>(e),
    ensures
        trypile_result(pile, ptr1, ptr2, n) == Err::<nat, TrypileError>(e),
    decreases n - i,
{
    if i < n {
        lemma_trypile_err(pile, ptr1, ptr2, i + 1, n, e);
    }
}

impl<'p> Pile<'p> {
    /// Runs `f` on a pile over `slice`.
    pub fn new<R, F: FnOnce(Pile<'p>) -> R>(slice: &'p [u8], f: F) -> (r: R)
        requires
            slice@.len() <= OFFSET_MAX,
            forall|pile: Pile<'p>| pile@ == slice@ ==> f.requires((pile,)),
        ensures
            exists|pile: Pile<'p>| pile@ == slice@ && f.ensures((pile,), r),
    {
        let pile = Pile(TryPile { slice });
        assert(pile@ == slice@);
        let r = f(pile);
        r
    }

    /// Creates an empty pile.
    pub fn empty() -> (r: Pile<'static>)
        ensures
            r@.len() == 0,
    {
        Pile(TryPile::empty())
    }

    /// The fallible pile over the same bytes.
    pub fn try_pile(&self) -> (r: TryPile<'p>)
        ensures
            r@ == self@,
    {
        self.0
    }
}

impl<'p> From<TryPile<'p>> for Pile<'p> {
    fn from(pile: TryPile<'p>) -> (r: Pile<'p>)
        ensures
            r@ == pile@,
    {
        Pile(pile)
    }
}

impl<'p> vstd::std_specs::convert::FromSpecImpl<TryPile<'p>> for Pile<'p> {
    open spec fn obeys_from_spec() -> bool {
        true
    }

    closed spec fn from_spec(pile: TryPile<'p>) -> Pile<'p> {
        Pile(pile)
    }
}

impl<'p> From<Pile<'p>> for TryPile<'p> {
    fn from(pile: Pile<'p>) -> (r: TryPile<'p>)
        ensures
            r@ == pile@,
    {
        pile.0
    }
}

impl<'p> vstd::std_specs::convert::FromSpecImpl<Pile<'p>> for TryPile<'p> {
    open spec fn obeys_from_spec() -> bool {
        true
    }

    closed spec fn from_spec(pile: Pile<'p>) -> TryPile<'p> {
        pile.0
    }
}

/// A read fails with an `Offset` error, whatever the bytes, when the pile is too short to
/// hold the blob: validation never succeeds on a short input.
pub proof fn lemma_short_read_fails<T: ValidateBlob>(
    pile: Seq<u8>,
    offset: Offset,
    r: Result<T, Error<T::Error>>,
)
    requires
        read_spec(pile, offset, r),
        pile.len() < offset@ + T::blob_size(),
    ensures
        r == Err::<T, Error<T::Error>>(Error { offset, kind: ErrorKind::Offset }),
{
}

impl<'p> PileZone<'p> for Pile<'p> {
    open spec fn pile_bytes(&self) -> Seq<u8> {
        self@
    }

    fn get_try_pile(&self) -> (r: TryPile<'p>) {
        self.0
    }

    fn slice(&self) -> (r: &'p [u8]) {
        self.0.slice
    }
}

} // verus!
