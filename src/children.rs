//! The second stage of validation: following the pointers in a valid blob.
//!
//! A blob that validates may still hold pointers to bytes that do not. Validating its
//! children reads each pointee, validates its blob, and then its own children, depth first and
//! in declaration order; the first failure ends the walk.
use vstd::prelude::*;
use vstd::bytes::{spec_u64_from_le_bytes, u64_from_le_bytes};
use vstd::slice::slice_subrange;
use crate::blob::{
    Infallible, Primitive, ValidateArrayError, ValidateBlob, element_blob, lemma_element_bounds,
};
use crate::offset::Offset;
use crate::pile::{Error, ErrorKind, TryPile, blob_at, in_range, tip_offset};
use crate::ptr::ValidPtr;

verus! {

/// A type whose blob may point to children elsewhere in the pile.
pub trait ValidateChildren: ValidateBlob {
    /// Why the children of a valid blob failed.
    type ChildError;

    /// Whether the sizes of the blobs reachable through this type's children fit a `usize`.
    spec fn child_sizes_fit() -> bool;

    /// Whether every child of the legal blob `b`, and every child of theirs, validates in
    /// `pile`.
    spec fn children_valid(b: Seq<u8>, pile: Seq<u8>) -> bool;

    /// The error that the walk reports when a child of `b` fails.
    spec fn children_error(b: Seq<u8>, pile: Seq<u8>) -> Self::ChildError;

    /// Validates the children of a legal blob.
    fn validate_children(blob: &[u8], pile: &TryPile) -> (r: Result<(), Self::ChildError>)
        requires
            blob@.len() == Self::blob_size(),
            Self::blob_valid(blob@),
            Self::child_sizes_fit(),
        ensures
            r is Ok <==> Self::children_valid(blob@, pile@),
            r matches Err(e) ==> e == Self::children_error(blob@, pile@),
    ;
}

/// A primitive has no children.
impl<T: Primitive> ValidateChildren for T {
    type ChildError = Infallible;

    open spec fn child_sizes_fit() -> bool {
        true
    }

    open spec fn children_valid(b: Seq<u8>, pile: Seq<u8>) -> bool {
        true
    }

    open spec fn children_error(b: Seq<u8>, pile: Seq<u8>) -> Infallible {
        Infallible
    }

    fn validate_children(blob: &[u8], pile: &TryPile) -> (r: Result<(), Infallible>) {
        Ok(())
    }
}

/// Why a pointee failed to validate.
#[derive(Debug, Clone, Copy, PartialEq, Eq)]
pub enum PtrError<E, C> {
    /// The pointee's blob lies outside the pile, or is illegal.
    Blob(Error<E>),
    /// One of the pointee's own children failed.
    Child(C),
}

/// The offset held by the legal pointer blob `b`.
pub open spec fn target(b: Seq<u8>) -> Offset {
    Offset::spec_from_word(spec_u64_from_le_bytes(b))
}

/// Whether the `T` at `o` in `pile` validates fully: its blob lies inside the pile, is legal,
/// and its children validate fully.
pub open spec fn fully_valid<T: ValidateChildren>(pile: Seq<u8>, o: Offset) -> bool {
    let child = blob_at(pile, o@, T::blob_size());
    &&& in_range(pile, o@, T::blob_size())
    &&& T::blob_valid(child)
    &&& T::children_valid(child, pile)
}

/// The error that full validation of the `T` at `o` in `pile` reports.
pub open spec fn full_error<T: ValidateChildren>(pile: Seq<u8>, o: Offset) -> PtrError<
    T::Error,
    T::ChildError,
> {
    let child = blob_at(pile, o@, T::blob_size());
    if !in_range(pile, o@, T::blob_size()) {
        PtrError::Blob(Error { offset: o, kind: ErrorKind::Offset })
    } else if !T::blob_valid(child) {
        PtrError::Blob(Error { offset: o, kind: ErrorKind::Value(T::blob_error(child)) })
    } else {
        PtrError::Child(T::children_error(child, pile))
    }
}

/// Validates the `T` at `o` fully, returning it.
fn validate_pointee<T: ValidateChildren>(pile: &TryPile, o: Offset) -> (r: Result<
    T,
    PtrError<T::Error, T::ChildError>,
>)
    requires
        T::blob_size() <= usize::MAX,
        T::child_sizes_fit(),
    ensures
        r is Ok <==> fully_valid::<T>(pile@, o),
        r matches Ok(v) ==> T::blob_decodes(blob_at(pile@, o@, T::blob_size()), v),
        r matches Err(e) ==> e == full_error::<T>(pile@, o),
{
    let size = T::blob_len();
    let child = match pile.get_blob(o, size) {
        Ok(child) => child,
        Err(e) => return Err(PtrError::Blob(e)),
    };
    let v = match T::validate(child) {
        Ok(v) => v,
        Err(err) => return Err(PtrError::Blob(Error { offset: o, kind: ErrorKind::Value(err) })),
    };
    match T::validate_children(child, pile) {
        Ok(()) => Ok(v),
        Err(e) => Err(PtrError::Child(e)),
    }
}

/// A pointer's one child is its pointee.
impl<T: ValidateChildren> ValidateChildren for ValidPtr<T> {
    type ChildError = PtrError<T::Error, T::ChildError>;

    open spec fn child_sizes_fit() -> bool {
        T::blob_size() <= usize::MAX && T::child_sizes_fit()
    }

    open spec fn children_valid(b: Seq<u8>, pile: Seq<u8>) -> bool {
        fully_valid::<T>(pile, target(b))
    }

    open spec fn children_error(b: Seq<u8>, pile: Seq<u8>) -> PtrError<T::Error, T::ChildError> {
        full_error::<T>(pile, target(b))
    }

    fn validate_children(blob: &[u8], pile: &TryPile) -> (r: Result<
        (),
        PtrError<T::Error, T::ChildError>,
    >) {
        let o = Offset::from_word(u64_from_le_bytes(blob)).unwrap();
        match validate_pointee::<T>(pile, o) {
            Ok(_) => Ok(()),
            Err(e) => Err(e),
        }
    }
}

/// The first `i < n` with `!p(i)`, or `n` when there is none.
pub open spec fn first_false(n: nat, p: spec_fn(nat) -> bool) -> nat
    decreases n,
{
    if n == 0 {
        0
    } else {
        let k = first_false((n - 1) as nat, p);
        if k < n - 1 {
            k
        } else if p((n - 1) as nat) {
            n
        } else {
            (n - 1) as nat
        }
    }
}

proof fn lemma_first_false(n: nat, p: spec_fn(nat) -> bool)
    ensures
        first_false(n, p) <= n,
        forall|j: nat| j < first_false(n, p) ==> #[trigger] p(j),
        first_false(n, p) < n ==> !p(first_false(n, p)),
    decreases n,
{
    if n > 0 {
        lemma_first_false((n - 1) as nat, p);
    }
}

/// The children of an array are those of its elements, walked in index order.
impl<T: ValidateChildren + Copy + Default, const N: usize> ValidateChildren for [T; N] {
    type ChildError = ValidateArrayError<T::ChildError, N>;

    open spec fn child_sizes_fit() -> bool {
        T::child_sizes_fit()
    }

    open spec fn children_valid(b: Seq<u8>, pile: Seq<u8>) -> bool {
        forall|i: nat| i < N ==> T::children_valid(#[trigger] element_blob(b, T::blob_size(), i), pile)
    }

    open spec fn children_error(b: Seq<u8>, pile: Seq<u8>) -> ValidateArrayError<T::ChildError, N> {
        let idx = first_false(
            N as nat,
            |i: nat| T::children_valid(element_blob(b, T::blob_size(), i), pile),
        );
        ValidateArrayError {
            idx: idx as usize,
            err: T::children_error(element_blob(b, T::blob_size(), idx), pile),
        }
    }

    fn validate_children(blob: &[u8], pile: &TryPile) -> (r: Result<
        (),
        ValidateArrayError<T::ChildError, N>,
    >) {
        if N == 0 {
            return Ok(());
        }
        let total = blob.len();
        proof {
            lemma_element_bounds(0, N as nat, T::blob_size());
        }
        let size = T::blob_len();
        let ghost p = |i: nat| T::children_valid(element_blob(blob@, T::blob_size(), i), pile@);
        let mut i: usize = 0;
        while i < N
            invariant
                0 <= i <= N,
                N > 0,
                size == T::blob_size(),
                total == blob@.len(),
                blob@.len() == N as nat * T::blob_size(),
                <[T; N]>::blob_valid(blob@),
                T::child_sizes_fit(),
                p == (|i: nat| T::children_valid(element_blob(blob@, T::blob_size(), i), pile@)),
                forall|j: nat| j < i ==> #[trigger] p(j),
            decreases N - i,
        {
            proof {
                lemma_element_bounds(i as nat, N as nat, size as nat);
                assert(N * size == total);
            }
            let start: usize = i * size;
            let end: usize = start + size;
            let item = slice_subrange(blob, start, end);
            assert(item@ == element_blob(blob@, T::blob_size(), i as nat));
            assert(T::blob_valid(element_blob(blob@, T::blob_size(), i as nat)));
            match T::validate_children(item, pile) {
                Ok(()) => {},
                Err(err) => {
                    proof {
                        lemma_first_false(N as nat, p);
                        let k = first_false(N as nat, p);
                        if k < i {
                            assert(p(k));
                        }
                        if k > i {
                            assert(p(i as nat));
                        }
                    }
                    return Err(ValidateArrayError { idx: i, err });
                },
            }
            assert(p(i as nat));
            i = i + 1;
        }
        assert forall|j: nat| j < N implies T::children_valid(
            #[trigger] element_blob(blob@, T::blob_size(), j),
            pile@,
        ) by {
            assert(p(j));
        }
        Ok(())
    }
}

/// Validates piles fully: a pointee's blob and, transitively, everything it points to.
#[derive(Clone, Copy, Debug)]
pub struct FullValidator<'p> {
    pile: TryPile<'p>,
}

impl<'p> View for FullValidator<'p> {
    type V = Seq<u8>;

    closed spec fn view(&self) -> Seq<u8> {
        self.pile@
    }
}

impl<'p> FullValidator<'p> {
    /// A validator over the bytes of `pile`.
    pub fn new(pile: TryPile<'p>) -> (r: FullValidator<'p>)
        ensures
            r@ == pile@,
    {
        FullValidator { pile }
    }

    /// Validates what `ptr` points to, and everything reachable from it.
    pub fn validate_ptr<T: ValidateChildren>(&self, ptr: &ValidPtr<T>) -> (r: Result<
        T,
        PtrError<T::Error, T::ChildError>,
    >)
        requires
            T::blob_size() <= usize::MAX,
            T::child_sizes_fit(),
        ensures
            r is Ok <==> fully_valid::<T>(self@, ptr@),
            r matches Ok(v) ==> T::blob_decodes(blob_at(self@, ptr@@, T::blob_size()), v),
            r matches Err(e) ==> e == full_error::<T>(self@, ptr@),
    {
        validate_pointee::<T>(&self.pile, ptr.get_raw())
    }

    /// Validates the tip of the pile, and everything reachable from it.
    pub fn validate_tip<T: ValidateChildren>(&self) -> (r: Result<
        T,
        PtrError<T::Error, T::ChildError>,
    >)
        requires
            T::blob_size() <= usize::MAX,
            T::child_sizes_fit(),
        ensures
            exists|o: Offset|
                {
                    &&& o@ == tip_offset::<T>(self@)
                    &&& (r is Ok <==> fully_valid::<T>(self@, o))
                    &&& (r matches Ok(v) ==> T::blob_decodes(blob_at(self@, o@, T::blob_size()), v))
                    &&& (r matches Err(e) ==> e == full_error::<T>(self@, o))
                },
    {
        let offset = self.pile.len().saturating_sub(T::blob_len());
        let o = Offset::new(offset as u64).unwrap();
        validate_pointee::<T>(&self.pile, o)
    }
}

} // verus!
