//! Fixed-size byte images of values, and their validation.
//!
//! Every persistent type has a blob: a byte region of fixed size, with alignment 1 and no
//! padding. Validation checks that a region of exactly that size is a legal image of a value,
//! and reads the value out of it.
use vstd::prelude::*;
use vstd::bytes::{
    lemma_auto_spec_u16_to_from_le_bytes, lemma_auto_spec_u32_to_from_le_bytes,
    lemma_auto_spec_u64_to_from_le_bytes, lemma_auto_spec_u128_to_from_le_bytes,
    spec_u16_from_le_bytes, spec_u16_to_le_bytes, spec_u32_from_le_bytes, spec_u32_to_le_bytes,
    spec_u64_from_le_bytes, spec_u64_to_le_bytes, spec_u128_from_le_bytes, spec_u128_to_le_bytes,
    u16_from_le_bytes, u16_to_le_bytes, u32_from_le_bytes, u32_to_le_bytes, u64_from_le_bytes,
    u64_to_le_bytes, u128_from_le_bytes, u128_to_le_bytes,
};
use vstd::slice::slice_subrange;

verus! {

/// A type with a fixed-size blob that can be validated.
pub trait ValidateBlob: Sized {
    /// Why a blob of the right size is not a value of this type.
    type Error;

    /// The size of the blob, in bytes.
    spec fn blob_size() -> nat;

    /// Whether `b`, of size `blob_size()`, is a legal image of a value.
    spec fn blob_valid(b: Seq<u8>) -> bool;

    /// Whether the legal image `b` holds the value `v`.
    spec fn blob_decodes(b: Seq<u8>, v: Self) -> bool;

    /// The error that validation reports on the illegal image `b`.
    spec fn blob_error(b: Seq<u8>) -> Self::Error;

    /// Whether `v` is a value of the type: what its invariant, if any, promises.
    spec fn value_wf(v: Self) -> bool;

    /// A legal blob holds one value only.
    proof fn lemma_decodes_unique(b: Seq<u8>, v1: Self, v2: Self)
        requires
            Self::blob_valid(b),
            Self::blob_decodes(b, v1),
            Self::blob_decodes(b, v2),
        ensures
            v1 == v2,
    ;

    /// The size of the blob, in bytes.
    fn blob_len() -> (r: usize)
        requires
            Self::blob_size() <= usize::MAX,
        ensures
            r == Self::blob_size(),
    ;

    /// Validates a blob, reading out the value it holds.
    fn validate(blob: &[u8]) -> (r: Result<Self, Self::Error>)
        requires
            blob@.len() == Self::blob_size(),
        ensures
            r is Ok <==> Self::blob_valid(blob@),
            r matches Ok(v) ==> Self::blob_decodes(blob@, v) && Self::value_wf(v),
            r matches Err(e) ==> e == Self::blob_error(blob@),
    ;
}

/// A type whose every value has a blob of its own, independent of any zone.
pub trait Primitive: ValidateBlob {
    /// The blob that holds `v`.
    spec fn to_blob(v: Self) -> Seq<u8>;

    /// Writes the blob of `self` at the end of `dst`.
    fn write_blob(&self, dst: &mut Vec<u8>)
        ensures
            final(dst)@ == old(dst)@ + Self::to_blob(*self),
    ;

    /// Validating the blob of a value gives that value back.
    proof fn lemma_blob_round_trip(v: Self)
        requires
            Self::value_wf(v),
        ensures
            Self::to_blob(v).len() == Self::blob_size(),
            Self::blob_valid(Self::to_blob(v)),
            Self::blob_decodes(Self::to_blob(v), v),
    ;
}

/// The error type of blobs whose every byte pattern is legal: validation never produces it.
#[derive(Debug, Clone, Copy, PartialEq, Eq)]
pub struct Infallible;

/// A `bool` blob held a byte other than `0` or `1`.
#[derive(Debug, Clone, Copy, PartialEq, Eq)]
pub struct ValidateBoolError;

/// A non-zero integer blob held only zero bytes.
#[derive(Debug, Clone, Copy, PartialEq, Eq)]
pub struct ValidateNonZeroIntError;

/// An element of a fixed-size array failed to validate.
#[derive(Debug, Clone, Copy, PartialEq, Eq)]
pub struct ValidateArrayError<E, const N: usize> {
    /// The index of the first element that failed.
    pub idx: usize,
    /// The element's own error.
    pub err: E,
}

impl ValidateBlob for () {
    type Error = Infallible;

    open spec fn blob_size() -> nat {
        0
    }

    open spec fn blob_valid(b: Seq<u8>) -> bool {
        true
    }

    open spec fn blob_decodes(b: Seq<u8>, v: ()) -> bool {
        true
    }

    open spec fn blob_error(b: Seq<u8>) -> Infallible {
        Infallible
    }

    open spec fn value_wf(v: ()) -> bool {
        true
    }

    proof fn lemma_decodes_unique(b: Seq<u8>, v1: (), v2: ()) {
    }

    fn blob_len() -> (r: usize) {
        0
    }

    fn validate(blob: &[u8]) -> (r: Result<(), Infallible>) {
        Ok(())
    }
}

impl Primitive for () {
    open spec fn to_blob(v: ()) -> Seq<u8> {
        seq![]
    }

    fn write_blob(&self, dst: &mut Vec<u8>) {
        assert(dst@ + seq![] =~= dst@);
    }

    proof fn lemma_blob_round_trip(v: ()) {
    }
}

impl ValidateBlob for u8 {
    type Error = Infallible;

    open spec fn blob_size() -> nat {
        1
    }

    open spec fn blob_valid(b: Seq<u8>) -> bool {
        true
    }

    open spec fn blob_decodes(b: Seq<u8>, v: u8) -> bool {
        v == b[0]
    }

    open spec fn blob_error(b: Seq<u8>) -> Infallible {
        Infallible
    }

    open spec fn value_wf(v: u8) -> bool {
        true
    }

    proof fn lemma_decodes_unique(b: Seq<u8>, v1: u8, v2: u8) {
    }

    fn blob_len() -> (r: usize) {
        1
    }

    fn validate(blob: &[u8]) -> (r: Result<u8, Infallible>) {
        Ok(blob[0])
    }
}

impl Primitive for u8 {
    open spec fn to_blob(v: u8) -> Seq<u8> {
        seq![v]
    }

    fn write_blob(&self, dst: &mut Vec<u8>) {
        dst.push(*self);
    }

    proof fn lemma_blob_round_trip(v: u8) {
    }
}

impl ValidateBlob for bool {
    type Error = ValidateBoolError;

    open spec fn blob_size() -> nat {
        1
    }

    open spec fn blob_valid(b: Seq<u8>) -> bool {
        b[0] == 0 || b[0] == 1
    }

    open spec fn blob_decodes(b: Seq<u8>, v: bool) -> bool {
        v == (b[0] == 1)
    }

    open spec fn blob_error(b: Seq<u8>) -> ValidateBoolError {
        ValidateBoolError
    }

    open spec fn value_wf(v: bool) -> bool {
        true
    }

    proof fn lemma_decodes_unique(b: Seq<u8>, v1: bool, v2: bool) {
    }

    fn blob_len() -> (r: usize) {
        1
    }

    fn validate(blob: &[u8]) -> (r: Result<bool, ValidateBoolError>) {
        match blob[0] {
            0 => Ok(false),
            1 => Ok(true),
            _ => Err(ValidateBoolError),
        }
    }
}

impl Primitive for bool {
    open spec fn to_blob(v: bool) -> Seq<u8> {
        seq![if v { 1u8 } else { 0u8 }]
    }

    fn write_blob(&self, dst: &mut Vec<u8>) {
        dst.push(if *self { 1u8 } else { 0u8 });
    }

    proof fn lemma_blob_round_trip(v: bool) {
    }
}

impl ValidateBlob for u16 {
    type Error = Infallible;

    open spec fn blob_size() -> nat {
        2
    }

    open spec fn blob_valid(b: Seq<u8>) -> bool {
        true
    }

    open spec fn blob_decodes(b: Seq<u8>, v: u16) -> bool {
        v == spec_u16_from_le_bytes(b)
    }

    open spec fn blob_error(b: Seq<u8>) -> Infallible {
        Infallible
    }

    open spec fn value_wf(v: u16) -> bool {
        true
    }

    proof fn lemma_decodes_unique(b: Seq<u8>, v1: u16, v2: u16) {
    }

    fn blob_len() -> (r: usize) {
        2
    }

    fn validate(blob: &[u8]) -> (r: Result<u16, Infallible>) {
        Ok(u16_from_le_bytes(blob))
    }
}

impl Primitive for u16 {
    open spec fn to_blob(v: u16) -> Seq<u8> {
        spec_u16_to_le_bytes(v)
    }

    fn write_blob(&self, dst: &mut Vec<u8>) {
        let mut bytes = u16_to_le_bytes(*self);
        dst.append(&mut bytes);
    }

    proof fn lemma_blob_round_trip(v: u16) {
        lemma_auto_spec_u16_to_from_le_bytes();
    }
}

impl ValidateBlob for u32 {
    type Error = Infallible;

    open spec fn blob_size() -> nat {
        4
    }

    open spec fn blob_valid(b: Seq<u8>) -> bool {
        true
    }

    open spec fn blob_decodes(b: Seq<u8>, v: u32) -> bool {
        v == spec_u32_from_le_bytes(b)
    }

    open spec fn blob_error(b: Seq<u8>) -> Infallible {
        Infallible
    }

    open spec fn value_wf(v: u32) -> bool {
        true
    }

    proof fn lemma_decodes_unique(b: Seq<u8>, v1: u32, v2: u32) {
    }

    fn blob_len() -> (r: usize) {
        4
    }

    fn validate(blob: &[u8]) -> (r: Result<u32, Infallible>) {
        Ok(u32_from_le_bytes(blob))
    }
}

impl Primitive for u32 {
    open spec fn to_blob(v: u32) -> Seq<u8> {
        spec_u32_to_le_bytes(v)
    }

    fn write_blob(&self, dst: &mut Vec<u8>) {
        let mut bytes = u32_to_le_bytes(*self);
        dst.append(&mut bytes);
    }

    proof fn lemma_blob_round_trip(v: u32) {
        lemma_auto_spec_u32_to_from_le_bytes();
    }
}

impl ValidateBlob for u64 {
    type Error = Infallible;

    open spec fn blob_size() -> nat {
        8
    }

    open spec fn blob_valid(b: Seq<u8>) -> bool {
        true
    }

    open spec fn blob_decodes(b: Seq<u8>, v: u64) -> bool {
        v == spec_u64_from_le_bytes(b)
    }

    open spec fn blob_error(b: Seq<u8>) -> Infallible {
        Infallible
    }

    open spec fn value_wf(v: u64) -> bool {
        true
    }

    proof fn lemma_decodes_unique(b: Seq<u8>, v1: u64, v2: u64) {
    }

    fn blob_len() -> (r: usize) {
        8
    }

    fn validate(blob: &[u8]) -> (r: Result<u64, Infallible>) {
        Ok(u64_from_le_bytes(blob))
    }
}

impl Primitive for u64 {
    open spec fn to_blob(v: u64) -> Seq<u8> {
        spec_u64_to_le_bytes(v)
    }

    fn write_blob(&self, dst: &mut Vec<u8>) {
        let mut bytes = u64_to_le_bytes(*self);
        dst.append(&mut bytes);
    }

    proof fn lemma_blob_round_trip(v: u64) {
        lemma_auto_spec_u64_to_from_le_bytes();
    }
}

impl ValidateBlob for u128 {
    type Error = Infallible;

    open spec fn blob_size() -> nat {
        16
    }

    open spec fn blob_valid(b: Seq<u8>) -> bool {
        true
    }

    open spec fn blob_decodes(b: Seq<u8>, v: u128) -> bool {
        v == spec_u128_from_le_bytes(b)
    }

    open spec fn blob_error(b: Seq<u8>) -> Infallible {
        Infallible
    }

    open spec fn value_wf(v: u128) -> bool {
        true
    }

    proof fn lemma_decodes_unique(b: Seq<u8>, v1: u128, v2: u128) {
    }

    fn blob_len() -> (r: usize) {
        16
    }

    fn validate(blob: &[u8]) -> (r: Result<u128, Infallible>) {
        Ok(u128_from_le_bytes(blob))
    }
}

impl Primitive for u128 {
    open spec fn to_blob(v: u128) -> Seq<u8> {
        spec_u128_to_le_bytes(v)
    }

    fn write_blob(&self, dst: &mut Vec<u8>) {
        let mut bytes = u128_to_le_bytes(*self);
        dst.append(&mut bytes);
    }

    proof fn lemma_blob_round_trip(v: u128) {
        lemma_auto_spec_u128_to_from_le_bytes();
    }
}

/// A `u32` that is never zero; its blob is four little-endian bytes, not all of them zero.
#[derive(Debug, Clone, Copy, PartialEq, Eq, Hash)]
pub struct NonZeroU32(u32);

impl View for NonZeroU32 {
    type V = u32;

    /// The value; the type invariant keeps the field non-zero, and so does the view.
    closed spec fn view(&self) -> u32 {
        self.0
    }
}

impl NonZeroU32 {
    #[verifier::type_invariant]
    spec fn inv(self) -> bool {
        self.0 != 0
    }

    /// Wraps `n`, unless it is zero.
    pub fn new(n: u32) -> (r: Option<NonZeroU32>)
        ensures
            r is Some <==> n != 0,
            r matches Some(v) ==> v@ == n,
    {
        if n != 0 {
            Some(NonZeroU32(n))
        } else {
            None
        }
    }

    pub fn get(self) -> (r: u32)
        ensures
            r == self@,
            r != 0,
    {
        proof {
            use_type_invariant(self);
        }
        self.0
    }
}

impl ValidateBlob for NonZeroU32 {
    type Error = ValidateNonZeroIntError;

    open spec fn blob_size() -> nat {
        4
    }

    open spec fn blob_valid(b: Seq<u8>) -> bool {
        spec_u32_from_le_bytes(b) != 0
    }

    open spec fn blob_decodes(b: Seq<u8>, v: NonZeroU32) -> bool {
        v@ == spec_u32_from_le_bytes(b)
    }

    open spec fn blob_error(b: Seq<u8>) -> ValidateNonZeroIntError {
        ValidateNonZeroIntError
    }

    open spec fn value_wf(v: NonZeroU32) -> bool {
        v@ != 0
    }

    proof fn lemma_decodes_unique(b: Seq<u8>, v1: NonZeroU32, v2: NonZeroU32) {
    }

    fn blob_len() -> (r: usize) {
        4
    }

    fn validate(blob: &[u8]) -> (r: Result<NonZeroU32, ValidateNonZeroIntError>) {
        let n = u32_from_le_bytes(blob);
        if n == 0 {
            Err(ValidateNonZeroIntError)
        } else {
            Ok(NonZeroU32(n))
        }
    }
}

impl Primitive for NonZeroU32 {
    open spec fn to_blob(v: NonZeroU32) -> Seq<u8> {
        spec_u32_to_le_bytes(v@)
    }

    fn write_blob(&self, dst: &mut Vec<u8>) {
        let mut bytes = u32_to_le_bytes(self.get());
        dst.append(&mut bytes);
    }

    proof fn lemma_blob_round_trip(v: NonZeroU32) {
        lemma_auto_spec_u32_to_from_le_bytes();
        let x: u32 = v@;
        assert(spec_u32_to_le_bytes(x).len() == 4);
        assert(x != 0);
    }
}

/// Element `i` of an array of `n` items of `size` bytes lies inside the array's blob.
pub proof fn lemma_element_bounds(i: nat, n: nat, size: nat)
    requires
        i < n,
    ensures
        size <= n * size,
        i * size <= (i + 1) * size,
        i * size + size == (i + 1) * size,
        (i + 1) * size <= n * size,
{
    assert(size <= n * size) by (nonlinear_arith)
        requires n > 0;
    assert(i * size <= (i + 1) * size) by (nonlinear_arith);
    assert(i * size + size == (i + 1) * size) by (nonlinear_arith);
    assert((i + 1) * size <= n * size) by (nonlinear_arith)
        requires i < n;
}

/// The bytes of element `i` of an array whose elements have blobs of `size` bytes.
pub open spec fn element_blob(b: Seq<u8>, size: nat, i: nat) -> Seq<u8> {
    b.subrange((i * size) as int, ((i + 1) * size) as int)
}

/// The first of the `n` elements of `b` whose blob is illegal, or `n` when all are legal.
pub open spec fn first_invalid<T: ValidateBlob>(b: Seq<u8>, n: nat) -> nat
    decreases n,
{
    if n == 0 {
        0
    } else {
        let k = first_invalid::<T>(b, (n - 1) as nat);
        if k < n - 1 {
            k
        } else if T::blob_valid(element_blob(b, T::blob_size(), (n - 1) as nat)) {
            n
        } else {
            (n - 1) as nat
        }
    }
}

/// `first_invalid` is what its name says: every element before it is legal, and it is
/// illegal itself unless it is `n`.
pub proof fn lemma_first_invalid<T: ValidateBlob>(b: Seq<u8>, n: nat)
    ensures
        first_invalid::<T>(b, n) <= n,
        forall|j: nat| j < first_invalid::<T>(b, n) ==> T::blob_valid(
            #[trigger] element_blob(b, T::blob_size(), j),
        ),
        first_invalid::<T>(b, n) < n ==> !T::blob_valid(
            element_blob(b, T::blob_size(), first_invalid::<T>(b, n)),
        ),
    decreases n,
{
    if n > 0 {
        lemma_first_invalid::<T>(b, (n - 1) as nat);
    }
}

impl<T: ValidateBlob + Copy + Default, const N: usize> ValidateBlob for [T; N] {
    type Error = ValidateArrayError<T::Error, N>;

    open spec fn blob_size() -> nat {
        N as nat * T::blob_size()
    }

    open spec fn blob_valid(b: Seq<u8>) -> bool {
        forall|i: nat| i < N ==> T::blob_valid(#[trigger] element_blob(b, T::blob_size(), i))
    }

    open spec fn blob_decodes(b: Seq<u8>, v: [T; N]) -> bool {
        forall|i: nat| i < N ==> T::blob_decodes(#[trigger] element_blob(b, T::blob_size(), i), v@[i as int])
    }

    open spec fn blob_error(b: Seq<u8>) -> ValidateArrayError<T::Error, N> {
        let idx = first_invalid::<T>(b, N as nat);
        ValidateArrayError { idx: idx as usize, err: T::blob_error(element_blob(b, T::blob_size(), idx)) }
    }

    open spec fn value_wf(v: [T; N]) -> bool {
        forall|i: int| 0 <= i < N ==> T::value_wf(#[trigger] v@[i])
    }

    proof fn lemma_decodes_unique(b: Seq<u8>, v1: [T; N], v2: [T; N]) {
        assert forall|i: int| 0 <= i < N implies v1@[i] == v2@[i] by {
            T::lemma_decodes_unique(element_blob(b, T::blob_size(), i as nat), v1@[i], v2@[i]);
        }
        assert(v1 =~= v2);
    }

    fn blob_len() -> (r: usize) {
        if N == 0 {
            0
        } else {
            proof {
                lemma_element_bounds(0, N as nat, T::blob_size());
            }
            N * T::blob_len()
        }
    }

    /// Validates the elements in index order; the first that fails ends validation.
    fn validate(blob: &[u8]) -> (r: Result<[T; N], ValidateArrayError<T::Error, N>>) {
        let mut out: [T; N] = [T::default(); N];
        if N == 0 {
            assert(out@.len() == 0);
            return Ok(out);
        }
        let total = blob.len();
        proof {
            lemma_element_bounds(0, N as nat, T::blob_size());
        }
        let size = T::blob_len();
        let mut i: usize = 0;
        while i < N
            invariant
                0 <= i <= N,
                N > 0,
                size == T::blob_size(),
                total == blob@.len(),
                blob@.len() == N as nat * T::blob_size(),
                out@.len() == N,
                forall|j: nat| j < i ==> T::blob_valid(#[trigger] element_blob(blob@, T::blob_size(), j)),
                forall|j: nat| j < i ==> T::blob_decodes(#[trigger] element_blob(blob@, T::blob_size(), j), out@[j as int]),
                forall|j: int| 0 <= j < i ==> T::value_wf(#[trigger] out@[j]),
            decreases N - i,
        {
            proof {
                lemma_element_bounds(i as nat, N as nat, size as nat);
                assert(N * size == total);
            }
            let start: usize = i * size;
            let end: usize = start + size;
            assert(end == (i + 1) * size);
            let item = slice_subrange(blob, start, end);
            assert(item@ == element_blob(blob@, T::blob_size(), i as nat));
            match T::validate(item) {
                Ok(v) => {
                    out[i] = v;
                },
                Err(err) => {
                    proof {
                        lemma_first_invalid::<T>(blob@, N as nat);
                        let k = first_invalid::<T>(blob@, N as nat);
                        if k < i {
                            assert(T::blob_valid(element_blob(blob@, T::blob_size(), k)));
                        }
                        if k > i {
                            assert(T::blob_valid(element_blob(blob@, T::blob_size(), i as nat)));
                        }
                    }
                    return Err(ValidateArrayError { idx: i, err });
                },
            }
            i = i + 1;
        }
        Ok(out)
    }
}

} // verus!
