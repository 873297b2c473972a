//! Heights of perfect binary trees.
use vstd::prelude::*;
use vstd::arithmetic::power2::pow2;
use vstd::arithmetic::power2::{lemma2_to64, lemma_pow2_strictly_increases};
use vstd::bits::lemma_usize_shl_is_mul;
use vstd::std_specs::convert::{FromSpecImpl, TryFromSpecImpl};
use crate::blob::{Primitive, ValidateBlob};

verus! {

/// The largest height a tree may have.
pub const MAX_HEIGHT: u8 = 63;

/// The height of a perfect binary tree.
///
/// Valid range: `0 ..= 63`
#[derive(Clone, Copy, Debug, Default, Hash, PartialEq, Eq, PartialOrd, Ord)]
pub struct Height(u8);

/// The height of an inner node of a perfect binary tree.
///
/// Valid range: `1 ..= 63`
#[derive(Clone, Copy, Debug, Hash, PartialEq, Eq, PartialOrd, Ord)]
pub struct NonZeroHeight(u8);

/// A height was out of range.
#[derive(Debug, Clone, Copy, PartialEq, Eq)]
pub struct TryFromIntError;

/// The blob of a height held a byte out of range.
#[derive(Debug, Clone, Copy, PartialEq, Eq)]
pub struct ValidateHeightError;

impl View for Height {
    type V = nat;

    closed spec fn view(&self) -> nat {
        self.0 as nat
    }
}

impl View for NonZeroHeight {
    type V = nat;

    closed spec fn view(&self) -> nat {
        self.0 as nat
    }
}

impl Height {
    #[verifier::type_invariant]
    spec fn inv(self) -> bool {
        self.0 <= MAX_HEIGHT
    }

    fn assert_valid(&self)
        ensures
            self.0 <= MAX_HEIGHT,
    {
        proof {
            use_type_invariant(self);
        }
    }

    /// Creates a height, failing when `n` is larger than 63.
    pub fn new(n: u8) -> (r: Result<Self, TryFromIntError>)
        ensures
            r is Ok <==> n <= MAX_HEIGHT,
            r matches Ok(h) ==> h@ == n,
    {
        if n <= MAX_HEIGHT {
            Ok(Height(n))
        } else {
            Err(TryFromIntError)
        }
    }

    /// The number of leaves of a perfect tree of this height: `2^height`.
    pub fn len(self) -> (r: usize)
        requires
            self@ < usize::BITS,
        ensures
            r as nat == pow2(self@),
    {
        self.assert_valid();
        let shift: usize = self.0 as usize;
        proof {
            lemma2_to64();
            lemma_pow2_strictly_increases(shift as nat, usize::BITS as nat);
            lemma_usize_shl_is_mul(1, shift);
        }
        1usize << shift
    }

    pub fn get(self) -> (r: u8)
        ensures
            r == self@,
            r <= MAX_HEIGHT,
    {
        self.assert_valid();
        self.0
    }

    /// The next height up, unless this is the largest.
    pub fn try_increment(self) -> (r: Option<NonZeroHeight>)
        ensures
            r is Some <==> self@ < MAX_HEIGHT,
            r matches Some(h) ==> h@ == self@ + 1,
    {
        self.assert_valid();
        if self.0 < MAX_HEIGHT {
            Some(NonZeroHeight::new(self.0 + 1).unwrap())
        } else {
            None
        }
    }
}

impl NonZeroHeight {
    #[verifier::type_invariant]
    spec fn inv(self) -> bool {
        0 < self.0 <= MAX_HEIGHT
    }

    /// Creates a non-zero height, failing when `n` is zero or larger than 63.
    pub fn new(n: u8) -> (r: Result<Self, TryFromIntError>)
        ensures
            r is Ok <==> 0 < n <= MAX_HEIGHT,
            r matches Ok(h) ==> h@ == n,
    {
        if 0 < n && n <= MAX_HEIGHT {
            Ok(NonZeroHeight(n))
        } else {
            Err(TryFromIntError)
        }
    }

    pub fn get(self) -> (r: u8)
        ensures
            r == self@,
            0 < r <= MAX_HEIGHT,
    {
        proof {
            use_type_invariant(self);
        }
        self.0
    }

    /// The next height down.
    pub fn decrement(self) -> (r: Height)
        ensures
            r@ == self@ - 1,
    {
        Height::new(NonZeroHeight::get(self) - 1).unwrap()
    }
}

impl ValidateBlob for Height {
    type Error = ValidateHeightError;

    open spec fn blob_size() -> nat {
        1
    }

    open spec fn blob_valid(b: Seq<u8>) -> bool {
        b[0] <= MAX_HEIGHT
    }

    open spec fn blob_decodes(b: Seq<u8>, v: Height) -> bool {
        v@ == b[0]
    }

    open spec fn blob_error(b: Seq<u8>) -> ValidateHeightError {
        ValidateHeightError
    }

    open spec fn value_wf(v: Height) -> bool {
        v@ <= MAX_HEIGHT
    }

    proof fn lemma_decodes_unique(b: Seq<u8>, v1: Height, v2: Height) {
    }

    fn blob_len() -> (r: usize) {
        1
    }

    fn validate(blob: &[u8]) -> (r: Result<Height, ValidateHeightError>) {
        match Height::new(blob[0]) {
            Ok(h) => Ok(h),
            Err(_) => Err(ValidateHeightError),
        }
    }
}

impl Primitive for Height {
    open spec fn to_blob(v: Height) -> Seq<u8> {
        seq![v@ as u8]
    }

    fn write_blob(&self, dst: &mut Vec<u8>) {
        dst.push(Height::get(*self));
    }

    proof fn lemma_blob_round_trip(v: Height) {
    }
}

impl ValidateBlob for NonZeroHeight {
    type Error = ValidateHeightError;

    open spec fn blob_size() -> nat {
        1
    }

    open spec fn blob_valid(b: Seq<u8>) -> bool {
        0 < b[0] <= MAX_HEIGHT
    }

    open spec fn blob_decodes(b: Seq<u8>, v: NonZeroHeight) -> bool {
        v@ == b[0]
    }

    open spec fn blob_error(b: Seq<u8>) -> ValidateHeightError {
        ValidateHeightError
    }

    open spec fn value_wf(v: NonZeroHeight) -> bool {
        0 < v@ <= MAX_HEIGHT
    }

    proof fn lemma_decodes_unique(b: Seq<u8>, v1: NonZeroHeight, v2: NonZeroHeight) {
    }

    fn blob_len() -> (r: usize) {
        1
    }

    fn validate(blob: &[u8]) -> (r: Result<NonZeroHeight, ValidateHeightError>) {
        match NonZeroHeight::new(blob[0]) {
            Ok(h) => Ok(h),
            Err(_) => Err(ValidateHeightError),
        }
    }
}

impl Primitive for NonZeroHeight {
    open spec fn to_blob(v: NonZeroHeight) -> Seq<u8> {
        seq![v@ as u8]
    }

    fn write_blob(&self, dst: &mut Vec<u8>) {
        dst.push(NonZeroHeight::get(*self));
    }

    proof fn lemma_blob_round_trip(v: NonZeroHeight) {
    }
}

impl TryFrom<u8> for Height {
    type Error = TryFromIntError;

    fn try_from(n: u8) -> (r: Result<Height, TryFromIntError>)
        ensures
            r is Ok <==> n <= MAX_HEIGHT,
            r matches Ok(h) ==> h@ == n,
            r matches Err(e) ==> e == TryFromIntError,
    {
        if n <= MAX_HEIGHT {
            Ok(Height(n))
        } else {
            Err(TryFromIntError)
        }
    }
}

impl TryFromSpecImpl<u8> for Height {
    open spec fn obeys_try_from_spec() -> bool {
        true
    }

    closed spec fn try_from_spec(n: u8) -> Result<Height, TryFromIntError> {
        if n <= MAX_HEIGHT {
            Ok(Height(n))
        } else {
            Err(TryFromIntError)
        }
    }
}

impl TryFrom<usize> for Height {
    type Error = TryFromIntError;

    fn try_from(n: usize) -> (r: Result<Height, TryFromIntError>)
        ensures
            r is Ok <==> n <= MAX_HEIGHT,
            r matches Ok(h) ==> h@ == n,
            r matches Err(e) ==> e == TryFromIntError,
    {
        if n <= MAX_HEIGHT as usize {
            Ok(Height(n as u8))
        } else {
            Err(TryFromIntError)
        }
    }
}

impl TryFromSpecImpl<usize> for Height {
    open spec fn obeys_try_from_spec() -> bool {
        true
    }

    closed spec fn try_from_spec(n: usize) -> Result<Height, TryFromIntError> {
        if n <= MAX_HEIGHT {
            Ok(Height(n as u8))
        } else {
            Err(TryFromIntError)
        }
    }
}

impl TryFrom<Height> for NonZeroHeight {
    type Error = TryFromIntError;

    fn try_from(h: Height) -> (r: Result<NonZeroHeight, TryFromIntError>)
        ensures
            r is Ok <==> h@ != 0,
            r matches Ok(n) ==> n@ == h@,
            r matches Err(e) ==> e == TryFromIntError,
    {
        let n = Height::get(h);
        if n > 0 {
            Ok(NonZeroHeight(n))
        } else {
            Err(TryFromIntError)
        }
    }
}

impl TryFromSpecImpl<Height> for NonZeroHeight {
    open spec fn obeys_try_from_spec() -> bool {
        true
    }

    closed spec fn try_from_spec(h: Height) -> Result<NonZeroHeight, TryFromIntError> {
        if h@ > 0 {
            Ok(NonZeroHeight(h@ as u8))
        } else {
            Err(TryFromIntError)
        }
    }
}

impl TryFrom<usize> for NonZeroHeight {
    type Error = TryFromIntError;

    fn try_from(n: usize) -> (r: Result<NonZeroHeight, TryFromIntError>)
        ensures
            r is Ok <==> 0 < n <= MAX_HEIGHT,
            r matches Ok(h) ==> h@ == n,
            r matches Err(e) ==> e == TryFromIntError,
    {
        if 0 < n && n <= MAX_HEIGHT as usize {
            Ok(NonZeroHeight(n as u8))
        } else {
            Err(TryFromIntError)
        }
    }
}

impl TryFromSpecImpl<usize> for NonZeroHeight {
    open spec fn obeys_try_from_spec() -> bool {
        true
    }

    closed spec fn try_from_spec(n: usize) -> Result<NonZeroHeight, TryFromIntError> {
        if 0 < n <= MAX_HEIGHT {
            Ok(NonZeroHeight(n as u8))
        } else {
            Err(TryFromIntError)
        }
    }
}

impl From<Height> for u8 {
    fn from(h: Height) -> (r: u8)
        ensures
            r == h@,
    {
        Height::get(h)
    }
}

impl FromSpecImpl<Height> for u8 {
    open spec fn obeys_from_spec() -> bool {
        true
    }

    open spec fn from_spec(h: Height) -> u8 {
        h@ as u8
    }
}

impl From<Height> for usize {
    fn from(h: Height) -> (r: usize)
        ensures
            r == h@,
    {
        Height::get(h) as usize
    }
}

impl FromSpecImpl<Height> for usize {
    open spec fn obeys_from_spec() -> bool {
        true
    }

    open spec fn from_spec(h: Height) -> usize {
        h@ as usize
    }
}

impl From<NonZeroHeight> for Height {
    fn from(h: NonZeroHeight) -> (r: Height)
        ensures
            r@ == h@,
    {
        Height(NonZeroHeight::get(h))
    }
}

impl FromSpecImpl<NonZeroHeight> for Height {
    open spec fn obeys_from_spec() -> bool {
        true
    }

    closed spec fn from_spec(h: NonZeroHeight) -> Height {
        Height(h@ as u8)
    }
}

impl From<NonZeroHeight> for u8 {
    fn from(h: NonZeroHeight) -> (r: u8)
        ensures
            r == h@,
    {
        NonZeroHeight::get(h)
    }
}

impl FromSpecImpl<NonZeroHeight> for u8 {
    open spec fn obeys_from_spec() -> bool {
        true
    }

    open spec fn from_spec(h: NonZeroHeight) -> u8 {
        h@ as u8
    }
}

impl From<NonZeroHeight> for usize {
    fn from(h: NonZeroHeight) -> (r: usize)
        ensures
            r == h@,
    {
        NonZeroHeight::get(h) as usize
    }
}

impl FromSpecImpl<NonZeroHeight> for usize {
    open spec fn obeys_from_spec() -> bool {
        true
    }

    open spec fn from_spec(h: NonZeroHeight) -> usize {
        h@ as usize
    }
}

/// Something that has the height of a perfect binary tree.
pub trait GetHeight {
    /// Whether `self` has a height at all.
    spec fn has_height(&self) -> bool;

    /// The height `self` has.
    spec fn height_of(&self) -> nat;

    fn get(&self) -> (r: Height)
        requires
            self.has_height(),
        ensures
            r@ == self.height_of(),
    ;
}

impl GetHeight for Height {
    open spec fn has_height(&self) -> bool {
        true
    }

    open spec fn height_of(&self) -> nat {
        self@
    }

    fn get(&self) -> (r: Height) {
        *self
    }
}

impl GetHeight for NonZeroHeight {
    open spec fn has_height(&self) -> bool {
        true
    }

    open spec fn height_of(&self) -> nat {
        self@
    }

    fn get(&self) -> (r: Height) {
        Height::from(*self)
    }
}

/// A slice of units stands for a height by its length.
impl GetHeight for [()] {
    open spec fn has_height(&self) -> bool {
        self@.len() <= MAX_HEIGHT
    }

    open spec fn height_of(&self) -> nat {
        self@.len()
    }

    fn get(&self) -> (r: Height) {
        Height::try_from(self.len()).unwrap()
    }
}

} // verus!
