//! Encoding values, with their dirty children, into the bytes appended to a pile.
//!
//! Encoding is two-phase. `encode_poll` writes every dirty child out to the dumper, children
//! before parents, remembering in the state the offsets they were given. `encode_blob` then
//! writes the value's own blob, in which each pointer holds the offset its child got.
use vstd::prelude::*;
use vstd::bytes::{lemma_auto_spec_u64_to_from_le_bytes, spec_u64_to_le_bytes};
use crate::blob::Primitive;
use crate::offset::{OFFSET_MAX, Offset, offset_word};
use crate::pile::{PileZone, TryPile};
use crate::ptr::OwnedPtr;

verus! {

/// Whether a blob may be saved at position `n` of a pile: an offset can hold it, and so can
/// a `usize`.
pub open spec fn fits(n: nat) -> bool {
    n <= OFFSET_MAX && n <= usize::MAX
}

/// An append-only sink for the blobs of dirty nodes, placed after the end of a pile.
#[derive(Debug)]
pub struct VecDumper<'p> {
    pile: TryPile<'p>,
    buf: Vec<u8>,
}

impl<'p> View for VecDumper<'p> {
    type V = Seq<u8>;

    /// The bytes appended so far.
    closed spec fn view(&self) -> Seq<u8> {
        self.buf@
    }
}

impl<'p> VecDumper<'p> {
    /// The bytes of the pile the blobs are appended to.
    pub closed spec fn pile_bytes(&self) -> Seq<u8> {
        self.pile@
    }

    /// The offset at which the next blob goes.
    pub open spec fn pos(&self) -> nat {
        self.pile_bytes().len() + self@.len()
    }

    /// A dumper appending to `buf` after the end of `pile`.
    pub fn new<Z: PileZone<'p>>(pile: Z, buf: Vec<u8>) -> (r: VecDumper<'p>)
        ensures
            r.pile_bytes() == pile.pile_bytes(),
            r@ == buf@,
    {
        VecDumper { pile: pile.get_try_pile(), buf }
    }

    /// Appends a blob, returning its offset: the pile's length plus what was appended before.
    pub fn save_blob(&mut self, blob: Vec<u8>) -> (r: Offset)
        requires
            fits(old(self).pos()),
        ensures
            r@ == old(self).pos(),
            final(self)@ == old(self)@ + blob@,
            final(self).pile_bytes() == old(self).pile_bytes(),
    {
        let offset = self.pile.len() + self.buf.len();
        let mut blob = blob;
        self.buf.append(&mut blob);
        Offset::new(offset as u64).unwrap()
    }

    /// Appends the blob of `value`, written from `state`, returning its offset.
    pub fn encode_value<T: Encode>(&mut self, value: &T, state: &T::State) -> (r: Offset)
        requires
            fits(old(self).pos()),
        ensures
            r@ == old(self).pos(),
            final(self)@ == old(self)@ + value.state_blob(*state),
            final(self).pile_bytes() == old(self).pile_bytes(),
    {
        let mut blob: Vec<u8> = Vec::new();
        value.encode_blob(state, &mut blob);
        assert(blob@ =~= value.state_blob(*state));
        self.save_blob(blob)
    }

    /// The offset of a persistent pointer, or the node a dirty one points to.
    pub fn try_save_ptr<'a, T>(&self, ptr: &'a OwnedPtr<T>) -> (r: Result<Offset, &'a T>)
        ensures
            match *ptr {
                OwnedPtr::Persistent(o) => r == Ok::<Offset, &T>(o),
                OwnedPtr::Dirty(b) => r matches Err(t) && *t == *b,
            },
    {
        match ptr {
            OwnedPtr::Persistent(o) => Ok(*o),
            OwnedPtr::Dirty(b) => Err(&**b),
        }
    }

    /// The bytes appended.
    pub fn into_buf(self) -> (r: Vec<u8>)
        ensures
            r@ == self@,
    {
        self.buf
    }
}

/// A value that can be encoded into a pile, together with the dirty nodes it owns.
///
/// `dirty_bytes` and `blob_bytes` say what a fresh encoding writes. Polling starts from a
/// state, which `make_encode_state` makes fresh; polling again from a finished state writes
/// nothing and changes nothing.
pub trait Encode: Sized {
    /// What `encode_poll` remembers for `encode_blob`.
    type State;

    /// The bytes written for the dirty children when they are dumped starting at `base`.
    spec fn dirty_bytes(&self, base: nat) -> Seq<u8>;

    /// The value's own blob when its dirty children were dumped starting at `base`.
    spec fn blob_bytes(&self, base: nat) -> Seq<u8>;

    /// Whether `state` is the fresh state of `self`, before any polling.
    spec fn is_init_state(&self, state: Self::State) -> bool;

    /// Whether `state` fits `self` (an array has one state per item).
    spec fn state_wf(&self, state: Self::State) -> bool;

    /// Whether polling from `state` is finished: every dirty child has been written.
    spec fn is_done(&self, state: Self::State) -> bool;

    /// Whether `a` and `b` are the same state of `self`.
    spec fn same_state(&self, a: Self::State, b: Self::State) -> bool;

    /// The bytes that polling from `state` writes, from `base` on.
    spec fn poll_bytes(&self, state: Self::State, base: nat) -> Seq<u8>;

    /// The blob that the state reached by polling from `state` at `base` writes.
    spec fn poll_blob(&self, state: Self::State, base: nat) -> Seq<u8>;

    /// The blob that `encode_blob` writes from `state`.
    spec fn state_blob(&self, state: Self::State) -> Seq<u8>;

    /// Polling from the fresh state writes the dirty children, and leaves the value's blob.
    proof fn lemma_init_state(&self, state: Self::State, base: nat)
        requires
            self.is_init_state(state),
        ensures
            self.state_wf(state),
            self.poll_bytes(state, base) == self.dirty_bytes(base),
            self.poll_blob(state, base) == self.blob_bytes(base),
    ;

    /// Polling from a finished state writes nothing.
    proof fn lemma_done_state(&self, state: Self::State, base: nat)
        requires
            self.is_done(state),
        ensures
            self.poll_bytes(state, base) == Seq::<u8>::empty(),
    ;

    /// The fresh state.
    fn make_encode_state(&self) -> (r: Self::State)
        ensures
            self.is_init_state(r),
    ;

    /// Writes the dirty children out, children before their parents.
    fn encode_poll(&self, state: &mut Self::State, dumper: &mut VecDumper)
        requires
            self.state_wf(*old(state)),
            fits(old(dumper).pos() + self.poll_bytes(*old(state), old(dumper).pos()).len()),
        ensures
            final(dumper).pile_bytes() == old(dumper).pile_bytes(),
            final(dumper)@ == old(dumper)@ + self.poll_bytes(*old(state), old(dumper).pos()),
            self.state_blob(*final(state)) == self.poll_blob(*old(state), old(dumper).pos()),
            self.state_wf(*final(state)),
            self.is_done(*final(state)),
            self.is_done(*old(state)) ==> final(dumper)@ == old(dumper)@ && self.same_state(
                *final(state),
                *old(state),
            ),
    ;

    /// Writes the value's own blob.
    fn encode_blob(&self, state: &Self::State, dst: &mut Vec<u8>)
        ensures
            final(dst)@ == old(dst)@ + self.state_blob(*state),
    ;
}

/// A primitive owns no dirty nodes: its blob is all there is, and it is always done.
impl<T: Primitive> Encode for T {
    type State = ();

    open spec fn dirty_bytes(&self, base: nat) -> Seq<u8> {
        seq![]
    }

    open spec fn blob_bytes(&self, base: nat) -> Seq<u8> {
        T::to_blob(*self)
    }

    open spec fn is_init_state(&self, state: ()) -> bool {
        true
    }

    open spec fn state_wf(&self, state: ()) -> bool {
        true
    }

    open spec fn is_done(&self, state: ()) -> bool {
        true
    }

    open spec fn same_state(&self, a: (), b: ()) -> bool {
        true
    }

    open spec fn poll_bytes(&self, state: (), base: nat) -> Seq<u8> {
        seq![]
    }

    open spec fn poll_blob(&self, state: (), base: nat) -> Seq<u8> {
        T::to_blob(*self)
    }

    open spec fn state_blob(&self, state: ()) -> Seq<u8> {
        T::to_blob(*self)
    }

    proof fn lemma_init_state(&self, state: (), base: nat) {
    }

    proof fn lemma_done_state(&self, state: (), base: nat) {
    }

    fn make_encode_state(&self) -> (r: ()) {
    }

    fn encode_poll(&self, state: &mut (), dumper: &mut VecDumper) {
        assert(dumper@ + seq![] =~= dumper@);
    }

    fn encode_blob(&self, state: &(), dst: &mut Vec<u8>) {
        self.write_blob(dst);
    }
}

/// The bytes of the dirty children of the items of `s`, dumped from `base` in order.
pub open spec fn seq_dirty_bytes<T: Encode>(s: Seq<T>, base: nat) -> Seq<u8>
    decreases s.len(),
{
    if s.len() == 0 {
        seq![]
    } else {
        let prefix = seq_dirty_bytes(s.drop_last(), base);
        prefix + s.last().dirty_bytes(base + prefix.len())
    }
}

/// The blobs of the items of `s`, one after another, when their children were dumped from
/// `base` in order.
pub open spec fn seq_blob_bytes<T: Encode>(s: Seq<T>, base: nat) -> Seq<u8>
    decreases s.len(),
{
    if s.len() == 0 {
        seq![]
    } else {
        let prefix = seq_dirty_bytes(s.drop_last(), base);
        seq_blob_bytes(s.drop_last(), base) + s.last().blob_bytes(base + prefix.len())
    }
}

/// The blobs of the items of `s` as written from their states; an item without a state
/// writes nothing.
pub open spec fn seq_state_blob<T: Encode>(s: Seq<T>, states: Seq<T::State>) -> Seq<u8>
    decreases s.len(),
{
    if s.len() == 0 {
        seq![]
    } else {
        let i = s.len() - 1;
        seq_state_blob(s.drop_last(), states) + if i < states.len() {
            s.last().state_blob(states[i])
        } else {
            seq![]
        }
    }
}

/// The bytes that polling the items of `s` in order, each from its state in `states`,
/// writes from `base` on.
pub open spec fn seq_poll_bytes<T: Encode>(s: Seq<T>, states: Seq<T::State>, base: nat) -> Seq<u8>
    decreases s.len(),
{
    if s.len() == 0 {
        seq![]
    } else {
        let prefix = seq_poll_bytes(s.drop_last(), states, base);
        prefix + s.last().poll_bytes(states[s.len() - 1], base + prefix.len())
    }
}

/// The blobs the items of `s` write after being polled in order from `states` at `base`.
pub open spec fn seq_poll_blob<T: Encode>(s: Seq<T>, states: Seq<T::State>, base: nat) -> Seq<u8>
    decreases s.len(),
{
    if s.len() == 0 {
        seq![]
    } else {
        let prefix = seq_poll_bytes(s.drop_last(), states, base);
        seq_poll_blob(s.drop_last(), states, base) + s.last().poll_blob(
            states[s.len() - 1],
            base + prefix.len(),
        )
    }
}

proof fn lemma_seq_init<T: Encode>(s: Seq<T>, states: Seq<T::State>, base: nat)
    requires
        s.len() <= states.len(),
        forall|i: int| 0 <= i < s.len() ==> s[i].is_init_state(#[trigger] states[i]),
    ensures
        seq_poll_bytes(s, states, base) == seq_dirty_bytes(s, base),
        seq_poll_blob(s, states, base) == seq_blob_bytes(s, base),
    decreases s.len(),
{
    if s.len() > 0 {
        lemma_seq_init(s.drop_last(), states, base);
        let prefix = seq_dirty_bytes(s.drop_last(), base);
        s.last().lemma_init_state(states[s.len() - 1], base + prefix.len());
    }
}

proof fn lemma_seq_done<T: Encode>(s: Seq<T>, states: Seq<T::State>, base: nat)
    requires
        s.len() <= states.len(),
        forall|i: int| 0 <= i < s.len() ==> s[i].is_done(#[trigger] states[i]),
    ensures
        seq_poll_bytes(s, states, base) == Seq::<u8>::empty(),
    decreases s.len(),
{
    if s.len() > 0 {
        lemma_seq_done(s.drop_last(), states, base);
        s.last().lemma_done_state(states[s.len() - 1], base);
        assert(seq_poll_bytes(s, states, base) =~= Seq::<u8>::empty());
    }
}

proof fn lemma_seq_poll_len_prefix<T: Encode>(s: Seq<T>, states: Seq<T::State>, i: int, base: nat)
    requires
        0 <= i <= s.len(),
    ensures
        seq_poll_bytes(s.take(i), states, base).len() <= seq_poll_bytes(s, states, base).len(),
    decreases s.len() - i,
{
    if i < s.len() {
        assert(s.drop_last().take(i) == s.take(i));
        lemma_seq_poll_len_prefix(s.drop_last(), states, i, base);
    } else {
        assert(s.take(i) == s);
    }
}

proof fn lemma_seq_state_blob_prefix<T: Encode>(s: Seq<T>, a: Seq<T::State>, b: Seq<T::State>)
    requires
        s.len() <= a.len(),
        s.len() <= b.len(),
        forall|i: int| 0 <= i < s.len() ==> a[i] == b[i],
    ensures
        seq_state_blob(s, a) == seq_state_blob(s, b),
    decreases s.len(),
{
    if s.len() > 0 {
        lemma_seq_state_blob_prefix(s.drop_last(), a, b);
    }
}

proof fn lemma_seq_dirty_len_prefix<T: Encode>(s: Seq<T>, i: int, base: nat)
    requires
        0 <= i <= s.len(),
    ensures
        seq_dirty_bytes(s.take(i), base).len() <= seq_dirty_bytes(s, base).len(),
    decreases s.len() - i,
{
    if i < s.len() {
        assert(s.drop_last().take(i) == s.take(i));
        lemma_seq_dirty_len_prefix(s.drop_last(), i, base);
    } else {
        assert(s.take(i) == s);
    }
}

/// An array encodes item by item, in index order: all dirty children first, then the items'
/// blobs one after another.
impl<T: Encode, const N: usize> Encode for [T; N] {
    type State = Vec<T::State>;

    open spec fn dirty_bytes(&self, base: nat) -> Seq<u8> {
        seq_dirty_bytes(self@, base)
    }

    open spec fn blob_bytes(&self, base: nat) -> Seq<u8> {
        seq_blob_bytes(self@, base)
    }

    open spec fn is_init_state(&self, state: Vec<T::State>) -> bool {
        &&& state@.len() == N
        &&& forall|i: int| 0 <= i < N ==> self@[i].is_init_state(#[trigger] state@[i])
    }

    open spec fn state_wf(&self, state: Vec<T::State>) -> bool {
        &&& state@.len() == N
        &&& forall|i: int| 0 <= i < N ==> self@[i].state_wf(#[trigger] state@[i])
    }

    open spec fn is_done(&self, state: Vec<T::State>) -> bool {
        &&& state@.len() == N
        &&& forall|i: int| 0 <= i < N ==> self@[i].is_done(#[trigger] state@[i])
    }

    open spec fn same_state(&self, a: Vec<T::State>, b: Vec<T::State>) -> bool {
        &&& a@.len() == b@.len()
        &&& forall|i: int| 0 <= i < a@.len() && i < N ==> self@[i].same_state(#[trigger] a@[i], b@[i])
    }

    open spec fn poll_bytes(&self, state: Vec<T::State>, base: nat) -> Seq<u8> {
        seq_poll_bytes(self@, state@, base)
    }

    open spec fn poll_blob(&self, state: Vec<T::State>, base: nat) -> Seq<u8> {
        seq_poll_blob(self@, state@, base)
    }

    open spec fn state_blob(&self, state: Vec<T::State>) -> Seq<u8> {
        seq_state_blob(self@, state@)
    }

    proof fn lemma_init_state(&self, state: Vec<T::State>, base: nat) {
        lemma_seq_init(self@, state@, base);
        assert forall|i: int| 0 <= i < N implies self@[i].state_wf(#[trigger] state@[i]) by {
            self@[i].lemma_init_state(state@[i], base);
        }
    }

    proof fn lemma_done_state(&self, state: Vec<T::State>, base: nat) {
        lemma_seq_done(self@, state@, base);
    }

    fn make_encode_state(&self) -> (r: Vec<T::State>) {
        let mut states: Vec<T::State> = Vec::new();
        let mut i: usize = 0;
        while i < N
            invariant
                0 <= i <= N,
                N == self@.len(),
                states@.len() == i,
                forall|j: int| 0 <= j < i ==> self@[j].is_init_state(#[trigger] states@[j]),
            decreases N - i,
        {
            states.push(self[i].make_encode_state());
            i = i + 1;
        }
        states
    }

    /// Polls each item from its own state, in index order.
    fn encode_poll(&self, state: &mut Vec<T::State>, dumper: &mut VecDumper) {
        let ghost base = dumper.pos();
        let ghost start = dumper@;
        let ghost orig = state@;
        let ghost orig_vec = *state;
        let mut rest: Vec<T::State> = Vec::new();
        core::mem::swap(state, &mut rest);
        let mut states: Vec<T::State> = Vec::new();
        let mut i: usize = 0;
        while i < N
            invariant
                0 <= i <= N,
                N == self@.len(),
                orig.len() == N,
                forall|j: int| 0 <= j < N ==> self@[j].state_wf(#[trigger] orig[j]),
                base == old(dumper).pos(),
                start == old(dumper)@,
                fits(base + seq_poll_bytes(self@, orig, base).len()),
                rest@ == orig.subrange(i as int, N as int),
                dumper.pile_bytes() == old(dumper).pile_bytes(),
                dumper@ == start + seq_poll_bytes(self@.take(i as int), orig, base),
                states@.len() == i,
                forall|j: int| 0 <= j < i ==> self@[j].state_wf(#[trigger] states@[j]),
                forall|j: int| 0 <= j < i ==> self@[j].is_done(#[trigger] states@[j]),
                forall|j: int|
                    0 <= j < i && self@[j].is_done(orig[j]) ==> self@[j].same_state(
                        #[trigger] states@[j],
                        orig[j],
                    ),
                seq_state_blob(self@.take(i as int), states@) == seq_poll_blob(
                    self@.take(i as int),
                    orig,
                    base,
                ),
            decreases N - i,
        {
            let ghost prefix = self@.take(i as int);
            let ghost next = self@.take(i + 1);
            proof {
                assert(next.drop_last() == prefix);
                lemma_seq_poll_len_prefix(self@, orig, i + 1, base);
            }
            let mut st = rest.remove(0);
            assert(st == orig[i as int]);
            self[i].encode_poll(&mut st, dumper);
            let ghost old_states = states@;
            states.push(st);
            proof {
                lemma_seq_state_blob_prefix(prefix, old_states, states@);
                assert(dumper@ =~= start + seq_poll_bytes(next, orig, base));
                assert(rest@ =~= orig.subrange(i + 1, N as int));
            }
            i = i + 1;
        }
        proof {
            assert(self@.take(N as int) == self@);
            if self.is_done(orig_vec) {
                lemma_seq_done(self@, orig, base);
                assert(dumper@ =~= start);
            }
        }
        *state = states;
    }

    fn encode_blob(&self, state: &Vec<T::State>, dst: &mut Vec<u8>) {
        let mut i: usize = 0;
        while i < N
            invariant
                0 <= i <= N,
                N == self@.len(),
                dst@ == old(dst)@ + seq_state_blob(self@.take(i as int), state@),
            decreases N - i,
        {
            proof {
                assert(self@.take(i + 1).drop_last() == self@.take(i as int));
            }
            if i < state.len() {
                self[i].encode_blob(&state[i], dst);
            }
            proof {
                assert(dst@ =~= old(dst)@ + seq_state_blob(self@.take(i + 1), state@));
            }
            i = i + 1;
        }
        proof {
            assert(self@.take(N as int) == self@);
        }
    }
}

/// The state of an owned pointer's encoding.
#[derive(Debug, Clone, Copy, PartialEq, Eq)]
pub enum OwnEncoder {
    /// The pointee has not been written out yet.
    Own,
    /// The pointee is persistent, at `persist_ptr`.
    Done { persist_ptr: Offset },
}

/// The offset a dirty pointee gets when its own children are dumped from `base`: right after
/// them.
pub open spec fn dirty_target<T: Encode>(t: T, base: nat) -> nat {
    base + t.dirty_bytes(base).len()
}

/// Children are written before the parents that point to them.
///
/// When a dirty pointee's own children are dumped from `base`, the pointee's blob goes right
/// after them, and the pointer's blob holds that offset. Everything the pointer's encoding
/// writes ends at `base + ptr.dirty_bytes(base).len()`, and the blob of the node holding the
/// pointer goes at or after that: so the pointee's offset is strictly smaller, unless its blob
/// is empty.
pub proof fn lemma_child_before_parent<T: Encode>(child: T, base: nat)
    requires
        child.blob_bytes(base).len() > 0,
    ensures
        ({
            let ptr = OwnedPtr::Dirty(Box::new(child));
            &&& ptr.blob_bytes(base) == spec_u64_to_le_bytes(
                offset_word(dirty_target(child, base)),
            )
            &&& dirty_target(child, base) < base + ptr.dirty_bytes(base).len()
        }),
{
}

/// Wrapping a value in a new dirty pointer appends exactly one word to its encoding.
///
/// The encoding of `x` from `base` (its dirty children, then its blob) is kept byte for byte,
/// and the pointer's blob follows it: the word of the offset where `x`'s blob was put. Nothing
/// already written is written again.
pub proof fn lemma_wrap_appends_one_word<T: Encode>(x: T, base: nat)
    ensures
        ({
            let y = OwnedPtr::Dirty(Box::new(x));
            let out = x.dirty_bytes(base) + x.blob_bytes(base);
            y.dirty_bytes(base) + y.blob_bytes(base) == out + spec_u64_to_le_bytes(
                offset_word((base + out.len() - x.blob_bytes(base).len()) as nat),
            )
        }),
{
}

/// Whether every item of `s` is a dirty pointer.
pub open spec fn all_dirty<T>(s: Seq<OwnedPtr<T>>) -> bool {
    forall|i: int| 0 <= i < s.len() ==> #[trigger] s[i] is Dirty
}

/// Dirty pointers to bytes, encoded in order from `base`: the bytes come first, one after
/// another, each saved at `base + i`, which is where the dumper stood before it; then the
/// pointers' words, the `i`-th holding offset `base + i`.
pub proof fn lemma_dirty_bytes_layout(s: Seq<OwnedPtr<u8>>, base: nat)
    requires
        all_dirty(s),
    ensures
        seq_dirty_bytes(s, base) == Seq::new(s.len(), |i: int| *s[i]->Dirty_0),
        seq_blob_bytes(s, base).len() == 8 * s.len(),
        forall|i: int|
            0 <= i < s.len() ==> #[trigger] seq_blob_bytes(s, base).subrange(8 * i, 8 * i + 8)
                == spec_u64_to_le_bytes(offset_word((base + i) as nat)),
    decreases s.len(),
{
    lemma_auto_spec_u64_to_from_le_bytes();
    if s.len() > 0 {
        let p = s.drop_last();
        assert forall|i: int| 0 <= i < p.len() implies #[trigger] p[i] is Dirty by {
            assert(s[i] is Dirty);
        }
        lemma_dirty_bytes_layout(p, base);
        let n = (s.len() - 1) as nat;
        let last = s.last();
        assert(last is Dirty);
        let prefix = seq_dirty_bytes(p, base);
        assert(prefix.len() == n);
        assert(last.dirty_bytes(base + n) =~= seq![*last->Dirty_0]);
        assert(seq_dirty_bytes(s, base) =~= Seq::new(s.len(), |i: int| *s[i]->Dirty_0));
        let blobs = seq_blob_bytes(s, base);
        let pb = seq_blob_bytes(p, base);
        let w = spec_u64_to_le_bytes(offset_word(base + n));
        assert(last.blob_bytes(base + n) == w);
        assert(blobs == pb + w);
        assert forall|i: int| 0 <= i < s.len() implies #[trigger] blobs.subrange(8 * i, 8 * i + 8)
            == spec_u64_to_le_bytes(offset_word((base + i) as nat)) by {
            if i < n {
                assert(blobs.subrange(8 * i, 8 * i + 8) =~= pb.subrange(8 * i, 8 * i + 8));
            } else {
                assert(blobs.subrange(8 * i, 8 * i + 8) =~= w);
            }
        }
    }
}

/// An owned pointer's blob is the word of its pointee's offset; a dirty pointee is written
/// out first, after its own dirty children. Once done, the encoder only remembers the offset.
impl<T: Encode> Encode for OwnedPtr<T> {
    type State = OwnEncoder;

    open spec fn dirty_bytes(&self, base: nat) -> Seq<u8> {
        match *self {
            OwnedPtr::Persistent(_) => seq![],
            OwnedPtr::Dirty(b) => b.dirty_bytes(base) + b.blob_bytes(base),
        }
    }

    open spec fn blob_bytes(&self, base: nat) -> Seq<u8> {
        match *self {
            OwnedPtr::Persistent(o) => spec_u64_to_le_bytes(offset_word(o@)),
            OwnedPtr::Dirty(b) => spec_u64_to_le_bytes(offset_word(dirty_target(*b, base))),
        }
    }

    open spec fn is_init_state(&self, state: OwnEncoder) -> bool {
        match *self {
            OwnedPtr::Persistent(o) => state == OwnEncoder::Done { persist_ptr: o },
            OwnedPtr::Dirty(_) => state == OwnEncoder::Own,
        }
    }

    open spec fn state_wf(&self, state: OwnEncoder) -> bool {
        true
    }

    open spec fn is_done(&self, state: OwnEncoder) -> bool {
        state is Done
    }

    open spec fn same_state(&self, a: OwnEncoder, b: OwnEncoder) -> bool {
        a == b
    }

    open spec fn poll_bytes(&self, state: OwnEncoder, base: nat) -> Seq<u8> {
        match state {
            OwnEncoder::Own => self.dirty_bytes(base),
            OwnEncoder::Done { .. } => seq![],
        }
    }

    open spec fn poll_blob(&self, state: OwnEncoder, base: nat) -> Seq<u8> {
        match state {
            OwnEncoder::Own => self.blob_bytes(base),
            OwnEncoder::Done { persist_ptr } => spec_u64_to_le_bytes(offset_word(persist_ptr@)),
        }
    }

    open spec fn state_blob(&self, state: OwnEncoder) -> Seq<u8> {
        match state {
            OwnEncoder::Own => seq![],
            OwnEncoder::Done { persist_ptr } => spec_u64_to_le_bytes(offset_word(persist_ptr@)),
        }
    }

    proof fn lemma_init_state(&self, state: OwnEncoder, base: nat) {
    }

    proof fn lemma_done_state(&self, state: OwnEncoder, base: nat) {
    }

    fn make_encode_state(&self) -> (r: OwnEncoder) {
        match self {
            OwnedPtr::Persistent(o) => OwnEncoder::Done { persist_ptr: *o },
            OwnedPtr::Dirty(_) => OwnEncoder::Own,
        }
    }

    /// A finished encoder returns at once; otherwise a dirty pointee is written out.
    fn encode_poll(&self, state: &mut OwnEncoder, dumper: &mut VecDumper) {
        if let OwnEncoder::Done { .. } = state {
            assert(dumper@ + seq![] =~= dumper@);
            return;
        }
        match dumper.try_save_ptr(self) {
            Ok(o) => {
                assert(dumper@ + seq![] =~= dumper@);
                *state = OwnEncoder::Done { persist_ptr: o };
            },
            Err(t) => {
                let ghost base = dumper.pos();
                let mut st = t.make_encode_state();
                proof {
                    t.lemma_init_state(st, base);
                }
                t.encode_poll(&mut st, dumper);
                let mut blob: Vec<u8> = Vec::new();
                t.encode_blob(&st, &mut blob);
                assert(blob@ =~= t.blob_bytes(base));
                let o = dumper.save_blob(blob);
                assert(dumper@ =~= old(dumper)@ + self.dirty_bytes(base));
                *state = OwnEncoder::Done { persist_ptr: o };
            },
        }
    }

    fn encode_blob(&self, state: &OwnEncoder, dst: &mut Vec<u8>) {
        match state {
            OwnEncoder::Own => {
                assert(dst@ + seq![] =~= dst@);
            },
            OwnEncoder::Done { persist_ptr } => {
                persist_ptr.write_blob(dst);
            },
        }
    }
}

} // verus!
