//! Incremental frame decoder over a fixed-capacity scratch buffer.
use vstd::prelude::*;

use crate::codec::WireMessage;
use crate::framing::{check_and_parse, cobs_decode_in_place, unframe};

verus! {

/// Index of the first zero byte of `s` at or after `i`, or `s.len()`.
pub open spec fn zero_from(s: Seq<u8>, i: int) -> int
    decreases s.len() - i,
{
    if i < 0 || i >= s.len() {
        s.len() as int
    } else if s[i] == 0 {
        i
    } else {
        zero_from(s, i + 1)
    }
}

/// What one call of `feed` reports, with the unread input as a sequence.
pub enum FeedOutcome<T> {
    Consumed,
    OverFull(Seq<u8>),
    DeserError(Seq<u8>),
    Success(T, Seq<u8>),
}

/// Pending bytes and outcome after feeding `input` to a decoder of capacity
/// `cap` that held `buf`.
pub open spec fn feed_spec<T: WireMessage>(buf: Seq<u8>, input: Seq<u8>, cap: nat) -> (
    Seq<u8>,
    FeedOutcome<T>,
) {
    let z = zero_from(input, 0);
    if input.len() == 0 {
        (buf, FeedOutcome::Consumed)
    } else if z < input.len() {
        let rest = input.subrange(z + 1, input.len() as int);
        if buf.len() + z + 1 <= cap {
            match unframe::<T>(buf + input.subrange(0, z + 1)) {
                Some(m) => (Seq::empty(), FeedOutcome::Success(m, rest)),
                None => (Seq::empty(), FeedOutcome::DeserError(rest)),
            }
        } else {
            (Seq::empty(), FeedOutcome::OverFull(rest))
        }
    } else if buf.len() + input.len() > cap {
        (Seq::empty(), FeedOutcome::OverFull(input.subrange(cap - buf.len(), input.len() as int)))
    } else {
        (buf + input, FeedOutcome::Consumed)
    }
}

/// The result of feeding the decoder.
pub enum FeedResult<'a, T> {
    /// All input was taken; the frame is still incomplete.
    Consumed,
    /// The frame did not fit and was dropped. Holds the input left over.
    OverFull(&'a [u8]),
    /// A frame ended but did not hold a valid message. Holds the input left over.
    DeserError(&'a [u8]),
    /// A frame ended and held `data`. `remaining` is the input after it.
    Success { data: T, remaining: &'a [u8] },
}

impl<'a, T> FeedResult<'a, T> {
    pub open spec fn outcome(&self) -> FeedOutcome<T> {
        match self {
            FeedResult::Consumed => FeedOutcome::Consumed,
            FeedResult::OverFull(rest) => FeedOutcome::OverFull(rest@),
            FeedResult::DeserError(rest) => FeedOutcome::DeserError(rest@),
            FeedResult::Success { data, remaining } => FeedOutcome::Success(*data, remaining@),
        }
    }
}

/// Accumulates bytes until a zero terminator, then unstuffs, checks and
/// parses the frame. Holds at most `N` bytes of an unfinished frame.
pub struct PackerDecoder<const N: usize> {
    buf: Vec<u8>,
}

impl<const N: usize> View for PackerDecoder<N> {
    type V = Seq<u8>;

    /// The bytes of the unfinished frame.
    closed spec fn view(&self) -> Seq<u8> {
        self.buf@
    }
}

impl<const N: usize> Default for PackerDecoder<N> {
    fn default() -> (r: Self)
        ensures
            r.wf(),
            r@ == Seq::<u8>::empty(),
    {
        Self::new()
    }
}

impl<const N: usize> PackerDecoder<N> {
    pub open spec fn wf(&self) -> bool {
        self@.len() <= N
    }

    pub fn new() -> (r: Self)
        ensures
            r.wf(),
            r@ == Seq::<u8>::empty(),
    {
        PackerDecoder { buf: Vec::with_capacity(N) }
    }

    /// Drops any unfinished frame.
    pub fn reset(&mut self)
        ensures
            final(self).wf(),
            final(self)@ == Seq::<u8>::empty(),
    {
        self.buf.clear();
    }

    /// Takes input up to and including the first zero byte, if any, and
    /// reports what became of it; the caller feeds what is left again.
    pub fn feed<'a, T: WireMessage>(&mut self, input: &'a [u8]) -> (r: FeedResult<'a, T>)
        requires
            old(self).wf(),
        ensures
            final(self).wf(),
            (final(self)@, r.outcome()) == feed_spec::<T>(old(self)@, input@, N as nat),
    {
        self.feed_ref(input)
    }

    /// Same as `feed`.
    pub fn feed_ref<'a, T: WireMessage>(&mut self, input: &'a [u8]) -> (r: FeedResult<'a, T>)
        requires
            old(self).wf(),
        ensures
            final(self).wf(),
            (final(self)@, r.outcome()) == feed_spec::<T>(old(self)@, input@, N as nat),
    {
        let len = input.len();
        if len == 0 {
            return FeedResult::Consumed;
        }
        let mut z: usize = 0;
        while z < len && input[z] != 0
            invariant
                z <= len,
                len == input@.len(),
                zero_from(input@, 0) == zero_from(input@, z as int),
            decreases len - z,
        {
            z = z + 1;
        }
        let idx = self.buf.len();
        if z < len {
            let rest = vstd::slice::slice_subrange(input, z + 1, len);
            if z + 1 <= N - idx {
                let take = vstd::slice::slice_subrange(input, 0, z + 1);
                self.buf.extend_from_slice(take);
                let ghost raw = self.buf@;
                let res = match cobs_decode_in_place(&mut self.buf) {
                    Ok(n) => check_and_parse::<T>(vstd::slice::slice_subrange(self.buf.as_slice(), 0, n)),
                    Err(_) => None,
                };
                proof {
                    assert(raw =~= old(self)@ + input@.subrange(0, z + 1));
                }
                self.buf.clear();
                match res {
                    Some(data) => FeedResult::Success { data, remaining: rest },
                    None => FeedResult::DeserError(rest),
                }
            } else {
                self.buf.clear();
                FeedResult::OverFull(rest)
            }
        } else if len > N - idx {
            let start = N - idx;
            self.buf.clear();
            FeedResult::OverFull(vstd::slice::slice_subrange(input, start, len))
        } else {
            self.buf.extend_from_slice(input);
            FeedResult::Consumed
        }
    }
}

pub(crate) proof fn lemma_zero_from_bound(s: Seq<u8>, i: int)
    requires
        0 <= i <= s.len(),
    ensures
        i <= zero_from(s, i) <= s.len(),
        zero_from(s, i) < s.len() ==> s[zero_from(s, i)] == 0,
    decreases s.len() - i,
{
    if i < s.len() && s[i] != 0 {
        lemma_zero_from_bound(s, i + 1);
    }
}

/// Input left over after a feed.
pub open spec fn leftover<T>(o: FeedOutcome<T>) -> Option<Seq<u8>> {
    match o {
        FeedOutcome::Consumed => None,
        FeedOutcome::OverFull(r) => Some(r),
        FeedOutcome::DeserError(r) => Some(r),
        FeedOutcome::Success(_, r) => Some(r),
    }
}

/// Whatever the input, a feed keeps the pending bytes within capacity, and
/// what it hands back is a tail of the input, shorter than the input
/// unless a full buffer was just dropped.
pub proof fn lemma_feed_in_bounds<T: WireMessage>(buf: Seq<u8>, input: Seq<u8>, cap: nat)
    requires
        buf.len() <= cap,
    ensures
        feed_spec::<T>(buf, input, cap).0.len() <= cap,
        leftover(feed_spec::<T>(buf, input, cap).1) matches Some(r) ==> r.len() <= input.len()
            && r == input.subrange(input.len() - r.len(), input.len() as int) && (r.len()
            < input.len() || buf.len() == cap),
{
    lemma_zero_from_bound(input, 0);
    let z = zero_from(input, 0);
    if input.len() > 0 && z < input.len() {
        let r = input.subrange(z + 1, input.len() as int);
        assert(r == input.subrange(input.len() - r.len(), input.len() as int));
    } else if input.len() > 0 && buf.len() + input.len() > cap {
        let r = input.subrange(cap - buf.len(), input.len() as int);
        assert(r == input.subrange(input.len() - r.len(), input.len() as int));
    }
}

proof fn lemma_zero_from(s: Seq<u8>, i: int, k: int)
    requires
        0 <= i <= k <= s.len(),
        forall|j: int| i <= j < k ==> s[j] != 0,
        k < s.len() ==> s[k] == 0,
    ensures
        zero_from(s, i) == k,
    decreases k - i,
{
    if i < k {
        lemma_zero_from(s, i + 1, k);
    }
}

/// Whether `frame` is a complete frame of `m` that fits a decoder of
/// capacity `cap`: it ends in its only zero byte and unframes to `m`. The
/// frames that `encode_packet` writes are of this kind.
pub open spec fn is_frame_of<T: WireMessage>(frame: Seq<u8>, m: T, cap: nat) -> bool {
    &&& 1 <= frame.len() <= cap
    &&& frame[frame.len() - 1] == 0
    &&& forall|i: int| 0 <= i < frame.len() - 1 ==> frame[i] != 0
    &&& unframe::<T>(frame) == Some(m)
}

/// An empty decoder fed a frame of `m` followed by any bytes reports `m`,
/// hands back exactly the bytes after the frame, and is empty again.
pub proof fn lemma_decode_frame<T: WireMessage>(frame: Seq<u8>, m: T, rest: Seq<u8>, cap: nat)
    requires
        is_frame_of(frame, m, cap),
    ensures
        feed_spec::<T>(Seq::empty(), frame + rest, cap) == (
            Seq::<u8>::empty(),
            FeedOutcome::Success(m, rest),
        ),
{
    let input = frame + rest;
    let k = frame.len() - 1;
    lemma_zero_from(input, 0, k);
    assert(input.subrange(k + 1, input.len() as int) =~= rest);
    assert(Seq::<u8>::empty() + input.subrange(0, k + 1) =~= frame);
}

/// A frame of `m` cut in two at any inner point: the first part is taken
/// whole and reported `Consumed`; the second completes the frame and
/// yields `m` with nothing left over.
pub proof fn lemma_split_frame<T: WireMessage>(frame: Seq<u8>, m: T, cut: int, cap: nat)
    requires
        is_frame_of(frame, m, cap),
        0 < cut < frame.len(),
    ensures
        feed_spec::<T>(Seq::empty(), frame.subrange(0, cut), cap) == (
            frame.subrange(0, cut),
            FeedOutcome::<T>::Consumed,
        ),
        feed_spec::<T>(frame.subrange(0, cut), frame.subrange(cut, frame.len() as int), cap) == (
            Seq::<u8>::empty(),
            FeedOutcome::Success(m, Seq::<u8>::empty()),
        ),
{
    let first = frame.subrange(0, cut);
    let second = frame.subrange(cut, frame.len() as int);
    lemma_zero_from(first, 0, cut);
    assert(Seq::<u8>::empty() + first =~= first);
    let k = frame.len() - 1 - cut;
    lemma_zero_from(second, 0, k);
    assert(second.subrange(k + 1, second.len() as int) =~= Seq::<u8>::empty());
    assert(first + second.subrange(0, k + 1) =~= frame);
}

/// `cap + 1` bytes without a terminator overflow an empty decoder of
/// capacity `cap`: the report is `OverFull` with the last byte left over,
/// the decoder is empty, and a frame fed next decodes.
pub proof fn lemma_overflow_recovers<T: WireMessage>(
    input: Seq<u8>,
    frame: Seq<u8>,
    m: T,
    cap: nat,
)
    requires
        input.len() == cap + 1,
        forall|i: int| 0 <= i < input.len() ==> input[i] != 0,
        is_frame_of(frame, m, cap),
    ensures
        feed_spec::<T>(Seq::empty(), input, cap) == (
            Seq::<u8>::empty(),
            FeedOutcome::<T>::OverFull(input.subrange(cap as int, cap + 1 as int)),
        ),
        feed_spec::<T>(Seq::empty(), frame, cap) == (
            Seq::<u8>::empty(),
            FeedOutcome::Success(m, Seq::<u8>::empty()),
        ),
{
    lemma_zero_from(input, 0, input.len() as int);
    lemma_decode_frame(frame, m, Seq::empty(), cap);
    assert(frame + Seq::<u8>::empty() =~= frame);
}

} // verus!
