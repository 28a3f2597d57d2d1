//! Per-transport dispatch: the outbound queue, the stream-configuration
//! slot, and what each inbound message asks of the board.
use vstd::prelude::*;

use crate::decoder::{feed_spec, lemma_zero_from_bound, FeedOutcome, FeedResult, PackerDecoder};
use crate::wire::{
    Error, Interval, Motors, PacketC2H, PacketH2C, Pong, ProtocolVersionResponse, SetArmed,
    SetSpeed, PROTOCOL_VERSION,
};

verus! {

/// Packets that may wait in a transport's outbound queue.
pub const QUEUE_CAPACITY: usize = 8;

/// Bounded first-in first-out queue of outbound packets. A full queue turns
/// a packet away, giving it back, so that the producer waits instead of
/// losing it.
pub struct PacketQueue {
    items: Vec<PacketC2H>,
}

impl View for PacketQueue {
    type V = Seq<PacketC2H>;

    /// The waiting packets, oldest first.
    closed spec fn view(&self) -> Seq<PacketC2H> {
        self.items@
    }
}

impl PacketQueue {
    pub open spec fn wf(&self) -> bool {
        self@.len() <= QUEUE_CAPACITY
    }

    pub fn new() -> (r: PacketQueue)
        ensures
            r.wf(),
            r@ == Seq::<PacketC2H>::empty(),
    {
        PacketQueue { items: Vec::new() }
    }

    pub fn len(&self) -> (r: usize)
        ensures
            r == self@.len(),
    {
        self.items.len()
    }

    pub fn is_full(&self) -> (r: bool)
        ensures
            r == (self@.len() >= QUEUE_CAPACITY),
    {
        self.items.len() >= QUEUE_CAPACITY
    }

    /// Appends `p` at the back, or gives it back when the queue is full.
    pub fn try_send(&mut self, p: PacketC2H) -> (r: Result<(), PacketC2H>)
        requires
            old(self).wf(),
        ensures
            final(self).wf(),
            old(self)@.len() < QUEUE_CAPACITY ==> r is Ok && final(self)@ == old(self)@.push(p),
            old(self)@.len() >= QUEUE_CAPACITY ==> r == Err::<(), PacketC2H>(p) && final(self)@
                == old(self)@,
    {
        if self.items.len() < QUEUE_CAPACITY {
            self.items.push(p);
            Ok(())
        } else {
            Err(p)
        }
    }

    /// Takes the oldest packet, if any.
    pub fn try_receive(&mut self) -> (r: Option<PacketC2H>)
        ensures
            old(self)@.len() == 0 ==> r is None && final(self)@ == old(self)@,
            old(self)@.len() > 0 ==> r == Some(old(self)@[0]) && final(self)@ == old(self)@.subrange(
                1,
                old(self)@.len() as int,
            ),
    {
        if self.items.len() == 0 {
            None
        } else {
            let p = self.items.remove(0);
            proof {
                assert(self.items@ =~= old(self)@.subrange(1, old(self)@.len() as int));
            }
            Some(p)
        }
    }

    /// Drops every waiting packet, as a reconnect does.
    pub fn clear(&mut self)
        ensures
            final(self).wf(),
            final(self)@ == Seq::<PacketC2H>::empty(),
    {
        self.items.clear();
    }
}

/// Packets leave in the order they came: after `p` is sent to a queue with
/// room holding `q`, a receive returns the oldest packet, which is `p` only
/// when `q` was empty, and what stays behind is the rest of `q` followed by
/// `p`.
pub proof fn lemma_queue_fifo(q: Seq<PacketC2H>, p: PacketC2H)
    requires
        q.len() < QUEUE_CAPACITY,
    ensures
        q.push(p)[0] == (if q.len() == 0 {
            p
        } else {
            q[0]
        }),
        q.push(p).subrange(1, q.len() + 1 as int) == (if q.len() == 0 {
            Seq::<PacketC2H>::empty()
        } else {
            q.subrange(1, q.len() as int).push(p)
        }),
{
    if q.len() > 0 {
        assert(q.push(p).subrange(1, q.len() + 1 as int) =~= q.subrange(1, q.len() as int).push(p));
    } else {
        assert(q.push(p).subrange(1, 1) =~= Seq::<PacketC2H>::empty());
    }
}

/// Single-value slot where the latest value wins: a new value replaces one
/// that nobody has taken yet.
pub struct Slot<T> {
    pending: Option<T>,
}

impl<T> View for Slot<T> {
    type V = Option<T>;

    closed spec fn view(&self) -> Option<T> {
        self.pending
    }
}

impl<T> Slot<T> {
    pub fn new() -> (r: Slot<T>)
        ensures
            r@ is None,
    {
        Slot { pending: None }
    }

    /// Stores `v`, replacing any value not yet taken.
    pub fn signal(&mut self, v: T)
        ensures
            final(self)@ == Some(v),
    {
        self.pending = Some(v);
    }

    /// Takes the pending value, leaving the slot empty.
    pub fn take(&mut self) -> (r: Option<T>)
        ensures
            r == old(self)@,
            final(self)@ is None,
    {
        self.pending.take()
    }

    /// Whether a value is pending; looks without taking it.
    pub fn signaled(&self) -> (r: bool)
        ensures
            r == self@ is Some,
    {
        self.pending.is_some()
    }
}

/// What a `StartStream` asks for: which motors, how often.
#[derive(Clone, Copy, Debug, PartialEq, Eq, Structural)]
pub struct StreamConfig {
    pub motors: Motors,
    pub interval: Interval,
}

/// Shared state of one transport.
pub struct HandlerCtx {
    pub packets: PacketQueue,
    pub streams: Slot<StreamConfig>,
}

impl HandlerCtx {
    pub open spec fn wf(&self) -> bool {
        self.packets.wf()
    }

    pub fn new() -> (r: HandlerCtx)
        ensures
            r.wf(),
            r.packets@ == Seq::<PacketC2H>::empty(),
            r.streams@ is None,
    {
        HandlerCtx { packets: PacketQueue::new(), streams: Slot::new() }
    }
}

impl Default for HandlerCtx {
    fn default() -> (r: HandlerCtx)
        ensures
            r.wf(),
            r.packets@ == Seq::<PacketC2H>::empty(),
            r.streams@ is None,
    {
        HandlerCtx::new()
    }
}

/// What the caller does for an inbound message, beyond the stream slot.
#[derive(Clone, Copy, Debug, PartialEq, Eq, Structural)]
pub enum Command {
    /// Nothing more to do.
    Nothing,
    /// Set the speed of each motor of the mask, ascending ids; nothing
    /// when the motors are not set up yet.
    SetSpeed(SetSpeed),
    /// Feed the watchdog: deadline is now plus the interval.
    FeedWatchdog(Interval),
    /// Tell the watchdog to disarm every motor until the next feed.
    DisableMotors,
    /// Restart into the bootloader; no reply.
    ResetToUsbBoot,
    /// Put this packet on the outbound queue, waiting while it is full.
    Send(PacketC2H),
}

pub open spec fn command_for(p: PacketH2C) -> Command {
    match p {
        PacketH2C::StartStream(_) => Command::Nothing,
        PacketH2C::SetSpeed(s) => Command::SetSpeed(s),
        PacketH2C::Ping(ping) => Command::Send(PacketC2H::Pong(Pong { id: ping.id })),
        PacketH2C::SetArmed(SetArmed::Armed { duration }) => Command::FeedWatchdog(duration),
        PacketH2C::SetArmed(SetArmed::Disarmed) => Command::DisableMotors,
        PacketH2C::ResetToUsbBoot => Command::ResetToUsbBoot,
        PacketH2C::ReadProtocolVersion => Command::Send(
            PacketC2H::ProtocolVersionResponse(ProtocolVersionResponse { version: PROTOCOL_VERSION }),
        ),
        PacketH2C::ReadSoftwareData => Command::Send(PacketC2H::Error(Error::Unimplemented)),
    }
}

/// Dispatches one inbound message: a `StartStream` overwrites the stream
/// slot; every other message leaves the context alone and returns what the
/// caller must do.
pub fn handle_inbound_packet(ctx: &mut HandlerCtx, packet: PacketH2C) -> (r: Command)
    ensures
        r == command_for(packet),
        final(ctx).packets == old(ctx).packets,
        final(ctx).streams@ == (match packet {
            PacketH2C::StartStream(s) => Some(
                StreamConfig { motors: s.motors, interval: s.interval },
            ),
            _ => old(ctx).streams@,
        }),
{
    match packet {
        PacketH2C::StartStream(s) => {
            ctx.streams.signal(StreamConfig { motors: s.motors, interval: s.interval });
            Command::Nothing
        },
        PacketH2C::SetSpeed(s) => Command::SetSpeed(s),
        PacketH2C::Ping(ping) => Command::Send(PacketC2H::Pong(Pong { id: ping.id })),
        PacketH2C::SetArmed(SetArmed::Armed { duration }) => Command::FeedWatchdog(duration),
        PacketH2C::SetArmed(SetArmed::Disarmed) => Command::DisableMotors,
        PacketH2C::ResetToUsbBoot => Command::ResetToUsbBoot,
        PacketH2C::ReadProtocolVersion => Command::Send(
            PacketC2H::ProtocolVersionResponse(ProtocolVersionResponse { version: PROTOCOL_VERSION }),
        ),
        PacketH2C::ReadSoftwareData => Command::Send(PacketC2H::Error(Error::Unimplemented)),
    }
}

/// One thing the decoder produced from the byte stream.
#[derive(Clone, Copy, Debug, PartialEq, Eq, Structural)]
pub enum Inbound {
    Packet(PacketH2C),
    Failed(Error),
}

pub open spec fn command_of(i: Inbound) -> Command {
    match i {
        Inbound::Packet(p) => command_for(p),
        Inbound::Failed(e) => Command::Send(PacketC2H::Error(e)),
    }
}

/// Feeds `input` to a decoder holding `buf` again and again, each time with
/// what the last call left over, until all of it is taken: the bytes then
/// pending and every message or failure on the way, in order.
pub open spec fn inbound_of(buf: Seq<u8>, input: Seq<u8>, cap: nat) -> (Seq<u8>, Seq<Inbound>)
    decreases input.len(), buf.len(),
    via inbound_of_decreases
{
    if input.len() == 0 || cap == 0 || buf.len() > cap {
        (buf, Seq::empty())
    } else {
        let (b, o) = feed_spec::<PacketH2C>(buf, input, cap);
        match o {
            FeedOutcome::Consumed => (b, Seq::empty()),
            FeedOutcome::OverFull(r) => {
                let (b2, e) = inbound_of(b, r, cap);
                (b2, seq![Inbound::Failed(Error::DecodingBufferOverflow)] + e)
            },
            FeedOutcome::DeserError(r) => {
                let (b2, e) = inbound_of(b, r, cap);
                (b2, seq![Inbound::Failed(Error::DecodingError)] + e)
            },
            FeedOutcome::Success(m, r) => {
                let (b2, e) = inbound_of(b, r, cap);
                (b2, seq![Inbound::Packet(m)] + e)
            },
        }
    }
}

#[via_fn]
proof fn inbound_of_decreases(buf: Seq<u8>, input: Seq<u8>, cap: nat) {
    lemma_zero_from_bound(input, 0);
}

/// The stream slot after the messages of `events`, starting from `s0`:
/// the configuration of the last `StartStream`, if any.
pub open spec fn streams_after(events: Seq<Inbound>, s0: Option<StreamConfig>) -> Option<
    StreamConfig,
>
    decreases events.len(),
{
    if events.len() == 0 {
        s0
    } else {
        match events.last() {
            Inbound::Packet(PacketH2C::StartStream(s)) => Some(
                StreamConfig { motors: s.motors, interval: s.interval },
            ),
            _ => streams_after(events.drop_last(), s0),
        }
    }
}

/// Feeds a received chunk through the decoder until all of it is taken,
/// dispatching each message on the way. Returns, in order, what the caller
/// must do: the command of each message, and an `Error` packet to send for
/// each frame that overflowed or did not decode.
pub fn feed_all_and_handle<const N: usize>(
    data: &[u8],
    decoder: &mut PackerDecoder<N>,
    ctx: &mut HandlerCtx,
) -> (r: Vec<Command>)
    requires
        N > 0,
        old(decoder).wf(),
    ensures
        final(decoder).wf(),
        final(decoder)@ == inbound_of(old(decoder)@, data@, N as nat).0,
        r@ == inbound_of(old(decoder)@, data@, N as nat).1.map_values(|i: Inbound| command_of(i)),
        final(ctx).packets == old(ctx).packets,
        final(ctx).streams@ == streams_after(
            inbound_of(old(decoder)@, data@, N as nat).1,
            old(ctx).streams@,
        ),
{
    let mut rest: &[u8] = data;
    let mut out: Vec<Command> = Vec::new();
    let ghost seen: Seq<Inbound> = Seq::empty();
    let ghost start = inbound_of(old(decoder)@, data@, N as nat);
    while rest.len() > 0
        invariant
            N > 0,
            decoder.wf(),
            start == (inbound_of(decoder@, rest@, N as nat).0, seen + inbound_of(
                decoder@,
                rest@,
                N as nat,
            ).1),
            out@ == seen.map_values(|i: Inbound| command_of(i)),
            ctx.packets == old(ctx).packets,
            ctx.streams@ == streams_after(seen, old(ctx).streams@),
        decreases rest@.len(), decoder@.len(),
    {
        let ghost b0 = decoder@;
        let ghost r0 = rest@;
        proof {
            lemma_zero_from_bound(r0, 0);
        }
        let res = decoder.feed::<PacketH2C>(rest);
        let ghost ev: Inbound;
        match res {
            FeedResult::Consumed => {
                rest = vstd::slice::slice_subrange(rest, rest.len(), rest.len());
                proof {
                    assert(seen + Seq::<Inbound>::empty() =~= seen);
                }
            },
            FeedResult::OverFull(r) => {
                proof {
                    ev = Inbound::Failed(Error::DecodingBufferOverflow);
                }
                out.push(Command::Send(PacketC2H::Error(Error::DecodingBufferOverflow)));
                rest = r;
            },
            FeedResult::DeserError(r) => {
                proof {
                    ev = Inbound::Failed(Error::DecodingError);
                }
                out.push(Command::Send(PacketC2H::Error(Error::DecodingError)));
                rest = r;
            },
            FeedResult::Success { data: m, remaining } => {
                proof {
                    ev = Inbound::Packet(m);
                }
                let c = handle_inbound_packet(ctx, m);
                out.push(c);
                rest = remaining;
            },
        }
        proof {
            if !(res is Consumed) {
                let tail = inbound_of(decoder@, rest@, N as nat).1;
                assert(seen + (seq![ev] + tail) =~= seen.push(ev) + tail);
                assert(seen.push(ev).map_values(|i: Inbound| command_of(i)) =~= seen.map_values(
                    |i: Inbound| command_of(i),
                ).push(command_of(ev)));
                assert(seen.push(ev).drop_last() =~= seen);
                seen = seen.push(ev);
            }
        }
    }
    proof {
        assert(seen + Seq::<Inbound>::empty() =~= seen);
    }
    out
}

} // verus!
