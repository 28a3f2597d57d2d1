//! Byte layout of a message, before checksum and stuffing.
//!
//! Each message is its variant tag followed by its fields in declaration
//! order. Tags and multi-byte integers are LEB128 varints (low seven bits
//! first, high bit set on every byte but the last), signed integers are
//! zigzag-mapped first, a `u8` or a mask is one byte, a `bool` is `0` or `1`.
//! This is the layout that postcard gives these types, so a host written
//! with postcard and serde reads and writes the same bytes.
use vstd::prelude::*;

use crate::wire::{
    CurrentDraw, Error, Interval, MotorState, Motors, PacketC2H, PacketH2C, Ping, Pong,
    ProtocolVersionResponse, SetArmed, SetSpeed, SoftwareDataResponse, Speed, StartStream,
};

verus! {

/// No message takes more bytes than this before checksum and stuffing.
pub const MAX_MESSAGE_LEN: usize = 10;

/// A message type with a byte layout: what it serializes to, what a byte
/// string parses to, and the law that joins the two.
pub trait WireMessage: Sized {
    /// The message that `b` holds, if `b` holds exactly one.
    spec fn spec_parse(b: Seq<u8>) -> Option<Self>;

    /// The bytes of this message.
    spec fn spec_serialize(self) -> Seq<u8>;

    fn parse(b: &[u8]) -> (r: Option<Self>)
        ensures
            r == Self::spec_parse(b@),
    ;

    fn serialize_into(&self, out: &mut Vec<u8>)
        ensures
            final(out)@ == old(out)@ + self.spec_serialize(),
    ;

    /// Parsing the bytes of a message gives the message back, and those
    /// bytes are never longer than `MAX_MESSAGE_LEN`.
    proof fn lemma_parse_serialize(self)
        ensures
            Self::spec_parse(self.spec_serialize()) == Some(self),
            self.spec_serialize().len() <= MAX_MESSAGE_LEN,
    ;
}

/// LEB128 varint of `v`.
pub open spec fn varint(v: nat) -> Seq<u8>
    decreases v,
{
    if v < 128 {
        seq![v as u8]
    } else {
        seq![(v % 128 + 128) as u8] + varint(v / 128)
    }
}

pub open spec fn pow128(k: nat) -> nat
    decreases k,
{
    if k == 0 {
        1
    } else {
        128 * pow128((k - 1) as nat)
    }
}

/// Reads a varint of at most `max_bytes` bytes at `pos`: its value and the
/// position after it.
pub open spec fn take_varint(b: Seq<u8>, pos: int, max_bytes: nat) -> Option<(nat, int)>
    decreases max_bytes,
{
    if pos < 0 || pos >= b.len() || max_bytes == 0 {
        None
    } else if b[pos] < 128 {
        Some((b[pos] as nat, pos + 1))
    } else {
        match take_varint(b, pos + 1, (max_bytes - 1) as nat) {
            Some((v, next)) => Some(((b[pos] - 128) as nat + 128 * v, next)),
            None => None,
        }
    }
}

proof fn lemma_take_varint_bound(b: Seq<u8>, pos: int, k: nat)
    ensures
        take_varint(b, pos, k) matches Some((v, n)) ==> v < pow128(k) && pos < n <= b.len(),
    decreases k,
{
    if k > 0 && 0 <= pos < b.len() {
        lemma_pow128_pos((k - 1) as nat);
        if b[pos] >= 128 {
            lemma_take_varint_bound(b, pos + 1, (k - 1) as nat);
        }
    }
}

proof fn lemma_pow128_pos(k: nat)
    ensures
        pow128(k) >= 1,
    decreases k,
{
    if k > 0 {
        lemma_pow128_pos((k - 1) as nat);
    }
}

proof fn lemma_varint_len(v: nat)
    ensures
        varint(v).len() >= 1,
        v < 128 ==> varint(v).len() == 1,
        v < 16384 ==> varint(v).len() <= 2,
        v < 65536 ==> varint(v).len() <= 3,
    decreases v,
{
    if v >= 128 {
        lemma_varint_len(v / 128);
    }
}

proof fn lemma_take_varint(pre: Seq<u8>, v: nat, post: Seq<u8>, k: nat)
    requires
        k >= 1,
        v < pow128(k),
    ensures
        take_varint(pre + varint(v) + post, pre.len() as int, k) == Some(
            (v, (pre.len() + varint(v).len()) as int),
        ),
    decreases v,
{
    let b = pre + varint(v) + post;
    if v < 128 {
        assert(b[pre.len() as int] == v as u8);
    } else {
        let x = (v % 128 + 128) as u8;
        let pre2 = pre.push(x);
        assert(b =~= pre2 + varint(v / 128) + post);
        assert(b[pre.len() as int] == x);
        assert(v / 128 < pow128((k - 1) as nat)) by (nonlinear_arith)
            requires
                v < 128 * pow128((k - 1) as nat),
                k >= 1,
        ;
        if k == 1 {
            assert(pow128(0) == 1);
        }
        lemma_take_varint(pre2, v / 128, post, (k - 1) as nat);
    }
}

// Fields.

pub open spec fn zigzag(x: i16) -> nat {
    if x >= 0 {
        (2 * x) as nat
    } else {
        (-2 * x - 1) as nat
    }
}

pub open spec fn unzigzag(z: nat) -> int {
    if z % 2 == 0 {
        (z / 2) as int
    } else {
        -((z + 1) / 2)
    }
}

pub open spec fn ser_bool(x: bool) -> Seq<u8> {
    if x {
        seq![1u8]
    } else {
        seq![0u8]
    }
}

pub open spec fn parse_u8(b: Seq<u8>, pos: int) -> Option<(u8, int)> {
    if 0 <= pos < b.len() {
        Some((b[pos], pos + 1))
    } else {
        None
    }
}

pub open spec fn parse_bool(b: Seq<u8>, pos: int) -> Option<(bool, int)> {
    if 0 <= pos < b.len() && b[pos] <= 1 {
        Some((b[pos] == 1, pos + 1))
    } else {
        None
    }
}

pub open spec fn parse_u16(b: Seq<u8>, pos: int) -> Option<(u16, int)> {
    match take_varint(b, pos, 3) {
        Some((v, n)) => if v <= u16::MAX {
            Some((v as u16, n))
        } else {
            None
        },
        None => None,
    }
}

pub open spec fn parse_i16(b: Seq<u8>, pos: int) -> Option<(i16, int)> {
    match parse_u16(b, pos) {
        Some((z, n)) => Some((unzigzag(z as nat) as i16, n)),
        None => None,
    }
}

/// A variant tag: a `u32` varint.
pub open spec fn parse_tag(b: Seq<u8>, pos: int) -> Option<(nat, int)> {
    match take_varint(b, pos, 5) {
        Some((v, n)) => if v <= u32::MAX {
            Some((v, n))
        } else {
            None
        },
        None => None,
    }
}

proof fn lemma_parse_u8(pre: Seq<u8>, x: u8, post: Seq<u8>)
    ensures
        parse_u8(pre + seq![x] + post, pre.len() as int) == Some((x, pre.len() + 1 as int)),
{
    assert((pre + seq![x] + post)[pre.len() as int] == x);
}

proof fn lemma_parse_bool(pre: Seq<u8>, x: bool, post: Seq<u8>)
    ensures
        ser_bool(x).len() == 1,
        parse_bool(pre + ser_bool(x) + post, pre.len() as int) == Some((x, pre.len() + 1 as int)),
{
    assert((pre + ser_bool(x) + post)[pre.len() as int] == ser_bool(x)[0]);
}

proof fn lemma_parse_u16(pre: Seq<u8>, x: u16, post: Seq<u8>)
    ensures
        parse_u16(pre + varint(x as nat) + post, pre.len() as int) == Some(
            (x, (pre.len() + varint(x as nat).len()) as int),
        ),
{
    reveal_with_fuel(pow128, 4);
    lemma_take_varint(pre, x as nat, post, 3);
}

proof fn lemma_parse_i16(pre: Seq<u8>, x: i16, post: Seq<u8>)
    ensures
        zigzag(x) <= u16::MAX,
        parse_i16(pre + varint(zigzag(x)) + post, pre.len() as int) == Some(
            (x, (pre.len() + varint(zigzag(x)).len()) as int),
        ),
{
    lemma_parse_u16(pre, zigzag(x) as u16, post);
}

proof fn lemma_parse_tag(pre: Seq<u8>, t: nat, post: Seq<u8>)
    requires
        t < 128,
    ensures
        varint(t) == seq![t as u8],
        parse_tag(pre + varint(t) + post, pre.len() as int) == Some((t, pre.len() + 1 as int)),
{
    reveal_with_fuel(pow128, 6);
    lemma_take_varint(pre, t, post, 5);
}

// Executable field readers and writers.

fn take_varint_at(b: &[u8], pos: usize, max_bytes: usize) -> (r: Option<(u64, usize)>)
    requires
        max_bytes <= 5,
    ensures
        match r {
            Some((v, n)) => take_varint(b@, pos as int, max_bytes as nat) == Some(
                (v as nat, n as int),
            ),
            None => take_varint(b@, pos as int, max_bytes as nat) is None,
        },
    decreases max_bytes,
{
    if pos >= b.len() || max_bytes == 0 {
        return None;
    }
    let x = b[pos];
    if x < 128 {
        return Some((x as u64, pos + 1));
    }
    match take_varint_at(b, pos + 1, max_bytes - 1) {
        Some((v, n)) => {
            proof {
                lemma_take_varint_bound(b@, pos + 1, (max_bytes - 1) as nat);
                reveal_with_fuel(pow128, 5);
            }
            Some(((x - 128) as u64 + 128 * v, n))
        },
        None => None,
    }
}

fn read_u8(b: &[u8], pos: usize) -> (r: Option<(u8, usize)>)
    ensures
        match r {
            Some((v, n)) => parse_u8(b@, pos as int) == Some((v, n as int)),
            None => parse_u8(b@, pos as int) is None,
        },
{
    if pos < b.len() {
        Some((b[pos], pos + 1))
    } else {
        None
    }
}

fn read_bool(b: &[u8], pos: usize) -> (r: Option<(bool, usize)>)
    ensures
        match r {
            Some((v, n)) => parse_bool(b@, pos as int) == Some((v, n as int)),
            None => parse_bool(b@, pos as int) is None,
        },
{
    if pos < b.len() && b[pos] <= 1 {
        Some((b[pos] == 1, pos + 1))
    } else {
        None
    }
}

fn read_u16(b: &[u8], pos: usize) -> (r: Option<(u16, usize)>)
    ensures
        match r {
            Some((v, n)) => parse_u16(b@, pos as int) == Some((v, n as int)),
            None => parse_u16(b@, pos as int) is None,
        },
{
    match take_varint_at(b, pos, 3) {
        Some((v, n)) => if v <= 0xffff {
            Some((v as u16, n))
        } else {
            None
        },
        None => None,
    }
}

fn read_i16(b: &[u8], pos: usize) -> (r: Option<(i16, usize)>)
    ensures
        match r {
            Some((v, n)) => parse_i16(b@, pos as int) == Some((v, n as int)),
            None => parse_i16(b@, pos as int) is None,
        },
{
    match read_u16(b, pos) {
        Some((z, n)) => {
            let v: i16 = if z % 2 == 0 {
                (z / 2) as i16
            } else {
                (-(((z as i32) + 1) / 2)) as i16
            };
            Some((v, n))
        },
        None => None,
    }
}

fn read_tag(b: &[u8], pos: usize) -> (r: Option<(u32, usize)>)
    ensures
        match r {
            Some((v, n)) => parse_tag(b@, pos as int) == Some((v as nat, n as int)),
            None => parse_tag(b@, pos as int) is None,
        },
{
    match take_varint_at(b, pos, 5) {
        Some((v, n)) => if v <= 0xffff_ffff {
            Some((v as u32, n))
        } else {
            None
        },
        None => None,
    }
}

fn write_varint(out: &mut Vec<u8>, v: u32)
    ensures
        final(out)@ == old(out)@ + varint(v as nat),
{
    let mut rest: u32 = v;
    while rest >= 128
        invariant
            out@ + varint(rest as nat) == old(out)@ + varint(v as nat),
        decreases rest,
    {
        let ghost before = out@;
        out.push((rest % 128 + 128) as u8);
        proof {
            assert(before + varint(rest as nat) =~= out@ + varint((rest / 128) as nat));
        }
        rest = rest / 128;
    }
    out.push(rest as u8);
}

fn write_bool(out: &mut Vec<u8>, x: bool)
    ensures
        final(out)@ == old(out)@ + ser_bool(x),
{
    out.push(if x { 1u8 } else { 0u8 });
    assert(out@ =~= old(out)@ + ser_bool(x));
}

fn write_i16(out: &mut Vec<u8>, x: i16)
    ensures
        final(out)@ == old(out)@ + varint(zigzag(x)),
{
    let z: u32 = if x >= 0 {
        (x as u32) * 2
    } else {
        ((-(x as i32)) * 2 - 1) as u32
    };
    write_varint(out, z);
}

// Host to board.

pub open spec fn ser_h2c(m: PacketH2C) -> Seq<u8> {
    match m {
        PacketH2C::ResetToUsbBoot => varint(0),
        PacketH2C::ReadProtocolVersion => varint(1),
        PacketH2C::Ping(p) => varint(2) + seq![p.id],
        PacketH2C::ReadSoftwareData => varint(3),
        PacketH2C::StartStream(s) => varint(4) + seq![s.motors.bits] + varint(s.interval.0 as nat),
        PacketH2C::SetSpeed(s) => varint(5) + seq![s.motors.bits] + varint(zigzag(s.speed.0)),
        PacketH2C::SetArmed(SetArmed::Armed { duration }) => varint(6) + varint(0) + varint(
            duration.0 as nat,
        ),
        PacketH2C::SetArmed(SetArmed::Disarmed) => varint(6) + varint(1),
    }
}

pub open spec fn parse_h2c_at(b: Seq<u8>, pos: int) -> Option<(PacketH2C, int)> {
    match parse_tag(b, pos) {
        None => None,
        Some((t, p)) => if t == 0 {
            Some((PacketH2C::ResetToUsbBoot, p))
        } else if t == 1 {
            Some((PacketH2C::ReadProtocolVersion, p))
        } else if t == 2 {
            match parse_u8(b, p) {
                Some((id, q)) => Some((PacketH2C::Ping(Ping { id }), q)),
                None => None,
            }
        } else if t == 3 {
            Some((PacketH2C::ReadSoftwareData, p))
        } else if t == 4 {
            match parse_u8(b, p) {
                Some((bits, q)) => match parse_u16(b, q) {
                    Some((iv, e)) => Some(
                        (
                            PacketH2C::StartStream(
                                StartStream { motors: Motors { bits }, interval: Interval(iv) },
                            ),
                            e,
                        ),
                    ),
                    None => None,
                },
                None => None,
            }
        } else if t == 5 {
            match parse_u8(b, p) {
                Some((bits, q)) => match parse_i16(b, q) {
                    Some((sp, e)) => Some(
                        (
                            PacketH2C::SetSpeed(
                                SetSpeed { motors: Motors { bits }, speed: Speed(sp) },
                            ),
                            e,
                        ),
                    ),
                    None => None,
                },
                None => None,
            }
        } else if t == 6 {
            match parse_tag(b, p) {
                Some((a, q)) => if a == 0 {
                    match parse_u16(b, q) {
                        Some((d, e)) => Some(
                            (PacketH2C::SetArmed(SetArmed::Armed { duration: Interval(d) }), e),
                        ),
                        None => None,
                    }
                } else if a == 1 {
                    Some((PacketH2C::SetArmed(SetArmed::Disarmed), q))
                } else {
                    None
                },
                None => None,
            }
        } else {
            None
        },
    }
}

/// Whole-input parse: one message and nothing after it.
pub open spec fn parse_whole<T>(r: Option<(T, int)>, len: nat) -> Option<T> {
    match r {
        Some((m, n)) => if n == len {
            Some(m)
        } else {
            None
        },
        None => None,
    }
}

fn read_h2c(b: &[u8]) -> (r: Option<(PacketH2C, usize)>)
    ensures
        match r {
            Some((m, n)) => parse_h2c_at(b@, 0) == Some((m, n as int)),
            None => parse_h2c_at(b@, 0) is None,
        },
{
    let (t, p) = match read_tag(b, 0) {
        Some(x) => x,
        None => return None,
    };
    if t == 0 {
        Some((PacketH2C::ResetToUsbBoot, p))
    } else if t == 1 {
        Some((PacketH2C::ReadProtocolVersion, p))
    } else if t == 2 {
        match read_u8(b, p) {
            Some((id, q)) => Some((PacketH2C::Ping(Ping { id }), q)),
            None => None,
        }
    } else if t == 3 {
        Some((PacketH2C::ReadSoftwareData, p))
    } else if t == 4 {
        match read_u8(b, p) {
            Some((bits, q)) => match read_u16(b, q) {
                Some((iv, e)) => Some(
                    (
                        PacketH2C::StartStream(
                            StartStream { motors: Motors { bits }, interval: Interval(iv) },
                        ),
                        e,
                    ),
                ),
                None => None,
            },
            None => None,
        }
    } else if t == 5 {
        match read_u8(b, p) {
            Some((bits, q)) => match read_i16(b, q) {
                Some((sp, e)) => Some(
                    (PacketH2C::SetSpeed(SetSpeed { motors: Motors { bits }, speed: Speed(sp) }), e),
                ),
                None => None,
            },
            None => None,
        }
    } else if t == 6 {
        match read_tag(b, p) {
            Some((a, q)) => if a == 0 {
                match read_u16(b, q) {
                    Some((d, e)) => Some(
                        (PacketH2C::SetArmed(SetArmed::Armed { duration: Interval(d) }), e),
                    ),
                    None => None,
                }
            } else if a == 1 {
                Some((PacketH2C::SetArmed(SetArmed::Disarmed), q))
            } else {
                None
            },
            None => None,
        }
    } else {
        None
    }
}

impl WireMessage for PacketH2C {
    open spec fn spec_parse(b: Seq<u8>) -> Option<PacketH2C> {
        parse_whole(parse_h2c_at(b, 0), b.len())
    }

    open spec fn spec_serialize(self) -> Seq<u8> {
        ser_h2c(self)
    }

    fn parse(b: &[u8]) -> (r: Option<PacketH2C>) {
        match read_h2c(b) {
            Some((m, n)) => if n == b.len() {
                Some(m)
            } else {
                None
            },
            None => None,
        }
    }

    fn serialize_into(&self, out: &mut Vec<u8>) {
        match *self {
            PacketH2C::ResetToUsbBoot => write_varint(out, 0),
            PacketH2C::ReadProtocolVersion => write_varint(out, 1),
            PacketH2C::Ping(p) => {
                write_varint(out, 2);
                out.push(p.id);
            },
            PacketH2C::ReadSoftwareData => write_varint(out, 3),
            PacketH2C::StartStream(s) => {
                write_varint(out, 4);
                out.push(s.motors.bits);
                write_varint(out, s.interval.0 as u32);
            },
            PacketH2C::SetSpeed(s) => {
                write_varint(out, 5);
                out.push(s.motors.bits);
                write_i16(out, s.speed.0);
            },
            PacketH2C::SetArmed(SetArmed::Armed { duration }) => {
                write_varint(out, 6);
                write_varint(out, 0);
                write_varint(out, duration.0 as u32);
            },
            PacketH2C::SetArmed(SetArmed::Disarmed) => {
                write_varint(out, 6);
                write_varint(out, 1);
            },
        }
        assert(out@ =~= old(out)@ + ser_h2c(*self));
    }

    proof fn lemma_parse_serialize(self) {
        let b = ser_h2c(self);
        let e = Seq::<u8>::empty();
        match self {
            PacketH2C::Ping(p) => {
                lemma_parse_tag(e, 2, seq![p.id]);
                assert(b =~= e + varint(2) + seq![p.id]);
                lemma_parse_u8(varint(2), p.id, e);
                assert(b =~= varint(2) + seq![p.id] + e);
            },
            PacketH2C::StartStream(s) => {
                let iv = varint(s.interval.0 as nat);
                lemma_varint_len(s.interval.0 as nat);
                lemma_parse_tag(e, 4, seq![s.motors.bits] + iv);
                assert(b =~= e + varint(4) + (seq![s.motors.bits] + iv));
                lemma_parse_u8(varint(4), s.motors.bits, iv);
                assert(b =~= varint(4) + seq![s.motors.bits] + iv);
                lemma_parse_u16(varint(4) + seq![s.motors.bits], s.interval.0, e);
                assert(b =~= varint(4) + seq![s.motors.bits] + iv + e);
            },
            PacketH2C::SetSpeed(s) => {
                let sp = varint(zigzag(s.speed.0));
                lemma_parse_i16(e, s.speed.0, e);
                lemma_varint_len(zigzag(s.speed.0));
                lemma_parse_tag(e, 5, seq![s.motors.bits] + sp);
                assert(b =~= e + varint(5) + (seq![s.motors.bits] + sp));
                lemma_parse_u8(varint(5), s.motors.bits, sp);
                assert(b =~= varint(5) + seq![s.motors.bits] + sp);
                lemma_parse_i16(varint(5) + seq![s.motors.bits], s.speed.0, e);
                assert(b =~= varint(5) + seq![s.motors.bits] + sp + e);
            },
            PacketH2C::SetArmed(SetArmed::Armed { duration }) => {
                let d = varint(duration.0 as nat);
                lemma_varint_len(duration.0 as nat);
                lemma_parse_tag(e, 6, varint(0) + d);
                assert(b =~= e + varint(6) + (varint(0) + d));
                lemma_parse_tag(varint(6), 0, d);
                assert(b =~= varint(6) + varint(0) + d);
                lemma_parse_u16(varint(6) + varint(0), duration.0, e);
                assert(b =~= varint(6) + varint(0) + d + e);
            },
            PacketH2C::SetArmed(SetArmed::Disarmed) => {
                lemma_parse_tag(e, 6, varint(1));
                assert(b =~= e + varint(6) + varint(1));
                lemma_parse_tag(varint(6), 1, e);
                assert(b =~= varint(6) + varint(1) + e);
            },
            PacketH2C::ResetToUsbBoot => {
                lemma_parse_tag(e, 0, e);
                assert(b =~= e + varint(0) + e);
            },
            PacketH2C::ReadProtocolVersion => {
                lemma_parse_tag(e, 1, e);
                assert(b =~= e + varint(1) + e);
            },
            PacketH2C::ReadSoftwareData => {
                lemma_parse_tag(e, 3, e);
                assert(b =~= e + varint(3) + e);
            },
        }
    }
}

// Board to host.

pub open spec fn error_tag(e: Error) -> nat {
    match e {
        Error::DecodingError => 0,
        Error::DecodingBufferOverflow => 1,
        Error::Unimplemented => 2,
        Error::Unknown => 3,
    }
}

/// Error kinds this build does not know read as `Unknown`.
pub open spec fn error_of_tag(t: nat) -> Error {
    if t == 0 {
        Error::DecodingError
    } else if t == 1 {
        Error::DecodingBufferOverflow
    } else if t == 2 {
        Error::Unimplemented
    } else {
        Error::Unknown
    }
}

pub open spec fn ser_motor_state(s: MotorState) -> Seq<u8> {
    seq![s.motor_id] + varint(zigzag(s.last_speed.0)) + varint(s.current_draw.0 as nat) + ser_bool(
        s.is_fault,
    ) + ser_bool(s.is_enabled)
}

pub open spec fn ser_c2h(m: PacketC2H) -> Seq<u8> {
    match m {
        PacketC2H::ProtocolVersionResponse(r) => varint(0) + varint(r.version as nat),
        PacketC2H::Error(e) => varint(1) + varint(error_tag(e)),
        PacketC2H::Pong(p) => varint(2) + seq![p.id],
        PacketC2H::SoftwareDataResponse(r) => varint(3) + varint(r.version as nat),
        PacketC2H::MotorState(s) => varint(4) + ser_motor_state(s),
    }
}

pub open spec fn parse_motor_state_at(b: Seq<u8>, pos: int) -> Option<(MotorState, int)> {
    match parse_u8(b, pos) {
        None => None,
        Some((motor_id, after_id)) => match parse_i16(b, after_id) {
            None => None,
            Some((sp, after_speed)) => match parse_u16(b, after_speed) {
                None => None,
                Some((cur, after_current)) => match parse_bool(b, after_current) {
                    None => None,
                    Some((is_fault, after_fault)) => match parse_bool(b, after_fault) {
                        None => None,
                        Some((is_enabled, end)) => Some(
                            (
                                MotorState {
                                    motor_id,
                                    last_speed: Speed(sp),
                                    current_draw: CurrentDraw(cur),
                                    is_fault,
                                    is_enabled,
                                },
                                end,
                            ),
                        ),
                    },
                },
            },
        },
    }
}

pub open spec fn parse_c2h_at(b: Seq<u8>, pos: int) -> Option<(PacketC2H, int)> {
    match parse_tag(b, pos) {
        None => None,
        Some((t, p)) => if t == 0 {
            match parse_u16(b, p) {
                Some((v, q)) => Some(
                    (PacketC2H::ProtocolVersionResponse(ProtocolVersionResponse { version: v }), q),
                ),
                None => None,
            }
        } else if t == 1 {
            match parse_tag(b, p) {
                Some((k, q)) => Some((PacketC2H::Error(error_of_tag(k)), q)),
                None => None,
            }
        } else if t == 2 {
            match parse_u8(b, p) {
                Some((id, q)) => Some((PacketC2H::Pong(Pong { id }), q)),
                None => None,
            }
        } else if t == 3 {
            match parse_u16(b, p) {
                Some((v, q)) => Some(
                    (PacketC2H::SoftwareDataResponse(SoftwareDataResponse { version: v }), q),
                ),
                None => None,
            }
        } else if t == 4 {
            match parse_motor_state_at(b, p) {
                Some((s, q)) => Some((PacketC2H::MotorState(s), q)),
                None => None,
            }
        } else {
            None
        },
    }
}

fn read_motor_state(b: &[u8], pos: usize) -> (r: Option<(MotorState, usize)>)
    ensures
        match r {
            Some((m, n)) => parse_motor_state_at(b@, pos as int) == Some((m, n as int)),
            None => parse_motor_state_at(b@, pos as int) is None,
        },
{
    let (motor_id, after_id) = match read_u8(b, pos) {
        Some(x) => x,
        None => return None,
    };
    let (sp, after_speed) = match read_i16(b, after_id) {
        Some(x) => x,
        None => return None,
    };
    let (cur, after_current) = match read_u16(b, after_speed) {
        Some(x) => x,
        None => return None,
    };
    let (is_fault, after_fault) = match read_bool(b, after_current) {
        Some(x) => x,
        None => return None,
    };
    let (is_enabled, end) = match read_bool(b, after_fault) {
        Some(x) => x,
        None => return None,
    };
    Some(
        (
            MotorState {
                motor_id,
                last_speed: Speed(sp),
                current_draw: CurrentDraw(cur),
                is_fault,
                is_enabled,
            },
            end,
        ),
    )
}

fn read_c2h(b: &[u8]) -> (r: Option<(PacketC2H, usize)>)
    ensures
        match r {
            Some((m, n)) => parse_c2h_at(b@, 0) == Some((m, n as int)),
            None => parse_c2h_at(b@, 0) is None,
        },
{
    let (t, p) = match read_tag(b, 0) {
        Some(x) => x,
        None => return None,
    };
    if t == 0 {
        match read_u16(b, p) {
            Some((v, q)) => Some(
                (PacketC2H::ProtocolVersionResponse(ProtocolVersionResponse { version: v }), q),
            ),
            None => None,
        }
    } else if t == 1 {
        match read_tag(b, p) {
            Some((k, q)) => {
                let e = if k == 0 {
                    Error::DecodingError
                } else if k == 1 {
                    Error::DecodingBufferOverflow
                } else if k == 2 {
                    Error::Unimplemented
                } else {
                    Error::Unknown
                };
                Some((PacketC2H::Error(e), q))
            },
            None => None,
        }
    } else if t == 2 {
        match read_u8(b, p) {
            Some((id, q)) => Some((PacketC2H::Pong(Pong { id }), q)),
            None => None,
        }
    } else if t == 3 {
        match read_u16(b, p) {
            Some((v, q)) => Some(
                (PacketC2H::SoftwareDataResponse(SoftwareDataResponse { version: v }), q),
            ),
            None => None,
        }
    } else if t == 4 {
        match read_motor_state(b, p) {
            Some((s, q)) => Some((PacketC2H::MotorState(s), q)),
            None => None,
        }
    } else {
        None
    }
}

proof fn lemma_parse_motor_state(pre: Seq<u8>, s: MotorState)
    ensures
        ser_motor_state(s).len() <= 9,
        parse_motor_state_at(pre + ser_motor_state(s), pre.len() as int) == Some(
            (s, (pre.len() + ser_motor_state(s).len()) as int),
        ),
{
    let e = Seq::<u8>::empty();
    let a = seq![s.motor_id];
    let sp = varint(zigzag(s.last_speed.0));
    let cu = varint(s.current_draw.0 as nat);
    let f = ser_bool(s.is_fault);
    let n = ser_bool(s.is_enabled);
    lemma_parse_i16(e, s.last_speed.0, e);
    lemma_varint_len(zigzag(s.last_speed.0));
    lemma_varint_len(s.current_draw.0 as nat);
    let b = pre + ser_motor_state(s);
    lemma_parse_u8(pre, s.motor_id, sp + cu + f + n);
    assert(b =~= pre + a + (sp + cu + f + n));
    lemma_parse_i16(pre + a, s.last_speed.0, cu + f + n);
    assert(b =~= (pre + a) + sp + (cu + f + n));
    lemma_parse_u16(pre + a + sp, s.current_draw.0, f + n);
    assert(b =~= (pre + a + sp) + cu + (f + n));
    lemma_parse_bool(pre + a + sp + cu, s.is_fault, n);
    assert(b =~= (pre + a + sp + cu) + f + n);
    lemma_parse_bool(pre + a + sp + cu + f, s.is_enabled, e);
    assert(b =~= (pre + a + sp + cu + f) + n + e);
}

impl WireMessage for PacketC2H {
    open spec fn spec_parse(b: Seq<u8>) -> Option<PacketC2H> {
        parse_whole(parse_c2h_at(b, 0), b.len())
    }

    open spec fn spec_serialize(self) -> Seq<u8> {
        ser_c2h(self)
    }

    fn parse(b: &[u8]) -> (r: Option<PacketC2H>) {
        match read_c2h(b) {
            Some((m, n)) => if n == b.len() {
                Some(m)
            } else {
                None
            },
            None => None,
        }
    }

    fn serialize_into(&self, out: &mut Vec<u8>) {
        match *self {
            PacketC2H::ProtocolVersionResponse(r) => {
                write_varint(out, 0);
                write_varint(out, r.version as u32);
            },
            PacketC2H::Error(e) => {
                write_varint(out, 1);
                let k: u32 = match e {
                    Error::DecodingError => 0,
                    Error::DecodingBufferOverflow => 1,
                    Error::Unimplemented => 2,
                    Error::Unknown => 3,
                };
                write_varint(out, k);
            },
            PacketC2H::Pong(p) => {
                write_varint(out, 2);
                out.push(p.id);
            },
            PacketC2H::SoftwareDataResponse(r) => {
                write_varint(out, 3);
                write_varint(out, r.version as u32);
            },
            PacketC2H::MotorState(s) => {
                write_varint(out, 4);
                out.push(s.motor_id);
                write_i16(out, s.last_speed.0);
                write_varint(out, s.current_draw.0 as u32);
                write_bool(out, s.is_fault);
                write_bool(out, s.is_enabled);
            },
        }
        assert(out@ =~= old(out)@ + ser_c2h(*self));
    }

    proof fn lemma_parse_serialize(self) {
        let b = ser_c2h(self);
        let e = Seq::<u8>::empty();
        match self {
            PacketC2H::ProtocolVersionResponse(r) => {
                let v = varint(r.version as nat);
                lemma_varint_len(r.version as nat);
                lemma_parse_tag(e, 0, v);
                assert(b =~= e + varint(0) + v);
                lemma_parse_u16(varint(0), r.version, e);
                assert(b =~= varint(0) + v + e);
            },
            PacketC2H::Error(k) => {
                lemma_parse_tag(e, 1, varint(error_tag(k)));
                assert(b =~= e + varint(1) + varint(error_tag(k)));
                lemma_parse_tag(varint(1), error_tag(k), e);
                assert(b =~= varint(1) + varint(error_tag(k)) + e);
            },
            PacketC2H::Pong(p) => {
                lemma_parse_tag(e, 2, seq![p.id]);
                assert(b =~= e + varint(2) + seq![p.id]);
                lemma_parse_u8(varint(2), p.id, e);
                assert(b =~= varint(2) + seq![p.id] + e);
            },
            PacketC2H::SoftwareDataResponse(r) => {
                let v = varint(r.version as nat);
                lemma_varint_len(r.version as nat);
                lemma_parse_tag(e, 3, v);
                assert(b =~= e + varint(3) + v);
                lemma_parse_u16(varint(3), r.version, e);
                assert(b =~= varint(3) + v + e);
            },
            PacketC2H::MotorState(s) => {
                lemma_parse_tag(e, 4, ser_motor_state(s));
                assert(b =~= e + varint(4) + ser_motor_state(s));
                lemma_parse_motor_state(varint(4), s);
            },
        }
    }
}

} // verus!
