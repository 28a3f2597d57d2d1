//! The I2C control path: a plain request/response exchange without
//! checksum or framing. A request is a one-byte opcode and its payload;
//! multi-byte fields are big-endian.
use vstd::prelude::*;

use crate::stream::MotorReading;
use crate::wire::{Interval, Motors, PacketH2C, SetArmed, SetSpeed, Speed};

verus! {

/// Opcode of an I2C request.
#[derive(Clone, Copy, Debug, PartialEq, Eq, Structural)]
pub enum PacketsI2c {
    SetSpeed,
    ReadMotor,
    Arm,
    Unknown(u8),
}

pub open spec fn opcode_of(b: u8) -> PacketsI2c {
    if b == 0 {
        PacketsI2c::SetSpeed
    } else if b == 1 {
        PacketsI2c::ReadMotor
    } else if b == 2 {
        PacketsI2c::Arm
    } else {
        PacketsI2c::Unknown(b)
    }
}

impl From<u8> for PacketsI2c {
    fn from(b: u8) -> (r: PacketsI2c) {
        if b == 0 {
            PacketsI2c::SetSpeed
        } else if b == 1 {
            PacketsI2c::ReadMotor
        } else if b == 2 {
            PacketsI2c::Arm
        } else {
            PacketsI2c::Unknown(b)
        }
    }
}

impl vstd::std_specs::convert::FromSpecImpl<u8> for PacketsI2c {
    open spec fn obeys_from_spec() -> bool {
        true
    }

    open spec fn from_spec(b: u8) -> PacketsI2c {
        opcode_of(b)
    }
}

/// A decoded I2C request.
#[derive(Clone, Copy, Debug, PartialEq, Eq, Structural)]
pub enum I2cRequest {
    /// Set the speed of the masked motors, answer with their current draw.
    SetSpeed(SetSpeed),
    /// Answer with the state of the masked motors.
    ReadMotor(Motors),
    /// Feed the watchdog, or disarm for a duration of zero.
    Arm(SetArmed),
    /// An opcode this build does not know; no answer.
    Unknown(u8),
}

pub open spec fn be_u16(hi: u8, lo: u8) -> u16 {
    (hi as nat * 256 + lo as nat) as u16
}

pub open spec fn be_i16(hi: u8, lo: u8) -> i16 {
    let u = hi as int * 256 + lo as int;
    if u >= 32768 {
        (u - 65536) as i16
    } else {
        u as i16
    }
}

/// The request that `msg` holds; `None` when its payload is cut short.
pub open spec fn parse_i2c_spec(msg: Seq<u8>) -> Option<I2cRequest> {
    if msg.len() == 0 {
        None
    } else {
        match opcode_of(msg[0]) {
            PacketsI2c::SetSpeed => if msg.len() >= 4 {
                Some(
                    I2cRequest::SetSpeed(
                        SetSpeed {
                            motors: Motors { bits: msg[1] & 0x0f },
                            speed: Speed(be_i16(msg[2], msg[3])),
                        },
                    ),
                )
            } else {
                None
            },
            PacketsI2c::ReadMotor => if msg.len() >= 2 {
                Some(I2cRequest::ReadMotor(Motors { bits: msg[1] & 0x0f }))
            } else {
                None
            },
            PacketsI2c::Arm => if msg.len() >= 3 {
                let d = be_u16(msg[1], msg[2]);
                Some(
                    I2cRequest::Arm(
                        if d > 0 {
                            SetArmed::Armed { duration: Interval(d) }
                        } else {
                            SetArmed::Disarmed
                        },
                    ),
                )
            } else {
                None
            },
            PacketsI2c::Unknown(n) => Some(I2cRequest::Unknown(n)),
        }
    }
}

/// Decodes a request. Masks keep only the bits that name motors.
pub fn parse_i2c_message(msg: &[u8]) -> (r: Option<I2cRequest>)
    ensures
        r == parse_i2c_spec(msg@),
{
    if msg.len() == 0 {
        return None;
    }
    match PacketsI2c::from(msg[0]) {
        PacketsI2c::SetSpeed => if msg.len() >= 4 {
            let u: u16 = (msg[2] as u16) * 256 + msg[3] as u16;
            let sp: i16 = if u >= 32768 {
                (u as i32 - 65536) as i16
            } else {
                u as i16
            };
            let motors = Motors::from_bits_truncate(msg[1]);
            Some(I2cRequest::SetSpeed(SetSpeed { motors, speed: Speed(sp) }))
        } else {
            None
        },
        PacketsI2c::ReadMotor => if msg.len() >= 2 {
            Some(I2cRequest::ReadMotor(Motors::from_bits_truncate(msg[1])))
        } else {
            None
        },
        PacketsI2c::Arm => if msg.len() >= 3 {
            let d: u16 = (msg[1] as u16) * 256 + msg[2] as u16;
            if d > 0 {
                Some(I2cRequest::Arm(SetArmed::Armed { duration: Interval(d) }))
            } else {
                Some(I2cRequest::Arm(SetArmed::Disarmed))
            }
        } else {
            None
        },
        PacketsI2c::Unknown(n) => Some(I2cRequest::Unknown(n)),
    }
}

/// The message to dispatch for a request, as the serial transports would.
pub open spec fn i2c_packet_spec(req: I2cRequest) -> Option<PacketH2C> {
    match req {
        I2cRequest::SetSpeed(s) => Some(PacketH2C::SetSpeed(s)),
        I2cRequest::Arm(a) => Some(PacketH2C::SetArmed(a)),
        _ => None,
    }
}

pub fn i2c_packet(req: &I2cRequest) -> (r: Option<PacketH2C>)
    ensures
        r == i2c_packet_spec(*req),
{
    match *req {
        I2cRequest::SetSpeed(s) => Some(PacketH2C::SetSpeed(s)),
        I2cRequest::Arm(a) => Some(PacketH2C::SetArmed(a)),
        _ => None,
    }
}

pub open spec fn be_bytes(v: u16) -> Seq<u8> {
    seq![(v / 256) as u8, (v % 256) as u8]
}

pub open spec fn i16_bits(v: i16) -> u16 {
    if v >= 0 {
        v as u16
    } else {
        (v + 65536) as u16
    }
}

pub open spec fn fault_byte(f: bool) -> u8 {
    if f {
        1
    } else {
        0
    }
}

/// `[id, current (2 bytes), fault]` for each id, in order.
pub open spec fn current_records(ids: Seq<u8>, rs: Seq<MotorReading>) -> Seq<u8>
    decreases ids.len(),
{
    if ids.len() == 0 {
        Seq::empty()
    } else {
        let id = ids.last();
        let r = rs[id as int];
        current_records(ids.drop_last(), rs) + seq![id] + be_bytes(r.current_draw.0) + seq![
            fault_byte(r.is_fault),
        ]
    }
}

/// `[id, speed (2 bytes), current (2 bytes), fault]` for each id, in order.
pub open spec fn state_records(ids: Seq<u8>, rs: Seq<MotorReading>) -> Seq<u8>
    decreases ids.len(),
{
    if ids.len() == 0 {
        Seq::empty()
    } else {
        let id = ids.last();
        let r = rs[id as int];
        state_records(ids.drop_last(), rs) + seq![id] + be_bytes(i16_bits(r.last_speed.0))
            + be_bytes(r.current_draw.0) + seq![fault_byte(r.is_fault)]
    }
}

/// The answer to a request. `readings` holds one read per motor by id, taken
/// after the request was dispatched, or `None` while the motors are not set
/// up, which answers a count of zero.
pub open spec fn i2c_response_spec(req: I2cRequest, readings: Option<Seq<MotorReading>>) -> Seq<u8> {
    match req {
        I2cRequest::SetSpeed(s) => match readings {
            Some(rs) => seq![s.motors.id_seq().len() as u8] + current_records(
                s.motors.id_seq(),
                rs,
            ),
            None => seq![0u8],
        },
        I2cRequest::ReadMotor(m) => match readings {
            Some(rs) => seq![m.id_seq().len() as u8] + state_records(m.id_seq(), rs),
            None => seq![0u8],
        },
        _ => Seq::empty(),
    }
}

fn push_be(out: &mut Vec<u8>, v: u16)
    ensures
        final(out)@ == old(out)@ + be_bytes(v),
{
    out.push((v / 256) as u8);
    out.push((v % 256) as u8);
    assert(out@ =~= old(out)@ + be_bytes(v));
}

/// Builds the answer to a request.
pub fn i2c_response(req: &I2cRequest, readings: Option<&Vec<MotorReading>>) -> (r: Vec<u8>)
    requires
        readings matches Some(v) ==> v@.len() == 4,
    ensures
        r@ == i2c_response_spec(
            *req,
            match readings {
                Some(v) => Some(v@),
                None => None,
            },
        ),
{
    let (motors, full) = match *req {
        I2cRequest::SetSpeed(s) => (s.motors, false),
        I2cRequest::ReadMotor(m) => (m, true),
        _ => return Vec::new(),
    };
    let rs = match readings {
        Some(v) => v,
        None => return vec![0u8],
    };
    let ids = motors.ids();
    proof {
        crate::wire::lemma_id_seq_bounds(motors);
    }
    let mut out: Vec<u8> = Vec::new();
    out.push(ids.len() as u8);
    let mut i: usize = 0;
    while i < ids.len()
        invariant
            i <= ids@.len(),
            ids@ == motors.id_seq(),
            rs@.len() == 4,
            forall|k: int| 0 <= k < ids@.len() ==> ids@[k] < 4,
            out@ == seq![ids@.len() as u8] + if full {
                state_records(ids@.subrange(0, i as int), rs@)
            } else {
                current_records(ids@.subrange(0, i as int), rs@)
            },
        decreases ids@.len() - i,
    {
        let id = ids[i];
        let m = rs[id as usize];
        let ghost before = out@;
        out.push(id);
        if full {
            let sp: i16 = m.last_speed.0;
            let bits: u16 = if sp >= 0 {
                sp as u16
            } else {
                (sp as i32 + 65536) as u16
            };
            push_be(&mut out, bits);
        }
        push_be(&mut out, m.current_draw.0);
        out.push(if m.is_fault { 1u8 } else { 0u8 });
        proof {
            let pre = ids@.subrange(0, i as int);
            let next = ids@.subrange(0, i + 1);
            assert(next.drop_last() =~= pre);
            assert(next.last() == id);
            if full {
                assert(out@ =~= seq![ids@.len() as u8] + state_records(next, rs@));
            } else {
                assert(out@ =~= seq![ids@.len() as u8] + current_records(next, rs@));
            }
        }
        i = i + 1;
    }
    proof {
        assert(ids@.subrange(0, ids@.len() as int) =~= ids@);
    }
    out
}

} // verus!
