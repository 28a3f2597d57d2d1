//! Host side of a serial link: framing requests into a byte buffer and
//! taking replies out of one.
use vstd::prelude::*;

use crate::codec::WireMessage;
use crate::decoder::zero_from;
use crate::encoder::{encode_packet, EncodeError};
use crate::framing::{check_and_parse, cobs_decode_in_place, cobs_decoded, spec_frame, unframe};
use crate::wire::{PacketC2H, PacketH2C};

verus! {

/// Which controller to open.
#[derive(Clone, Debug, PartialEq, Eq)]
pub enum DcMotorControllerHandle {
    /// The first port that looks like a controller.
    FirstAvaible,
    /// The port of this name.
    Name(String),
}

/// Why the host codec failed.
#[derive(Clone, Copy, Debug, PartialEq, Eq, Structural)]
pub enum CodecError {
    /// A frame ended but its stuffing was malformed.
    Cobs,
    /// A frame unstuffed but its checksum or message did not hold.
    Parse,
    /// A request could not be framed.
    Encode(EncodeError),
}

/// Outcome of decoding a buffer holding `src`: the bytes left in it, and the
/// reply taken out, if a whole frame was there.
pub open spec fn host_decode_spec(src: Seq<u8>) -> (Seq<u8>, Result<Option<PacketC2H>, CodecError>) {
    let z = zero_from(src, 0);
    if z >= src.len() {
        (src, Ok(None))
    } else {
        let msg = src.subrange(0, z + 1);
        let left = src.subrange(z + 1, src.len() as int);
        match cobs_decoded(msg) {
            None => (left, Err(CodecError::Cobs)),
            Some(_) => match unframe::<PacketC2H>(msg) {
                Some(m) => (left, Ok(Some(m))),
                None => (left, Err(CodecError::Parse)),
            },
        }
    }
}

/// Frames requests and unframes replies over a byte buffer.
pub struct DcMotorControllerCodec;

impl DcMotorControllerCodec {
    /// Takes the first frame out of `src`, if it holds a whole one, and
    /// parses the reply in it. A frame that fails is still taken out.
    pub fn decode(&mut self, src: &mut Vec<u8>) -> (r: Result<Option<PacketC2H>, CodecError>)
        ensures
            (final(src)@, r) == host_decode_spec(old(src)@),
    {
        let len = src.len();
        let mut z: usize = 0;
        while z < len && src[z] != 0
            invariant
                z <= len,
                len == src@.len(),
                src@ == old(src)@,
                zero_from(src@, 0) == zero_from(src@, z as int),
            decreases len - z,
        {
            z = z + 1;
        }
        if z >= len {
            return Ok(None);
        }
        let mut tail = src.split_off(z + 1);
        let mut msg: Vec<u8> = Vec::new();
        msg.append(src);
        src.append(&mut tail);
        let ghost raw = msg@;
        proof {
            assert(src@ =~= old(src)@.subrange(z + 1, len as int));
        }
        match cobs_decode_in_place(&mut msg) {
            Ok(n) => {
                let d = vstd::slice::slice_subrange(msg.as_slice(), 0, n);
                match check_and_parse::<PacketC2H>(d) {
                    Some(m) => Ok(Some(m)),
                    None => Err(CodecError::Parse),
                }
            },
            Err(_) => Err(CodecError::Cobs),
        }
    }

    /// Appends the frame of `item` to `dst`.
    pub fn encode(&mut self, item: &PacketH2C, dst: &mut Vec<u8>) -> (r: Result<(), CodecError>)
        ensures
            r is Ok,
            final(dst)@ == old(dst)@ + spec_frame(*item),
    {
        let mut buf = vec![0u8; 128];
        proof {
            item.lemma_parse_serialize();
        }
        match encode_packet(item, buf.as_mut_slice()) {
            Ok(n) => {
                let mut i: usize = 0;
                while i < n
                    invariant
                        i <= n,
                        n <= buf@.len(),
                        buf@.subrange(0, n as int) == spec_frame(*item),
                        dst@ == old(dst)@ + buf@.subrange(0, i as int),
                    decreases n - i,
                {
                    dst.push(buf[i]);
                    proof {
                        assert(buf@.subrange(0, i + 1) =~= buf@.subrange(0, i as int).push(buf@[i as int]));
                    }
                    i = i + 1;
                }
                Ok(())
            },
            Err(e) => Err(CodecError::Encode(e)),
        }
    }
}

} // verus!
