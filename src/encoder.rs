//! Writes one message as a frame into a caller's buffer.
use vstd::prelude::*;

use crate::codec::{WireMessage, MAX_MESSAGE_LEN};
use crate::framing::{
    checked, checksum16, cobs_encode, cobs_encoded, crc16_usb, crc_le, max_encoding_length,
    spec_frame, unframe,
};

verus! {

/// Why a message could not be framed.
#[derive(Clone, Copy, Debug, PartialEq, Eq, Structural)]
pub enum EncodeError {
    /// The buffer cannot hold the longest frame that the message may take.
    BufferTooSmall,
}

/// Bytes that the frame of a message of `n` bytes may take at most.
pub open spec fn frame_room(n: nat) -> nat {
    max_encoding_length(n + 2) + 1
}

/// Frames `value` into the front of `buffer` and returns the frame's length.
/// Fails, leaving the buffer untouched, when the buffer is shorter than the
/// longest frame that the message may take.
pub fn encode_packet<T: WireMessage>(value: &T, buffer: &mut [u8]) -> (r: Result<usize, EncodeError>)
    ensures
        final(buffer)@.len() == old(buffer)@.len(),
        match r {
            Ok(n) => {
                &&& old(buffer)@.len() >= frame_room(value.spec_serialize().len())
                &&& n <= final(buffer)@.len()
                &&& final(buffer)@.subrange(0, n as int) == spec_frame(*value)
                &&& forall|i: int| 0 <= i < n - 1 ==> final(buffer)@[i] != 0
                &&& n >= 1 && final(buffer)@[n - 1] == 0
                &&& unframe::<T>(final(buffer)@.subrange(0, n as int)) == Some(*value)
            },
            Err(e) => {
                &&& e == EncodeError::BufferTooSmall
                &&& old(buffer)@.len() < frame_room(value.spec_serialize().len())
                &&& final(buffer)@ == old(buffer)@
            },
        },
{
    let mut payload: Vec<u8> = Vec::new();
    value.serialize_into(&mut payload);
    proof {
        value.lemma_parse_serialize();
        assert(payload@ =~= value.spec_serialize());
    }
    let len = payload.len();
    if buffer.len() < len + 2 + (len + 2) / 254 + 2 {
        proof {
            assert(frame_room(len as nat) <= len + 2 + (len + 2) / 254 + 2);
        }
        return Err(EncodeError::BufferTooSmall);
    }
    let c = checksum16(payload.as_slice());
    payload.push((c % 256) as u8);
    payload.push((c / 256) as u8);
    proof {
        assert(payload@ =~= checked(value.spec_serialize()));
        assert(len + 2 < 254);
    }
    let n = cobs_encode(payload.as_slice(), buffer);
    buffer[n] = 0;
    proof {
        let frame = buffer@.subrange(0, n + 1);
        assert(buffer@.subrange(0, n as int) =~= cobs_encoded(checked(value.spec_serialize())));
        assert(frame =~= spec_frame(*value));
        assert(frame =~= buffer@.subrange(0, n as int).push(0));
        let d = checked(value.spec_serialize());
        assert(d.subrange(0, d.len() - 2) =~= value.spec_serialize());
        assert(d.subrange(d.len() - 2, d.len() as int) =~= crc_le(crc16_usb(value.spec_serialize())));
    }
    Ok(n + 1)
}

} // verus!
