//! Checksum and zero-byte stuffing of a frame, and what a frame holds.
//!
//! A frame is `stuffed(payload ++ checksum) ++ [0]`: the message bytes, their
//! CRC-16/USB in little-endian order, COBS-stuffed so that no zero byte is
//! left, then a single zero byte as terminator.
use vstd::prelude::*;

use crate::codec::WireMessage;

verus! {

/// CRC-16/USB of a byte string.
pub uninterp spec fn crc16_usb(b: Seq<u8>) -> u16;

/// What COBS decoding makes of a buffer (up to its first zero byte).
pub uninterp spec fn cobs_decoded(b: Seq<u8>) -> Option<Seq<u8>>;

/// The COBS-stuffed form of a byte string, without terminator.
pub uninterp spec fn cobs_encoded(b: Seq<u8>) -> Seq<u8>;

/// Room that stuffing `n` bytes may take at most.
pub open spec fn max_encoding_length(n: nat) -> nat {
    n + n / 254 + if n % 254 > 0 {
        1nat
    } else {
        0nat
    }
}

/// Relies on `crc::Crc::<u16>::checksum` with the `CRC_16_USB` parameters:
/// the checksum is a function of the bytes alone.
#[verifier::external_body]
pub(crate) fn checksum16(b: &[u8]) -> (r: u16)
    ensures
        r == crc16_usb(b@),
{
    crc::Crc::<u16>::new(&crc::CRC_16_USB).checksum(b)
}

/// Relies on `cobs::decode_in_place`: it decodes the buffer up to its first
/// zero byte into the front of the same buffer and returns the decoded
/// length, which never exceeds the buffer; the outcome depends on the bytes
/// alone.
#[verifier::external_body]
pub(crate) fn cobs_decode_in_place(buf: &mut Vec<u8>) -> (r: Result<usize, ()>)
    ensures
        final(buf)@.len() == old(buf)@.len(),
        match r {
            Ok(n) => n <= old(buf)@.len() && cobs_decoded(old(buf)@) == Some(
                final(buf)@.subrange(0, n as int),
            ),
            Err(_) => cobs_decoded(old(buf)@) is None,
        },
{
    cobs::decode_in_place(buf.as_mut_slice())
}

/// Relies on `cobs::encode`: it writes the stuffed form of `src` to the
/// front of `dest` and returns its length. The stuffed form holds no zero
/// byte, takes at most `max_encoding_length` bytes, and decoding it with a
/// terminating zero gives `src` back. It panics when `dest` is shorter than
/// `max_encoding_length`, which `requires` rules out; inputs are kept under
/// 254 bytes, a single stuffing block, which every message fits.
#[verifier::external_body]
pub(crate) fn cobs_encode(src: &[u8], dest: &mut [u8]) -> (r: usize)
    requires
        src@.len() < 254,
        old(dest)@.len() >= max_encoding_length(src@.len()),
    ensures
        final(dest)@.len() == old(dest)@.len(),
        r <= max_encoding_length(src@.len()),
        final(dest)@.subrange(0, r as int) == cobs_encoded(src@),
        forall|i: int| 0 <= i < r ==> final(dest)@[i] != 0,
        cobs_decoded(final(dest)@.subrange(0, r as int).push(0)) == Some(src@),
{
    cobs::encode(src, dest)
}

/// Little-endian bytes of a checksum.
pub open spec fn crc_le(c: u16) -> Seq<u8> {
    seq![(c % 256) as u8, (c / 256) as u8]
}

/// Message bytes followed by their checksum.
pub open spec fn checked(payload: Seq<u8>) -> Seq<u8> {
    payload + crc_le(crc16_usb(payload))
}

/// The frame of a message, terminator included.
pub open spec fn spec_frame<T: WireMessage>(m: T) -> Seq<u8> {
    cobs_encoded(checked(m.spec_serialize())).push(0)
}

/// The message that a received frame (terminator included) holds: unstuff,
/// split off the trailing checksum, check it, parse what is left.
pub open spec fn unframe<T: WireMessage>(raw: Seq<u8>) -> Option<T> {
    match cobs_decoded(raw) {
        Some(d) => if d.len() >= 2 && d.subrange(d.len() - 2, d.len() as int) == crc_le(
            crc16_usb(d.subrange(0, d.len() - 2)),
        ) {
            T::spec_parse(d.subrange(0, d.len() - 2))
        } else {
            None
        },
        None => None,
    }
}

/// Splits the checksum off decoded frame bytes and parses the message.
pub(crate) fn check_and_parse<T: WireMessage>(d: &[u8]) -> (r: Option<T>)
    ensures
        r == (if d@.len() >= 2 && d@.subrange(d@.len() - 2, d@.len() as int) == crc_le(
            crc16_usb(d@.subrange(0, d@.len() - 2)),
        ) {
            T::spec_parse(d@.subrange(0, d@.len() - 2))
        } else {
            None
        }),
{
    let len = d.len();
    if len < 2 {
        return None;
    }
    let payload = vstd::slice::slice_subrange(d, 0, len - 2);
    let c = checksum16(payload);
    let lo = (c % 256) as u8;
    let hi = (c / 256) as u8;
    let ok = d[len - 2] == lo && d[len - 1] == hi;
    proof {
        let tail = d@.subrange(len - 2, len as int);
        if ok {
            assert(tail =~= crc_le(c));
        } else {
            assert(tail[0] != crc_le(c)[0] || tail[1] != crc_le(c)[1]);
        }
    }
    if ok {
        T::parse(payload)
    } else {
        None
    }
}

} // verus!
