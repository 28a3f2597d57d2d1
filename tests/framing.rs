use dc_motor_controller::codec::WireMessage;
use dc_motor_controller::decoder::{FeedResult, PackerDecoder};
use dc_motor_controller::encoder::{encode_packet, EncodeError};
use dc_motor_controller::wire::{
    CurrentDraw, Error, Interval, MotorState, Motors, PacketC2H, PacketH2C, Ping, Pong,
    ProtocolVersionResponse, SetArmed, SetSpeed, SoftwareDataResponse, Speed, StartStream,
};

fn frame_of<T: WireMessage>(m: &T) -> Vec<u8> {
    let mut buf = [0u8; 128];
    let n = encode_packet(m, &mut buf).expect("fits");
    buf[..n].to_vec()
}

fn decode_one<T: WireMessage>(bytes: &[u8]) -> Option<T> {
    let mut dec = PackerDecoder::<128>::new();
    match dec.feed::<T>(bytes) {
        FeedResult::Success { data, remaining } => {
            assert!(remaining.is_empty());
            Some(data)
        }
        _ => None,
    }
}

fn all_h2c() -> Vec<PacketH2C> {
    vec![
        PacketH2C::ResetToUsbBoot,
        PacketH2C::ReadProtocolVersion,
        PacketH2C::Ping(Ping { id: 42 }),
        PacketH2C::ReadSoftwareData,
        PacketH2C::StartStream(StartStream {
            motors: Motors::from_bits_truncate(0b0101),
            interval: Interval(500),
        }),
        PacketH2C::SetSpeed(SetSpeed { motors: Motors::all(), speed: Speed(-32767) }),
        PacketH2C::SetSpeed(SetSpeed { motors: Motors::empty(), speed: Speed(i16::MIN) }),
        PacketH2C::SetArmed(SetArmed::Armed { duration: Interval(u16::MAX) }),
        PacketH2C::SetArmed(SetArmed::Disarmed),
    ]
}

fn all_c2h() -> Vec<PacketC2H> {
    vec![
        PacketC2H::ProtocolVersionResponse(ProtocolVersionResponse { version: 1 }),
        PacketC2H::Error(Error::DecodingError),
        PacketC2H::Error(Error::DecodingBufferOverflow),
        PacketC2H::Error(Error::Unimplemented),
        PacketC2H::Error(Error::Unknown),
        PacketC2H::Pong(Pong { id: 0 }),
        PacketC2H::SoftwareDataResponse(SoftwareDataResponse { version: 300 }),
        PacketC2H::MotorState(MotorState {
            motor_id: 3,
            last_speed: Speed(16384),
            current_draw: CurrentDraw(65535),
            is_fault: true,
            is_enabled: false,
        }),
    ]
}

#[test]
fn round_trip_every_h2c_variant() {
    for m in all_h2c() {
        let f = frame_of(&m);
        assert_eq!(*f.last().unwrap(), 0);
        assert!(f[..f.len() - 1].iter().all(|b| *b != 0));
        assert_eq!(decode_one::<PacketH2C>(&f), Some(m));
    }
}

#[test]
fn round_trip_every_c2h_variant() {
    for m in all_c2h() {
        let f = frame_of(&m);
        assert_eq!(decode_one::<PacketC2H>(&f), Some(m));
    }
}

#[test]
fn layout_matches_postcard() {
    let mut ours = Vec::new();
    PacketH2C::SetSpeed(SetSpeed { motors: Motors::from_bits_truncate(1), speed: Speed(16384) })
        .serialize_into(&mut ours);
    assert_eq!(ours, vec![5, 1, 0x80, 0x80, 0x02]);
    let mut buf = [0u8; 32];
    let theirs = postcard::to_slice(&(5u32, 1u8, 16384i16), &mut buf).unwrap();
    assert_eq!(&ours[..], &theirs[..]);

    let mut ours = Vec::new();
    PacketC2H::MotorState(MotorState {
        motor_id: 2,
        last_speed: Speed(-5),
        current_draw: CurrentDraw(1000),
        is_fault: false,
        is_enabled: true,
    })
    .serialize_into(&mut ours);
    let mut buf = [0u8; 32];
    let theirs = postcard::to_slice(&(4u32, 2u8, -5i16, 1000u16, false, true), &mut buf).unwrap();
    assert_eq!(&ours[..], &theirs[..]);

    let mut ours = Vec::new();
    PacketH2C::SetArmed(SetArmed::Armed { duration: Interval(1000) }).serialize_into(&mut ours);
    let theirs = postcard::to_slice(&(6u32, 0u32, 1000u16), &mut buf).unwrap();
    assert_eq!(&ours[..], &theirs[..]);
}

#[test]
fn frame_is_stuffed_checksummed_payload() {
    let m = PacketH2C::Ping(Ping { id: 7 });
    let mut payload = Vec::new();
    m.serialize_into(&mut payload);
    assert_eq!(payload, vec![2, 7]);
    let crc = crc::Crc::<u16>::new(&crc::CRC_16_USB).checksum(&payload);
    payload.extend_from_slice(&crc.to_le_bytes());
    let mut expected = vec![0u8; 16];
    let n = cobs::encode(&payload, &mut expected);
    expected.truncate(n);
    expected.push(0);
    assert_eq!(frame_of(&m), expected);
    assert_ne!(frame_of(&m)[..payload.len()], payload[..]);
}

#[test]
fn encode_fails_on_short_buffer_without_writing() {
    let m = PacketH2C::SetSpeed(SetSpeed { motors: Motors::all(), speed: Speed(-1) });
    let mut payload = Vec::new();
    m.serialize_into(&mut payload);
    let room = payload.len() + 2 + 1 + 1;
    let mut small = vec![0xAAu8; room - 1];
    assert_eq!(encode_packet(&m, &mut small), Err(EncodeError::BufferTooSmall));
    assert!(small.iter().all(|b| *b == 0xAA));
    let mut exact = vec![0xAAu8; room];
    assert!(encode_packet(&m, &mut exact).is_ok());
}

#[test]
fn split_frame_at_every_offset() {
    let m = PacketH2C::SetSpeed(SetSpeed { motors: Motors::from_bits_truncate(1), speed: Speed(16384) });
    let f = frame_of(&m);
    for cut in 1..f.len() {
        let mut dec = PackerDecoder::<128>::new();
        assert!(matches!(dec.feed::<PacketH2C>(&f[..cut]), FeedResult::Consumed));
        match dec.feed::<PacketH2C>(&f[cut..]) {
            FeedResult::Success { data, remaining } => {
                assert_eq!(data, m);
                assert!(remaining.is_empty());
            }
            _ => panic!("frame split at {} did not decode", cut),
        }
    }
}

#[test]
fn decoder_empty_input() {
    let mut dec = PackerDecoder::<16>::new();
    assert!(matches!(dec.feed::<PacketH2C>(&[]), FeedResult::Consumed));
}

#[test]
fn decoder_overflow_then_recovers() {
    let mut dec = PackerDecoder::<16>::new();
    let input: Vec<u8> = (1..=17).collect();
    match dec.feed::<PacketH2C>(&input) {
        FeedResult::OverFull(rest) => assert_eq!(rest, &[17u8][..]),
        _ => panic!("expected overflow"),
    }
    let m = PacketH2C::Ping(Ping { id: 9 });
    let f = frame_of(&m);
    match dec.feed::<PacketH2C>(&f) {
        FeedResult::Success { data, .. } => assert_eq!(data, m),
        _ => panic!("frame after overflow did not decode"),
    }
}

#[test]
fn decoder_far_over_capacity() {
    let mut dec = PackerDecoder::<16>::new();
    let input = vec![0x55u8; 1000];
    let mut rest: &[u8] = &input;
    let mut overflows = 0;
    loop {
        match dec.feed::<PacketH2C>(rest) {
            FeedResult::OverFull(r) => {
                overflows += 1;
                rest = r;
            }
            FeedResult::Consumed => break,
            _ => panic!("no frame in input"),
        }
    }
    assert_eq!(overflows, 62);
}

#[test]
fn decoder_all_delimiters() {
    let mut dec = PackerDecoder::<16>::new();
    let input = [0u8; 5];
    let mut rest: &[u8] = &input;
    let mut errors = 0;
    while !rest.is_empty() {
        match dec.feed::<PacketH2C>(rest) {
            FeedResult::DeserError(r) => {
                errors += 1;
                rest = r;
            }
            _ => panic!("a lone delimiter is no message"),
        }
    }
    assert_eq!(errors, 5);
}

#[test]
fn decoder_corrupted_checksum() {
    let mut payload = vec![2u8, 9];
    let crc = crc::Crc::<u16>::new(&crc::CRC_16_USB).checksum(&payload) ^ 0x0101;
    payload.extend_from_slice(&crc.to_le_bytes());
    let mut f = vec![0u8; 16];
    let n = cobs::encode(&payload, &mut f);
    f.truncate(n);
    f.push(0);
    let mut dec = PackerDecoder::<128>::new();
    assert!(matches!(dec.feed::<PacketH2C>(&f), FeedResult::DeserError(r) if r.is_empty()));
}

#[test]
fn decoder_truncated_payload() {
    let m = PacketH2C::SetSpeed(SetSpeed { motors: Motors::all(), speed: Speed(1234) });
    let f = frame_of(&m);
    let mut cut = f[..f.len() - 3].to_vec();
    cut.push(0);
    let mut dec = PackerDecoder::<128>::new();
    assert!(matches!(dec.feed::<PacketH2C>(&cut), FeedResult::DeserError(_)));
}

#[test]
fn frame_followed_by_more_input() {
    let a = PacketH2C::Ping(Ping { id: 1 });
    let b = PacketH2C::ReadProtocolVersion;
    let mut input = frame_of(&a);
    input.extend(frame_of(&b));
    let mut dec = PackerDecoder::<128>::new();
    let rest = match dec.feed::<PacketH2C>(&input) {
        FeedResult::Success { data, remaining } => {
            assert_eq!(data, a);
            remaining
        }
        _ => panic!("first frame"),
    };
    assert_eq!(rest, &frame_of(&b)[..]);
}

#[test]
fn unknown_error_kind_reads_as_unknown() {
    let mut payload = vec![1u8, 9];
    let crc = crc::Crc::<u16>::new(&crc::CRC_16_USB).checksum(&payload);
    payload.extend_from_slice(&crc.to_le_bytes());
    let mut f = vec![0u8; 16];
    let n = cobs::encode(&payload, &mut f);
    f.truncate(n);
    f.push(0);
    assert_eq!(decode_one::<PacketC2H>(&f), Some(PacketC2H::Error(Error::Unknown)));
}

#[test]
fn trailing_bytes_after_message_are_rejected() {
    let bytes = [2u8, 7, 0];
    assert_eq!(PacketH2C::parse(&bytes), None);
    assert_eq!(PacketH2C::parse(&bytes[..2]), Some(PacketH2C::Ping(Ping { id: 7 })));
    assert_eq!(PacketH2C::parse(&[9u8]), None);
}
