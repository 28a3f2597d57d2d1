use dc_motor_controller::decoder::PackerDecoder;
use dc_motor_controller::encoder::encode_packet;
use dc_motor_controller::handler::{
    feed_all_and_handle, handle_inbound_packet, Command, HandlerCtx, PacketQueue, Slot,
    StreamConfig, QUEUE_CAPACITY,
};
use dc_motor_controller::host::{CodecError, DcMotorControllerCodec};
use dc_motor_controller::wire::{
    Error, Interval, Motors, PacketC2H, PacketH2C, Ping, Pong, ProtocolVersionResponse, SetArmed,
    SetSpeed, Speed, StartStream, PROTOCOL_VERSION,
};

fn frame_of(m: &PacketH2C) -> Vec<u8> {
    let mut buf = [0u8; 64];
    let n = encode_packet(m, &mut buf).unwrap();
    buf[..n].to_vec()
}

#[test]
fn ping_answers_pong() {
    let mut ctx = HandlerCtx::new();
    let c = handle_inbound_packet(&mut ctx, PacketH2C::Ping(Ping { id: 42 }));
    assert_eq!(c, Command::Send(PacketC2H::Pong(Pong { id: 42 })));
    assert_eq!(ctx.packets.len(), 0);
}

#[test]
fn version_and_software_info() {
    let mut ctx = HandlerCtx::default();
    assert_eq!(
        handle_inbound_packet(&mut ctx, PacketH2C::ReadProtocolVersion),
        Command::Send(PacketC2H::ProtocolVersionResponse(ProtocolVersionResponse {
            version: PROTOCOL_VERSION
        }))
    );
    assert_eq!(PROTOCOL_VERSION, 1);
    assert_eq!(
        handle_inbound_packet(&mut ctx, PacketH2C::ReadSoftwareData),
        Command::Send(PacketC2H::Error(Error::Unimplemented))
    );
    assert_eq!(handle_inbound_packet(&mut ctx, PacketH2C::ResetToUsbBoot), Command::ResetToUsbBoot);
}

#[test]
fn arming_commands() {
    let mut ctx = HandlerCtx::new();
    assert_eq!(
        handle_inbound_packet(
            &mut ctx,
            PacketH2C::SetArmed(SetArmed::Armed { duration: Interval(100) })
        ),
        Command::FeedWatchdog(Interval(100))
    );
    assert_eq!(
        handle_inbound_packet(&mut ctx, PacketH2C::SetArmed(SetArmed::Disarmed)),
        Command::DisableMotors
    );
    let s = SetSpeed { motors: Motors::from_bits_truncate(0b1010), speed: Speed(100) };
    assert_eq!(handle_inbound_packet(&mut ctx, PacketH2C::SetSpeed(s)), Command::SetSpeed(s));
}

#[test]
fn start_stream_latest_wins() {
    let mut ctx = HandlerCtx::new();
    let a = StartStream { motors: Motors::from_bits_truncate(0b0101), interval: Interval(50) };
    let b = StartStream { motors: Motors::from_bits_truncate(0b0010), interval: Interval(20) };
    assert_eq!(handle_inbound_packet(&mut ctx, PacketH2C::StartStream(a)), Command::Nothing);
    assert!(ctx.streams.signaled());
    assert_eq!(handle_inbound_packet(&mut ctx, PacketH2C::StartStream(b)), Command::Nothing);
    assert_eq!(
        ctx.streams.take(),
        Some(StreamConfig { motors: b.motors, interval: b.interval })
    );
    assert_eq!(ctx.streams.take(), None);
}

#[test]
fn eight_pongs_in_order_and_ninth_waits() {
    let mut q = PacketQueue::new();
    for id in 0..QUEUE_CAPACITY as u8 {
        assert_eq!(q.try_send(PacketC2H::Pong(Pong { id })), Ok(()));
    }
    assert!(q.is_full());
    let extra = PacketC2H::Pong(Pong { id: 8 });
    assert_eq!(q.try_send(extra), Err(extra));
    for id in 0..QUEUE_CAPACITY as u8 {
        assert_eq!(q.try_receive(), Some(PacketC2H::Pong(Pong { id })));
    }
    assert_eq!(q.try_receive(), None);
    assert_eq!(q.try_send(extra), Ok(()));
    q.clear();
    assert_eq!(q.len(), 0);
}

#[test]
fn slot_take_and_peek() {
    let mut s: Slot<u32> = Slot::new();
    assert!(!s.signaled());
    s.signal(1);
    s.signal(2);
    assert!(s.signaled());
    assert_eq!(s.take(), Some(2));
    assert!(!s.signaled());
}

#[test]
fn chunk_with_frames_and_garbage() {
    let mut dec = PackerDecoder::<16>::new();
    let mut ctx = HandlerCtx::new();
    let mut data = frame_of(&PacketH2C::Ping(Ping { id: 5 }));
    data.extend_from_slice(&[0x11, 0x22, 0x00]);
    data.extend(frame_of(&PacketH2C::StartStream(StartStream {
        motors: Motors::from_bits_truncate(1),
        interval: Interval(10),
    })));
    data.extend(vec![0x33u8; 20]);
    let cmds = feed_all_and_handle(&data, &mut dec, &mut ctx);
    assert_eq!(
        cmds,
        vec![
            Command::Send(PacketC2H::Pong(Pong { id: 5 })),
            Command::Send(PacketC2H::Error(Error::DecodingError)),
            Command::Nothing,
            Command::Send(PacketC2H::Error(Error::DecodingBufferOverflow)),
        ]
    );
    assert_eq!(
        ctx.streams.take(),
        Some(StreamConfig { motors: Motors::from_bits_truncate(1), interval: Interval(10) })
    );
    let tail = frame_of(&PacketH2C::Ping(Ping { id: 6 }));
    let cmds = feed_all_and_handle(&tail, &mut dec, &mut ctx);
    assert_eq!(cmds, vec![Command::Send(PacketC2H::Error(Error::DecodingError))]);
    let cmds = feed_all_and_handle(&tail, &mut dec, &mut ctx);
    assert_eq!(cmds, vec![Command::Send(PacketC2H::Pong(Pong { id: 6 }))]);
}

#[test]
fn chunk_split_across_calls() {
    let mut dec = PackerDecoder::<128>::new();
    let mut ctx = HandlerCtx::new();
    let f = frame_of(&PacketH2C::Ping(Ping { id: 77 }));
    assert_eq!(feed_all_and_handle(&f[..2], &mut dec, &mut ctx), vec![]);
    assert_eq!(
        feed_all_and_handle(&f[2..], &mut dec, &mut ctx),
        vec![Command::Send(PacketC2H::Pong(Pong { id: 77 }))]
    );
}

#[test]
fn host_codec_round_trip() {
    let mut codec = DcMotorControllerCodec;
    let mut wire = Vec::new();
    codec.encode(&PacketH2C::Ping(Ping { id: 3 }), &mut wire).unwrap();
    assert_eq!(wire, frame_of(&PacketH2C::Ping(Ping { id: 3 })));

    let reply = PacketC2H::Pong(Pong { id: 3 });
    let mut buf = [0u8; 64];
    let n = encode_packet(&reply, &mut buf).unwrap();
    let mut src = buf[..n - 1].to_vec();
    assert_eq!(codec.decode(&mut src), Ok(None));
    assert_eq!(src.len(), n - 1);
    src.push(0);
    src.extend_from_slice(&[0x01, 0x00, 0x05]);
    assert_eq!(codec.decode(&mut src), Ok(Some(reply)));
    assert_eq!(src, vec![0x01, 0x00, 0x05]);
    assert_eq!(codec.decode(&mut src), Err(CodecError::Parse));
    assert_eq!(src, vec![0x05]);
}

#[test]
fn host_codec_bad_stuffing() {
    let mut codec = DcMotorControllerCodec;
    let mut src = vec![0x05, 0x01, 0x00];
    assert_eq!(codec.decode(&mut src), Err(CodecError::Cobs));
    assert!(src.is_empty());
}

#[test]
fn packet_from_body() {
    let p: PacketH2C = Ping { id: 1 }.into();
    assert_eq!(p, PacketH2C::Ping(Ping { id: 1 }));
    let e: PacketC2H = Error::DecodingError.into();
    assert_eq!(e, PacketC2H::Error(Error::DecodingError));
}
