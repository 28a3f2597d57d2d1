use dc_motor_controller::handler::{Slot, StreamConfig};
use dc_motor_controller::i2c::{
    i2c_packet, i2c_response, parse_i2c_message, I2cRequest, PacketsI2c,
};
use dc_motor_controller::stream::{motor_stream_packets, MotorReading, StreamTask};
use dc_motor_controller::watchdog::{
    disable_motors, feed_safety_watch_dog, Deadline, SafetyWatchdog, WatchdogAction,
};
use dc_motor_controller::wire::{
    CurrentDraw, Interval, MotorState, Motors, PacketC2H, PacketH2C, SetArmed, SetSpeed, Speed,
};

fn readings() -> Vec<MotorReading> {
    vec![
        MotorReading {
            last_speed: Speed(100),
            current_draw: CurrentDraw(500),
            is_fault: false,
            is_armed: true,
        },
        MotorReading {
            last_speed: Speed(0),
            current_draw: CurrentDraw(0),
            is_fault: false,
            is_armed: false,
        },
        MotorReading {
            last_speed: Speed(-2),
            current_draw: CurrentDraw::unknown(),
            is_fault: true,
            is_armed: true,
        },
        MotorReading {
            last_speed: Speed(7),
            current_draw: CurrentDraw(9),
            is_fault: false,
            is_armed: false,
        },
    ]
}

#[test]
fn mask_ids_ascend() {
    let m = Motors::from_bits_truncate(0b1010);
    assert_eq!(m.ids(), vec![1, 3]);
    assert_eq!(m.count(), 2);
    assert!(m.contains(1) && !m.contains(0) && !m.contains(4));
    assert_eq!(Motors::from_bits_truncate(0xFF).bits(), 0x0F);
    assert_eq!(Motors::from_bits_retain(0xF1).ids(), vec![0]);
    assert_eq!(Motors::all().ids(), vec![0, 1, 2, 3]);
    assert!(Motors::empty().ids().is_empty());
}

#[test]
fn interval_and_current_fields() {
    assert_eq!(Interval::from_millis(500), Interval(500));
    assert_eq!(Interval::from_millis(70000), Interval(4464));
    assert_eq!(Interval(65535).as_millis(), 65535);
    assert!(CurrentDraw::unknown().is_unknown());
    assert!(!CurrentDraw(65534).is_unknown());
}

#[test]
fn stream_tick_reports_selected_motors_in_order() {
    let mask = Motors::from_bits_truncate(0b0101);
    let p = motor_stream_packets(mask, &readings());
    assert_eq!(
        p,
        vec![
            PacketC2H::MotorState(MotorState {
                motor_id: 0,
                last_speed: Speed(100),
                current_draw: CurrentDraw(500),
                is_fault: false,
                is_enabled: true,
            }),
            PacketC2H::MotorState(MotorState {
                motor_id: 2,
                last_speed: Speed(-2),
                current_draw: CurrentDraw(65535),
                is_fault: true,
                is_enabled: true,
            }),
        ]
    );
}

#[test]
fn stream_task_schedule() {
    let mut t = StreamTask::new();
    assert_eq!(t.next_tick(1000), None);
    assert!(t.on_elapsed(Some(&readings())).is_empty());
    t.adopt(StreamConfig { motors: Motors::from_bits_truncate(0b0101), interval: Interval(50) });
    assert_eq!(t.next_tick(1000), Some(1050));
    assert_eq!(t.next_tick(u64::MAX - 10), None);
    assert_eq!(t.on_elapsed(Some(&readings())).len(), 2);
    assert!(t.on_elapsed(None).is_empty());
    t.adopt(StreamConfig { motors: Motors::from_bits_truncate(0b1000), interval: Interval(20) });
    assert_eq!(t.next_tick(1010), Some(1030));
    let p = t.on_elapsed(Some(&readings()));
    assert_eq!(p.len(), 1);
    assert!(matches!(p[0], PacketC2H::MotorState(MotorState { motor_id: 3, .. })));
}

#[test]
fn watchdog_feed_then_lapse() {
    let mut slot: Slot<Deadline> = Slot::new();
    let mut wd = SafetyWatchdog::new();
    feed_safety_watch_dog(&mut slot, 0, Interval(100));
    let d = slot.take().unwrap();
    assert_eq!(d, Deadline::At(100));
    assert_eq!(wd.on_update(d, 0), WatchdogAction::ArmAllThenSleepUntil(100));
    assert_eq!(wd.on_wake(slot.signaled()), WatchdogAction::DeadlineElapsed);
    assert_eq!(wd.counting_to, None);
}

#[test]
fn watchdog_refeed_keeps_armed() {
    let mut slot: Slot<Deadline> = Slot::new();
    let mut wd = SafetyWatchdog::new();
    feed_safety_watch_dog(&mut slot, 0, Interval(100));
    let d = slot.take().unwrap();
    assert_eq!(wd.on_update(d, 0), WatchdogAction::ArmAllThenSleepUntil(100));
    feed_safety_watch_dog(&mut slot, 80, Interval(50));
    assert_eq!(wd.on_wake(slot.signaled()), WatchdogAction::Nothing);
    let d = slot.take().unwrap();
    assert_eq!(wd.on_update(d, 100), WatchdogAction::ArmAllThenSleepUntil(130));
    assert_eq!(wd.on_wake(slot.signaled()), WatchdogAction::DeadlineElapsed);
}

#[test]
fn watchdog_disable_and_past_deadline() {
    let mut slot: Slot<Deadline> = Slot::new();
    let mut wd = SafetyWatchdog::new();
    feed_safety_watch_dog(&mut slot, 0, Interval(100));
    disable_motors(&mut slot);
    let d = slot.take().unwrap();
    assert_eq!(d, Deadline::Never);
    assert_eq!(wd.on_update(d, 5), WatchdogAction::DisarmAll);
    assert_eq!(wd.on_update(Deadline::At(5), 10), WatchdogAction::SleepUntil(5));
    feed_safety_watch_dog(&mut slot, u64::MAX - 1, Interval(100));
    assert_eq!(slot.take(), Some(Deadline::At(u64::MAX)));
}

#[test]
fn i2c_opcodes() {
    assert_eq!(PacketsI2c::from(0u8), PacketsI2c::SetSpeed);
    assert_eq!(PacketsI2c::from(1u8), PacketsI2c::ReadMotor);
    assert_eq!(PacketsI2c::from(2u8), PacketsI2c::Arm);
    assert_eq!(PacketsI2c::from(200u8), PacketsI2c::Unknown(200));
}

#[test]
fn i2c_parse_requests() {
    assert_eq!(
        parse_i2c_message(&[0, 0x13, 0x40, 0x00]),
        Some(I2cRequest::SetSpeed(SetSpeed {
            motors: Motors::from_bits_truncate(3),
            speed: Speed(16384)
        }))
    );
    assert_eq!(
        parse_i2c_message(&[0, 1, 0xFF, 0xFF]),
        Some(I2cRequest::SetSpeed(SetSpeed { motors: Motors::from_bits_truncate(1), speed: Speed(-1) }))
    );
    assert_eq!(
        parse_i2c_message(&[1, 0x05]),
        Some(I2cRequest::ReadMotor(Motors::from_bits_truncate(5)))
    );
    assert_eq!(
        parse_i2c_message(&[2, 0x00, 0x64]),
        Some(I2cRequest::Arm(SetArmed::Armed { duration: Interval(100) }))
    );
    assert_eq!(parse_i2c_message(&[2, 0, 0]), Some(I2cRequest::Arm(SetArmed::Disarmed)));
    assert_eq!(parse_i2c_message(&[7]), Some(I2cRequest::Unknown(7)));
    assert_eq!(parse_i2c_message(&[]), None);
    assert_eq!(parse_i2c_message(&[0, 1]), None);
}

#[test]
fn i2c_dispatch_packets() {
    let s = SetSpeed { motors: Motors::from_bits_truncate(1), speed: Speed(5) };
    assert_eq!(i2c_packet(&I2cRequest::SetSpeed(s)), Some(PacketH2C::SetSpeed(s)));
    assert_eq!(
        i2c_packet(&I2cRequest::Arm(SetArmed::Disarmed)),
        Some(PacketH2C::SetArmed(SetArmed::Disarmed))
    );
    assert_eq!(i2c_packet(&I2cRequest::ReadMotor(Motors::all())), None);
}

#[test]
fn i2c_responses() {
    let rs = readings();
    let mask = Motors::from_bits_truncate(0b0101);
    assert_eq!(
        i2c_response(&I2cRequest::ReadMotor(mask), Some(&rs)),
        vec![2, 0, 0x00, 0x64, 0x01, 0xF4, 0, 2, 0xFF, 0xFE, 0xFF, 0xFF, 1]
    );
    let s = SetSpeed { motors: mask, speed: Speed(0) };
    assert_eq!(
        i2c_response(&I2cRequest::SetSpeed(s), Some(&rs)),
        vec![2, 0, 0x01, 0xF4, 0, 2, 0xFF, 0xFF, 1]
    );
    assert_eq!(i2c_response(&I2cRequest::SetSpeed(s), None), vec![0]);
    assert_eq!(i2c_response(&I2cRequest::ReadMotor(mask), None), vec![0]);
    assert!(i2c_response(&I2cRequest::Arm(SetArmed::Disarmed), Some(&rs)).is_empty());
    assert!(i2c_response(&I2cRequest::Unknown(9), Some(&rs)).is_empty());
}
