//! Telemetry stream: which motors to report and when the next report is due.
use vstd::prelude::*;

use crate::handler::StreamConfig;
use crate::wire::{CurrentDraw, MotorState, Motors, PacketC2H, Speed};

verus! {

/// One read of a motor's live state.
#[derive(Clone, Copy, Debug, PartialEq, Eq, Structural)]
pub struct MotorReading {
    pub last_speed: Speed,
    pub current_draw: CurrentDraw,
    pub is_fault: bool,
    pub is_armed: bool,
}

pub open spec fn motor_state_of(id: u8, r: MotorReading) -> PacketC2H {
    PacketC2H::MotorState(
        MotorState {
            motor_id: id,
            last_speed: r.last_speed,
            current_draw: r.current_draw,
            is_fault: r.is_fault,
            is_enabled: r.is_armed,
        },
    )
}

/// One `MotorState` per id of `ids`, in that order, from `readings[id]`.
pub open spec fn snapshot_packets(ids: Seq<u8>, readings: Seq<MotorReading>) -> Seq<PacketC2H> {
    ids.map_values(|id: u8| motor_state_of(id, readings[id as int]))
}

/// The packets of one stream tick: a `MotorState` for each motor of the
/// mask, ascending ids. `readings` holds one read per motor, by id.
pub fn motor_stream_packets(motors: Motors, readings: &Vec<MotorReading>) -> (r: Vec<PacketC2H>)
    requires
        readings@.len() == 4,
    ensures
        r@ == snapshot_packets(motors.id_seq(), readings@),
{
    let ids = motors.ids();
    proof {
        crate::wire::lemma_id_seq_bounds(motors);
    }
    let mut out: Vec<PacketC2H> = Vec::new();
    let mut i: usize = 0;
    while i < ids.len()
        invariant
            i <= ids@.len(),
            ids@ == motors.id_seq(),
            readings@.len() == 4,
            forall|k: int| 0 <= k < ids@.len() ==> ids@[k] < 4,
            out@ == snapshot_packets(ids@.subrange(0, i as int), readings@),
        decreases ids@.len() - i,
    {
        let id = ids[i];
        let r = readings[id as usize];
        out.push(
            PacketC2H::MotorState(
                MotorState {
                    motor_id: id,
                    last_speed: r.last_speed,
                    current_draw: r.current_draw,
                    is_fault: r.is_fault,
                    is_enabled: r.is_armed,
                },
            ),
        );
        proof {
            assert(ids@.subrange(0, i + 1) =~= ids@.subrange(0, i as int).push(id));
            assert(snapshot_packets(ids@.subrange(0, i + 1), readings@) =~= snapshot_packets(
                ids@.subrange(0, i as int),
                readings@,
            ).push(motor_state_of(id, r)));
        }
        i = i + 1;
    }
    proof {
        assert(ids@.subrange(0, ids@.len() as int) =~= ids@);
    }
    out
}

/// State of a transport's stream task: the motors to report and the period
/// in milliseconds, `None` meaning never.
#[derive(Clone, Copy, Debug, PartialEq, Eq, Structural)]
pub struct StreamTask {
    pub motors: Motors,
    pub period_ms: Option<u64>,
}

pub open spec fn adopted(c: StreamConfig) -> StreamTask {
    StreamTask { motors: c.motors, period_ms: Some(c.interval.0 as u64) }
}

pub open spec fn next_tick_spec(period: Option<u64>, now: u64) -> Option<u64> {
    match period {
        Some(p) => if now + p <= u64::MAX {
            Some((now + p) as u64)
        } else {
            None
        },
        None => None,
    }
}

impl StreamTask {
    /// No motors, never due.
    pub fn new() -> (r: StreamTask)
        ensures
            r.motors.spec_bits() == 0,
            r.period_ms is None,
    {
        StreamTask { motors: Motors::empty(), period_ms: None }
    }

    /// Takes a new configuration; the next tick is counted from now, with
    /// nothing carried over from the old period.
    pub fn adopt(&mut self, c: StreamConfig)
        ensures
            *final(self) == adopted(c),
    {
        self.motors = c.motors;
        self.period_ms = Some(c.interval.as_millis());
    }

    /// When the next tick is due, counted from `now`: never when no period
    /// is set or when the sum would overflow.
    pub fn next_tick(&self, now: u64) -> (r: Option<u64>)
        ensures
            r == next_tick_spec(self.period_ms, now),
    {
        match self.period_ms {
            Some(p) => now.checked_add(p),
            None => None,
        }
    }

    /// The packets of a tick; none while the motors are not set up.
    pub fn on_elapsed(&self, readings: Option<&Vec<MotorReading>>) -> (r: Vec<PacketC2H>)
        requires
            readings matches Some(v) ==> v@.len() == 4,
        ensures
            match readings {
                Some(v) => r@ == snapshot_packets(self.motors.id_seq(), v@),
                None => r@ == Seq::<PacketC2H>::empty(),
            },
    {
        match readings {
            Some(v) => motor_stream_packets(self.motors, v),
            None => Vec::new(),
        }
    }
}

/// Motor id that a packet reports on, or -1.
pub open spec fn reported_id(p: PacketC2H) -> int {
    match p {
        PacketC2H::MotorState(m) => m.motor_id as int,
        _ => -1,
    }
}

/// A stream started with a mask reports, on each tick, one `MotorState` per
/// selected motor, each for a selected motor, in strictly ascending id
/// order; a second configuration taken before the tick replaces the first
/// entirely, so nothing is reported for the first. Once a configuration is
/// taken at `now`, the tick is due one interval later, and after each tick
/// at `t` the next is due one interval after `t`.
pub proof fn lemma_stream_ticks(
    c1: StreamConfig,
    c2: StreamConfig,
    readings: Seq<MotorReading>,
    now: u64,
)
    requires
        readings.len() == 4,
        now + c1.interval.0 <= u64::MAX,
    ensures
        next_tick_spec(adopted(c1).period_ms, now) == Some((now + c1.interval.0) as u64),
        adopted(c2).motors == c2.motors,
        adopted(c2).period_ms == Some(c2.interval.0 as u64),
        snapshot_packets(adopted(c1).motors.id_seq(), readings).len()
            == adopted(c1).motors.id_seq().len(),
        forall|i: int|
            0 <= i < adopted(c1).motors.id_seq().len() ==> c1.motors.has(
                reported_id(
                    #[trigger] snapshot_packets(adopted(c1).motors.id_seq(), readings)[i],
                ) as nat,
            ),
        forall|i: int, j: int|
            0 <= i < j < adopted(c1).motors.id_seq().len() ==> reported_id(
                #[trigger] snapshot_packets(adopted(c1).motors.id_seq(), readings)[i],
            ) < reported_id(#[trigger] snapshot_packets(adopted(c1).motors.id_seq(), readings)[j]),
{
    crate::wire::lemma_id_seq_bounds(c1.motors);
}

} // verus!
