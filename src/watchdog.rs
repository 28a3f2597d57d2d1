//! Safety watchdog: motors stay armed only while a deadline set by the host
//! lies in the future.
//!
//! The task that runs it waits for a deadline in a `Slot<Deadline>`, hands
//! it to `on_update`, does what comes back, and when it slept until the
//! deadline hands `on_wake` whether a newer deadline is pending (looked at
//! without taking it). Times are milliseconds on the board's clock.
use vstd::prelude::*;

use crate::handler::Slot;
use crate::wire::Interval;

verus! {

/// A deadline from the host.
#[derive(Clone, Copy, Debug, PartialEq, Eq, Structural)]
pub enum Deadline {
    /// Motors may stay armed until this time.
    At(u64),
    /// Disarmed until the next feed.
    Never,
}

/// What the watchdog task does next.
#[derive(Clone, Copy, Debug, PartialEq, Eq, Structural)]
pub enum WatchdogAction {
    /// Disarm every motor, then wait for the next deadline.
    DisarmAll,
    /// Arm every motor, then sleep until the time unless a newer deadline
    /// comes first.
    ArmAllThenSleepUntil(u64),
    /// Sleep until the time (already past) unless a newer deadline comes
    /// first.
    SleepUntil(u64),
    /// The deadline lapsed: warn, disarm every motor, wait for the next
    /// deadline.
    DeadlineElapsed,
    /// A newer deadline is pending: go and take it.
    Nothing,
}

/// The deadline that a feed of `dur` at `now` sets; saturates at the end of
/// time rather than overflow.
pub open spec fn deadline_after(now: u64, dur: Interval) -> Deadline {
    if now + dur.0 <= u64::MAX {
        Deadline::At((now + dur.0) as u64)
    } else {
        Deadline::At(u64::MAX)
    }
}

/// Sets the deadline to `now + dur`, replacing one not yet taken.
pub fn feed_safety_watch_dog(slot: &mut Slot<Deadline>, now: u64, dur: Interval)
    ensures
        final(slot)@ == Some(deadline_after(now, dur)),
{
    slot.signal(Deadline::At(now.saturating_add(dur.as_millis())));
}

/// Disarms every motor until the next feed, replacing any deadline not yet
/// taken.
pub fn disable_motors(slot: &mut Slot<Deadline>)
    ensures
        final(slot)@ == Some(Deadline::Never),
{
    slot.signal(Deadline::Never);
}

/// Deadline being counted down to, if any, and action, after a deadline
/// update arrives at `now`.
pub open spec fn update_spec(d: Deadline, now: u64) -> (Option<u64>, WatchdogAction) {
    match d {
        Deadline::Never => (None, WatchdogAction::DisarmAll),
        Deadline::At(t) => (Some(t), if t > now {
            WatchdogAction::ArmAllThenSleepUntil(t)
        } else {
            WatchdogAction::SleepUntil(t)
        }),
    }
}

/// After the sleep ended: a pending deadline wins, else the deadline lapsed.
pub open spec fn wake_spec(pending: bool) -> (Option<u64>, WatchdogAction) {
    (None, if pending {
        WatchdogAction::Nothing
    } else {
        WatchdogAction::DeadlineElapsed
    })
}

/// Whether the motors are armed after `a`, given whether they were before.
pub open spec fn armed_after(a: WatchdogAction, was: bool) -> bool {
    match a {
        WatchdogAction::DisarmAll => false,
        WatchdogAction::DeadlineElapsed => false,
        WatchdogAction::ArmAllThenSleepUntil(_) => true,
        _ => was,
    }
}

/// The watchdog task's state.
#[derive(Clone, Copy, Debug, PartialEq, Eq, Structural)]
pub struct SafetyWatchdog {
    /// The deadline being slept towards, if any.
    pub counting_to: Option<u64>,
}

impl SafetyWatchdog {
    /// Waiting for the first deadline.
    pub fn new() -> (r: SafetyWatchdog)
        ensures
            r.counting_to is None,
    {
        SafetyWatchdog { counting_to: None }
    }

    /// A deadline taken from the slot at `now`.
    pub fn on_update(&mut self, d: Deadline, now: u64) -> (r: WatchdogAction)
        ensures
            (final(self).counting_to, r) == update_spec(d, now),
    {
        match d {
            Deadline::Never => {
                self.counting_to = None;
                WatchdogAction::DisarmAll
            },
            Deadline::At(t) => {
                self.counting_to = Some(t);
                if t > now {
                    WatchdogAction::ArmAllThenSleepUntil(t)
                } else {
                    WatchdogAction::SleepUntil(t)
                }
            },
        }
    }

    /// The sleep towards the deadline ended; `pending` says whether a newer
    /// deadline waits in the slot.
    pub fn on_wake(&mut self, pending: bool) -> (r: WatchdogAction)
        ensures
            (final(self).counting_to, r) == wake_spec(pending),
    {
        self.counting_to = None;
        if pending {
            WatchdogAction::Nothing
        } else {
            WatchdogAction::DeadlineElapsed
        }
    }
}

/// A feed of `dur > 0` at `t0` with no further feed: motors are armed at
/// once and stay so while the task sleeps until `t0 + dur`; when it wakes
/// with nothing pending they are disarmed.
pub proof fn lemma_feed_then_lapse(t0: u64, dur: Interval, was: bool)
    requires
        dur.0 > 0,
        t0 + dur.0 <= u64::MAX,
    ensures
        update_spec(deadline_after(t0, dur), t0).1 == WatchdogAction::ArmAllThenSleepUntil(
            (t0 + dur.0) as u64,
        ),
        armed_after(update_spec(deadline_after(t0, dur), t0).1, was),
        !armed_after(wake_spec(false).1, true),
{
}

/// A feed of 100 ms at `t0`, then one of 50 ms at `t0 + 80`: when the first
/// sleep ends at `t0 + 100` the second deadline is pending, so nothing is
/// disarmed; taking it at any `now` before `t0 + 130` keeps the motors
/// armed and sleeps until `t0 + 130`.
pub proof fn lemma_refeed_extends(t0: u64, now: u64)
    requires
        t0 + 130 <= u64::MAX,
        t0 + 100 <= now < t0 + 130,
    ensures
        update_spec(deadline_after(t0, Interval(100)), t0).1
            == WatchdogAction::ArmAllThenSleepUntil((t0 + 100) as u64),
        wake_spec(true).1 == WatchdogAction::Nothing,
        armed_after(wake_spec(true).1, true),
        update_spec(deadline_after((t0 + 80) as u64, Interval(50)), now).1
            == WatchdogAction::ArmAllThenSleepUntil((t0 + 130) as u64),
        armed_after(update_spec(deadline_after((t0 + 80) as u64, Interval(50)), now).1, true),
{
}

/// Disabling at any time, in any state, disarms at once, and the watchdog
/// then only waits: only a new feed can arm again.
pub proof fn lemma_disable_disarms(now: u64, was: bool)
    ensures
        !armed_after(update_spec(Deadline::Never, now).1, was),
        update_spec(Deadline::Never, now).0 is None,
{
}

} // verus!
