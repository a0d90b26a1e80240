use vstd::prelude::*;
use crate::shift_register::{sample_mean, ShiftRegister};

verus! {

/// The ticks that the system timer counts in a second.
pub const TICKS_PER_SECOND: u64 = 16_000_000;

/// The milliseconds that `ticks` of the system timer last, rounded down.
pub open spec fn ticks_to_millis(ticks: int) -> int {
    ticks * 1000 / (TICKS_PER_SECOND as int)
}

/// A tempo tapped on a button: how long the button stayed up and down the
/// last few times, and the on and off times of the blinking that follow
/// from their means.
pub struct TapTempo {
    /// How long the button was up before each of the last presses, in ticks.
    pub off_delays: ShiftRegister,
    /// How long the button was down before each of the last releases, in
    /// ticks.
    pub on_delays: ShiftRegister,
    /// When the button last changed, in ticks.
    pub last_instant: u64,
    /// Whether the button is down.
    pub button_down: bool,
    /// The time the output stays off, in milliseconds.
    pub off_delay: u64,
    /// The time the output stays on, in milliseconds.
    pub on_delay: u64,
}

impl TapTempo {
    /// No taps yet, as of the instant `now`.
    pub fn new(now: u64) -> (r: Self)
        ensures
            r.off_delays@ == seq![None::<u64>, None::<u64>, None::<u64>],
            r.on_delays@ == seq![None::<u64>, None::<u64>, None::<u64>],
            r.last_instant == now,
            !r.button_down,
            r.off_delay == 0,
            r.on_delay == 0,
    {
        TapTempo {
            off_delays: ShiftRegister::default(),
            on_delays: ShiftRegister::default(),
            last_instant: now,
            button_down: false,
            off_delay: 0,
            on_delay: 0,
        }
    }
}

/// The milliseconds that the mean of the samples in `register` lasts.
fn mean_millis(register: &ShiftRegister) -> (millis: u64)
    ensures
        millis == ticks_to_millis(sample_mean(register@)),
{
    let mean = register.avg();
    (mean as u128 * 1000 / (TICKS_PER_SECOND as u128)) as u64
}

/// The button changed at the instant `now`; `low` says that it is down now.
/// The time since its last change is one more sample: of the time it was up
/// when it went down, of the time it was down when it went up. The off time
/// or the on time becomes the mean of those samples, in milliseconds.
pub fn button(tap: &mut TapTempo, now: u64, low: bool)
    requires
        old(tap).last_instant <= now,
    ensures
        final(tap).last_instant == now,
        final(tap).button_down == low,
        low ==> final(tap).off_delays@ == seq![
            Some((now - old(tap).last_instant) as u64),
            old(tap).off_delays@[0],
            old(tap).off_delays@[1],
        ] && final(tap).off_delay == ticks_to_millis(sample_mean(final(tap).off_delays@))
            && final(tap).on_delays == old(tap).on_delays && final(tap).on_delay == old(
            tap,
        ).on_delay,
        !low ==> final(tap).on_delays@ == seq![
            Some((now - old(tap).last_instant) as u64),
            old(tap).on_delays@[0],
            old(tap).on_delays@[1],
        ] && final(tap).on_delay == ticks_to_millis(sample_mean(final(tap).on_delays@))
            && final(tap).off_delays == old(tap).off_delays && final(tap).off_delay == old(
            tap,
        ).off_delay,
{
    let diff = now - tap.last_instant;
    if low {
        tap.button_down = true;
        tap.off_delays.insert(diff);
        tap.off_delay = mean_millis(&tap.off_delays);
    } else {
        tap.button_down = false;
        tap.on_delays.insert(diff);
        tap.on_delay = mean_millis(&tap.on_delays);
    }
    tap.last_instant = now;
}

} // verus!
