use vstd::prelude::*;

verus! {

/// A hardware timer as the controller sees it: whether its interrupt is
/// listened to, whether it counts, and the time it was last started with.
#[derive(Clone, Copy, Debug, PartialEq, Eq, Structural)]
pub struct Timer {
    pub listening: bool,
    pub counting: bool,
    pub timeout: u64,
}

/// What is to be done to a timer.
#[derive(Clone, Copy, Debug, PartialEq, Eq, Structural)]
pub enum TimerDrive {
    /// Nothing.
    Hold,
    /// Listen to its interrupt and start it with this time.
    Arm(u64),
    /// Stop listening to its interrupt and stop its counter.
    Disarm,
    /// Acknowledge its interrupt and set its alarm again: it goes on as it
    /// was started.
    Rearm,
}

/// What is to be done to the blinking output.
#[derive(Clone, Copy, Debug, PartialEq, Eq, Structural)]
pub enum LedDrive {
    /// Nothing.
    Hold,
    /// Drive it low.
    Low,
    /// Invert it.
    Toggle,
}

/// What a transition of the blinker asks of the hardware.
#[derive(Clone, Copy, Debug, PartialEq, Eq, Structural)]
pub struct Drive {
    pub led: LedDrive,
    pub on_off_timer: TimerDrive,
    pub period_timer: TimerDrive,
}

/// Where the blinker stands.
#[derive(Clone, Copy, Debug, PartialEq, Eq, Structural)]
pub enum Phase {
    /// Nothing is scheduled.
    Off,
    /// A blink episode runs until the on/off timer fires.
    OnNow,
    /// A blink episode starts when the on/off timer fires.
    ScheduledDelay,
}

/// All that the blinker holds: whether an episode runs, the duration and
/// period saved for a delayed start, the level of the output and the two
/// timers.
#[derive(Clone, Copy, Debug, PartialEq, Eq, Structural)]
pub struct BlinkerState {
    pub on: bool,
    pub saved_duration: u64,
    pub saved_frequency: u64,
    pub led_high: bool,
    pub on_off_timer: Timer,
    pub period_timer: Timer,
}

impl Timer {
    /// A timer is armed when it counts and its interrupt is listened to.
    pub open spec fn armed(self) -> bool {
        self.listening && self.counting
    }

    /// The timer after `drive` was done to it.
    pub open spec fn driven(self, drive: TimerDrive) -> Timer {
        match drive {
            TimerDrive::Hold => self,
            TimerDrive::Arm(timeout) => Timer { listening: true, counting: true, timeout },
            TimerDrive::Disarm => Timer { listening: false, counting: false, timeout: self.timeout },
            TimerDrive::Rearm => self,
        }
    }

    fn drive(&mut self, drive: TimerDrive)
        ensures
            *final(self) == old(self).driven(drive),
    {
        match drive {
            TimerDrive::Arm(timeout) => {
                self.listening = true;
                self.counting = true;
                self.timeout = timeout;
            },
            TimerDrive::Disarm => {
                self.listening = false;
                self.counting = false;
            },
            _ => {},
        }
    }
}

/// The level of the output after `drive` was done to it.
pub open spec fn led_driven(led_high: bool, drive: LedDrive) -> bool {
    match drive {
        LedDrive::Hold => led_high,
        LedDrive::Low => false,
        LedDrive::Toggle => !led_high,
    }
}

/// What switching off asks of the hardware.
pub open spec fn drive_off() -> Drive {
    Drive { led: LedDrive::Low, on_off_timer: TimerDrive::Disarm, period_timer: TimerDrive::Disarm }
}

/// What switching on at once asks of the hardware.
pub open spec fn drive_on_now(duration: u64, frequency: u64) -> Drive {
    Drive {
        led: LedDrive::Low,
        on_off_timer: TimerDrive::Arm(duration),
        period_timer: TimerDrive::Arm(frequency),
    }
}

/// What switching on after a delay asks of the hardware.
pub open spec fn drive_on_after_delay(delay: u64) -> Drive {
    Drive {
        led: LedDrive::Low,
        on_off_timer: TimerDrive::Arm(delay),
        period_timer: TimerDrive::Disarm,
    }
}

/// What a period that has run out asks of the hardware.
pub open spec fn drive_period() -> Drive {
    Drive { led: LedDrive::Toggle, on_off_timer: TimerDrive::Hold, period_timer: TimerDrive::Rearm }
}

impl BlinkerState {
    /// The state of a device that was just started.
    pub open spec fn initial() -> BlinkerState {
        BlinkerState {
            on: false,
            saved_duration: 0,
            saved_frequency: 0,
            led_high: false,
            on_off_timer: Timer { listening: false, counting: false, timeout: 0 },
            period_timer: Timer { listening: false, counting: false, timeout: 0 },
        }
    }

    /// The state with `drive` done to output and timers.
    pub open spec fn driven(self, drive: Drive) -> BlinkerState {
        BlinkerState {
            led_high: led_driven(self.led_high, drive.led),
            on_off_timer: self.on_off_timer.driven(drive.on_off_timer),
            period_timer: self.period_timer.driven(drive.period_timer),
            ..self
        }
    }

    /// Where the blinker stands: in an episode while `on`, else waiting for
    /// one while the on/off timer is armed, else off.
    pub open spec fn phase(self) -> Phase {
        if self.on {
            Phase::OnNow
        } else if self.on_off_timer.armed() {
            Phase::ScheduledDelay
        } else {
            Phase::Off
        }
    }

    /// Switched off: output low, both timers disarmed, no episode.
    pub open spec fn off(self) -> BlinkerState {
        BlinkerState { on: false, ..self.driven(drive_off()) }
    }

    /// Switched on at once: output low, the on/off timer armed with the
    /// duration, the period timer with the period, an episode runs.
    pub open spec fn on_now(self, duration: u64, frequency: u64) -> BlinkerState {
        BlinkerState { on: true, ..self.driven(drive_on_now(duration, frequency)) }
    }

    /// Switched on after a delay: output low, the on/off timer armed with
    /// the delay, the period timer disarmed, duration and period saved, no
    /// episode yet.
    pub open spec fn on_after_delay(self, duration: u64, frequency: u64, delay: u64) -> BlinkerState {
        BlinkerState {
            on: false,
            saved_duration: duration,
            saved_frequency: frequency,
            ..self.driven(drive_on_after_delay(delay))
        }
    }

    /// After the on/off timer fired: an episode that ran is over, else one
    /// starts with the duration and period saved.
    pub open spec fn on_off_elapsed(self) -> BlinkerState {
        if self.on {
            self.off()
        } else {
            self.on_now(self.saved_duration, self.saved_frequency)
        }
    }

    /// After the period timer fired: the output is inverted.
    pub open spec fn period_elapsed(self) -> BlinkerState {
        self.driven(drive_period())
    }
}

/// The blinking output with its two timers. It is changed only through the
/// four operations and the two timer events below.
#[derive(Clone, Copy, Debug, PartialEq, Eq)]
pub struct Blinker {
    state: BlinkerState,
}

impl Blinker {
    /// All that the blinker holds.
    pub closed spec fn view(&self) -> BlinkerState {
        self.state
    }

    /// The blinker of a device that was just started: off, nothing saved.
    pub fn new() -> (r: Self)
        ensures
            r@ == BlinkerState::initial(),
            r@.phase() == Phase::Off,
    {
        Blinker {
            state: BlinkerState {
                on: false,
                saved_duration: 0,
                saved_frequency: 0,
                led_high: false,
                on_off_timer: Timer { listening: false, counting: false, timeout: 0 },
                period_timer: Timer { listening: false, counting: false, timeout: 0 },
            },
        }
    }

    /// All that the blinker holds.
    pub fn state(&self) -> (s: BlinkerState)
        ensures
            s == self@,
    {
        self.state
    }

    /// Where the blinker stands.
    pub fn phase(&self) -> (p: Phase)
        ensures
            p == self@.phase(),
    {
        if self.state.on {
            Phase::OnNow
        } else if self.state.on_off_timer.listening && self.state.on_off_timer.counting {
            Phase::ScheduledDelay
        } else {
            Phase::Off
        }
    }

    fn apply(&mut self, drive: Drive)
        ensures
            final(self)@ == old(self)@.driven(drive),
    {
        match drive.led {
            LedDrive::Hold => {},
            LedDrive::Low => {
                self.state.led_high = false;
            },
            LedDrive::Toggle => {
                self.state.led_high = !self.state.led_high;
            },
        }
        self.state.on_off_timer.drive(drive.on_off_timer);
        self.state.period_timer.drive(drive.period_timer);
    }
}

/// Ends whatever the blinker does: output low, both timers disarmed.
/// Returns what that asks of the hardware.
pub fn turn_blinker_off(blinker: &mut Blinker) -> (drive: Drive)
    ensures
        final(blinker)@ == old(blinker)@.off(),
        final(blinker)@.phase() == Phase::Off,
        drive == drive_off(),
{
    let drive = Drive {
        led: LedDrive::Low,
        on_off_timer: TimerDrive::Disarm,
        period_timer: TimerDrive::Disarm,
    };
    blinker.apply(drive);
    blinker.state.on = false;
    drive
}

/// Starts a blink episode of `duration` with the period `frequency` at
/// once. Returns what that asks of the hardware.
pub fn turn_blinker_on_now(blinker: &mut Blinker, duration: u64, frequency: u64) -> (drive: Drive)
    ensures
        final(blinker)@ == old(blinker)@.on_now(duration, frequency),
        final(blinker)@.phase() == Phase::OnNow,
        drive == drive_on_now(duration, frequency),
{
    let drive = Drive {
        led: LedDrive::Low,
        on_off_timer: TimerDrive::Arm(duration),
        period_timer: TimerDrive::Arm(frequency),
    };
    blinker.apply(drive);
    blinker.state.on = true;
    drive
}

/// Schedules a blink episode of `duration` with the period `frequency` to
/// start after `delay`. Returns what that asks of the hardware.
pub fn turn_blinker_on_after_delay(
    blinker: &mut Blinker,
    duration: u64,
    frequency: u64,
    delay: u64,
) -> (drive: Drive)
    ensures
        final(blinker)@ == old(blinker)@.on_after_delay(duration, frequency, delay),
        final(blinker)@.phase() == Phase::ScheduledDelay,
        drive == drive_on_after_delay(delay),
{
    let drive = Drive {
        led: LedDrive::Low,
        on_off_timer: TimerDrive::Arm(delay),
        period_timer: TimerDrive::Disarm,
    };
    blinker.apply(drive);
    blinker.state.on = false;
    blinker.state.saved_duration = duration;
    blinker.state.saved_frequency = frequency;
    drive
}

/// The on/off timer has fired: ends the episode that runs, or else starts
/// one with the duration and period saved. Returns what that asks of the
/// hardware, besides acknowledging the interrupt.
pub fn on_off_timer_isr(blinker: &mut Blinker) -> (drive: Drive)
    ensures
        final(blinker)@ == old(blinker)@.on_off_elapsed(),
        drive == if old(blinker)@.on {
            drive_off()
        } else {
            drive_on_now(old(blinker)@.saved_duration, old(blinker)@.saved_frequency)
        },
{
    if blinker.state.on {
        turn_blinker_off(blinker)
    } else {
        let duration = blinker.state.saved_duration;
        let frequency = blinker.state.saved_frequency;
        turn_blinker_on_now(blinker, duration, frequency)
    }
}

/// The period timer has fired: inverts the output and sets the alarm again.
/// Returns what that asks of the hardware.
pub fn period_timer_isr(blinker: &mut Blinker) -> (drive: Drive)
    ensures
        final(blinker)@ == old(blinker)@.period_elapsed(),
        drive == drive_period(),
{
    let drive = Drive {
        led: LedDrive::Toggle,
        on_off_timer: TimerDrive::Hold,
        period_timer: TimerDrive::Rearm,
    };
    blinker.apply(drive);
    drive
}

/// Switching on, off and on again with the same duration and period leaves
/// the blinker exactly where switching on once leaves it: in an episode,
/// the on/off timer armed with the duration and the period timer with the
/// period.
pub proof fn lemma_on_off_on(s: BlinkerState, duration: u64, frequency: u64)
    ensures
        s.on_now(duration, frequency).off().on_now(duration, frequency) == s.on_now(
            duration,
            frequency,
        ),
        s.on_now(duration, frequency).on,
        s.on_now(duration, frequency).on_off_timer == (Timer {
            listening: true,
            counting: true,
            timeout: duration,
        }),
        s.on_now(duration, frequency).period_timer == (Timer {
            listening: true,
            counting: true,
            timeout: frequency,
        }),
{
}

/// A delayed start whose delay has run out leaves the blinker where
/// switching on at once leaves it, but for the duration and period that the
/// delayed start saved.
pub proof fn lemma_delay_elapsed(s: BlinkerState, duration: u64, frequency: u64, delay: u64)
    ensures
        s.on_after_delay(duration, frequency, delay).on_off_elapsed() == (BlinkerState {
            saved_duration: duration,
            saved_frequency: frequency,
            ..s.on_now(duration, frequency)
        }),
{
}

} // verus!
