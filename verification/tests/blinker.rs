use serial_link::blinker::{
    on_off_timer_isr, period_timer_isr, turn_blinker_off, turn_blinker_on_after_delay,
    turn_blinker_on_now, Blinker, BlinkerState, Drive, LedDrive, Phase, Timer, TimerDrive,
};

const IDLE: Timer = Timer { listening: false, counting: false, timeout: 0 };

#[test]
fn a_new_blinker_is_off() {
    let blinker = Blinker::new();
    assert_eq!(blinker.phase(), Phase::Off);
    assert_eq!(
        blinker.state(),
        BlinkerState {
            on: false,
            saved_duration: 0,
            saved_frequency: 0,
            led_high: false,
            on_off_timer: IDLE,
            period_timer: IDLE,
        }
    );
}

#[test]
fn turn_on_now_arms_both_timers() {
    let mut blinker = Blinker::new();
    let drive = turn_blinker_on_now(&mut blinker, 500, 1000);
    assert_eq!(
        drive,
        Drive {
            led: LedDrive::Low,
            on_off_timer: TimerDrive::Arm(500),
            period_timer: TimerDrive::Arm(1000),
        }
    );
    let state = blinker.state();
    assert!(state.on);
    assert!(!state.led_high);
    assert_eq!(state.on_off_timer, Timer { listening: true, counting: true, timeout: 500 });
    assert_eq!(state.period_timer, Timer { listening: true, counting: true, timeout: 1000 });
    assert_eq!((state.saved_duration, state.saved_frequency), (0, 0));
    assert_eq!(blinker.phase(), Phase::OnNow);
}

#[test]
fn turn_off_disarms_both_timers() {
    let mut blinker = Blinker::new();
    turn_blinker_on_now(&mut blinker, 500, 1000);
    period_timer_isr(&mut blinker);
    let drive = turn_blinker_off(&mut blinker);
    assert_eq!(
        drive,
        Drive {
            led: LedDrive::Low,
            on_off_timer: TimerDrive::Disarm,
            period_timer: TimerDrive::Disarm,
        }
    );
    let state = blinker.state();
    assert!(!state.on);
    assert!(!state.led_high);
    assert_eq!(state.on_off_timer, Timer { listening: false, counting: false, timeout: 500 });
    assert_eq!(state.period_timer, Timer { listening: false, counting: false, timeout: 1000 });
    assert_eq!(blinker.phase(), Phase::Off);
}

#[test]
fn on_off_on_is_on() {
    let mut once = Blinker::new();
    turn_blinker_on_now(&mut once, 500, 1000);
    let mut thrice = Blinker::new();
    turn_blinker_on_now(&mut thrice, 500, 1000);
    turn_blinker_off(&mut thrice);
    turn_blinker_on_now(&mut thrice, 500, 1000);
    assert_eq!(thrice.state(), once.state());
    assert_eq!(thrice, once);
}

#[test]
fn turn_on_after_delay_schedules_and_saves() {
    let mut blinker = Blinker::new();
    turn_blinker_on_now(&mut blinker, 1, 2);
    let drive = turn_blinker_on_after_delay(&mut blinker, 500, 1000, 250);
    assert_eq!(
        drive,
        Drive {
            led: LedDrive::Low,
            on_off_timer: TimerDrive::Arm(250),
            period_timer: TimerDrive::Disarm,
        }
    );
    let state = blinker.state();
    assert!(!state.on);
    assert_eq!((state.saved_duration, state.saved_frequency), (500, 1000));
    assert_eq!(state.on_off_timer, Timer { listening: true, counting: true, timeout: 250 });
    assert_eq!(state.period_timer, Timer { listening: false, counting: false, timeout: 2 });
    assert_eq!(blinker.phase(), Phase::ScheduledDelay);
}

#[test]
fn a_delay_that_ran_out_switches_on() {
    let mut delayed = Blinker::new();
    turn_blinker_on_after_delay(&mut delayed, 500, 1000, 250);
    let drive = on_off_timer_isr(&mut delayed);
    assert_eq!(
        drive,
        Drive {
            led: LedDrive::Low,
            on_off_timer: TimerDrive::Arm(500),
            period_timer: TimerDrive::Arm(1000),
        }
    );
    let mut direct = Blinker::new();
    turn_blinker_on_now(&mut direct, 500, 1000);
    let expected = BlinkerState { saved_duration: 500, saved_frequency: 1000, ..direct.state() };
    assert_eq!(delayed.state(), expected);
    assert_eq!(delayed.phase(), Phase::OnNow);
}

#[test]
fn a_duration_that_ran_out_switches_off() {
    let mut blinker = Blinker::new();
    turn_blinker_on_now(&mut blinker, 500, 1000);
    let drive = on_off_timer_isr(&mut blinker);
    assert_eq!(
        drive,
        Drive {
            led: LedDrive::Low,
            on_off_timer: TimerDrive::Disarm,
            period_timer: TimerDrive::Disarm,
        }
    );
    assert_eq!(blinker.phase(), Phase::Off);
    assert!(!blinker.state().on);
}

#[test]
fn a_period_that_ran_out_inverts_the_output() {
    let mut blinker = Blinker::new();
    turn_blinker_on_now(&mut blinker, 500, 1000);
    let before = blinker.state();
    let drive = period_timer_isr(&mut blinker);
    assert_eq!(
        drive,
        Drive {
            led: LedDrive::Toggle,
            on_off_timer: TimerDrive::Hold,
            period_timer: TimerDrive::Rearm,
        }
    );
    assert_eq!(blinker.state(), BlinkerState { led_high: true, ..before });
    period_timer_isr(&mut blinker);
    assert_eq!(blinker.state(), before);
}
