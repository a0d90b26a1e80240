use serial_link::tap_tempo::{button, TapTempo, TICKS_PER_SECOND};

#[test]
fn presses_and_releases_are_sampled_apart() {
    let mut tap = TapTempo::new(1000);
    button(&mut tap, 1000 + 8_000_000, true);
    assert!(tap.button_down);
    assert_eq!(tap.last_instant, 8_001_000);
    assert_eq!(tap.off_delays.as_array(), &[Some(8_000_000), None, None]);
    assert_eq!(tap.on_delays.as_array(), &[None, None, None]);
    assert_eq!(tap.off_delay, 500);
    assert_eq!(tap.on_delay, 0);

    button(&mut tap, 8_001_000 + 1_600_000, false);
    assert!(!tap.button_down);
    assert_eq!(tap.on_delays.as_array(), &[Some(1_600_000), None, None]);
    assert_eq!(tap.off_delays.as_array(), &[Some(8_000_000), None, None]);
    assert_eq!(tap.on_delay, 100);
    assert_eq!(tap.off_delay, 500);
}

#[test]
fn the_delay_is_the_mean_of_the_last_three() {
    let mut tap = TapTempo::new(0);
    let mut now = 0;
    for ticks in [16_000_000u64, 32_000_000, 48_000_000, 64_000_000] {
        now += ticks;
        button(&mut tap, now, true);
    }
    assert_eq!(
        tap.off_delays.as_array(),
        &[Some(64_000_000), Some(48_000_000), Some(32_000_000)]
    );
    assert_eq!(tap.off_delay, 3000);
}

#[test]
fn the_longest_interval_does_not_overflow() {
    let mut tap = TapTempo::new(0);
    button(&mut tap, u64::MAX, false);
    assert_eq!(tap.on_delay, (u64::MAX as u128 * 1000 / TICKS_PER_SECOND as u128) as u64);
    assert_eq!(tap.on_delay, 1_152_921_504_606_846);
}
