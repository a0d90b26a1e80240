use vstd::prelude::*;
use crate::time_reference::{get_date_time, TimeReference};

verus! {

/// A colour of the RGB light, eight bits a channel.
#[derive(Clone, Copy, Debug, PartialEq, Eq, Structural)]
pub struct Rgb {
    pub r: u8,
    pub g: u8,
    pub b: u8,
}

/// The brightness at which the light is lit, out of 255.
pub const BRIGHTNESS: u8 = 10;

/// The colour of the light when it is off.
pub open spec fn dark() -> Rgb {
    Rgb { r: 0, g: 0, b: 0 }
}

/// The colour that belongs to an hour of the day: one for the morning from
/// 3, one for midday from 9, one for the afternoon from 15, and one for the
/// night from 21 to before 3.
pub open spec fn hour_color(hour: u32) -> Rgb {
    if 3 <= hour < 9 {
        Rgb { r: 0xF8, g: 0xF3, b: 0x2B }
    } else if 9 <= hour < 15 {
        Rgb { r: 0x9C, g: 0xFF, b: 0xFA }
    } else if 15 <= hour < 21 {
        Rgb { r: 0x05, g: 0x3C, b: 0x5E }
    } else {
        Rgb { r: 0x31, g: 0x08, b: 0x1F }
    }
}

/// One channel at the brightness `level`: the level and one more 256ths of
/// it, rounded down.
pub open spec fn dimmed_channel(c: u8, level: u8) -> u8 {
    ((c as int * (level as int + 1)) / 256) as u8
}

/// A colour at the brightness `level`, channel by channel.
pub open spec fn dimmed(color: Rgb, level: u8) -> Rgb {
    Rgb {
        r: dimmed_channel(color.r, level),
        g: dimmed_channel(color.g, level),
        b: dimmed_channel(color.b, level),
    }
}

/// The colour that gamma correction makes of `color`.
pub uninterp spec fn gamma_corrected(color: Rgb) -> Rgb;

/// The colour that is written to light the lamp at the hour `hour`.
pub open spec fn lit(hour: u32) -> Rgb {
    dimmed(gamma_corrected(hour_color(hour)), BRIGHTNESS)
}

/// `smart_leds::gamma` over one colour: the one colour that its table makes
/// of it.
#[verifier::external_body]
fn gamma(color: Rgb) -> (r: Option<Rgb>)
    ensures
        r == Some(gamma_corrected(color)),
{
    let pixel = rgb::RGB8 { r: color.r, g: color.g, b: color.b };
    smart_leds::gamma([pixel].iter().cloned()).next().map(|p| Rgb { r: p.r, g: p.g, b: p.b })
}

/// `smart_leds::brightness` over one colour: each channel times the level
/// and one, divided by 256.
#[verifier::external_body]
fn brightness(color: Rgb, level: u8) -> (r: Option<Rgb>)
    ensures
        r == Some(dimmed(color, level)),
{
    let pixel = rgb::RGB8 { r: color.r, g: color.g, b: color.b };
    smart_leds::brightness([pixel].iter().cloned(), level).next().map(
        |p| Rgb { r: p.r, g: p.g, b: p.b },
    )
}

/// The colour that belongs to `hour`, which is an hour of the day.
pub fn color_of_hour(hour: u32) -> (c: Rgb)
    requires
        hour < 24,
    ensures
        c == hour_color(hour),
{
    if 3 <= hour && hour < 9 {
        Rgb { r: 0xF8, g: 0xF3, b: 0x2B }
    } else if 9 <= hour && hour < 15 {
        Rgb { r: 0x9C, g: 0xFF, b: 0xFA }
    } else if 15 <= hour && hour < 21 {
        Rgb { r: 0x05, g: 0x3C, b: 0x5E }
    } else {
        Rgb { r: 0x31, g: 0x08, b: 0x1F }
    }
}

/// What the light shows after it was asked to go on: the colour of the
/// hour at the counter reading `counter_now`, gamma corrected and dimmed;
/// where no date and time can be had, what it showed before.
pub open spec fn lit_at(shown: Rgb, time_reference: TimeReference, counter_now: u64) -> Rgb {
    match time_reference.now(counter_now) {
        Some(t) => lit(t.hour),
        None => shown,
    }
}

/// Puts the light out.
pub fn turn_rgb_led_off(rgb_led: &mut Rgb)
    ensures
        *final(rgb_led) == dark(),
{
    *rgb_led = Rgb { r: 0, g: 0, b: 0 };
}

/// Lights the lamp in the colour of the hour. Says whether it did: it does
/// not where the reference gives no date and time for `counter_now`, and the
/// light then stays as it was.
pub fn turn_rgb_led_on(time_reference: &TimeReference, counter_now: u64, rgb_led: &mut Rgb) -> (done:
    bool)
    ensures
        *final(rgb_led) == lit_at(*old(rgb_led), *time_reference, counter_now),
        done == time_reference.now(counter_now).is_some(),
{
    let hour = match get_date_time(time_reference, counter_now) {
        Some(t) => t.hour,
        None => {
            return false;
        },
    };
    let color = color_of_hour(hour);
    let corrected = match gamma(color) {
        Some(c) => c,
        None => color,
    };
    let written = match brightness(corrected, BRIGHTNESS) {
        Some(c) => c,
        None => corrected,
    };
    *rgb_led = written;
    true
}

} // verus!
