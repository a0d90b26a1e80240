use serial_link::blinker::{BlinkerState, Drive, LedDrive, Phase, Timer, TimerDrive};
use serial_link::broker::{
    broker, get_id1_data, process_command, send_error_response, Accumulator, Device, Effects,
    Reaction, IN_SIZE, OUT_SIZE,
};
use serial_link::codec::serialize_crc_cobs;
use serial_link::date_time::UtcDateTime;
use serial_link::protocol::{Command, Message, Response, SerializationError};
use serial_link::rgb::Rgb;
use serial_link::time_reference::TimeReference;

const IDLE: Effects = Effects { blinker: None, rgb_led: None };
const SET_OK_FRAME: [u8; 7] = [6, 1, 72, 226, 62, 251, 0];
const PARSE_ERROR_FRAME: [u8; 7] = [6, 2, 145, 196, 125, 246, 0];
const NOT_OK_FRAME: [u8; 7] = [6, 3, 38, 217, 188, 242, 0];
const ILLEGAL_FRAME: [u8; 7] = [6, 5, 148, 148, 58, 232, 0];
const DATA_FRAME: [u8; 23] = [
    1, 2, 10, 1, 1, 2, 1, 1, 1, 1, 1, 1, 1, 2, 1, 1, 1, 5, 93, 28, 119, 2, 0,
];
const SET_ON_NOW_FRAME: [u8; 32] = [
    1, 2, 10, 1, 1, 4, 2, 244, 1, 1, 1, 1, 1, 1, 3, 232, 3, 1, 1, 1, 1, 1, 2, 1, 1, 1, 5, 4, 100,
    22, 219, 0,
];

struct Link {
    accumulator: Accumulator<IN_SIZE>,
    device: Device,
}

fn link() -> Link {
    Link { accumulator: Accumulator::new(), device: Device::new() }
}

/// Feeds `bytes` one by one and collects what is to be sent after each.
fn feed(link: &mut Link, bytes: &[u8]) -> Vec<(Vec<u8>, Effects)> {
    let mut out = Vec::new();
    for byte in bytes {
        let mut tx = [0u8; OUT_SIZE];
        let Reaction { len, effects } =
            broker(&mut link.accumulator, &mut link.device, 0, *byte, &mut tx);
        if len > 0 || effects != IDLE {
            out.push((tx[..len].to_vec(), effects));
        }
    }
    out
}

fn frame_of(command: &Command) -> Vec<u8> {
    let mut buf = [0u8; IN_SIZE];
    serialize_crc_cobs(command, &mut buf).unwrap().to_vec()
}

fn state(device: &Device) -> (TimeReference, BlinkerState, Rgb) {
    (device.time_reference, device.blinker.state(), device.rgb_led)
}

#[test]
fn buffer_sizes_are_those_of_the_longest_frames() {
    assert_eq!(IN_SIZE, 44);
    assert_eq!(OUT_SIZE, 23);
    let date_time = UtcDateTime {
        year: i32::MAX,
        month: u32::MAX,
        day: u32::MAX,
        hour: u32::MAX,
        minute: u32::MAX,
        second: u32::MAX,
        nanoseconds: u32::MAX,
    };
    let longest = Command::SetMessage(u32::MAX, Message::SetTimeReference(date_time), u32::MAX);
    let mut buf = [0u8; IN_SIZE];
    assert!(serialize_crc_cobs(&longest, &mut buf).is_ok());
}

#[test]
fn set_then_get() {
    let mut link = link();
    let sent = feed(&mut link, &SET_ON_NOW_FRAME);
    let drive = Drive {
        led: LedDrive::Low,
        on_off_timer: TimerDrive::Arm(500),
        period_timer: TimerDrive::Arm(1000),
    };
    assert_eq!(sent, vec![(SET_OK_FRAME.to_vec(), Effects { blinker: Some(drive), rgb_led: None })]);
    assert_eq!(link.device.blinker.phase(), Phase::OnNow);
    assert_eq!(
        link.device.blinker.state().on_off_timer,
        Timer { listening: true, counting: true, timeout: 500 }
    );
    assert_eq!(link.accumulator.len(), 0);

    let before = state(&link.device);
    let sent = feed(&mut link, &frame_of(&Command::Get(10, 1, 1)));
    assert_eq!(sent, vec![(DATA_FRAME.to_vec(), IDLE)]);
    assert_eq!(state(&link.device), before);
}

#[test]
fn get_with_an_id_out_of_range_is_illegal() {
    let mut link = link();
    let before = state(&link.device);
    let sent = feed(&mut link, &frame_of(&Command::Get(25, 1, 1)));
    assert_eq!(sent, vec![(ILLEGAL_FRAME.to_vec(), IDLE)]);
    assert_eq!(state(&link.device), before);
    for id in [0, 9, 20, u32::MAX] {
        assert_eq!(process_command(&mut link.device, 0, Command::Get(id, 3, 4)).0, Response::Illegal);
    }
    for id in 10..=19 {
        assert_eq!(
            process_command(&mut link.device, 0, Command::Get(id, 3, 4)),
            (Response::Data(10, 3, 0, 4), IDLE)
        );
    }
}

#[test]
fn get_id1_data_is_the_placeholder() {
    assert_eq!(get_id1_data(1, 1), Response::Data(10, 1, 0, 1));
    assert_eq!(get_id1_data(77, 5), Response::Data(10, 77, 0, 5));
}

#[test]
fn a_corrupted_checksum_is_a_parse_error_and_changes_nothing() {
    let mut link = link();
    let before = state(&link.device);
    let mut frame = SET_ON_NOW_FRAME;
    frame[28] ^= 0x10;
    let sent = feed(&mut link, &frame);
    assert_eq!(sent, vec![(PARSE_ERROR_FRAME.to_vec(), IDLE)]);
    assert_eq!(state(&link.device), before);
    assert_eq!(link.accumulator.len(), 0);

    let sent = feed(&mut link, &SET_ON_NOW_FRAME);
    assert_eq!(sent.len(), 1);
    assert_eq!(sent[0].0, SET_OK_FRAME.to_vec());
}

#[test]
fn a_lone_terminator_is_a_parse_error() {
    let mut link = link();
    assert_eq!(feed(&mut link, &[0]), vec![(PARSE_ERROR_FRAME.to_vec(), IDLE)]);
}

#[test]
fn overflow_is_answered_once_and_the_next_frame_is_taken() {
    let mut link = link();
    let before = state(&link.device);
    let sent = feed(&mut link, &[0x55; IN_SIZE]);
    assert_eq!(sent, vec![]);
    assert_eq!(link.accumulator.len(), IN_SIZE);
    let sent = feed(&mut link, &[0x55]);
    assert_eq!(sent, vec![(NOT_OK_FRAME.to_vec(), IDLE)]);
    assert_eq!(link.accumulator.len(), 0);
    assert_eq!(state(&link.device), before);

    let sent = feed(&mut link, &SET_ON_NOW_FRAME);
    assert_eq!(sent.len(), 1);
    assert_eq!(sent[0].0, SET_OK_FRAME.to_vec());
}

#[test]
fn a_terminator_that_finds_the_accumulator_full_overflows() {
    let mut link = link();
    feed(&mut link, &[0x55; IN_SIZE]);
    assert_eq!(feed(&mut link, &[0]), vec![(NOT_OK_FRAME.to_vec(), IDLE)]);
    assert_eq!(link.accumulator.len(), 0);
}

#[test]
fn accept_reports_overflow_as_an_error() {
    let mut accumulator: Accumulator<4> = Accumulator::new();
    for byte in [1u8, 2, 3, 4] {
        assert_eq!(accumulator.accept::<Response>(byte), None);
    }
    assert_eq!(accumulator.len(), 4);
    assert_eq!(accumulator.accept::<Response>(5), Some(Err(SerializationError::BufferOverflow)));
    assert_eq!(accumulator.len(), 0);
}

#[test]
fn accept_opens_a_frame() {
    let mut accumulator: Accumulator<OUT_SIZE> = Accumulator::new();
    for byte in &DATA_FRAME[..22] {
        assert_eq!(accumulator.accept::<Response>(*byte), None);
    }
    assert_eq!(accumulator.accept::<Response>(0), Some(Ok(Response::Data(10, 1, 0, 1))));
    assert_eq!(accumulator.len(), 0);
}

#[test]
fn every_message_is_answered_with_set_ok() {
    let date_time =
        UtcDateTime { year: 2024, month: 5, day: 17, hour: 4, minute: 0, second: 0, nanoseconds: 0 };
    let mut device = Device::new();

    let r = process_command(&mut device, 70, Command::SetMessage(1, Message::SetTimeReference(date_time), 1));
    assert_eq!(r, (Response::SetOk, IDLE));
    assert_eq!(device.time_reference, TimeReference { date_time, rtc_value: 70 });

    let r = process_command(&mut device, 80, Command::SetMessage(1, Message::TurnRgbLedOn, 1));
    let lit = Rgb { r: 10, g: 9, b: 0 };
    assert_eq!(r, (Response::SetOk, Effects { blinker: None, rgb_led: Some(lit) }));
    assert_eq!(device.rgb_led, lit);

    let r = process_command(&mut device, 60, Command::SetMessage(1, Message::TurnRgbLedOn, 1));
    assert_eq!(r, (Response::SetOk, IDLE));
    assert_eq!(device.rgb_led, lit);

    let r = process_command(&mut device, 80, Command::SetMessage(1, Message::TurnRgbLedOff, 1));
    let dark = Rgb { r: 0, g: 0, b: 0 };
    assert_eq!(r, (Response::SetOk, Effects { blinker: None, rgb_led: Some(dark) }));
    assert_eq!(device.rgb_led, dark);

    let r = process_command(
        &mut device,
        80,
        Command::SetMessage(1, Message::TurnBlinkerOnAfterDelay(500, 1000, 250), 1),
    );
    let drive = Drive {
        led: LedDrive::Low,
        on_off_timer: TimerDrive::Arm(250),
        period_timer: TimerDrive::Disarm,
    };
    assert_eq!(r, (Response::SetOk, Effects { blinker: Some(drive), rgb_led: None }));
    assert_eq!(device.blinker.phase(), Phase::ScheduledDelay);

    let r = process_command(&mut device, 80, Command::SetMessage(1, Message::TurnBlinkerOff, 1));
    let drive = Drive {
        led: LedDrive::Low,
        on_off_timer: TimerDrive::Disarm,
        period_timer: TimerDrive::Disarm,
    };
    assert_eq!(r, (Response::SetOk, Effects { blinker: Some(drive), rgb_led: None }));
    assert_eq!(device.blinker.phase(), Phase::Off);
}

#[test]
fn an_error_that_does_not_fit_is_dropped() {
    let mut tx = [0x55u8; 6];
    assert_eq!(send_error_response(Response::ParseError, &mut tx), 0);
    assert_eq!(tx, [0x55u8; 6]);
    let mut tx = [0x55u8; 7];
    assert_eq!(send_error_response(Response::ParseError, &mut tx), 7);
    assert_eq!(tx, PARSE_ERROR_FRAME);
}

#[test]
fn an_answer_that_does_not_fit_becomes_a_serialization_error() {
    let mut accumulator: Accumulator<IN_SIZE> = Accumulator::new();
    let mut device = Device::new();
    let frame = frame_of(&Command::Get(10, 1, 1));
    let mut last = (0, [0u8; 7]);
    for byte in frame {
        let mut tx = [0u8; 7];
        let reaction = broker(&mut accumulator, &mut device, 0, byte, &mut tx);
        last = (reaction.len, tx);
    }
    assert_eq!(last, (7, [6, 6, 77, 178, 121, 229, 0]));
}
