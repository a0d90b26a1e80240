use serial_link::codec::{deserialize_crc_cobs, frame_fits, serialize_crc_cobs};
use serial_link::protocol::{Command, Message, Response, SerializationError};
use serial_link::date_time::UtcDateTime;

const SET_OK_FRAME: [u8; 7] = [6, 1, 72, 226, 62, 251, 0];
const DATA_FRAME: [u8; 23] = [
    1, 2, 10, 1, 1, 2, 1, 1, 1, 1, 1, 1, 1, 2, 1, 1, 1, 5, 93, 28, 119, 2, 0,
];
const SET_ON_NOW_FRAME: [u8; 32] = [
    1, 2, 10, 1, 1, 4, 2, 244, 1, 1, 1, 1, 1, 1, 3, 232, 3, 1, 1, 1, 1, 1, 2, 1, 1, 1, 5, 4, 100,
    22, 219, 0,
];
const GET_FRAME: [u8; 19] = [3, 1, 10, 1, 1, 2, 1, 1, 1, 2, 1, 1, 1, 5, 187, 49, 205, 160, 0];

fn open_command(bytes: &[u8]) -> Result<Command, SerializationError> {
    let mut buf = bytes.to_vec();
    deserialize_crc_cobs(&mut buf)
}

fn open_response(bytes: &[u8]) -> Result<Response, SerializationError> {
    let mut buf = bytes.to_vec();
    deserialize_crc_cobs(&mut buf)
}

#[test]
fn command_round_trip() {
    let cmd = Command::SetMessage(10, Message::TurnBlinkerOnNow(500, 1000), 1);
    let mut buf = [0u8; 64];
    let n = {
        let frame = serialize_crc_cobs(&cmd, &mut buf).unwrap();
        assert_eq!(frame[frame.len() - 1], 0);
        assert!(frame[..frame.len() - 1].iter().all(|b| *b != 0));
        frame.len()
    };
    let back: Result<Command, SerializationError> = deserialize_crc_cobs(&mut buf[..n]);
    assert_eq!(back, Ok(cmd));
}

#[test]
fn every_kind_of_command_round_trips() {
    let date_time = UtcDateTime {
        year: -44,
        month: 3,
        day: 15,
        hour: 12,
        minute: 30,
        second: 59,
        nanoseconds: 999_999_999,
    };
    let messages = [
        Message::SetTimeReference(date_time),
        Message::TurnBlinkerOff,
        Message::TurnBlinkerOnNow(0, u64::MAX),
        Message::TurnBlinkerOnAfterDelay(u64::MAX, 1, 0x0102_0304_0506_0708),
        Message::TurnRgbLedOff,
        Message::TurnRgbLedOn,
    ];
    for message in messages {
        let cmd = Command::SetMessage(u32::MAX, message, 0);
        let mut buf = [0u8; 44];
        let n = serialize_crc_cobs(&cmd, &mut buf).unwrap().len();
        assert_eq!(open_command(&buf[..n]), Ok(cmd));
    }
    let cmd = Command::Get(19, 0xDEAD_BEEF, 7);
    let mut buf = [0u8; 44];
    let n = serialize_crc_cobs(&cmd, &mut buf).unwrap().len();
    assert_eq!(open_command(&buf[..n]), Ok(cmd));
}

#[test]
fn every_kind_of_response_round_trips() {
    let responses = [
        Response::Data(10, 1, 0, 1),
        Response::Data(u32::MAX, 0, 0x8000_0000, 255),
        Response::SetOk,
        Response::ParseError,
        Response::NotOK,
        Response::Recovered,
        Response::Illegal,
        Response::SerializationError,
    ];
    for resp in responses {
        let mut buf = [0u8; 23];
        let n = serialize_crc_cobs(&resp, &mut buf).unwrap().len();
        assert_eq!(open_response(&buf[..n]), Ok(resp));
    }
}

#[test]
fn frames_are_the_expected_bytes() {
    let mut buf = [0xAAu8; 23];
    assert_eq!(serialize_crc_cobs(&Response::SetOk, &mut buf).unwrap(), &SET_OK_FRAME);
    let mut buf = [0xAAu8; 23];
    assert_eq!(serialize_crc_cobs(&Response::Data(10, 1, 0, 1), &mut buf).unwrap(), &DATA_FRAME);
    let mut buf = [0xAAu8; 44];
    let cmd = Command::SetMessage(10, Message::TurnBlinkerOnNow(500, 1000), 1);
    assert_eq!(serialize_crc_cobs(&cmd, &mut buf).unwrap(), &SET_ON_NOW_FRAME);
    let mut buf = [0xAAu8; 44];
    assert_eq!(serialize_crc_cobs(&Command::Get(10, 1, 1), &mut buf).unwrap(), &GET_FRAME);
}

#[test]
fn expected_bytes_open_to_the_values() {
    assert_eq!(open_response(&SET_OK_FRAME), Ok(Response::SetOk));
    assert_eq!(open_response(&DATA_FRAME), Ok(Response::Data(10, 1, 0, 1)));
    assert_eq!(
        open_command(&SET_ON_NOW_FRAME),
        Ok(Command::SetMessage(10, Message::TurnBlinkerOnNow(500, 1000), 1))
    );
    assert_eq!(open_command(&GET_FRAME), Ok(Command::Get(10, 1, 1)));
}

#[test]
fn a_buffer_too_small_for_the_payload_is_a_serialization_error() {
    let mut buf = [0x55u8; 16];
    let r = serialize_crc_cobs(&Response::Data(10, 1, 0, 1), &mut buf).map(|f| f.len());
    assert_eq!(r, Err(SerializationError::Serialization));
    assert_eq!(buf, [0x55u8; 16]);
}

#[test]
fn a_buffer_too_small_for_the_checksum_is_a_crc_serialization_error() {
    let mut buf = [0x55u8; 17];
    let r = serialize_crc_cobs(&Response::Data(10, 1, 0, 1), &mut buf).map(|f| f.len());
    assert_eq!(r, Err(SerializationError::CrcSerialization));
    let mut buf = [0x55u8; 20];
    let r = serialize_crc_cobs(&Response::Data(10, 1, 0, 1), &mut buf).map(|f| f.len());
    assert_eq!(r, Err(SerializationError::CrcSerialization));
    assert_eq!(buf, [0x55u8; 20]);
}

#[test]
fn a_buffer_too_small_for_the_longest_frame_is_an_encoding_error() {
    let mut buf = [0x55u8; 21];
    let r = serialize_crc_cobs(&Response::Data(10, 1, 0, 1), &mut buf).map(|f| f.len());
    assert_eq!(r, Err(SerializationError::CorncobsEncoding));
    let mut buf = [0x55u8; 22];
    let r = serialize_crc_cobs(&Response::Data(10, 1, 0, 1), &mut buf).map(|f| f.len());
    assert_eq!(r, Err(SerializationError::CorncobsEncoding));
    assert_eq!(buf, [0x55u8; 22]);
    let mut buf = [0x55u8; 23];
    assert!(serialize_crc_cobs(&Response::Data(10, 1, 0, 1), &mut buf).is_ok());
}

#[test]
fn frame_fits_follows_the_overhead_formula() {
    assert!(!frame_fits(0, 1));
    assert!(frame_fits(0, 2));
    assert!(!frame_fits(21, 22));
    assert!(frame_fits(21, 23));
    assert!(!frame_fits(254, 255));
    assert!(frame_fits(254, 256));
    assert!(!frame_fits(255, 257));
    assert!(frame_fits(255, 258));
    assert!(!frame_fits(usize::MAX, usize::MAX));
}

#[test]
fn a_frame_that_breaks_off_is_a_decoding_error() {
    assert_eq!(open_response(&[6, 1, 72]), Err(SerializationError::CorncobsDecoding));
}

#[test]
fn a_body_shorter_than_a_checksum_is_a_crc_deserialization_error() {
    assert_eq!(open_response(&[3, 1, 2, 0]), Err(SerializationError::CrcDeserialization));
    assert_eq!(open_response(&[0]), Err(SerializationError::CrcDeserialization));
}

#[test]
fn a_corrupted_checksum_is_a_mismatch() {
    for at in 2..6 {
        for bit in 0..8 {
            let mut frame = SET_OK_FRAME;
            frame[at] ^= 1 << bit;
            if frame[at] == 0 {
                continue;
            }
            assert_eq!(open_response(&frame), Err(SerializationError::CrcMismatch));
        }
    }
}

#[test]
fn a_corrupted_payload_is_a_mismatch() {
    for bit in 0..8 {
        let mut frame = SET_OK_FRAME;
        frame[1] ^= 1 << bit;
        if frame[1] == 0 {
            continue;
        }
        assert_eq!(open_response(&frame), Err(SerializationError::CrcMismatch));
    }
}

#[test]
fn a_payload_that_stands_for_no_value_is_a_deserialization_error() {
    let bad_tag = [6, 9, 240, 15, 54, 221, 0];
    assert_eq!(open_response(&bad_tag), Err(SerializationError::Deserialization));
    let empty_payload = [5, 255, 255, 255, 255, 0];
    assert_eq!(open_response(&empty_payload), Err(SerializationError::Deserialization));
    assert_eq!(open_command(&SET_OK_FRAME), Err(SerializationError::Deserialization));
}
