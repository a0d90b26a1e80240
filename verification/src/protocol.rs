use vstd::prelude::*;
use crate::date_time::UtcDateTime;

verus! {

pub type Id = u32;

pub type DevId = u32;

pub type Parameter = u32;

/// What the host asks of the device.
#[derive(Clone, Copy, Debug, PartialEq, Eq, Structural)]
pub enum Command {
    SetMessage(Id, Message, DevId),
    Get(Id, Parameter, DevId),
}

/// The device operations that a `SetMessage` command can carry. Durations, periods
/// and delays are tick counts of the timers' time unit.
#[derive(Clone, Copy, Debug, PartialEq, Eq, Structural)]
pub enum Message {
    SetTimeReference(UtcDateTime),
    TurnBlinkerOff,
    TurnBlinkerOnNow(u64, u64),
    TurnBlinkerOnAfterDelay(u64, u64, u64),
    TurnRgbLedOff,
    TurnRgbLedOn,
}

/// What the device answers.
#[derive(Clone, Copy, Debug, PartialEq, Eq, Structural)]
pub enum Response {
    Data(Id, Parameter, u32, DevId),
    SetOk,
    ParseError,
    NotOK,
    Recovered,
    Illegal,
    SerializationError,
}

/// Why a value could not be put on the link or taken from it.
#[derive(Clone, Copy, Debug, PartialEq, Eq, Structural)]
pub enum SerializationError {
    Serialization,
    CrcSerialization,
    CorncobsEncoding,
    BufferOverflow,
    CorncobsDecoding,
    Deserialization,
    CrcDeserialization,
    CrcMismatch,
}

} // verus!
