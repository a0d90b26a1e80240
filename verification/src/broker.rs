use vstd::prelude::*;
use crate::blinker::{
    turn_blinker_off, turn_blinker_on_after_delay, turn_blinker_on_now, Blinker, BlinkerState,
    Drive, drive_off, drive_on_after_delay, drive_on_now,
};
use crate::codec::{
    deserialize_crc_cobs, deserialized, frame_of, serialize_crc_cobs, serialized,
};
use crate::protocol::{Command, Message, Response, SerializationError};
use crate::rgb::{dark, lit_at, turn_rgb_led_off, turn_rgb_led_on, Rgb};
use crate::time_reference::{set_time_reference, TimeReference};
use crate::wire::{lemma_command_parse_wire, lemma_response_parse_wire, Wire};

verus! {

/// The device that commands act on: its time reference, its blinker and
/// what its RGB light shows.
pub struct Device {
    pub time_reference: TimeReference,
    pub blinker: Blinker,
    pub rgb_led: Rgb,
}

/// All that the device holds, as plain values.
pub struct DeviceState {
    pub time_reference: TimeReference,
    pub blinker: BlinkerState,
    pub rgb_led: Rgb,
}

/// What a command asks of the hardware: of the blinker's output and
/// timers, and the colour to write to the RGB light.
#[derive(Clone, Copy, Debug, PartialEq, Eq, Structural)]
pub struct Effects {
    pub blinker: Option<Drive>,
    pub rgb_led: Option<Rgb>,
}

/// The room that the longest frame of a command needs.
pub const IN_SIZE: usize = 44;

/// The room that the longest frame of an answer needs.
pub const OUT_SIZE: usize = 23;

/// The first id of the first sub-device.
pub const ID1_FIRST: u32 = 10;

/// The last id of the first sub-device.
pub const ID1_LAST: u32 = 19;

/// The answer to `command`. A `SetMessage` is answered with `SetOk`
/// whatever came of the operation; a `Get` with the data of the first
/// sub-device where its id is one of that sub-device's, else with `Illegal`.
pub open spec fn response_to(command: Command) -> Response {
    match command {
        Command::SetMessage(_, _, _) => Response::SetOk,
        Command::Get(id, parameter, dev_id) => if ID1_FIRST <= id <= ID1_LAST {
            Response::Data(ID1_FIRST, parameter, 0, dev_id)
        } else {
            Response::Illegal
        },
    }
}

/// What `command` asks of the hardware on a device in the state `device`.
pub open spec fn effects_of(device: DeviceState, counter_now: u64, command: Command) -> Effects {
    match command {
        Command::SetMessage(_, message, _) => match message {
            Message::SetTimeReference(_) => Effects { blinker: None, rgb_led: None },
            Message::TurnBlinkerOff => Effects { blinker: Some(drive_off()), rgb_led: None },
            Message::TurnBlinkerOnNow(duration, frequency) => Effects {
                blinker: Some(drive_on_now(duration, frequency)),
                rgb_led: None,
            },
            Message::TurnBlinkerOnAfterDelay(_, _, delay) => Effects {
                blinker: Some(drive_on_after_delay(delay)),
                rgb_led: None,
            },
            Message::TurnRgbLedOff => Effects { blinker: None, rgb_led: Some(dark()) },
            Message::TurnRgbLedOn => Effects {
                blinker: None,
                rgb_led: if device.time_reference.now(counter_now) is Some {
                    Some(lit_at(device.rgb_led, device.time_reference, counter_now))
                } else {
                    None
                },
            },
        },
        Command::Get(_, _, _) => Effects { blinker: None, rgb_led: None },
    }
}

impl DeviceState {
    /// The state after `command` was applied at the counter reading
    /// `counter_now`: a `SetMessage` does its one operation, a `Get` changes
    /// nothing.
    pub open spec fn after(self, counter_now: u64, command: Command) -> DeviceState {
        match command {
            Command::SetMessage(_, message, _) => match message {
                Message::SetTimeReference(date_time) => DeviceState {
                    time_reference: TimeReference { date_time, rtc_value: counter_now },
                    ..self
                },
                Message::TurnBlinkerOff => DeviceState { blinker: self.blinker.off(), ..self },
                Message::TurnBlinkerOnNow(duration, frequency) => DeviceState {
                    blinker: self.blinker.on_now(duration, frequency),
                    ..self
                },
                Message::TurnBlinkerOnAfterDelay(duration, frequency, delay) => DeviceState {
                    blinker: self.blinker.on_after_delay(duration, frequency, delay),
                    ..self
                },
                Message::TurnRgbLedOff => DeviceState { rgb_led: dark(), ..self },
                Message::TurnRgbLedOn => DeviceState {
                    rgb_led: lit_at(self.rgb_led, self.time_reference, counter_now),
                    ..self
                },
            },
            Command::Get(_, _, _) => self,
        }
    }
}

impl Device {
    /// All that the device holds.
    pub open spec fn view(&self) -> DeviceState {
        DeviceState {
            time_reference: self.time_reference,
            blinker: self.blinker@,
            rgb_led: self.rgb_led,
        }
    }

    /// The device as it is when started: the reference at the epoch, the
    /// blinker off, the light dark.
    pub fn new() -> (r: Self)
        ensures
            r@ == (DeviceState {
                time_reference: TimeReference::new_spec(),
                blinker: BlinkerState::initial(),
                rgb_led: dark(),
            }),
    {
        Device {
            time_reference: TimeReference::new(),
            blinker: Blinker::new(),
            rgb_led: Rgb { r: 0, g: 0, b: 0 },
        }
    }
}

/// The data of the first sub-device: as yet always 0.
pub fn get_id1_data(parameter: u32, dev_id: u32) -> (r: Response)
    ensures
        r == Response::Data(ID1_FIRST, parameter, 0, dev_id),
{
    let data: u32 = 0;
    Response::Data(ID1_FIRST, parameter, data, dev_id)
}

/// Applies `command` to the device at the counter reading `counter_now`.
/// Returns the answer and what the hardware is to do.
pub fn process_command(device: &mut Device, counter_now: u64, command: Command) -> (r: (
    Response,
    Effects,
))
    ensures
        final(device)@ == old(device)@.after(counter_now, command),
        r.0 == response_to(command),
        r.1 == effects_of(old(device)@, counter_now, command),
{
    match command {
        Command::SetMessage(_, message, _) => match message {
            Message::SetTimeReference(date_time) => {
                set_time_reference(&mut device.time_reference, counter_now, date_time);
                (Response::SetOk, Effects { blinker: None, rgb_led: None })
            },
            Message::TurnBlinkerOff => {
                let drive = turn_blinker_off(&mut device.blinker);
                (Response::SetOk, Effects { blinker: Some(drive), rgb_led: None })
            },
            Message::TurnBlinkerOnNow(duration, frequency) => {
                let drive = turn_blinker_on_now(&mut device.blinker, duration, frequency);
                (Response::SetOk, Effects { blinker: Some(drive), rgb_led: None })
            },
            Message::TurnBlinkerOnAfterDelay(duration, frequency, delay) => {
                let drive = turn_blinker_on_after_delay(
                    &mut device.blinker,
                    duration,
                    frequency,
                    delay,
                );
                (Response::SetOk, Effects { blinker: Some(drive), rgb_led: None })
            },
            Message::TurnRgbLedOff => {
                turn_rgb_led_off(&mut device.rgb_led);
                (Response::SetOk, Effects { blinker: None, rgb_led: Some(device.rgb_led) })
            },
            Message::TurnRgbLedOn => {
                let done = turn_rgb_led_on(&device.time_reference, counter_now, &mut device.rgb_led);
                let rgb_led = if done {
                    Some(device.rgb_led)
                } else {
                    None
                };
                (Response::SetOk, Effects { blinker: None, rgb_led })
            },
        },
        Command::Get(id, parameter, dev_id) => {
            let response = if ID1_FIRST <= id && id <= ID1_LAST {
                get_id1_data(parameter, dev_id)
            } else {
                Response::Illegal
            };
            (response, Effects { blinker: None, rgb_led: None })
        },
    }
}

/// What the accumulator makes of a byte.
#[derive(Clone, Copy, Debug, PartialEq, Eq, Structural)]
pub enum Intake {
    /// It was full: the byte and all it held are dropped.
    Overflow,
    /// The byte is held.
    Pending,
    /// The byte is a terminator: what is held, with it, is a frame.
    Frame,
}

/// What an accumulator of `capacity` bytes that holds `held` makes of
/// `byte`. Whether it is full is asked first.
pub open spec fn intake(held: Seq<u8>, capacity: int, byte: u8) -> Intake {
    if held.len() >= capacity {
        Intake::Overflow
    } else if byte == 0 {
        Intake::Frame
    } else {
        Intake::Pending
    }
}

/// What the accumulator holds after `byte`: one byte more while a frame is
/// pending, nothing after an overflow or a frame.
pub open spec fn held_after(held: Seq<u8>, capacity: int, byte: u8) -> Seq<u8> {
    match intake(held, capacity, byte) {
        Intake::Pending => held.push(byte),
        _ => Seq::empty(),
    }
}

/// What is sent for an error: the frame of `response`, or nothing where a
/// buffer of `capacity` bytes cannot take it.
pub open spec fn error_frame(response: Response, capacity: int) -> Seq<u8> {
    match serialized(response.wire(), capacity) {
        Ok(frame) => frame,
        Err(_) => Seq::empty(),
    }
}

/// What is sent in answer to a command: the frame of `response`, or where a
/// buffer of `capacity` bytes cannot take it, what is sent for the error
/// `SerializationError`.
pub open spec fn reply_frame(response: Response, capacity: int) -> Seq<u8> {
    match serialized(response.wire(), capacity) {
        Ok(frame) => frame,
        Err(_) => error_frame(Response::SerializationError, capacity),
    }
}

/// What comes of `byte` for the receiver of values of `T`: nothing yet
/// while a frame is pending, the overflow error after an overflow, and after
/// a frame what opening it gives.
pub open spec fn accepted<T: Wire>(held: Seq<u8>, capacity: int, byte: u8) -> Option<
    Result<T, SerializationError>,
> {
    match intake(held, capacity, byte) {
        Intake::Overflow => Some(Err(SerializationError::BufferOverflow)),
        Intake::Pending => None,
        Intake::Frame => Some(deserialized::<T>(held.push(0))),
    }
}

/// The command that is applied after `byte` came in: that of a frame which
/// `byte` completes and which opens, and no other.
pub open spec fn applied(held: Seq<u8>, capacity: int, byte: u8) -> Option<Command> {
    match accepted::<Command>(held, capacity, byte) {
        Some(Ok(command)) => Some(command),
        _ => None,
    }
}

/// What is sent after `byte` came in: nothing while a frame is pending, the
/// overflow error after an overflow, and after a frame the answer to its
/// command or else the parse error.
pub open spec fn sent_after(held: Seq<u8>, capacity: int, byte: u8, out_capacity: int) -> Seq<u8> {
    match accepted::<Command>(held, capacity, byte) {
        None => Seq::empty(),
        Some(Ok(command)) => reply_frame(response_to(command), out_capacity),
        Some(Err(SerializationError::BufferOverflow)) => error_frame(Response::NotOK, out_capacity),
        Some(Err(_)) => error_frame(Response::ParseError, out_capacity),
    }
}

/// The bytes received since the last frame or overflow, in a buffer of `N`
/// bytes.
pub struct Accumulator<const N: usize> {
    buffer: [u8; N],
    index: usize,
}

/// What the broker hands back for one byte: how many bytes of the transmit
/// buffer are to be sent, and what the hardware is to do.
#[derive(Clone, Copy, Debug, PartialEq, Eq, Structural)]
pub struct Reaction {
    pub len: usize,
    pub effects: Effects,
}

impl<const N: usize> Accumulator<N> {
    #[verifier::type_invariant]
    spec fn within(&self) -> bool {
        self.index <= N
    }

    /// The bytes held, oldest first.
    pub closed spec fn view(&self) -> Seq<u8> {
        self.buffer@.take(self.index as int)
    }

    /// An accumulator that holds nothing.
    pub fn new() -> (r: Self)
        ensures
            r@ == Seq::<u8>::empty(),
    {
        let r = Accumulator { buffer: [0u8;N], index: 0 };
        assert(r.buffer@.take(0) =~= Seq::<u8>::empty());
        r
    }

    /// The number of bytes held, at most `N`.
    pub fn len(&self) -> (n: usize)
        ensures
            n == self@.len(),
            n <= N,
    {
        proof {
            use_type_invariant(self);
        }
        self.index
    }

    /// Takes one received byte. While a frame is pending the byte is held
    /// and `None` returned. A byte that finds the accumulator full is
    /// dropped with all that was held. A terminator completes a frame, which
    /// is opened where it stands. After either the accumulator is empty.
    pub fn accept<T: Wire>(&mut self, byte: u8) -> (r: Option<Result<T, SerializationError>>)
        ensures
            final(self)@ == held_after(old(self)@, N as int, byte),
            r == accepted::<T>(old(self)@, N as int, byte),
            forall|t: T|
                old(self)@.len() < N && byte == 0 && old(self)@.push(0) == frame_of(
                    #[trigger] t.wire(),
                ) ==> r == Some(Ok::<T, SerializationError>(t)),
    {
        proof {
            use_type_invariant(&*self);
        }
        if self.index >= N {
            self.index = 0;
            assert(self.buffer@.take(0) =~= Seq::<u8>::empty());
            return Some(Err(SerializationError::BufferOverflow));
        }
        let ghost held = self@;
        self.buffer[self.index] = byte;
        self.index = self.index + 1;
        assert(self.buffer@.take(self.index as int) =~= held.push(byte));
        if byte != 0 {
            return None;
        }
        let index = self.index;
        self.index = 0;
        assert(self.buffer@.take(0) =~= Seq::<u8>::empty());
        let buffer: &mut [u8] = &mut self.buffer;
        let (frame, _) = buffer.split_at_mut(index);
        assert(frame@ =~= held.push(0));
        Some(deserialize_crc_cobs::<T>(frame))
    }
}

/// Frames `response` in `tx_buffer` for sending and returns the length of
/// the frame; where the buffer cannot take it, nothing is to be sent and 0
/// is returned.
pub fn send_error_response<const OUT: usize>(response: Response, tx_buffer: &mut [u8; OUT]) -> (len:
    usize)
    ensures
        len <= OUT,
        final(tx_buffer)@.take(len as int) == error_frame(response, OUT as int),
{
    match serialize_crc_cobs(&response, tx_buffer) {
        Ok(frame) => frame.len(),
        Err(_) => {
            assert(tx_buffer@.take(0) =~= Seq::<u8>::empty());
            0
        },
    }
}

/// Takes one received byte. While a frame is pending the byte is held. A
/// byte that finds the accumulator full is dropped with all that was held,
/// and the overflow error is to be sent. A terminator completes a frame:
/// the frame is opened, and either its command is applied to the device and
/// answered, or the parse error is to be sent and the device is left as it
/// was. What is to be sent stands at the start of `tx_buffer`.
pub fn broker<const IN: usize, const OUT: usize>(
    accumulator: &mut Accumulator<IN>,
    device: &mut Device,
    counter_now: u64,
    byte: u8,
    tx_buffer: &mut [u8; OUT],
) -> (reaction: Reaction)
    ensures
        final(accumulator)@ == held_after(old(accumulator)@, IN as int, byte),
        reaction.len <= OUT,
        final(tx_buffer)@.take(reaction.len as int) == sent_after(
            old(accumulator)@,
            IN as int,
            byte,
            OUT as int,
        ),
        match applied(old(accumulator)@, IN as int, byte) {
            Some(command) => final(device)@ == old(device)@.after(counter_now, command)
                && reaction.effects == effects_of(old(device)@, counter_now, command),
            None => final(device)@ == old(device)@ && reaction.effects == (Effects {
                blinker: None,
                rgb_led: None,
            }),
        },
        forall|command: Command|
            old(accumulator)@.len() < IN && byte == 0 && old(accumulator)@.push(0) == frame_of(
                #[trigger] command.wire(),
            ) ==> final(device)@ == old(device)@.after(counter_now, command)
                && final(tx_buffer)@.take(reaction.len as int) == reply_frame(
                response_to(command),
                OUT as int,
            ),
{
    let idle = Effects { blinker: None, rgb_led: None };
    match accumulator.accept::<Command>(byte) {
        None => {
            assert(tx_buffer@.take(0) =~= Seq::<u8>::empty());
            Reaction { len: 0, effects: idle }
        },
        Some(Ok(command)) => {
            let (response, effects) = process_command(device, counter_now, command);
            let len = match serialize_crc_cobs(&response, tx_buffer) {
                Ok(frame) => frame.len(),
                Err(_) => send_error_response(Response::SerializationError, tx_buffer),
            };
            Reaction { len, effects }
        },
        Some(Err(SerializationError::BufferOverflow)) => {
            let len = send_error_response(Response::NotOK, tx_buffer);
            Reaction { len, effects: idle }
        },
        Some(Err(_)) => {
            let len = send_error_response(Response::ParseError, tx_buffer);
            Reaction { len, effects: idle }
        },
    }
}

/// Every command can be framed in `IN_SIZE` bytes.
pub proof fn lemma_command_fits(command: Command)
    ensures
        serialized(command.wire(), IN_SIZE as int) == Ok::<Seq<u8>, SerializationError>(
            frame_of(command.wire()),
        ),
{
    lemma_command_parse_wire(command);
}

/// Every answer can be framed in `OUT_SIZE` bytes, so with a transmit
/// buffer of that size each answer is sent as it is.
pub proof fn lemma_response_fits(response: Response)
    ensures
        serialized(response.wire(), OUT_SIZE as int) == Ok::<Seq<u8>, SerializationError>(
            frame_of(response.wire()),
        ),
        reply_frame(response, OUT_SIZE as int) == frame_of(response.wire()),
        error_frame(response, OUT_SIZE as int) == frame_of(response.wire()),
{
    lemma_response_parse_wire(response);
}

/// What the accumulator holds after all of `bytes` came in, one by one.
pub open spec fn held_after_all(held: Seq<u8>, capacity: int, bytes: Seq<u8>) -> Seq<u8>
    decreases bytes.len(),
{
    if bytes.len() == 0 {
        held
    } else {
        held_after_all(held_after(held, capacity, bytes[0]), capacity, bytes.skip(1))
    }
}

/// How many of `bytes`, coming in one by one, the accumulator takes as
/// `kind`.
pub open spec fn intakes(held: Seq<u8>, capacity: int, bytes: Seq<u8>, kind: Intake) -> nat
    decreases bytes.len(),
{
    if bytes.len() == 0 {
        0
    } else {
        let rest = intakes(held_after(held, capacity, bytes[0]), capacity, bytes.skip(1), kind);
        if intake(held, capacity, bytes[0]) == kind {
            1 + rest
        } else {
            rest
        }
    }
}

/// Bytes that come in one after the other are taken as they are taken in
/// two runs.
pub proof fn lemma_intakes_append(
    held: Seq<u8>,
    capacity: int,
    first: Seq<u8>,
    second: Seq<u8>,
    kind: Intake,
)
    ensures
        held_after_all(held, capacity, first + second) == held_after_all(
            held_after_all(held, capacity, first),
            capacity,
            second,
        ),
        intakes(held, capacity, first + second, kind) == intakes(held, capacity, first, kind)
            + intakes(held_after_all(held, capacity, first), capacity, second, kind),
    decreases first.len(),
{
    if first.len() == 0 {
        assert(first + second =~= second);
    } else {
        assert((first + second).skip(1) =~= first.skip(1) + second);
        assert((first + second)[0] == first[0]);
        lemma_intakes_append(
            held_after(held, capacity, first[0]),
            capacity,
            first.skip(1),
            second,
            kind,
        );
    }
}

/// Bytes without a terminator that the accumulator has room for are all
/// held, behind what was held: none overflows and none ends a frame.
pub proof fn lemma_pending(held: Seq<u8>, capacity: int, bytes: Seq<u8>)
    requires
        held.len() + bytes.len() <= capacity,
        forall|i: int| 0 <= i < bytes.len() ==> bytes[i] != 0,
    ensures
        held_after_all(held, capacity, bytes) == held + bytes,
        intakes(held, capacity, bytes, Intake::Overflow) == 0,
        intakes(held, capacity, bytes, Intake::Frame) == 0,
    decreases bytes.len(),
{
    if bytes.len() == 0 {
        assert(held + bytes =~= held);
    } else {
        lemma_pending(held.push(bytes[0]), capacity, bytes.skip(1));
        assert(held.push(bytes[0]) + bytes.skip(1) =~= held + bytes);
    }
}

/// Overflow safety: one byte more than an empty accumulator has room for,
/// with no terminator among those that fill it, overflows exactly once, on
/// the last byte, ends no frame and leaves the accumulator empty, as it is
/// before any frame.
pub proof fn lemma_overflow_once(capacity: int, bytes: Seq<u8>)
    requires
        0 <= capacity,
        bytes.len() == capacity + 1,
        forall|i: int| 0 <= i < capacity ==> bytes[i] != 0,
    ensures
        intakes(Seq::empty(), capacity, bytes.take(capacity), Intake::Overflow) == 0,
        intakes(Seq::empty(), capacity, bytes, Intake::Overflow) == 1,
        intakes(Seq::empty(), capacity, bytes, Intake::Frame) == 0,
        intake(bytes.take(capacity), capacity, bytes[capacity]) == Intake::Overflow,
        held_after_all(Seq::empty(), capacity, bytes) == Seq::<u8>::empty(),
{
    let fill = bytes.take(capacity);
    let last = seq![bytes[capacity]];
    assert(fill + last =~= bytes);
    lemma_pending(Seq::empty(), capacity, fill);
    assert(Seq::<u8>::empty() + fill =~= fill);
    lemma_intakes_append(Seq::empty(), capacity, fill, last, Intake::Overflow);
    lemma_intakes_append(Seq::empty(), capacity, fill, last, Intake::Frame);
    assert(last.skip(1) =~= Seq::<u8>::empty());
    reveal_with_fuel(intakes, 2);
    reveal_with_fuel(held_after_all, 2);
}

/// Delivery: a frame that an empty accumulator has room for, with its only
/// terminator at its end, is taken whole: no byte overflows, the last one
/// ends the one frame, what is opened is the frame itself, and the
/// accumulator is empty again.
pub proof fn lemma_frame_taken(capacity: int, frame: Seq<u8>)
    requires
        1 <= frame.len() <= capacity,
        frame.last() == 0,
        forall|i: int| 0 <= i < frame.len() - 1 ==> frame[i] != 0,
    ensures
        intakes(Seq::empty(), capacity, frame, Intake::Overflow) == 0,
        intakes(Seq::empty(), capacity, frame, Intake::Frame) == 1,
        intake(frame.drop_last(), capacity, 0) == Intake::Frame,
        frame.drop_last().push(0) == frame,
        held_after_all(Seq::empty(), capacity, frame) == Seq::<u8>::empty(),
{
    let body = frame.drop_last();
    let last = seq![0u8];
    assert(body + last =~= frame);
    assert(body.push(0) =~= frame);
    lemma_pending(Seq::empty(), capacity, body);
    assert(Seq::<u8>::empty() + body =~= body);
    lemma_intakes_append(Seq::empty(), capacity, body, last, Intake::Overflow);
    lemma_intakes_append(Seq::empty(), capacity, body, last, Intake::Frame);
    assert(last.skip(1) =~= Seq::<u8>::empty());
    reveal_with_fuel(intakes, 2);
    reveal_with_fuel(held_after_all, 2);
}

} // verus!
