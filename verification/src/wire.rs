use vstd::prelude::*;
use crate::date_time::UtcDateTime;
use crate::protocol::{Command, Message, Response};

verus! {

/// The four bytes of `v`, least significant first.
pub open spec fn le_u32(v: u32) -> Seq<u8> {
    seq![
        (v & 0xff) as u8,
        ((v >> 8) & 0xff) as u8,
        ((v >> 16) & 0xff) as u8,
        ((v >> 24) & 0xff) as u8,
    ]
}

/// The value whose four bytes, least significant first, are the first four
/// of `s`.
pub open spec fn from_le_u32(s: Seq<u8>) -> u32 {
    (s[0] as u32) | (s[1] as u32) << 8 | (s[2] as u32) << 16 | (s[3] as u32) << 24
}

/// The eight bytes of `v`, least significant first.
pub open spec fn le_u64(v: u64) -> Seq<u8> {
    seq![
        (v & 0xff) as u8,
        ((v >> 8) & 0xff) as u8,
        ((v >> 16) & 0xff) as u8,
        ((v >> 24) & 0xff) as u8,
        ((v >> 32) & 0xff) as u8,
        ((v >> 40) & 0xff) as u8,
        ((v >> 48) & 0xff) as u8,
        ((v >> 56) & 0xff) as u8,
    ]
}

/// The value whose eight bytes, least significant first, are the first
/// eight of `s`.
pub open spec fn from_le_u64(s: Seq<u8>) -> u64 {
    (s[0] as u64) | (s[1] as u64) << 8 | (s[2] as u64) << 16 | (s[3] as u64) << 24 | (s[4] as u64)
        << 32 | (s[5] as u64) << 40 | (s[6] as u64) << 48 | (s[7] as u64) << 56
}

/// The four bytes of `v` in two's complement, least significant first.
pub open spec fn le_i32(v: i32) -> Seq<u8> {
    le_u32(v as u32)
}

/// The signed value whose four bytes in two's complement, least
/// significant first, are the first four of `s`.
pub open spec fn from_le_i32(s: Seq<u8>) -> i32 {
    from_le_u32(s) as i32
}

/// Reading back the bytes of a `u32` gives the `u32`.
pub proof fn lemma_le_u32_round_trip(v: u32)
    ensures
        le_u32(v).len() == 4,
        from_le_u32(le_u32(v)) == v,
{
    let b0 = (v & 0xff) as u8;
    let b1 = ((v >> 8) & 0xff) as u8;
    let b2 = ((v >> 16) & 0xff) as u8;
    let b3 = ((v >> 24) & 0xff) as u8;
    assert(v == (b0 as u32) | (b1 as u32) << 8 | (b2 as u32) << 16 | (b3 as u32) << 24)
        by (bit_vector)
        requires
            b0 == (v & 0xff) as u8,
            b1 == ((v >> 8) & 0xff) as u8,
            b2 == ((v >> 16) & 0xff) as u8,
            b3 == ((v >> 24) & 0xff) as u8,
    ;
}

/// Writing out the value of four bytes gives those bytes.
pub proof fn lemma_from_le_u32_round_trip(s: Seq<u8>)
    requires
        s.len() == 4,
    ensures
        le_u32(from_le_u32(s)) == s,
{
    let v = from_le_u32(s);
    let b0 = s[0];
    let b1 = s[1];
    let b2 = s[2];
    let b3 = s[3];
    assert(b0 == (v & 0xff) as u8 && b1 == ((v >> 8) & 0xff) as u8 && b2 == ((v >> 16) & 0xff) as u8
        && b3 == ((v >> 24) & 0xff) as u8) by (bit_vector)
        requires
            v == (b0 as u32) | (b1 as u32) << 8 | (b2 as u32) << 16 | (b3 as u32) << 24,
    ;
    assert(le_u32(v) =~= s);
}

/// Reading back the bytes of a `u64` gives the `u64`.
pub proof fn lemma_le_u64_round_trip(v: u64)
    ensures
        le_u64(v).len() == 8,
        from_le_u64(le_u64(v)) == v,
{
    let b0 = (v & 0xff) as u8;
    let b1 = ((v >> 8) & 0xff) as u8;
    let b2 = ((v >> 16) & 0xff) as u8;
    let b3 = ((v >> 24) & 0xff) as u8;
    let b4 = ((v >> 32) & 0xff) as u8;
    let b5 = ((v >> 40) & 0xff) as u8;
    let b6 = ((v >> 48) & 0xff) as u8;
    let b7 = ((v >> 56) & 0xff) as u8;
    assert(v == (b0 as u64) | (b1 as u64) << 8 | (b2 as u64) << 16 | (b3 as u64) << 24 | (b4 as u64)
        << 32 | (b5 as u64) << 40 | (b6 as u64) << 48 | (b7 as u64) << 56) by (bit_vector)
        requires
            b0 == (v & 0xff) as u8,
            b1 == ((v >> 8) & 0xff) as u8,
            b2 == ((v >> 16) & 0xff) as u8,
            b3 == ((v >> 24) & 0xff) as u8,
            b4 == ((v >> 32) & 0xff) as u8,
            b5 == ((v >> 40) & 0xff) as u8,
            b6 == ((v >> 48) & 0xff) as u8,
            b7 == ((v >> 56) & 0xff) as u8,
    ;
}

/// Writing out the value of eight bytes gives those bytes.
pub proof fn lemma_from_le_u64_round_trip(s: Seq<u8>)
    requires
        s.len() == 8,
    ensures
        le_u64(from_le_u64(s)) == s,
{
    let v = from_le_u64(s);
    let b0 = s[0];
    let b1 = s[1];
    let b2 = s[2];
    let b3 = s[3];
    let b4 = s[4];
    let b5 = s[5];
    let b6 = s[6];
    let b7 = s[7];
    assert(b0 == (v & 0xff) as u8 && b1 == ((v >> 8) & 0xff) as u8 && b2 == ((v >> 16) & 0xff) as u8
        && b3 == ((v >> 24) & 0xff) as u8 && b4 == ((v >> 32) & 0xff) as u8 && b5 == ((v >> 40)
        & 0xff) as u8 && b6 == ((v >> 48) & 0xff) as u8 && b7 == ((v >> 56) & 0xff) as u8)
        by (bit_vector)
        requires
            v == (b0 as u64) | (b1 as u64) << 8 | (b2 as u64) << 16 | (b3 as u64) << 24 | (b4 as u64)
                << 32 | (b5 as u64) << 40 | (b6 as u64) << 48 | (b7 as u64) << 56,
    ;
    assert(le_u64(v) =~= s);
}

/// Reading back the bytes of an `i32` gives the `i32`.
pub proof fn lemma_le_i32_round_trip(v: i32)
    ensures
        le_i32(v).len() == 4,
        from_le_i32(le_i32(v)) == v,
{
    lemma_le_u32_round_trip(v as u32);
    assert((v as u32) as i32 == v) by (bit_vector);
}

/// Writing out the signed value of four bytes gives those bytes.
pub proof fn lemma_from_le_i32_round_trip(s: Seq<u8>)
    requires
        s.len() == 4,
    ensures
        le_i32(from_le_i32(s)) == s,
{
    let u = from_le_u32(s);
    assert((u as i32) as u32 == u) by (bit_vector);
    lemma_from_le_u32_round_trip(s);
}

/// Writes the bytes of `v` at `at`.
pub fn put_u32(buf: &mut [u8], at: usize, v: u32)
    requires
        at + 4 <= old(buf).len(),
    ensures
        final(buf)@.len() == old(buf)@.len(),
        final(buf)@ == old(buf)@.take(at as int) + le_u32(v) + old(buf)@.skip(at + 4),
{
    buf[at] = (v & 0xff) as u8;
    buf[at + 1] = ((v >> 8) & 0xff) as u8;
    buf[at + 2] = ((v >> 16) & 0xff) as u8;
    buf[at + 3] = ((v >> 24) & 0xff) as u8;
    assert(buf@ =~= old(buf)@.take(at as int) + le_u32(v) + old(buf)@.skip(at + 4));
}

/// Reads the `u32` whose bytes stand at `at`.
pub fn get_u32(buf: &[u8], at: usize) -> (v: u32)
    requires
        at + 4 <= buf.len(),
    ensures
        v == from_le_u32(buf@.subrange(at as int, at + 4)),
{
    (buf[at] as u32) | (buf[at + 1] as u32) << 8 | (buf[at + 2] as u32) << 16 | (buf[at + 3] as u32)
        << 24
}

/// Writes the bytes of `v` at `at`.
pub fn put_u64(buf: &mut [u8], at: usize, v: u64)
    requires
        at + 8 <= old(buf).len(),
    ensures
        final(buf)@.len() == old(buf)@.len(),
        final(buf)@ == old(buf)@.take(at as int) + le_u64(v) + old(buf)@.skip(at + 8),
{
    buf[at] = (v & 0xff) as u8;
    buf[at + 1] = ((v >> 8) & 0xff) as u8;
    buf[at + 2] = ((v >> 16) & 0xff) as u8;
    buf[at + 3] = ((v >> 24) & 0xff) as u8;
    buf[at + 4] = ((v >> 32) & 0xff) as u8;
    buf[at + 5] = ((v >> 40) & 0xff) as u8;
    buf[at + 6] = ((v >> 48) & 0xff) as u8;
    buf[at + 7] = ((v >> 56) & 0xff) as u8;
    assert(buf@ =~= old(buf)@.take(at as int) + le_u64(v) + old(buf)@.skip(at + 8));
}

/// Reads the `u64` whose bytes stand at `at`.
pub fn get_u64(buf: &[u8], at: usize) -> (v: u64)
    requires
        at + 8 <= buf.len(),
    ensures
        v == from_le_u64(buf@.subrange(at as int, at + 8)),
{
    (buf[at] as u64) | (buf[at + 1] as u64) << 8 | (buf[at + 2] as u64) << 16 | (buf[at + 3] as u64)
        << 24 | (buf[at + 4] as u64) << 32 | (buf[at + 5] as u64) << 40 | (buf[at + 6] as u64) << 48
        | (buf[at + 7] as u64) << 56
}

/// Writes the bytes of `v` at `at`.
pub fn put_i32(buf: &mut [u8], at: usize, v: i32)
    requires
        at + 4 <= old(buf).len(),
    ensures
        final(buf)@.len() == old(buf)@.len(),
        final(buf)@ == old(buf)@.take(at as int) + le_i32(v) + old(buf)@.skip(at + 4),
{
    put_u32(buf, at, v as u32);
}

/// Reads the `i32` whose bytes stand at `at`.
pub fn get_i32(buf: &[u8], at: usize) -> (v: i32)
    requires
        at + 4 <= buf.len(),
    ensures
        v == from_le_i32(buf@.subrange(at as int, at + 4)),
{
    get_u32(buf, at) as i32
}

/// The length of a date and time on the link.
pub const DATE_TIME_LEN: usize = 28;

/// A date and time on the link: its seven fields in the order of their
/// declaration, four bytes each.
pub open spec fn date_time_wire(d: UtcDateTime) -> Seq<u8> {
    le_i32(d.year) + le_u32(d.month) + le_u32(d.day) + le_u32(d.hour) + le_u32(d.minute) + le_u32(
        d.second,
    ) + le_u32(d.nanoseconds)
}

/// The date and time that `b` stands for; `None` unless `b` has the length
/// of one.
pub open spec fn date_time_parse(b: Seq<u8>) -> Option<UtcDateTime> {
    if b.len() == DATE_TIME_LEN {
        Some(
            UtcDateTime {
                year: from_le_i32(b.subrange(0, 4)),
                month: from_le_u32(b.subrange(4, 8)),
                day: from_le_u32(b.subrange(8, 12)),
                hour: from_le_u32(b.subrange(12, 16)),
                minute: from_le_u32(b.subrange(16, 20)),
                second: from_le_u32(b.subrange(20, 24)),
                nanoseconds: from_le_u32(b.subrange(24, 28)),
            },
        )
    } else {
        None
    }
}

/// Parsing what was written of a date and time gives it back.
pub proof fn lemma_date_time_parse_wire(d: UtcDateTime)
    ensures
        date_time_wire(d).len() == DATE_TIME_LEN,
        date_time_parse(date_time_wire(d)) == Some(d),
{
    let b = date_time_wire(d);
    lemma_le_i32_round_trip(d.year);
    lemma_le_u32_round_trip(d.month);
    lemma_le_u32_round_trip(d.day);
    lemma_le_u32_round_trip(d.hour);
    lemma_le_u32_round_trip(d.minute);
    lemma_le_u32_round_trip(d.second);
    lemma_le_u32_round_trip(d.nanoseconds);
    assert(b.subrange(0, 4) =~= le_i32(d.year));
    assert(b.subrange(4, 8) =~= le_u32(d.month));
    assert(b.subrange(8, 12) =~= le_u32(d.day));
    assert(b.subrange(12, 16) =~= le_u32(d.hour));
    assert(b.subrange(16, 20) =~= le_u32(d.minute));
    assert(b.subrange(20, 24) =~= le_u32(d.second));
    assert(b.subrange(24, 28) =~= le_u32(d.nanoseconds));
}

/// Only what is written of a date and time parses to it.
pub proof fn lemma_date_time_wire_parse(b: Seq<u8>)
    ensures
        date_time_parse(b) matches Some(d) ==> date_time_wire(d) == b,
{
    if b.len() == DATE_TIME_LEN {
        lemma_from_le_i32_round_trip(b.subrange(0, 4));
        lemma_from_le_u32_round_trip(b.subrange(4, 8));
        lemma_from_le_u32_round_trip(b.subrange(8, 12));
        lemma_from_le_u32_round_trip(b.subrange(12, 16));
        lemma_from_le_u32_round_trip(b.subrange(16, 20));
        lemma_from_le_u32_round_trip(b.subrange(20, 24));
        lemma_from_le_u32_round_trip(b.subrange(24, 28));
        let d = date_time_parse(b)->Some_0;
        assert(date_time_wire(d) =~= b.subrange(0, 4) + b.subrange(4, 8) + b.subrange(8, 12)
            + b.subrange(12, 16) + b.subrange(16, 20) + b.subrange(20, 24) + b.subrange(24, 28));
        assert(date_time_wire(d) =~= b);
    }
}

/// Writes `d` at `at`.
pub fn write_date_time(d: &UtcDateTime, buf: &mut [u8], at: usize)
    requires
        at + DATE_TIME_LEN <= old(buf).len(),
    ensures
        final(buf)@.len() == old(buf)@.len(),
        final(buf)@ == old(buf)@.take(at as int) + date_time_wire(*d) + old(buf)@.skip(
            at + DATE_TIME_LEN,
        ),
{
    put_i32(buf, at, d.year);
    put_u32(buf, at + 4, d.month);
    put_u32(buf, at + 8, d.day);
    put_u32(buf, at + 12, d.hour);
    put_u32(buf, at + 16, d.minute);
    put_u32(buf, at + 20, d.second);
    put_u32(buf, at + 24, d.nanoseconds);
    assert(buf@ =~= old(buf)@.take(at as int) + date_time_wire(*d) + old(buf)@.skip(
        at + DATE_TIME_LEN,
    ));
}

/// Reads the date and time that stands in `buf` from `from` up to `to`.
pub fn read_date_time(buf: &[u8], from: usize, to: usize) -> (r: Option<UtcDateTime>)
    requires
        from <= to <= buf.len(),
    ensures
        r == date_time_parse(buf@.subrange(from as int, to as int)),
{
    if to - from != DATE_TIME_LEN {
        return None;
    }
    proof {
        let b = buf@.subrange(from as int, to as int);
        assert(b.subrange(0, 4) =~= buf@.subrange(from as int, from + 4));
        assert(b.subrange(4, 8) =~= buf@.subrange(from + 4, from + 8));
        assert(b.subrange(8, 12) =~= buf@.subrange(from + 8, from + 12));
        assert(b.subrange(12, 16) =~= buf@.subrange(from + 12, from + 16));
        assert(b.subrange(16, 20) =~= buf@.subrange(from + 16, from + 20));
        assert(b.subrange(20, 24) =~= buf@.subrange(from + 20, from + 24));
        assert(b.subrange(24, 28) =~= buf@.subrange(from + 24, from + 28));
    }
    Some(
        UtcDateTime {
            year: get_i32(buf, from),
            month: get_u32(buf, from + 4),
            day: get_u32(buf, from + 8),
            hour: get_u32(buf, from + 12),
            minute: get_u32(buf, from + 16),
            second: get_u32(buf, from + 20),
            nanoseconds: get_u32(buf, from + 24),
        },
    )
}

/// A device operation on the link: one byte that numbers the variant in the
/// order of declaration, from 0, then the variant's fields in their order.
pub open spec fn message_wire(m: Message) -> Seq<u8> {
    match m {
        Message::SetTimeReference(d) => seq![0u8] + date_time_wire(d),
        Message::TurnBlinkerOff => seq![1u8],
        Message::TurnBlinkerOnNow(duration, frequency) => seq![2u8] + le_u64(duration) + le_u64(
            frequency,
        ),
        Message::TurnBlinkerOnAfterDelay(duration, frequency, delay) => seq![3u8] + le_u64(
            duration,
        ) + le_u64(frequency) + le_u64(delay),
        Message::TurnRgbLedOff => seq![4u8],
        Message::TurnRgbLedOn => seq![5u8],
    }
}

/// The device operation that `b` stands for; `None` where the first byte
/// numbers no variant or the length is not that of the variant.
pub open spec fn message_parse(b: Seq<u8>) -> Option<Message> {
    if b.len() == 0 {
        None
    } else if b[0] == 0 {
        match date_time_parse(b.skip(1)) {
            Some(d) => Some(Message::SetTimeReference(d)),
            None => None,
        }
    } else if b[0] == 1 && b.len() == 1 {
        Some(Message::TurnBlinkerOff)
    } else if b[0] == 2 && b.len() == 17 {
        Some(Message::TurnBlinkerOnNow(from_le_u64(b.subrange(1, 9)), from_le_u64(b.subrange(9, 17))))
    } else if b[0] == 3 && b.len() == 25 {
        Some(
            Message::TurnBlinkerOnAfterDelay(
                from_le_u64(b.subrange(1, 9)),
                from_le_u64(b.subrange(9, 17)),
                from_le_u64(b.subrange(17, 25)),
            ),
        )
    } else if b[0] == 4 && b.len() == 1 {
        Some(Message::TurnRgbLedOff)
    } else if b[0] == 5 && b.len() == 1 {
        Some(Message::TurnRgbLedOn)
    } else {
        None
    }
}

/// Parsing what was written of a device operation gives it back.
pub proof fn lemma_message_parse_wire(m: Message)
    ensures
        1 <= message_wire(m).len() <= 1 + DATE_TIME_LEN,
        message_parse(message_wire(m)) == Some(m),
{
    let b = message_wire(m);
    match m {
        Message::SetTimeReference(d) => {
            lemma_date_time_parse_wire(d);
            assert(b.skip(1) =~= date_time_wire(d));
        },
        Message::TurnBlinkerOnNow(duration, frequency) => {
            lemma_le_u64_round_trip(duration);
            lemma_le_u64_round_trip(frequency);
            assert(b.subrange(1, 9) =~= le_u64(duration));
            assert(b.subrange(9, 17) =~= le_u64(frequency));
        },
        Message::TurnBlinkerOnAfterDelay(duration, frequency, delay) => {
            lemma_le_u64_round_trip(duration);
            lemma_le_u64_round_trip(frequency);
            lemma_le_u64_round_trip(delay);
            assert(b.subrange(1, 9) =~= le_u64(duration));
            assert(b.subrange(9, 17) =~= le_u64(frequency));
            assert(b.subrange(17, 25) =~= le_u64(delay));
        },
        _ => {},
    }
}

/// Only what is written of a device operation parses to it.
pub proof fn lemma_message_wire_parse(b: Seq<u8>)
    ensures
        message_parse(b) matches Some(m) ==> message_wire(m) == b,
{
    if b.len() == 0 {
    } else if b[0] == 0 {
        lemma_date_time_wire_parse(b.skip(1));
        if date_time_parse(b.skip(1)) matches Some(d) {
            assert(seq![0u8] + b.skip(1) =~= b);
        }
    } else if b[0] == 2 && b.len() == 17 {
        lemma_from_le_u64_round_trip(b.subrange(1, 9));
        lemma_from_le_u64_round_trip(b.subrange(9, 17));
        assert(seq![2u8] + b.subrange(1, 9) + b.subrange(9, 17) =~= b);
    } else if b[0] == 3 && b.len() == 25 {
        lemma_from_le_u64_round_trip(b.subrange(1, 9));
        lemma_from_le_u64_round_trip(b.subrange(9, 17));
        lemma_from_le_u64_round_trip(b.subrange(17, 25));
        assert(seq![3u8] + b.subrange(1, 9) + b.subrange(9, 17) + b.subrange(17, 25) =~= b);
    } else if b.len() == 1 {
        assert(seq![b[0]] =~= b);
    }
}

/// The length of `m` on the link.
pub fn message_len(m: &Message) -> (n: usize)
    ensures
        n == message_wire(*m).len(),
        1 <= n <= 1 + DATE_TIME_LEN,
{
    match m {
        Message::SetTimeReference(_) => 1 + DATE_TIME_LEN,
        Message::TurnBlinkerOnNow(_, _) => 17,
        Message::TurnBlinkerOnAfterDelay(_, _, _) => 25,
        _ => 1,
    }
}

/// Writes `m` at `at`.
pub fn write_message(m: &Message, buf: &mut [u8], at: usize)
    requires
        at + message_wire(*m).len() <= old(buf).len(),
    ensures
        final(buf)@.len() == old(buf)@.len(),
        final(buf)@ == old(buf)@.take(at as int) + message_wire(*m) + old(buf)@.skip(
            at + message_wire(*m).len(),
        ),
{
    match m {
        Message::SetTimeReference(d) => {
            buf[at] = 0;
            write_date_time(d, buf, at + 1);
        },
        Message::TurnBlinkerOff => {
            buf[at] = 1;
        },
        Message::TurnBlinkerOnNow(duration, frequency) => {
            buf[at] = 2;
            put_u64(buf, at + 1, *duration);
            put_u64(buf, at + 9, *frequency);
        },
        Message::TurnBlinkerOnAfterDelay(duration, frequency, delay) => {
            buf[at] = 3;
            put_u64(buf, at + 1, *duration);
            put_u64(buf, at + 9, *frequency);
            put_u64(buf, at + 17, *delay);
        },
        Message::TurnRgbLedOff => {
            buf[at] = 4;
        },
        Message::TurnRgbLedOn => {
            buf[at] = 5;
        },
    }
    assert(buf@ =~= old(buf)@.take(at as int) + message_wire(*m) + old(buf)@.skip(
        at + message_wire(*m).len(),
    ));
}

/// Reads the device operation that stands in `buf` from `from` up to `to`.
pub fn read_message(buf: &[u8], from: usize, to: usize) -> (r: Option<Message>)
    requires
        from <= to <= buf.len(),
    ensures
        r == message_parse(buf@.subrange(from as int, to as int)),
{
    let ghost b = buf@.subrange(from as int, to as int);
    if to == from {
        return None;
    }
    let tag = buf[from];
    let len = to - from;
    proof {
        assert(b[0] == tag);
        assert(b.skip(1) =~= buf@.subrange(from + 1, to as int));
        if len >= 17 {
            assert(b.subrange(1, 9) =~= buf@.subrange(from + 1, from + 9));
            assert(b.subrange(9, 17) =~= buf@.subrange(from + 9, from + 17));
        }
        if len >= 25 {
            assert(b.subrange(17, 25) =~= buf@.subrange(from + 17, from + 25));
        }
    }
    if tag == 0 {
        match read_date_time(buf, from + 1, to) {
            Some(d) => Some(Message::SetTimeReference(d)),
            None => None,
        }
    } else if tag == 1 && len == 1 {
        Some(Message::TurnBlinkerOff)
    } else if tag == 2 && len == 17 {
        Some(Message::TurnBlinkerOnNow(get_u64(buf, from + 1), get_u64(buf, from + 9)))
    } else if tag == 3 && len == 25 {
        Some(
            Message::TurnBlinkerOnAfterDelay(
                get_u64(buf, from + 1),
                get_u64(buf, from + 9),
                get_u64(buf, from + 17),
            ),
        )
    } else if tag == 4 && len == 1 {
        Some(Message::TurnRgbLedOff)
    } else if tag == 5 && len == 1 {
        Some(Message::TurnRgbLedOn)
    } else {
        None
    }
}

/// A command on the link: one byte that numbers the variant, then the
/// variant's fields in their order.
pub open spec fn command_wire(c: Command) -> Seq<u8> {
    match c {
        Command::SetMessage(id, message, dev_id) => seq![0u8] + le_u32(id) + message_wire(message)
            + le_u32(dev_id),
        Command::Get(id, parameter, dev_id) => seq![1u8] + le_u32(id) + le_u32(parameter) + le_u32(
            dev_id,
        ),
    }
}

/// The command that `b` stands for, if any. In a `SetMessage` the device
/// operation is what stands between the id and the last four bytes.
pub open spec fn command_parse(b: Seq<u8>) -> Option<Command> {
    if b.len() == 0 {
        None
    } else if b[0] == 0 && b.len() >= 9 {
        match message_parse(b.subrange(5, b.len() - 4)) {
            Some(message) => Some(
                Command::SetMessage(
                    from_le_u32(b.subrange(1, 5)),
                    message,
                    from_le_u32(b.subrange(b.len() - 4, b.len() as int)),
                ),
            ),
            None => None,
        }
    } else if b[0] == 1 && b.len() == 13 {
        Some(
            Command::Get(
                from_le_u32(b.subrange(1, 5)),
                from_le_u32(b.subrange(5, 9)),
                from_le_u32(b.subrange(9, 13)),
            ),
        )
    } else {
        None
    }
}

/// The length of the longest command on the link.
pub const COMMAND_MAX_LEN: usize = 38;

/// Parsing what was written of a command gives it back.
pub proof fn lemma_command_parse_wire(c: Command)
    ensures
        1 <= command_wire(c).len() <= COMMAND_MAX_LEN,
        command_parse(command_wire(c)) == Some(c),
{
    let b = command_wire(c);
    match c {
        Command::SetMessage(id, message, dev_id) => {
            lemma_le_u32_round_trip(id);
            lemma_le_u32_round_trip(dev_id);
            lemma_message_parse_wire(message);
            assert(b.subrange(1, 5) =~= le_u32(id));
            assert(b.subrange(5, b.len() - 4) =~= message_wire(message));
            assert(b.subrange(b.len() - 4, b.len() as int) =~= le_u32(dev_id));
        },
        Command::Get(id, parameter, dev_id) => {
            lemma_le_u32_round_trip(id);
            lemma_le_u32_round_trip(parameter);
            lemma_le_u32_round_trip(dev_id);
            assert(b.subrange(1, 5) =~= le_u32(id));
            assert(b.subrange(5, 9) =~= le_u32(parameter));
            assert(b.subrange(9, 13) =~= le_u32(dev_id));
        },
    }
}

/// Only what is written of a command parses to it.
pub proof fn lemma_command_wire_parse(b: Seq<u8>)
    ensures
        command_parse(b) matches Some(c) ==> command_wire(c) == b,
{
    if b.len() == 0 {
    } else if b[0] == 0 && b.len() >= 9 {
        let middle = b.subrange(5, b.len() - 4);
        let tail = b.subrange(b.len() - 4, b.len() as int);
        lemma_message_wire_parse(middle);
        lemma_from_le_u32_round_trip(b.subrange(1, 5));
        lemma_from_le_u32_round_trip(tail);
        if message_parse(middle) is Some {
            assert(seq![0u8] + b.subrange(1, 5) + middle + tail =~= b);
        }
    } else if b[0] == 1 && b.len() == 13 {
        lemma_from_le_u32_round_trip(b.subrange(1, 5));
        lemma_from_le_u32_round_trip(b.subrange(5, 9));
        lemma_from_le_u32_round_trip(b.subrange(9, 13));
        assert(seq![1u8] + b.subrange(1, 5) + b.subrange(5, 9) + b.subrange(9, 13) =~= b);
    }
}

/// An answer on the link: one byte that numbers the variant, then the
/// variant's fields in their order.
pub open spec fn response_wire(r: Response) -> Seq<u8> {
    match r {
        Response::Data(id, parameter, value, dev_id) => seq![0u8] + le_u32(id) + le_u32(parameter)
            + le_u32(value) + le_u32(dev_id),
        Response::SetOk => seq![1u8],
        Response::ParseError => seq![2u8],
        Response::NotOK => seq![3u8],
        Response::Recovered => seq![4u8],
        Response::Illegal => seq![5u8],
        Response::SerializationError => seq![6u8],
    }
}

/// The answer that `b` stands for, if any.
pub open spec fn response_parse(b: Seq<u8>) -> Option<Response> {
    if b.len() == 0 {
        None
    } else if b[0] == 0 && b.len() == 17 {
        Some(
            Response::Data(
                from_le_u32(b.subrange(1, 5)),
                from_le_u32(b.subrange(5, 9)),
                from_le_u32(b.subrange(9, 13)),
                from_le_u32(b.subrange(13, 17)),
            ),
        )
    } else if b[0] == 1 && b.len() == 1 {
        Some(Response::SetOk)
    } else if b[0] == 2 && b.len() == 1 {
        Some(Response::ParseError)
    } else if b[0] == 3 && b.len() == 1 {
        Some(Response::NotOK)
    } else if b[0] == 4 && b.len() == 1 {
        Some(Response::Recovered)
    } else if b[0] == 5 && b.len() == 1 {
        Some(Response::Illegal)
    } else if b[0] == 6 && b.len() == 1 {
        Some(Response::SerializationError)
    } else {
        None
    }
}

/// The length of the longest answer on the link.
pub const RESPONSE_MAX_LEN: usize = 17;

/// Parsing what was written of an answer gives it back.
pub proof fn lemma_response_parse_wire(r: Response)
    ensures
        1 <= response_wire(r).len() <= RESPONSE_MAX_LEN,
        response_parse(response_wire(r)) == Some(r),
{
    let b = response_wire(r);
    match r {
        Response::Data(id, parameter, value, dev_id) => {
            lemma_le_u32_round_trip(id);
            lemma_le_u32_round_trip(parameter);
            lemma_le_u32_round_trip(value);
            lemma_le_u32_round_trip(dev_id);
            assert(b.subrange(1, 5) =~= le_u32(id));
            assert(b.subrange(5, 9) =~= le_u32(parameter));
            assert(b.subrange(9, 13) =~= le_u32(value));
            assert(b.subrange(13, 17) =~= le_u32(dev_id));
        },
        _ => {},
    }
}

/// Only what is written of an answer parses to it.
pub proof fn lemma_response_wire_parse(b: Seq<u8>)
    ensures
        response_parse(b) matches Some(r) ==> response_wire(r) == b,
{
    if b.len() == 0 {
    } else if b[0] == 0 && b.len() == 17 {
        lemma_from_le_u32_round_trip(b.subrange(1, 5));
        lemma_from_le_u32_round_trip(b.subrange(5, 9));
        lemma_from_le_u32_round_trip(b.subrange(9, 13));
        lemma_from_le_u32_round_trip(b.subrange(13, 17));
        assert(seq![0u8] + b.subrange(1, 5) + b.subrange(5, 9) + b.subrange(9, 13) + b.subrange(
            13,
            17,
        ) =~= b);
    } else if b.len() == 1 {
        assert(seq![b[0]] =~= b);
    }
}

/// A value that has a form on the link.
pub trait Wire: Sized {
    /// The bytes that stand for the value.
    spec fn wire(&self) -> Seq<u8>;

    /// The value that `bytes` stand for, if they stand for one.
    spec fn parse(bytes: Seq<u8>) -> Option<Self>;

    /// Parsing what was written of a value gives it back.
    proof fn lemma_parse_wire(&self)
        ensures
            Self::parse(self.wire()) == Some(*self),
    ;

    /// Only what is written of a value parses to it.
    proof fn lemma_wire_parse(bytes: Seq<u8>)
        ensures
            Self::parse(bytes) matches Some(v) ==> v.wire() == bytes,
    ;

    /// The number of bytes that stand for the value.
    fn wire_len(&self) -> (n: usize)
        ensures
            n == self.wire().len(),
    ;

    /// Writes the value to the start of `buf`, which is long enough for it.
    fn write(&self, buf: &mut [u8])
        requires
            self.wire().len() <= old(buf).len(),
        ensures
            final(buf)@.len() == old(buf)@.len(),
            final(buf)@ == self.wire() + old(buf)@.skip(self.wire().len() as int),
    ;

    /// Reads the value that the first `len` bytes of `buf` stand for.
    fn read(buf: &[u8], len: usize) -> (r: Option<Self>)
        requires
            len <= buf.len(),
        ensures
            r == Self::parse(buf@.take(len as int)),
    ;
}

impl Wire for Command {
    open spec fn wire(&self) -> Seq<u8> {
        command_wire(*self)
    }

    open spec fn parse(bytes: Seq<u8>) -> Option<Self> {
        command_parse(bytes)
    }

    proof fn lemma_parse_wire(&self) {
        lemma_command_parse_wire(*self);
    }

    proof fn lemma_wire_parse(bytes: Seq<u8>) {
        lemma_command_wire_parse(bytes);
    }

    fn wire_len(&self) -> (n: usize) {
        match self {
            Command::SetMessage(_, message, _) => 9 + message_len(message),
            Command::Get(_, _, _) => 13,
        }
    }

    fn write(&self, buf: &mut [u8]) {
        match self {
            Command::SetMessage(id, message, dev_id) => {
                let n = message_len(message);
                buf[0] = 0;
                put_u32(buf, 1, *id);
                write_message(message, buf, 5);
                put_u32(buf, 5 + n, *dev_id);
            },
            Command::Get(id, parameter, dev_id) => {
                buf[0] = 1;
                put_u32(buf, 1, *id);
                put_u32(buf, 5, *parameter);
                put_u32(buf, 9, *dev_id);
            },
        }
        assert(buf@ =~= self.wire() + old(buf)@.skip(self.wire().len() as int));
    }

    fn read(buf: &[u8], len: usize) -> (r: Option<Self>) {
        let ghost b = buf@.take(len as int);
        if len == 0 {
            return None;
        }
        let tag = buf[0];
        proof {
            assert(b[0] == tag);
            if len >= 9 {
                assert(b.subrange(1, 5) =~= buf@.subrange(1, 5));
                assert(b.subrange(5, len - 4) =~= buf@.subrange(5, len - 4));
                assert(b.subrange(len - 4, len as int) =~= buf@.subrange(len - 4, len as int));
            }
            if len >= 13 {
                assert(b.subrange(5, 9) =~= buf@.subrange(5, 9));
                assert(b.subrange(9, 13) =~= buf@.subrange(9, 13));
            }
        }
        if tag == 0 && len >= 9 {
            match read_message(buf, 5, len - 4) {
                Some(message) => Some(
                    Command::SetMessage(get_u32(buf, 1), message, get_u32(buf, len - 4)),
                ),
                None => None,
            }
        } else if tag == 1 && len == 13 {
            Some(Command::Get(get_u32(buf, 1), get_u32(buf, 5), get_u32(buf, 9)))
        } else {
            None
        }
    }
}

impl Wire for Response {
    open spec fn wire(&self) -> Seq<u8> {
        response_wire(*self)
    }

    open spec fn parse(bytes: Seq<u8>) -> Option<Self> {
        response_parse(bytes)
    }

    proof fn lemma_parse_wire(&self) {
        lemma_response_parse_wire(*self);
    }

    proof fn lemma_wire_parse(bytes: Seq<u8>) {
        lemma_response_wire_parse(bytes);
    }

    fn wire_len(&self) -> (n: usize) {
        match self {
            Response::Data(_, _, _, _) => 17,
            _ => 1,
        }
    }

    fn write(&self, buf: &mut [u8]) {
        match self {
            Response::Data(id, parameter, value, dev_id) => {
                buf[0] = 0;
                put_u32(buf, 1, *id);
                put_u32(buf, 5, *parameter);
                put_u32(buf, 9, *value);
                put_u32(buf, 13, *dev_id);
            },
            Response::SetOk => {
                buf[0] = 1;
            },
            Response::ParseError => {
                buf[0] = 2;
            },
            Response::NotOK => {
                buf[0] = 3;
            },
            Response::Recovered => {
                buf[0] = 4;
            },
            Response::Illegal => {
                buf[0] = 5;
            },
            Response::SerializationError => {
                buf[0] = 6;
            },
        }
        assert(buf@ =~= self.wire() + old(buf)@.skip(self.wire().len() as int));
    }

    fn read(buf: &[u8], len: usize) -> (r: Option<Self>) {
        let ghost b = buf@.take(len as int);
        if len == 0 {
            return None;
        }
        let tag = buf[0];
        proof {
            assert(b[0] == tag);
            if len >= 17 {
                assert(b.subrange(1, 5) =~= buf@.subrange(1, 5));
                assert(b.subrange(5, 9) =~= buf@.subrange(5, 9));
                assert(b.subrange(9, 13) =~= buf@.subrange(9, 13));
                assert(b.subrange(13, 17) =~= buf@.subrange(13, 17));
            }
        }
        if tag == 0 && len == 17 {
            Some(Response::Data(get_u32(buf, 1), get_u32(buf, 5), get_u32(buf, 9), get_u32(buf, 13)))
        } else if tag == 1 && len == 1 {
            Some(Response::SetOk)
        } else if tag == 2 && len == 1 {
            Some(Response::ParseError)
        } else if tag == 3 && len == 1 {
            Some(Response::NotOK)
        } else if tag == 4 && len == 1 {
            Some(Response::Recovered)
        } else if tag == 5 && len == 1 {
            Some(Response::Illegal)
        } else if tag == 6 && len == 1 {
            Some(Response::SerializationError)
        } else {
            None
        }
    }
}

} // verus!
