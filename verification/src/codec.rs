use vstd::prelude::*;
use vstd::slice::slice_subrange;
use crate::protocol::SerializationError;
use crate::wire::{
    from_le_u32, le_u32, lemma_from_le_u32_round_trip, lemma_le_u32_round_trip, Wire,
};

verus! {

/// The encoder's error type; the library reads nothing in it.
#[verifier::external_type_specification]
#[verifier::external_body]
pub struct ExCobsError(corncobs::CobsError);

/// The marshaller's error type; the library reads nothing in it.
#[verifier::external_type_specification]
#[verifier::external_body]
pub struct ExMarshalError(ssmarshal::Error);

/// The frame that byte stuffing makes of `payload`, terminator included.
pub uninterp spec fn cobs_encoded(payload: Seq<u8>) -> Seq<u8>;

/// The payload that un-stuffing finds in `frame`; `None` where `frame` breaks
/// off inside a run.
pub uninterp spec fn cobs_decoded(frame: Seq<u8>) -> Option<Seq<u8>>;

/// The CRC-32/CKSUM checksum of `bytes`.
pub uninterp spec fn crc32_cksum(bytes: Seq<u8>) -> u32;

/// The longest frame that byte stuffing can make of a payload of `raw_len`
/// bytes: one byte of overhead for every 254 bytes begun (one for an empty
/// payload), and the terminator.
pub open spec fn spec_max_encoded_len(raw_len: int) -> int {
    raw_len + (if raw_len == 0 {
        1
    } else {
        (raw_len + 253) / 254
    }) + 1
}

/// `corncobs::encode_buf`: writes the frame of `bytes` to the start of
/// `output` and returns its length. The frame ends in its only zero byte; the
/// rest of `output` is left as it was.
#[verifier::external_body]
fn cobs_encode(bytes: &[u8], output: &mut [u8]) -> (n: usize)
    requires
        old(output)@.len() >= spec_max_encoded_len(bytes@.len() as int),
    ensures
        final(output)@.len() == old(output)@.len(),
        n == cobs_encoded(bytes@).len(),
        1 <= n <= spec_max_encoded_len(bytes@.len() as int),
        final(output)@.take(n as int) == cobs_encoded(bytes@),
        final(output)@.skip(n as int) == old(output)@.skip(n as int),
        final(output)@[n - 1] == 0,
        forall|i: int| 0 <= i < n - 1 ==> final(output)@[i] != 0,
{
    corncobs::encode_buf(bytes, output)
}

/// `corncobs::decode_in_place`: un-stuffs the frame at the start of `bytes`
/// over itself and returns the length of the payload, which then stands at
/// the start of `bytes`. What it makes of a frame that the encoder made is
/// the payload that the encoder was given.
#[verifier::external_body]
fn cobs_decode_in_place(bytes: &mut [u8]) -> (r: Result<usize, corncobs::CobsError>)
    ensures
        final(bytes)@.len() == old(bytes)@.len(),
        match r {
            Ok(n) => n <= old(bytes)@.len() && cobs_decoded(old(bytes)@) == Some(
                final(bytes)@.take(n as int),
            ),
            Err(_) => cobs_decoded(old(bytes)@) is None,
        },
        forall|p: Seq<u8>|
            old(bytes)@ == #[trigger] cobs_encoded(p) ==> r is Ok && cobs_decoded(old(bytes)@)
                == Some(p),
{
    corncobs::decode_in_place(bytes)
}

/// `crc::Crc::<u32>::checksum` with the CRC-32/CKSUM parameters.
#[verifier::external_body]
fn cksum(bytes: &[u8]) -> (r: u32)
    ensures
        r == crc32_cksum(bytes@),
{
    crc::Crc::<u32>::new(&crc::CRC_32_CKSUM).checksum(bytes)
}

/// `ssmarshal::serialize` of a `u32`: its four bytes, least significant
/// first, at the start of `buf`.
#[verifier::external_body]
fn marshal_u32(buf: &mut [u8], val: u32) -> (r: Result<usize, ssmarshal::Error>)
    requires
        old(buf)@.len() >= 4,
    ensures
        match r {
            Ok(n) => n == 4,
            Err(_) => false,
        },
        final(buf)@ == le_u32(val) + old(buf)@.skip(4),
{
    ssmarshal::serialize(buf, &val)
}

/// `ssmarshal::deserialize` of a `u32`: the value of the first four bytes of
/// `buf`, least significant first.
#[verifier::external_body]
fn unmarshal_u32(buf: &[u8]) -> (r: Result<(u32, usize), ssmarshal::Error>)
    requires
        buf@.len() >= 4,
    ensures
        match r {
            Ok(p) => p.0 == from_le_u32(buf@) && p.1 == 4,
            Err(_) => false,
        },
{
    ssmarshal::deserialize::<u32>(buf)
}

/// The length of the checksum that follows a payload.
pub const CRC_LEN: usize = 4;

/// A payload with its checksum behind it.
pub open spec fn checksummed(payload: Seq<u8>) -> Seq<u8> {
    payload + le_u32(crc32_cksum(payload))
}

/// The frame that carries `payload`: the payload and its checksum, stuffed
/// and terminated.
pub open spec fn frame_of(payload: Seq<u8>) -> Seq<u8> {
    cobs_encoded(checksummed(payload))
}

/// What comes of framing `payload` in a buffer of `capacity` bytes. The
/// buffer has to hold the payload, then the checksum as well, then the
/// longest frame that a body of that length can make: each is asked before
/// a byte is stuffed.
pub open spec fn serialized(payload: Seq<u8>, capacity: int) -> Result<
    Seq<u8>,
    SerializationError,
> {
    if payload.len() > capacity {
        Err(SerializationError::Serialization)
    } else if payload.len() + CRC_LEN > capacity {
        Err(SerializationError::CrcSerialization)
    } else if spec_max_encoded_len(payload.len() + CRC_LEN) > capacity {
        Err(SerializationError::CorncobsEncoding)
    } else {
        Ok(frame_of(payload))
    }
}

/// What a body, that is an un-stuffed frame, holds: the payload before its
/// last four bytes, if those are the payload's checksum.
pub open spec fn checked(body: Seq<u8>) -> Result<Seq<u8>, SerializationError> {
    if body.len() < CRC_LEN {
        Err(SerializationError::CrcDeserialization)
    } else {
        let payload = body.take(body.len() - CRC_LEN);
        if from_le_u32(body.skip(body.len() - CRC_LEN)) != crc32_cksum(payload) {
            Err(SerializationError::CrcMismatch)
        } else {
            Ok(payload)
        }
    }
}

/// What comes of opening `frame`: it is un-stuffed, its checksum is held
/// against its payload, and only then is the payload parsed.
pub open spec fn deserialized<T: Wire>(frame: Seq<u8>) -> Result<T, SerializationError> {
    match cobs_decoded(frame) {
        None => Err(SerializationError::CorncobsDecoding),
        Some(body) => match checked(body) {
            Err(e) => Err(e),
            Ok(payload) => match T::parse(payload) {
                Some(t) => Ok(t),
                None => Err(SerializationError::Deserialization),
            },
        },
    }
}

/// A payload with its own checksum behind it passes the check.
pub proof fn lemma_checked_checksummed(payload: Seq<u8>)
    ensures
        checked(checksummed(payload)) == Ok::<Seq<u8>, SerializationError>(payload),
{
    let body = checksummed(payload);
    lemma_le_u32_round_trip(crc32_cksum(payload));
    assert(body.take(body.len() - CRC_LEN) =~= payload);
    assert(body.skip(body.len() - CRC_LEN) =~= le_u32(crc32_cksum(payload)));
}

/// A payload passes the check behind no four bytes but those of its own
/// checksum: whatever else stands there, a single flipped bit included, is
/// reported as a mismatch.
pub proof fn lemma_checked_trailer(payload: Seq<u8>, trailer: Seq<u8>)
    requires
        trailer.len() == CRC_LEN,
    ensures
        trailer == le_u32(crc32_cksum(payload)) ==> checked(payload + trailer) == Ok::<
            Seq<u8>,
            SerializationError,
        >(payload),
        trailer != le_u32(crc32_cksum(payload)) ==> checked(payload + trailer) == Err::<
            Seq<u8>,
            SerializationError,
        >(SerializationError::CrcMismatch),
{
    let body = payload + trailer;
    assert(body.take(body.len() - CRC_LEN) =~= payload);
    assert(body.skip(body.len() - CRC_LEN) =~= trailer);
    lemma_from_le_u32_round_trip(trailer);
    lemma_le_u32_round_trip(crc32_cksum(payload));
}

/// Nothing passes the check but a payload with its own checksum behind it.
pub proof fn lemma_checked_sound(body: Seq<u8>)
    ensures
        checked(body) matches Ok(payload) ==> body == checksummed(payload),
{
    if body.len() >= CRC_LEN {
        let payload = body.take(body.len() - CRC_LEN);
        let trailer = body.skip(body.len() - CRC_LEN);
        lemma_from_le_u32_round_trip(trailer);
        assert(payload + trailer =~= body);
    }
}

/// The byte `b` with its bit number `bit` flipped.
pub open spec fn bit_flipped(b: u8, bit: u8) -> u8 {
    b ^ (1u8 << bit)
}

/// Corruption of the checksum: a payload with its checksum behind it, one
/// bit of one of the checksum's four bytes flipped, is reported as a
/// mismatch.
pub proof fn lemma_checksum_bit_flip(payload: Seq<u8>, at: int, bit: u8)
    requires
        0 <= at < CRC_LEN,
        bit < 8,
    ensures
        ({
            let body = checksummed(payload);
            let i = payload.len() + at;
            checked(body.update(i, bit_flipped(body[i], bit))) == Err::<
                Seq<u8>,
                SerializationError,
            >(SerializationError::CrcMismatch)
        }),
{
    let body = checksummed(payload);
    let i = payload.len() + at;
    let trailer = le_u32(crc32_cksum(payload));
    let b = trailer[at];
    let changed = trailer.update(at, bit_flipped(b, bit));
    assert(body[i] == b);
    assert(body.update(i, bit_flipped(body[i], bit)) =~= payload + changed);
    assert(b ^ (1u8 << bit) != b) by (bit_vector)
        requires
            bit < 8,
    ;
    assert(changed[at] != trailer[at]);
    lemma_checked_trailer(payload, changed);
}

/// Says whether the longest frame of a body of `raw_len` bytes fits in
/// `capacity` bytes.
pub fn frame_fits(raw_len: usize, capacity: usize) -> (fits: bool)
    ensures
        fits == (spec_max_encoded_len(raw_len as int) <= capacity),
{
    if raw_len > capacity {
        return false;
    }
    let overhead: usize = if raw_len == 0 {
        1
    } else {
        (raw_len - 1) / 254 + 1
    };
    capacity - raw_len > overhead
}

/// Frames `t` in `out_buf`: its bytes, their checksum, stuffed and
/// terminated. Returns the frame, which stands at the start of `out_buf` and
/// ends in its only zero byte. Where the buffer is too small nothing is
/// written.
pub fn serialize_crc_cobs<'a, T: Wire, const N: usize>(t: &'a T, out_buf: &'a mut [u8; N]) -> (r:
    Result<&'a [u8], SerializationError>)
    ensures
        match r {
            Ok(frame) => serialized(t.wire(), N as int) == Ok::<Seq<u8>, SerializationError>(frame@)
                && 1 <= frame@.len() <= N && frame@ == final(out_buf)@.take(frame@.len() as int)
                && frame@.last() == 0 && forall|i: int|
                0 <= i < frame@.len() - 1 ==> frame@[i] != 0,
            Err(e) => serialized(t.wire(), N as int) == Err::<Seq<u8>, SerializationError>(e)
                && *final(out_buf) == *old(out_buf),
        },
{
    let n_ser = t.wire_len();
    if n_ser > N {
        return Err(SerializationError::Serialization);
    }
    if N - n_ser < CRC_LEN {
        return Err(SerializationError::CrcSerialization);
    }
    let total = n_ser + CRC_LEN;
    if !frame_fits(total, N) {
        return Err(SerializationError::CorncobsEncoding);
    }
    let out: &mut [u8] = out_buf;
    t.write(out);
    let ghost written = out@;
    assert(written.subrange(0, n_ser as int) =~= t.wire());
    let crc = cksum(slice_subrange(out, 0, n_ser));
    let (_, tail) = out.split_at_mut(n_ser);
    match marshal_u32(tail, crc) {
        Ok(_) => {},
        Err(_) => {
            return Err(SerializationError::CrcSerialization);
        },
    }
    let body = *out_buf;
    proof {
        assert(body@ =~= written.subrange(0, n_ser as int) + (le_u32(crc) + written.subrange(
            n_ser as int,
            N as int,
        ).skip(4)));
        assert(body@.subrange(0, total as int) =~= checksummed(t.wire()));
    }
    let n = cobs_encode(slice_subrange(body.as_slice(), 0, total), out_buf);
    let frame = slice_subrange(out_buf.as_slice(), 0, n);
    assert(frame@ =~= out_buf@.take(n as int));
    Ok(frame)
}

/// Opens the frame that fills `in_buf`, over itself: un-stuffs it, holds the
/// checksum against the payload, and parses the payload. The frame of a
/// value opens to that value, and a frame opens to a value only if what was
/// stuffed in it is the value's bytes with their own checksum.
pub fn deserialize_crc_cobs<T: Wire>(in_buf: &mut [u8]) -> (r: Result<T, SerializationError>)
    ensures
        final(in_buf)@.len() == old(in_buf)@.len(),
        r == deserialized::<T>(old(in_buf)@),
        forall|t: T| old(in_buf)@ == frame_of(#[trigger] t.wire()) ==> r == Ok::<T, SerializationError>(t),
        r matches Ok(t) ==> cobs_decoded(old(in_buf)@) == Some(checksummed(t.wire())),
{
    let n = match cobs_decode_in_place(in_buf) {
        Ok(n) => n,
        Err(_) => {
            return Err(SerializationError::CorncobsDecoding);
        },
    };
    proof {
        assert forall|t: T| old(in_buf)@ == frame_of(#[trigger] t.wire()) implies deserialized::<T>(
            old(in_buf)@,
        ) == Ok::<T, SerializationError>(t) by {
            lemma_checked_checksummed(t.wire());
            t.lemma_parse_wire();
        }
        lemma_checked_sound(in_buf@.take(n as int));
        if checked(in_buf@.take(n as int)) is Ok {
            T::lemma_wire_parse(checked(in_buf@.take(n as int))->Ok_0);
        }
    }
    if n < CRC_LEN {
        return Err(SerializationError::CrcDeserialization);
    }
    let n_payload = n - CRC_LEN;
    let ghost body = in_buf@.take(n as int);
    proof {
        assert(in_buf@.subrange(n_payload as int, n as int) =~= body.skip(body.len() - CRC_LEN));
        assert(in_buf@.subrange(0, n_payload as int) =~= body.take(body.len() - CRC_LEN));
        assert(in_buf@.take(n_payload as int) =~= body.take(body.len() - CRC_LEN));
    }
    let trailer = match unmarshal_u32(slice_subrange(in_buf, n_payload, n)) {
        Ok(pair) => pair.0,
        Err(_) => {
            return Err(SerializationError::CrcDeserialization);
        },
    };
    let crc = cksum(slice_subrange(in_buf, 0, n_payload));
    if trailer != crc {
        return Err(SerializationError::CrcMismatch);
    }
    match T::read(in_buf, n_payload) {
        Some(t) => Ok(t),
        None => Err(SerializationError::Deserialization),
    }
}

} // verus!
