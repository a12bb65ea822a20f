//! Length-prefixed framing of control messages.
//!
//! A frame is the length of its payload as a big-endian 32-bit number,
//! followed by the payload. How a message turns into a payload and back is up
//! to the caller.

use bytes::{Buf, BufMut, Bytes, BytesMut};
use vstd::prelude::*;

verus! {

/// The version of the control protocol.
pub const PROTOCOL_VERSION: u16 = 1;

/// The longest payload of a frame, in bytes.
pub const MAX_FRAME_SIZE: usize = 1_048_576;

/// The bytes in front of a payload.
pub const HEADER_SIZE: usize = 4;

/// Why bytes are not frames, or a message cannot be framed.
#[derive(Debug, PartialEq, Eq)]
pub enum CodecError {
    FrameTooLarge,
    InvalidLength,
    Malformed(String),
}

impl CodecError {
    /// The error as a text for people.
    pub fn message(&self) -> (r: String)
        ensures
            r@ == match self {
                CodecError::FrameTooLarge => "frame exceeds maximum size"@,
                CodecError::InvalidLength => "invalid frame length"@,
                CodecError::Malformed(reason) => "malformed frame: "@ + reason@,
            },
    {
        match self {
            CodecError::FrameTooLarge => "frame exceeds maximum size".to_owned(),
            CodecError::InvalidLength => "invalid frame length".to_owned(),
            CodecError::Malformed(reason) => crate::text::joined(
                "malformed frame: ",
                reason.as_str(),
            ),
        }
    }
}

/// A growable buffer of bytes of the `bytes` crate.
#[verifier::external_type_specification]
#[verifier::external_body]
pub struct ExBytesMut(BytesMut);

/// A shared sequence of bytes of the `bytes` crate.
#[verifier::external_type_specification]
#[verifier::external_body]
pub struct ExBytes(Bytes);

/// The bytes that a buffer holds.
pub uninterp spec fn buffer_bytes(buffer: BytesMut) -> Seq<u8>;

/// The bytes that a shared sequence holds.
pub uninterp spec fn shared_bytes(bytes: Bytes) -> Seq<u8>;

/// `bytes::BytesMut::with_capacity` makes a buffer that holds nothing.
pub assume_specification[ BytesMut::with_capacity ](capacity: usize) -> (r: BytesMut)
    requires
        capacity <= isize::MAX,
    ensures
        buffer_bytes(r) == Seq::<u8>::empty(),
;

/// `bytes::BytesMut::len` counts the bytes that a buffer holds.
pub assume_specification[ BytesMut::len ](buffer: &BytesMut) -> (n: usize)
    ensures
        n == buffer_bytes(*buffer).len(),
;

/// `bytes::BytesMut::extend_from_slice` appends bytes to a buffer.
pub assume_specification[ BytesMut::extend_from_slice ](buffer: &mut BytesMut, extend: &[u8])
    requires
        buffer_bytes(*old(buffer)).len() + extend@.len() <= isize::MAX,
    ensures
        buffer_bytes(*final(buffer)) == buffer_bytes(*old(buffer)) + extend@,
;

/// `bytes::BytesMut::freeze` hands the bytes of a buffer on for sharing.
pub assume_specification[ BytesMut::freeze ](buffer: BytesMut) -> (r: Bytes)
    ensures
        shared_bytes(r) == buffer_bytes(buffer),
;

/// `bytes::BytesMut::split_to` takes the first `at` bytes out of a buffer.
pub assume_specification[ BytesMut::split_to ](buffer: &mut BytesMut, at: usize) -> (r: BytesMut)
    requires
        at <= buffer_bytes(*old(buffer)).len(),
    ensures
        buffer_bytes(r) == buffer_bytes(*old(buffer)).take(at as int),
        buffer_bytes(*final(buffer)) == buffer_bytes(*old(buffer)).skip(at as int),
;

/// The four bytes of `n`, the most significant first.
pub open spec fn be_bytes(n: u32) -> Seq<u8> {
    seq![
        (n / 0x100_0000) as u8,
        (n / 0x1_0000 % 0x100) as u8,
        (n / 0x100 % 0x100) as u8,
        (n % 0x100) as u8,
    ]
}

/// The number that four bytes stand for, the most significant first.
pub open spec fn be_number(b: Seq<u8>) -> u32 {
    (b[0] * 0x100_0000 + b[1] * 0x1_0000 + b[2] * 0x100 + b[3]) as u32
}

/// `bytes::BufMut::put_u32` appends a number to a buffer in big-endian order.
#[verifier::external_body]
fn put_u32(buffer: &mut BytesMut, n: u32)
    requires
        buffer_bytes(*old(buffer)).len() + 4 <= isize::MAX,
    ensures
        buffer_bytes(*final(buffer)) == buffer_bytes(*old(buffer)) + be_bytes(n),
{
    buffer.put_u32(n)
}

/// `bytes::Buf::get_u32` reads a big-endian number from the front of a slice,
/// here from the first four bytes of a buffer, which stay in it.
#[verifier::external_body]
fn peek_u32(buffer: &BytesMut) -> (n: u32)
    requires
        buffer_bytes(*buffer).len() >= 4,
    ensures
        n == be_number(buffer_bytes(*buffer)),
{
    (&buffer[..4]).get_u32()
}

/// `bytes::Buf::advance` drops bytes from the front of a buffer.
#[verifier::external_body]
fn advance(buffer: &mut BytesMut, count: usize)
    requires
        count <= buffer_bytes(*old(buffer)).len(),
    ensures
        buffer_bytes(*final(buffer)) == buffer_bytes(*old(buffer)).skip(count as int),
{
    buffer.advance(count)
}

/// A buffer of the `bytes` crate dereferences to the slice of its bytes.
#[verifier::external_body]
fn as_slice(buffer: &BytesMut) -> (r: &[u8])
    ensures
        r@ == buffer_bytes(*buffer),
{
    buffer
}

/// The frame that carries `payload`.
pub open spec fn framed(payload: Seq<u8>) -> Seq<u8> {
    be_bytes(payload.len() as u32) + payload
}

/// Frames the payload that a message was serialised to. A message that could
/// not be serialised is malformed; a payload over the limit is too large.
pub fn encode_frame(serialized: Result<Vec<u8>, String>) -> (r: Result<Bytes, CodecError>)
    ensures
        match serialized {
            Err(reason) => r == Err::<Bytes, _>(CodecError::Malformed(reason)),
            Ok(payload) => if payload@.len() > MAX_FRAME_SIZE {
                r == Err::<Bytes, _>(CodecError::FrameTooLarge)
            } else {
                r matches Ok(frame) && shared_bytes(frame) == framed(payload@)
            },
        },
{
    let payload = match serialized {
        Ok(payload) => payload,
        Err(reason) => return Err(CodecError::Malformed(reason)),
    };
    if payload.len() > MAX_FRAME_SIZE {
        return Err(CodecError::FrameTooLarge);
    }
    let mut out = BytesMut::with_capacity(HEADER_SIZE + payload.len());
    put_u32(&mut out, payload.len() as u32);
    out.extend_from_slice(payload.as_slice());
    assert(buffer_bytes(out) =~= framed(payload@));
    Ok(out.freeze())
}

/// What stands at the front of received bytes.
pub enum Front {
    /// Too few bytes for a whole frame.
    Incomplete,
    /// A header that announces more than the limit.
    TooLarge,
    /// A header that announces nothing.
    Empty,
    /// A whole frame with this many bytes of payload.
    Frame(int),
}

/// What stands at the front of `bytes`.
pub open spec fn front(bytes: Seq<u8>) -> Front {
    if bytes.len() < HEADER_SIZE {
        Front::Incomplete
    } else if be_number(bytes) > MAX_FRAME_SIZE {
        Front::TooLarge
    } else if be_number(bytes) == 0 {
        Front::Empty
    } else if bytes.len() < HEADER_SIZE + be_number(bytes) {
        Front::Incomplete
    } else {
        Front::Frame(be_number(bytes) as int)
    }
}

/// The payload of the frame at the front of `bytes`.
pub open spec fn front_payload(bytes: Seq<u8>) -> Seq<u8> {
    bytes.subrange(HEADER_SIZE as int, HEADER_SIZE + be_number(bytes))
}

/// What follows the frame at the front of `bytes`.
pub open spec fn behind_front(bytes: Seq<u8>) -> Seq<u8> {
    bytes.skip(HEADER_SIZE + be_number(bytes))
}

/// The payloads of the whole frames at the front of `bytes`, up to the first
/// place where no whole frame stands.
pub open spec fn payloads(bytes: Seq<u8>) -> Seq<Seq<u8>>
    decreases bytes.len(),
{
    if front(bytes) is Frame {
        seq![front_payload(bytes)] + payloads(behind_front(bytes))
    } else {
        seq![]
    }
}

/// What is left of `bytes` behind its first `n` frames.
pub open spec fn behind(bytes: Seq<u8>, n: nat) -> Seq<u8>
    decreases n,
{
    if n == 0 {
        bytes
    } else {
        behind(behind_front(bytes), (n - 1) as nat)
    }
}

/// Whether `decode` can return `r` for a payload with these bytes.
pub open spec fn may_decode<F, D: Fn(&[u8]) -> Result<F, String>>(
    decode: D,
    payload: Seq<u8>,
    r: Result<F, String>,
) -> bool {
    exists|bytes: &[u8]| bytes@ == payload && #[trigger] call_ensures(decode, (bytes,), r)
}

/// Whether each of the first `n` payloads can be decoded to the message in the
/// same place.
pub open spec fn decoded_to<F, D: Fn(&[u8]) -> Result<F, String>>(
    decode: D,
    payloads: Seq<Seq<u8>>,
    messages: Seq<F>,
    n: int,
) -> bool {
    &&& n <= payloads.len()
    &&& n <= messages.len()
    &&& forall|i: int|
        0 <= i < n ==> may_decode(decode, #[trigger] payloads[i], Ok(messages[i]))
}

/// Wraps the outcome of decoding one payload.
pub fn decode_frame_payload<F>(decoded: Result<F, String>) -> (r: Result<F, CodecError>)
    ensures
        r == match decoded {
            Ok(message) => Ok(message),
            Err(reason) => Err::<F, _>(CodecError::Malformed(reason)),
        },
{
    match decoded {
        Ok(message) => Ok(message),
        Err(reason) => Err(CodecError::Malformed(reason)),
    }
}

/// The `n` first frames of `bytes` are followed by what is left behind them.
proof fn lemma_behind_step(bytes: Seq<u8>, n: nat)
    requires
        n <= payloads(bytes).len(),
    ensures
        payloads(behind(bytes, n)) == payloads(bytes).skip(n as int),
        front(behind(bytes, n)) is Frame <==> n < payloads(bytes).len(),
        front(behind(bytes, n)) is Frame ==> front_payload(behind(bytes, n)) == payloads(
            bytes,
        )[n as int],
        behind_front(behind(bytes, n)) == behind(bytes, n + 1),
    decreases n,
{
    if n == 0 {
        assert(payloads(bytes).skip(0) =~= payloads(bytes));
        assert(behind(behind_front(bytes), 0) == behind_front(bytes));
    } else {
        let rest = behind_front(bytes);
        lemma_behind_step(rest, (n - 1) as nat);
        assert(payloads(bytes) =~= seq![front_payload(bytes)] + payloads(rest));
        assert(payloads(bytes).skip(n as int) =~= payloads(rest).skip(n - 1));
        assert(behind(bytes, n + 1) == behind(rest, n));
    }
}

/// Takes every whole frame from the front of `buffer` and decodes its payload.
///
/// What does not make a whole frame yet stays in the buffer. A header that
/// announces too much or nothing is an error and stays too; a payload that
/// cannot be decoded is an error and is dropped with all the frames before it.
pub fn decode_frames<F, D: Fn(&[u8]) -> Result<F, String>>(
    buffer: &mut BytesMut,
    decode: D,
) -> (r: Result<Vec<F>, CodecError>)
    requires
        forall|bytes: &[u8]| call_requires(decode, (bytes,)),
    ensures
        ({
            let start = buffer_bytes(*old(buffer));
            let sent = payloads(start);
            let end = buffer_bytes(*final(buffer));
            match r {
                Ok(messages) => {
                    &&& messages@.len() == sent.len()
                    &&& decoded_to(decode, sent, messages@, sent.len() as int)
                    &&& end == behind(start, sent.len())
                    &&& front(end) is Incomplete
                },
                Err(CodecError::FrameTooLarge) => {
                    &&& exists|messages: Seq<F>| #[trigger]
                        decoded_to(decode, sent, messages, sent.len() as int)
                    &&& end == behind(start, sent.len())
                    &&& front(end) is TooLarge
                },
                Err(CodecError::InvalidLength) => {
                    &&& exists|messages: Seq<F>| #[trigger]
                        decoded_to(decode, sent, messages, sent.len() as int)
                    &&& end == behind(start, sent.len())
                    &&& front(end) is Empty
                },
                Err(CodecError::Malformed(reason)) => exists|messages: Seq<F>|
                    {
                        &&& messages.len() < sent.len()
                        &&& #[trigger] decoded_to(decode, sent, messages, messages.len() as int)
                        &&& may_decode(decode, sent[messages.len() as int], Err(reason))
                        &&& end == behind(start, messages.len() + 1)
                    },
            }
        }),
{
    let mut messages: Vec<F> = Vec::new();
    let ghost start = buffer_bytes(*buffer);
    let ghost sent = payloads(start);
    loop
        invariant
            forall|bytes: &[u8]| call_requires(decode, (bytes,)),
            start == buffer_bytes(*old(buffer)),
            sent == payloads(start),
            messages@.len() <= sent.len(),
            buffer_bytes(*buffer) == behind(start, messages@.len()),
            decoded_to(decode, sent, messages@, messages@.len() as int),
        ensures
            messages@.len() == sent.len(),
            front(buffer_bytes(*buffer)) is Incomplete,
        decreases sent.len() - messages@.len(),
    {
        let ghost n = messages@.len();
        proof {
            lemma_behind_step(start, n);
        }
        if buffer.len() < HEADER_SIZE {
            break;
        }
        let length: usize = peek_u32(buffer) as usize;
        if length > MAX_FRAME_SIZE {
            return Err(CodecError::FrameTooLarge);
        }
        if length == 0 {
            return Err(CodecError::InvalidLength);
        }
        if buffer.len() < HEADER_SIZE + length {
            break;
        }
        let ghost here = buffer_bytes(*buffer);
        advance(buffer, HEADER_SIZE);
        let payload = buffer.split_to(length);
        assert(buffer_bytes(payload) =~= front_payload(here));
        assert(buffer_bytes(*buffer) =~= behind_front(here));
        let decoded = decode(as_slice(&payload));
        assert(may_decode(decode, sent[n as int], decoded));
        match decode_frame_payload(decoded) {
            Ok(message) => {
                let ghost known = messages@;
                messages.push(message);
                assert forall|i: int| 0 <= i < n + 1 implies may_decode(
                    decode,
                    #[trigger] sent[i],
                    Ok(messages@[i]),
                ) by {
                    if i < n {
                        assert(messages@[i] == known[i]);
                    }
                }
            },
            Err(error) => return Err(error),
        }
    }
    Ok(messages)
}

/// Reads the header of a frame that is received piece by piece: the number of
/// bytes to read next, or a text that names the length that is not allowed.
pub fn control_frame_length(header: [u8; 4]) -> (r: Result<usize, String>)
    ensures
        match r {
            Ok(length) => length == be_number(header@) && 1 <= length <= MAX_FRAME_SIZE,
            Err(reason) => {
                &&& be_number(header@) == 0 || be_number(header@) > MAX_FRAME_SIZE
                &&& reason@ == "invalid control frame length "@ + crate::text::decimal_text(
                    be_number(header@) as nat,
                )
            },
        },
{
    let number: u32 = header[0] as u32 * 0x100_0000 + header[1] as u32 * 0x1_0000 + header[2] as u32
        * 0x100 + header[3] as u32;
    let length: usize = number as usize;
    if length == 0 || length > MAX_FRAME_SIZE {
        let shown = crate::text::decimal(number as u64);
        return Err(crate::text::joined("invalid control frame length ", shown.as_str()));
    }
    Ok(length)
}

/// A number is read back from its four bytes.
pub proof fn lemma_be_round_trip(n: u32, rest: Seq<u8>)
    ensures
        be_number(be_bytes(n) + rest) == n,
{
    let b = be_bytes(n) + rest;
    let b0 = n / 0x100_0000;
    let b1 = n / 0x1_0000 % 0x100;
    let b2 = n / 0x100 % 0x100;
    let b3 = n % 0x100;
    assert(b[0] == b0 && b[1] == b1 && b[2] == b2 && b[3] == b3);
}

/// A frame that was written is read back: of the bytes `framed(payload) + rest`
/// the first payload is `payload`, and `rest` is what follows it.
pub proof fn law_frame_round_trip(payload: Seq<u8>, rest: Seq<u8>)
    requires
        1 <= payload.len() <= MAX_FRAME_SIZE,
    ensures
        front(framed(payload) + rest) == Front::Frame(payload.len() as int),
        front_payload(framed(payload) + rest) == payload,
        behind_front(framed(payload) + rest) == rest,
        payloads(framed(payload) + rest) == seq![payload] + payloads(rest),
{
    let bytes = framed(payload) + rest;
    assert(bytes =~= be_bytes(payload.len() as u32) + (payload + rest));
    lemma_be_round_trip(payload.len() as u32, payload + rest);
    assert(front_payload(bytes) =~= payload);
    assert(behind_front(bytes) =~= rest);
}

/// The frames of several payloads, one after the other.
pub open spec fn stream(sent: Seq<Seq<u8>>) -> Seq<u8>
    decreases sent.len(),
{
    if sent.len() == 0 {
        seq![]
    } else {
        framed(sent[0]) + stream(sent.drop_first())
    }
}

/// Frames that were written one after the other are all read back, in order,
/// and the beginning of a further frame is left as it is.
pub proof fn law_stream_round_trip(sent: Seq<Seq<u8>>, partial: Seq<u8>)
    requires
        forall|i: int| 0 <= i < sent.len() ==> 1 <= (#[trigger] sent[i]).len() <= MAX_FRAME_SIZE,
        front(partial) is Incomplete,
    ensures
        payloads(stream(sent) + partial) == sent,
        behind(stream(sent) + partial, sent.len()) == partial,
    decreases sent.len(),
{
    if sent.len() == 0 {
        assert(stream(sent) + partial =~= partial);
        assert(payloads(partial) =~= sent);
    } else {
        let rest = sent.drop_first();
        assert forall|i: int| 0 <= i < rest.len() implies 1 <= (#[trigger] rest[i]).len()
            <= MAX_FRAME_SIZE by {
            assert(rest[i] == sent[i + 1]);
        }
        law_stream_round_trip(rest, partial);
        let bytes = stream(sent) + partial;
        assert(bytes =~= framed(sent[0]) + (stream(rest) + partial));
        law_frame_round_trip(sent[0], stream(rest) + partial);
        assert(payloads(bytes) =~= sent);
    }
}

/// It does not matter in how many pieces bytes arrive: decoding what has come,
/// and later what was left together with what came since, finds the payloads
/// of all the bytes and leaves the same rest.
pub proof fn law_arrival_in_pieces(first: Seq<u8>, second: Seq<u8>)
    ensures
        ({
            let n = payloads(first).len();
            let left = behind(first, n);
            &&& payloads(first + second) == payloads(first) + payloads(left + second)
            &&& behind(first + second, payloads(first + second).len()) == behind(
                left + second,
                payloads(left + second).len(),
            )
        }),
    decreases first.len(),
{
    let n = payloads(first).len();
    if front(first) is Frame {
        let rest = behind_front(first);
        let both = first + second;
        assert(be_number(both) == be_number(first));
        assert(front_payload(both) =~= front_payload(first));
        assert(behind_front(both) =~= rest + second);
        law_arrival_in_pieces(rest, second);
        let left = behind(first, n);
        assert(left == behind(rest, (n - 1) as nat));
        assert(payloads(both) =~= payloads(first) + payloads(left + second));
    } else {
        assert(payloads(first + second) =~= payloads(first) + payloads(first + second));
    }
}

/// The piecewise reader allows exactly the headers that the buffered reader
/// does not refuse.
pub proof fn law_readers_agree(header: Seq<u8>, rest: Seq<u8>)
    requires
        header.len() == HEADER_SIZE,
    ensures
        (1 <= be_number(header) <= MAX_FRAME_SIZE) <==> !(front(header + rest) is TooLarge)
            && !(front(header + rest) is Empty),
{
    assert(be_number(header + rest) == be_number(header));
}

/// A frame is the length of its payload as a 32-bit number with the highest byte
/// first, and then the payload.
pub proof fn law_frame_layout(payload: Seq<u8>)
    requires
        payload.len() <= u32::MAX,
    ensures
        ({
            let frame = framed(payload);
            &&& frame.len() == 4 + payload.len()
            &&& frame[0] * 16_777_216 + frame[1] * 65_536 + frame[2] * 256 + frame[3]
                == payload.len()
            &&& frame.skip(4) == payload
        }),
{
    let n = payload.len() as u32;
    let frame = framed(payload);
    assert(frame.skip(4) =~= payload);
    assert(frame[0] == be_bytes(n)[0] && frame[1] == be_bytes(n)[1] && frame[2] == be_bytes(n)[2]
        && frame[3] == be_bytes(n)[3]);
    assert(n == n / 0x100_0000 * 0x100_0000 + n / 0x1_0000 % 0x100 * 0x1_0000 + n / 0x100 % 0x100
        * 0x100 + n % 0x100);
}

/// A header that announces more than 1048576 bytes, or none, is refused as soon
/// as it is there; else a frame is whole exactly when all the bytes are there
/// that its header announces.
pub proof fn law_headers_announce_payloads(bytes: Seq<u8>)
    ensures
        bytes.len() < 4 ==> front(bytes) is Incomplete,
        bytes.len() >= 4 ==> {
            let announced = bytes[0] * 16_777_216 + bytes[1] * 65_536 + bytes[2] * 256 + bytes[3];
            &&& announced > 1_048_576 ==> front(bytes) is TooLarge
            &&& announced == 0 ==> front(bytes) is Empty
            &&& 0 < announced <= 1_048_576 && bytes.len() < 4 + announced ==> front(
                bytes,
            ) is Incomplete
            &&& 0 < announced <= 1_048_576 && bytes.len() >= 4 + announced ==> {
                &&& front(bytes) == Front::Frame(announced)
                &&& front_payload(bytes) == bytes.subrange(4, 4 + announced)
                &&& behind_front(bytes) == bytes.skip(4 + announced)
                &&& payloads(bytes).len() == 1 + payloads(bytes.skip(4 + announced)).len()
                &&& payloads(bytes)[0] == bytes.subrange(4, 4 + announced)
            }
        },
{
}

/// Messages that were decoded stand for the payloads one by one: each is what
/// the decoder made of the bytes of its payload.
pub proof fn law_messages_stand_for_payloads<F, D: Fn(&[u8]) -> Result<F, String>>(
    decode: D,
    payloads: Seq<Seq<u8>>,
    messages: Seq<F>,
    n: int,
    i: int,
)
    requires
        decoded_to(decode, payloads, messages, n),
        0 <= i < n,
    ensures
        n <= payloads.len(),
        n <= messages.len(),
        exists|bytes: &[u8]|
            bytes@ == payloads[i] && #[trigger] call_ensures(decode, (bytes,), Ok(messages[i])),
{
    assert(may_decode(decode, payloads[i], Ok(messages[i])));
}

} // verus!
