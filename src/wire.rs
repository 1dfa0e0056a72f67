//! Message frames: two big-endian 64-bit integers (type id, payload length)
//! followed by the UTF-8 payload.

use vstd::prelude::*;
use vstd::utf8::{decode_utf8, encode_utf8, valid_utf8};

verus! {

broadcast use vstd::utf8::encode_utf8_decode_utf8, vstd::utf8::encode_utf8_valid_utf8;

/// Size in bytes of a whole header.
pub const HEADER_SIZE: usize = 16;

/// The header of a frame.
#[derive(Copy, Clone, Debug, PartialEq, Eq, Structural)]
pub struct MessageHeader {
    pub message_type: i64,
    pub message_length: i64,
}

/// One frame: header and payload text.
#[derive(Clone, Debug, PartialEq, Eq)]
pub struct Message {
    pub header: MessageHeader,
    pub message_text: String,
}

/// The eight big-endian bytes of `v` in two's complement.
pub open spec fn be8(v: i64) -> Seq<u8> {
    let u = v as u64;
    seq![
        (u >> 56u64) as u8,
        (u >> 48u64) as u8,
        (u >> 40u64) as u8,
        (u >> 32u64) as u8,
        (u >> 24u64) as u8,
        (u >> 16u64) as u8,
        (u >> 8u64) as u8,
        u as u8,
    ]
}

/// The integer whose big-endian bytes are `b[0..8]`.
pub open spec fn from_be8(b: Seq<u8>) -> i64 {
    ((b[0] as u64) << 56u64 | (b[1] as u64) << 48u64 | (b[2] as u64) << 40u64 | (b[3] as u64)
        << 32u64 | (b[4] as u64) << 24u64 | (b[5] as u64) << 16u64 | (b[6] as u64) << 8u64
        | (b[7] as u64)) as i64
}

/// Reading back the eight big-endian bytes of an integer gives the integer.
pub proof fn lemma_be8_round_trip(v: i64)
    ensures
        from_be8(be8(v)) == v,
{
    let u = v as u64;
    let b = be8(v);
    let b0 = (u >> 56u64) as u8;
    let b1 = (u >> 48u64) as u8;
    let b2 = (u >> 40u64) as u8;
    let b3 = (u >> 32u64) as u8;
    let b4 = (u >> 24u64) as u8;
    let b5 = (u >> 16u64) as u8;
    let b6 = (u >> 8u64) as u8;
    let b7 = u as u8;
    assert(b[0] == b0 && b[1] == b1 && b[2] == b2 && b[3] == b3);
    assert(b[4] == b4 && b[5] == b5 && b[6] == b6 && b[7] == b7);
    assert(((b0 as u64) << 56u64 | (b1 as u64) << 48u64 | (b2 as u64) << 40u64 | (b3 as u64)
        << 32u64 | (b4 as u64) << 24u64 | (b5 as u64) << 16u64 | (b6 as u64) << 8u64
        | (b7 as u64)) as i64 == v) by (bit_vector)
        requires
            u == v as u64,
            b0 == (u >> 56u64) as u8,
            b1 == (u >> 48u64) as u8,
            b2 == (u >> 40u64) as u8,
            b3 == (u >> 32u64) as u8,
            b4 == (u >> 24u64) as u8,
            b5 == (u >> 16u64) as u8,
            b6 == (u >> 8u64) as u8,
            b7 == u as u8,
    ;
}

/// The bytes of a header.
pub open spec fn header_bytes(h: MessageHeader) -> Seq<u8> {
    be8(h.message_type) + be8(h.message_length)
}

/// The header written in the first sixteen bytes of `b`.
pub open spec fn header_of(b: Seq<u8>) -> MessageHeader {
    MessageHeader {
        message_type: from_be8(b.subrange(0, 8)),
        message_length: from_be8(b.subrange(8, 16)),
    }
}

/// The frame that carries `text` under type id `t`.
pub open spec fn frame_bytes(t: i64, text: Seq<char>) -> Seq<u8> {
    header_bytes(MessageHeader { message_type: t, message_length: encode_utf8(text).len() as i64 })
        + encode_utf8(text)
}

/// What a whole frame `b` decodes to: its type id and text, or nothing when the
/// length field disagrees with the payload or the payload is not UTF-8.
pub open spec fn spec_decode_frame(b: Seq<u8>) -> Option<(i64, Seq<char>)> {
    if b.len() < 16 {
        None
    } else {
        let h = header_of(b);
        let payload = b.subrange(16, b.len() as int);
        if h.message_length != payload.len() || !valid_utf8(payload) {
            None
        } else {
            Some((h.message_type, decode_utf8(payload)))
        }
    }
}

/// Decoding a frame gives back exactly the type id and text it was encoded from.
pub proof fn lemma_frame_round_trip(t: i64, text: Seq<char>)
    requires
        encode_utf8(text).len() <= i64::MAX,
    ensures
        spec_decode_frame(frame_bytes(t, text)) == Some((t, text)),
{
    let payload = encode_utf8(text);
    let h = MessageHeader { message_type: t, message_length: payload.len() as i64 };
    let b = frame_bytes(t, text);
    assert(b.subrange(0, 8) =~= be8(t));
    assert(b.subrange(8, 16) =~= be8(payload.len() as i64));
    assert(b.subrange(16, b.len() as int) =~= payload);
    lemma_be8_round_trip(t);
    lemma_be8_round_trip(payload.len() as i64);
}

/// Writes the big-endian bytes of `v` at the end of `out`.
pub fn write_i64(out: &mut Vec<u8>, v: i64)
    ensures
        final(out)@ == old(out)@ + be8(v),
{
    let u = v as u64;
    out.push((u >> 56u64) as u8);
    out.push((u >> 48u64) as u8);
    out.push((u >> 40u64) as u8);
    out.push((u >> 32u64) as u8);
    out.push((u >> 24u64) as u8);
    out.push((u >> 16u64) as u8);
    out.push((u >> 8u64) as u8);
    out.push(u as u8);
    assert(out@ =~= old(out)@ + be8(v));
}

/// Reads the big-endian integer in `b[at..at + 8]`.
pub fn read_i64(b: &[u8], at: usize) -> (r: i64)
    requires
        at + 8 <= b@.len(),
    ensures
        r == from_be8(b@.subrange(at as int, at + 8)),
{
    let ghost s = b@.subrange(at as int, at + 8);
    assert(s[0] == b@[at as int] && s[7] == b@[at + 7]);
    assert(s[1] == b@[at + 1] && s[2] == b@[at + 2] && s[3] == b@[at + 3]);
    assert(s[4] == b@[at + 4] && s[5] == b@[at + 5] && s[6] == b@[at + 6]);
    ((b[at] as u64) << 56u64 | (b[at + 1] as u64) << 48u64 | (b[at + 2] as u64) << 40u64 | (b[at
        + 3] as u64) << 32u64 | (b[at + 4] as u64) << 24u64 | (b[at + 5] as u64) << 16u64 | (b[at
        + 6] as u64) << 8u64 | (b[at + 7] as u64)) as i64
}

/// The sixteen bytes of a header.
pub fn send_meta(h: &MessageHeader) -> (r: Vec<u8>)
    ensures
        r@ == header_bytes(*h),
{
    let mut out: Vec<u8> = Vec::new();
    write_i64(&mut out, h.message_type);
    write_i64(&mut out, h.message_length);
    assert(out@ =~= header_bytes(*h));
    out
}

/// The header held in the sixteen bytes `b`.
pub fn read_meta(b: &[u8]) -> (r: MessageHeader)
    requires
        b@.len() == HEADER_SIZE,
    ensures
        r == header_of(b@),
{
    MessageHeader { message_type: read_i64(b, 0), message_length: read_i64(b, 8) }
}

/// Relies on `String::from_utf8`: succeeds exactly on valid UTF-8, and then holds
/// the characters those bytes encode.
#[verifier::external_body]
fn utf8_text(bytes: Vec<u8>) -> (r: Option<String>)
    ensures
        r is Some <==> valid_utf8(bytes@),
        r matches Some(s) ==> s@ == decode_utf8(bytes@),
{
    String::from_utf8(bytes).ok()
}

impl Message {
    /// A frame carrying `text` under type id `message_type`.
    pub fn new(message_type: i64, text: String) -> (r: Message)
        requires
            encode_utf8(text@).len() <= i64::MAX,
        ensures
            r.header.message_type == message_type,
            r.header.message_length == encode_utf8(text@).len(),
            r.message_text@ == text@,
    {
        let len = text.as_str().as_bytes().len();
        Message {
            header: MessageHeader { message_type, message_length: len as i64 },
            message_text: text,
        }
    }

    /// The bytes of the whole frame.
    pub fn encode(&self) -> (r: Vec<u8>)
        requires
            self.header.message_length == encode_utf8(self.message_text@).len(),
        ensures
            r@ == frame_bytes(self.header.message_type, self.message_text@),
    {
        let mut out = send_meta(&self.header);
        let payload = self.message_text.as_str().as_bytes();
        let mut i: usize = 0;
        let ghost start = out@;
        while i < payload.len()
            invariant
                i <= payload@.len(),
                out@ == start + payload@.take(i as int),
            decreases payload.len() - i,
        {
            out.push(payload[i]);
            i = i + 1;
            assert(out@ =~= start + payload@.take(i as int));
        }
        assert(payload@.take(i as int) =~= payload@);
        out
    }

    /// The frame held in `bytes`, header and payload; `None` when the length
    /// field disagrees with the payload or the payload is not UTF-8.
    pub fn decode(bytes: &Vec<u8>) -> (r: Option<Message>)
        ensures
            r is Some <==> spec_decode_frame(bytes@) is Some,
            r matches Some(m) ==> spec_decode_frame(bytes@) == Some(
                (m.header.message_type, m.message_text@),
            ) && m.header == header_of(bytes@),
    {
        if bytes.len() < HEADER_SIZE {
            return None;
        }
        let header = MessageHeader {
            message_type: read_i64(bytes.as_slice(), 0),
            message_length: read_i64(bytes.as_slice(), 8),
        };
        let n = bytes.len() - HEADER_SIZE;
        if header.message_length < 0 || header.message_length as u64 != n as u64 {
            return None;
        }
        let mut payload: Vec<u8> = Vec::new();
        let mut i: usize = HEADER_SIZE;
        while i < bytes.len()
            invariant
                HEADER_SIZE <= i <= bytes@.len(),
                payload@ == bytes@.subrange(16, i as int),
            decreases bytes.len() - i,
        {
            payload.push(bytes[i]);
            i = i + 1;
            assert(payload@ =~= bytes@.subrange(16, i as int));
        }
        match utf8_text(payload) {
            Some(text) => Some(Message { header, message_text: text }),
            None => None,
        }
    }
}

} // verus!
