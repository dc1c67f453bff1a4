//! Wire-level primitives of the native protocol: big-endian integer fields,
//! the signed 16-bit stream id, the fixed 9-byte frame header, and the codec
//! error taxonomy.

use vstd::prelude::*;
use vstd::string::StrSliceExecFns;
use vstd::utf8::{decode_utf8, encode_utf8, valid_utf8};

verus! {

/// Stream ids are signed 16-bit integers on the wire; this driver only ever
/// assigns ids in `[0, 32768)`, while `-1` is reserved for server events.
pub type StreamId = i16;

/// How the codec fails on malformed input.
///
/// `ShortRead` means the input ended before a complete frame was available
/// (the I/O layer treats this as an I/O failure); `InvalidFrame` means the
/// bytes are well delimited but malformed: wrong protocol version, unknown
/// opcode, or a body that does not parse.
#[derive(Debug, PartialEq, Eq, Clone, Copy)]
pub enum CodecError {
    ShortRead,
    InvalidFrame,
}

/// The fixed 9-byte frame header, common to requests and responses.
#[derive(Debug, PartialEq, Eq, Clone, Copy)]
pub struct Header {
    pub protocol_version: u8,
    pub flags: u8,
    pub stream_id: StreamId,
    pub opcode: u8,
    pub body_length: u32,
}

/// The two big-endian bytes of a 16-bit value.
pub open spec fn spec_be16(x: u16) -> Seq<u8> {
    seq![(x / 256) as u8, (x % 256) as u8]
}

/// The four big-endian bytes of a 32-bit value.
pub open spec fn spec_be32(x: u32) -> Seq<u8> {
    seq![
        (x / 0x1000000) as u8,
        ((x / 0x10000) % 256) as u8,
        ((x / 256) % 256) as u8,
        (x % 256) as u8,
    ]
}

/// The 16-bit value read from two big-endian bytes.
pub open spec fn spec_u16_from_be(hi: u8, lo: u8) -> u16 {
    (hi * 256 + lo) as u16
}

/// The 32-bit value read from four big-endian bytes.
pub open spec fn spec_u32_from_be(b0: u8, b1: u8, b2: u8, b3: u8) -> u32 {
    (b0 * 0x1000000 + b1 * 0x10000 + b2 * 256 + b3) as u32
}

/// The unsigned 16-bit two's-complement image of a stream id, as written on
/// the wire.
pub open spec fn spec_id_to_wire(id: StreamId) -> u16 {
    if id >= 0 {
        id as u16
    } else {
        (id + 0x10000) as u16
    }
}

/// The stream id read back from its unsigned 16-bit wire image.
pub open spec fn spec_wire_to_id(x: u16) -> StreamId {
    if x < 0x8000 {
        x as StreamId
    } else {
        (x - 0x10000) as StreamId
    }
}

/// Reading back the wire image of a stream id yields the id again.
pub proof fn lemma_stream_id_round_trip(id: StreamId)
    ensures
        spec_wire_to_id(spec_id_to_wire(id)) == id,
{
}

/// Splitting a 16-bit value into big-endian bytes and reading them back
/// yields the value again.
pub proof fn lemma_be16_round_trip(x: u16)
    ensures
        spec_u16_from_be(spec_be16(x)[0], spec_be16(x)[1]) == x,
{
}

/// Splitting a 32-bit value into big-endian bytes and reading them back
/// yields the value again.
pub proof fn lemma_be32_round_trip(x: u32)
    ensures
        spec_u32_from_be(spec_be32(x)[0], spec_be32(x)[1], spec_be32(x)[2], spec_be32(x)[3]) == x,
{
}

/// Appends the two big-endian bytes of `x` to `buf`.
pub fn push_be16(buf: &mut Vec<u8>, x: u16)
    ensures
        final(buf)@ == old(buf)@ + spec_be16(x),
{
    buf.push((x / 256) as u8);
    buf.push((x % 256) as u8);
    assert(final(buf)@ =~= old(buf)@ + spec_be16(x));
}

/// Appends the four big-endian bytes of `x` to `buf`.
pub fn push_be32(buf: &mut Vec<u8>, x: u32)
    ensures
        final(buf)@ == old(buf)@ + spec_be32(x),
{
    buf.push((x / 0x1000000) as u8);
    buf.push(((x / 0x10000) % 256) as u8);
    buf.push(((x / 256) % 256) as u8);
    buf.push((x % 256) as u8);
    assert(final(buf)@ =~= old(buf)@ + spec_be32(x));
}

/// Reads the 16-bit value whose big-endian bytes sit at `i` in `bytes`.
pub fn read_u16_be(bytes: &[u8], i: usize) -> (r: u16)
    requires
        i + 2 <= bytes@.len(),
    ensures
        r == spec_u16_from_be(bytes@[i as int], bytes@[i + 1]),
{
    let hi = bytes[i];
    let lo = bytes[i + 1];
    (hi as u16) * 256 + (lo as u16)
}

/// Reads the 32-bit value whose big-endian bytes sit at `i` in `bytes`.
pub fn read_u32_be(bytes: &[u8], i: usize) -> (r: u32)
    requires
        i + 4 <= bytes@.len(),
    ensures
        r == spec_u32_from_be(bytes@[i as int], bytes@[i + 1], bytes@[i + 2], bytes@[i + 3]),
{
    let b0 = bytes[i];
    let b1 = bytes[i + 1];
    let b2 = bytes[i + 2];
    let b3 = bytes[i + 3];
    (b0 as u32) * 0x1000000 + (b1 as u32) * 0x10000 + (b2 as u32) * 256 + (b3 as u32)
}

/// Converts a stream id to its unsigned wire image.
pub fn id_to_wire(id: StreamId) -> (r: u16)
    ensures
        r == spec_id_to_wire(id),
{
    if id >= 0 {
        id as u16
    } else {
        ((id as i32) + 0x10000) as u16
    }
}

/// Converts an unsigned wire image back to the stream id it encodes.
pub fn wire_to_id(x: u16) -> (r: StreamId)
    ensures
        r == spec_wire_to_id(x),
{
    if x < 0x8000 {
        x as StreamId
    } else {
        ((x as i32) - 0x10000) as StreamId
    }
}

/// The 9 bytes of a header on the wire.
pub open spec fn spec_header_bytes(h: Header) -> Seq<u8> {
    seq![h.protocol_version, h.flags] + spec_be16(spec_id_to_wire(h.stream_id))
        + seq![h.opcode] + spec_be32(h.body_length)
}

/// The header read from the first 9 bytes of `b`.
pub open spec fn spec_parse_header(b: Seq<u8>) -> Header
    recommends
        b.len() >= 9,
{
    Header {
        protocol_version: b[0],
        flags: b[1],
        stream_id: spec_wire_to_id(spec_u16_from_be(b[2], b[3])),
        opcode: b[4],
        body_length: spec_u32_from_be(b[5], b[6], b[7], b[8]),
    }
}

/// Parsing the serialized bytes of a header, with anything appended after
/// them, yields the header again.
pub proof fn lemma_header_round_trip(h: Header, rest: Seq<u8>)
    ensures
        spec_parse_header(spec_header_bytes(h) + rest) == h,
{
    lemma_be16_round_trip(spec_id_to_wire(h.stream_id));
    lemma_be32_round_trip(h.body_length);
    lemma_stream_id_round_trip(h.stream_id);
}

/// A `[short string]`: a 16-bit big-endian byte length followed by the
/// UTF-8 bytes.
pub open spec fn spec_short_string(s: Seq<char>) -> Seq<u8>
    recommends
        encode_utf8(s).len() <= u16::MAX,
{
    spec_be16(encode_utf8(s).len() as u16) + encode_utf8(s)
}

/// Appends a `[short string]` to `buf`.
pub fn push_short_string(buf: &mut Vec<u8>, s: &str)
    requires
        encode_utf8(s@).len() <= u16::MAX,
    ensures
        final(buf)@ == old(buf)@ + spec_short_string(s@),
{
    let len = s.len();
    push_be16(buf, len as u16);
    let mut sb = s.as_bytes_vec();
    buf.append(&mut sb);
    assert(final(buf)@ =~= old(buf)@ + spec_short_string(s@));
}

/// Compares two byte runs for equality.
pub fn bytes_eq(a: &[u8], b: &[u8]) -> (r: bool)
    ensures
        r == (a@ == b@),
{
    if a.len() != b.len() {
        assert(a@ != b@);
        return false;
    }
    let n = a.len();
    let mut i: usize = 0;
    while i < n
        invariant
            n == a@.len() == b@.len(),
            i <= n,
            forall|j: int| 0 <= j < i ==> a@[j] == b@[j],
        decreases n - i,
    {
        if a[i] != b[i] {
            assert(a@ != b@);
            return false;
        }
        i += 1;
    }
    proof {
        assert(a@ =~= b@);
    }
    true
}

/// Relies on `String::from_utf8`: it returns `Ok` exactly when the bytes
/// are valid UTF-8, and then decodes them.
#[verifier::external_body]
pub(crate) fn string_from_utf8(bytes: Vec<u8>) -> (r: Option<String>)
    ensures
        r is Some <==> valid_utf8(bytes@),
        r is Some ==> r.unwrap()@ == decode_utf8(bytes@),
{
    String::from_utf8(bytes).ok()
}

impl Header {
    /// Serializes the header to its 9 wire bytes.
    pub fn serialize(&self) -> (r: Vec<u8>)
        ensures
            r@ == spec_header_bytes(*self),
            r@.len() == 9,
    {
        let mut buf: Vec<u8> = Vec::new();
        buf.push(self.protocol_version);
        buf.push(self.flags);
        push_be16(&mut buf, id_to_wire(self.stream_id));
        buf.push(self.opcode);
        push_be32(&mut buf, self.body_length);
        assert(buf@ =~= spec_header_bytes(*self));
        buf
    }

    /// Parses a header from the first 9 bytes of `bytes`; fails when fewer
    /// than 9 bytes are available.
    pub fn deserialize(bytes: &[u8]) -> (r: Result<Header, CodecError>)
        ensures
            bytes@.len() >= 9 ==> r == Ok::<Header, CodecError>(spec_parse_header(bytes@)),
            bytes@.len() < 9 ==> r == Err::<Header, CodecError>(CodecError::ShortRead),
    {
        if bytes.len() < 9 {
            return Err(CodecError::ShortRead);
        }
        Ok(Header {
            protocol_version: bytes[0],
            flags: bytes[1],
            stream_id: wire_to_id(read_u16_be(bytes, 2)),
            opcode: bytes[4],
            body_length: read_u32_be(bytes, 5),
        })
    }
}

} // verus!
