//! Outbound request frames: STARTUP and QUERY, their bodies, and the
//! server-side mirror parser used to state the encode/decode round trip.

use vstd::prelude::*;
use vstd::string::StrSliceExecFns;
use vstd::string::StringExecFns;
use vstd::utf8::{decode_utf8, encode_utf8, is_ascii_chars, valid_utf8};
use crate::types::{
    spec_be16, spec_be32, spec_header_bytes, spec_short_string, spec_u32_from_be,
    spec_parse_header, push_be16, push_be32, push_short_string, read_u32_be, bytes_eq,
    string_from_utf8, CodecError, Header, StreamId,
};

verus! {

broadcast use vstd::utf8::group_utf8_lib;

/// A request frame the driver can send: the STARTUP handshake or an opaque
/// CQL text query.
pub enum Request {
    Startup,
    Query(String),
}

/// The mathematical image of a request frame: the query text as a sequence
/// of characters.
pub enum RequestView {
    Startup,
    Query(Seq<char>),
}

impl View for Request {
    type V = RequestView;

    open spec fn view(&self) -> RequestView {
        match self {
            Request::Startup => RequestView::Startup,
            Request::Query(text) => RequestView::Query(text@),
        }
    }
}

/// The wire opcode of a request frame.
pub open spec fn spec_opcode(r: RequestView) -> u8 {
    match r {
        RequestView::Startup => 0x01,
        RequestView::Query(_) => 0x07,
    }
}

/// The bytes of a sequence of key/value string pairs, each written as two
/// `[short string]`s, in order.
pub open spec fn spec_entries_bytes(entries: Seq<(Seq<char>, Seq<char>)>) -> Seq<u8>
    decreases entries.len(),
{
    if entries.len() == 0 {
        Seq::empty()
    } else {
        spec_short_string(entries[0].0) + spec_short_string(entries[0].1)
            + spec_entries_bytes(entries.drop_first())
    }
}

/// A `[string map]`: a 16-bit big-endian entry count followed by the
/// entries.
pub open spec fn spec_string_map_bytes(entries: Seq<(Seq<char>, Seq<char>)>) -> Seq<u8>
    recommends
        entries.len() <= u16::MAX,
{
    spec_be16(entries.len() as u16) + spec_entries_bytes(entries)
}

/// The single option the STARTUP body carries.
pub open spec fn spec_startup_entries() -> Seq<(Seq<char>, Seq<char>)> {
    seq![("CQL_VERSION"@, "3.0.0"@)]
}

/// The STARTUP body: the option map `{"CQL_VERSION": "3.0.0"}`.
pub open spec fn spec_startup_body() -> Seq<u8> {
    spec_string_map_bytes(spec_startup_entries())
}

/// The QUERY body: a `[long string]` with the CQL text, then consistency
/// `ONE` and an empty flags byte.
pub open spec fn spec_query_body(text: Seq<char>) -> Seq<u8>
    recommends
        encode_utf8(text).len() <= u32::MAX,
{
    spec_be32(encode_utf8(text).len() as u32) + encode_utf8(text) + spec_be16(0x0001) + seq![0u8]
}

/// The body bytes of a request frame.
pub open spec fn spec_request_body(r: RequestView) -> Seq<u8> {
    match r {
        RequestView::Startup => spec_startup_body(),
        RequestView::Query(text) => spec_query_body(text),
    }
}

/// A request frame is encodable when its body length fits the 32-bit
/// length field of the header.
pub open spec fn request_encodable(r: RequestView) -> bool {
    spec_request_body(r).len() <= u32::MAX
}

/// The complete wire bytes of a request frame: header then body.
pub open spec fn spec_request_bytes(r: RequestView, stream_id: StreamId) -> Seq<u8>
    recommends
        request_encodable(r),
{
    spec_header_bytes(
        Header {
            protocol_version: 0x04,
            flags: 0,
            stream_id,
            opcode: spec_opcode(r),
            body_length: spec_request_body(r).len() as u32,
        },
    ) + spec_request_body(r)
}

/// The lengths of the STARTUP option literals and of the whole STARTUP
/// body, pinned down once so callers need not reason about the literals.
pub proof fn lemma_startup_body_len()
    ensures
        encode_utf8("CQL_VERSION"@).len() == 11,
        encode_utf8("3.0.0"@).len() == 5,
        spec_startup_body().len() == 22,
{
    reveal_strlit("CQL_VERSION");
    reveal_strlit("3.0.0");
    assert(is_ascii_chars("CQL_VERSION"@));
    assert(is_ascii_chars("3.0.0"@));
    vstd::utf8::is_ascii_chars_encode_utf8("CQL_VERSION"@);
    vstd::utf8::is_ascii_chars_encode_utf8("3.0.0"@);
    let e = spec_startup_entries();
    assert(e.drop_first() =~= Seq::<(Seq<char>, Seq<char>)>::empty());
    assert(spec_entries_bytes(e.drop_first()) =~= Seq::<u8>::empty());
    assert(spec_entries_bytes(e) =~= spec_short_string("CQL_VERSION"@) + spec_short_string(
        "3.0.0"@,
    ));
}

/// The exact wire image of the handshake: a STARTUP frame on stream id 0
/// is this literal 31-byte sequence — the 9-byte header announcing a
/// 22-byte body, then the option map `{"CQL_VERSION": "3.0.0"}`.
pub proof fn lemma_startup_frame_bytes()
    ensures
        spec_request_bytes(RequestView::Startup, 0) =~= seq![
            4u8, 0u8, 0u8, 0u8, 1u8, 0u8, 0u8, 0u8, 22u8, 0u8, 1u8, 0u8, 11u8, 67u8, 81u8, 76u8,
            95u8, 86u8, 69u8, 82u8, 83u8, 73u8, 79u8, 78u8, 0u8, 5u8, 51u8, 46u8, 48u8, 46u8,
            48u8,
        ],
{
    lemma_startup_body_len();
    reveal_strlit("CQL_VERSION");
    reveal_strlit("3.0.0");
    vstd::utf8::is_ascii_chars_encode_utf8("CQL_VERSION"@);
    vstd::utf8::is_ascii_chars_encode_utf8("3.0.0"@);
    assert(encode_utf8("CQL_VERSION"@) =~= seq![
        67u8, 81u8, 76u8, 95u8, 86u8, 69u8, 82u8, 83u8, 73u8, 79u8, 78u8,
    ]);
    assert(encode_utf8("3.0.0"@) =~= seq![51u8, 46u8, 48u8, 46u8, 48u8]);
}

/// The views of a list of owned key/value pairs.
pub open spec fn spec_entry_views(entries: Seq<(String, String)>) -> Seq<(Seq<char>, Seq<char>)> {
    entries.map_values(|p: (String, String)| (p.0@, p.1@))
}

/// Splitting a pair list anywhere splits its bytes at the same place.
proof fn lemma_entries_bytes_concat(s1: Seq<(Seq<char>, Seq<char>)>, s2: Seq<(Seq<char>, Seq<char>)>)
    ensures
        spec_entries_bytes(s1 + s2) == spec_entries_bytes(s1) + spec_entries_bytes(s2),
    decreases s1.len(),
{
    if s1.len() == 0 {
        assert(s1 + s2 =~= s2);
        assert(spec_entries_bytes(s1) + spec_entries_bytes(s2) =~= spec_entries_bytes(s2));
    } else {
        assert((s1 + s2).drop_first() =~= s1.drop_first() + s2);
        lemma_entries_bytes_concat(s1.drop_first(), s2);
        assert(spec_entries_bytes(s1 + s2) =~= spec_entries_bytes(s1) + spec_entries_bytes(s2));
    }
}

/// Serializes a `[string map]`: entry count, then each key and value as
/// `[short string]`s, in the order given.
pub fn serialize_map(entries: &Vec<(String, String)>) -> (r: Vec<u8>)
    requires
        entries@.len() <= u16::MAX,
        forall|i: int|
            0 <= i < entries@.len() ==> encode_utf8(#[trigger] entries@[i].0@).len() <= u16::MAX
                && encode_utf8(entries@[i].1@).len() <= u16::MAX,
    ensures
        r@ == spec_string_map_bytes(spec_entry_views(entries@)),
{
    let ghost views = spec_entry_views(entries@);
    let mut buf: Vec<u8> = Vec::new();
    push_be16(&mut buf, entries.len() as u16);
    let n = entries.len();
    let mut i: usize = 0;
    while i < n
        invariant
            n == entries@.len(),
            i <= n,
            views == spec_entry_views(entries@),
            forall|j: int|
                0 <= j < entries@.len() ==> encode_utf8(#[trigger] entries@[j].0@).len() <= u16::MAX
                    && encode_utf8(entries@[j].1@).len() <= u16::MAX,
            buf@ == spec_be16(n as u16) + spec_entries_bytes(views.take(i as int)),
        decreases n - i,
    {
        let pair = &entries[i];
        push_short_string(&mut buf, pair.0.as_str());
        push_short_string(&mut buf, pair.1.as_str());
        proof {
            assert(views.take(i + 1) =~= views.take(i as int) + seq![views[i as int]]);
            lemma_entries_bytes_concat(views.take(i as int), seq![views[i as int]]);
            assert(seq![views[i as int]].drop_first() =~= Seq::<(Seq<char>, Seq<char>)>::empty());
            assert(spec_entries_bytes(seq![views[i as int]].drop_first()) =~= Seq::<u8>::empty());
            assert(spec_entries_bytes(seq![views[i as int]]) =~= spec_short_string(
                views[i as int].0,
            ) + spec_short_string(views[i as int].1));
            assert(views[i as int] == (entries@[i as int].0@, entries@[i as int].1@));
            assert(buf@ =~= spec_be16(n as u16) + spec_entries_bytes(views.take(i + 1)));
        }
        i += 1;
    }
    proof {
        assert(views.take(n as int) =~= views);
    }
    buf
}

/// Serializes a QUERY body: the CQL text as a `[long string]`, consistency
/// `ONE`, and a zero flags byte.
pub fn serialize_query(query: &str) -> (r: Vec<u8>)
    requires
        encode_utf8(query@).len() <= u32::MAX,
    ensures
        r@ == spec_query_body(query@),
{
    let mut buf: Vec<u8> = Vec::new();
    let qlen = query.len();
    push_be32(&mut buf, qlen as u32);
    let mut qb = query.as_bytes_vec();
    buf.append(&mut qb);
    push_be16(&mut buf, 0x0001);
    buf.push(0);
    assert(buf@ =~= spec_query_body(query@));
    buf
}

/// The result of parsing one request frame from the front of a byte run:
/// the frame, its stream id, and how many bytes it occupied; or how the
/// bytes were malformed.
pub open spec fn spec_read_request(b: Seq<u8>) -> Result<(RequestView, StreamId, int), CodecError> {
    if b.len() < 9 {
        Err(CodecError::ShortRead)
    } else {
        let h = spec_parse_header(b);
        if h.protocol_version != 0x04 {
            Err(CodecError::InvalidFrame)
        } else if b.len() - 9 < h.body_length {
            Err(CodecError::ShortRead)
        } else {
            let body = b.subrange(9, 9 + h.body_length);
            if h.opcode == 0x01 {
                if body == spec_startup_body() {
                    Ok((RequestView::Startup, h.stream_id, 9 + h.body_length))
                } else {
                    Err(CodecError::InvalidFrame)
                }
            } else if h.opcode == 0x07 {
                match spec_read_query_body(body) {
                    Ok(text) => Ok((RequestView::Query(text), h.stream_id, 9 + h.body_length)),
                    Err(e) => Err(e),
                }
            } else {
                Err(CodecError::InvalidFrame)
            }
        }
    }
}

/// The CQL text carried by a QUERY body, when the body is well formed:
/// a `[long string]` followed by the two consistency bytes and the flags
/// byte, nothing more.
pub open spec fn spec_read_query_body(body: Seq<u8>) -> Result<Seq<char>, CodecError> {
    if body.len() < 7 {
        Err(CodecError::InvalidFrame)
    } else {
        let qlen = spec_u32_from_be(body[0], body[1], body[2], body[3]);
        if body.len() - 7 != qlen {
            Err(CodecError::InvalidFrame)
        } else {
            let qb = body.subrange(4, 4 + qlen);
            if valid_utf8(qb) {
                Ok(decode_utf8(qb))
            } else {
                Err(CodecError::InvalidFrame)
            }
        }
    }
}

/// Parsing the serialized bytes of a request frame yields the frame, its
/// stream id, and the exact length of the serialization.
pub proof fn lemma_request_round_trip(r: RequestView, stream_id: StreamId)
    requires
        request_encodable(r),
    ensures
        spec_read_request(spec_request_bytes(r, stream_id)) == Ok::<
            (RequestView, StreamId, int),
            CodecError,
        >((r, stream_id, spec_request_bytes(r, stream_id).len() as int)),
{
    let body = spec_request_body(r);
    let h = Header {
        protocol_version: 0x04,
        flags: 0,
        stream_id,
        opcode: spec_opcode(r),
        body_length: body.len() as u32,
    };
    let b = spec_request_bytes(r, stream_id);
    crate::types::lemma_header_round_trip(h, body);
    assert(b == spec_header_bytes(h) + body);
    assert(spec_parse_header(b) == h);
    assert(b.subrange(9, 9 + h.body_length) =~= body);
    match r {
        RequestView::Startup => {
        },
        RequestView::Query(text) => {
            let qlen = encode_utf8(text).len();
            assert(body[0] == spec_be32(qlen as u32)[0]);
            assert(body[1] == spec_be32(qlen as u32)[1]);
            assert(body[2] == spec_be32(qlen as u32)[2]);
            assert(body[3] == spec_be32(qlen as u32)[3]);
            crate::types::lemma_be32_round_trip(qlen as u32);
            assert(body.len() == qlen + 7);
            assert(body.subrange(4, 4 + qlen as int) =~= encode_utf8(text));
            assert(valid_utf8(encode_utf8(text)));
            assert(decode_utf8(encode_utf8(text)) == text);
        },
    }
}

impl Request {
    /// The wire opcode of this request.
    pub fn opcode(&self) -> (r: u8)
        ensures
            r == spec_opcode(self@),
    {
        match self {
            Request::Startup => 0x01,
            Request::Query(_) => 0x07,
        }
    }

    /// The body bytes of this request.
    pub fn body(&self) -> (r: Vec<u8>)
        requires
            request_encodable(self@),
        ensures
            r@ == spec_request_body(self@),
    {
        match self {
            Request::Startup => {
                proof {
                    lemma_startup_body_len();
                }
                let mut entries: Vec<(String, String)> = Vec::new();
                entries.push((String::from_str("CQL_VERSION"), String::from_str("3.0.0")));
                let r = serialize_map(&entries);
                proof {
                    assert(spec_entry_views(entries@) =~= spec_startup_entries());
                }
                r
            },
            Request::Query(text) => serialize_query(text.as_str()),
        }
    }

    /// Serializes this request for the given stream id: the 9-byte header,
    /// then the body.
    pub fn write(&self, stream_id: StreamId) -> (r: Vec<u8>)
        requires
            request_encodable(self@),
        ensures
            r@ == spec_request_bytes(self@, stream_id),
    {
        let body = self.body();
        let header = Header {
            protocol_version: 0x04,
            flags: 0,
            stream_id,
            opcode: self.opcode(),
            body_length: body.len() as u32,
        };
        let mut buf = header.serialize();
        let mut b = body;
        buf.append(&mut b);
        buf
    }

    /// Parses one request frame from the front of `bytes`: the mirror of
    /// [`Request::write`], as a server sees the stream. Returns the frame,
    /// its stream id, and the number of bytes consumed.
    pub fn read(bytes: &[u8]) -> (r: Result<(Request, StreamId, usize), CodecError>)
        ensures
            ({
                let s = spec_read_request(bytes@);
                match r {
                    Ok(t) => s is Ok && t.0@ == s->Ok_0.0 && t.1 == s->Ok_0.1 && t.2 as int
                        == s->Ok_0.2,
                    Err(e) => s == Err::<(RequestView, StreamId, int), CodecError>(e),
                }
            }),
    {
        let header = match Header::deserialize(bytes) {
            Ok(h) => h,
            Err(e) => {
                return Err(e);
            },
        };
        if header.protocol_version != 0x04 {
            return Err(CodecError::InvalidFrame);
        }
        let bl = header.body_length as usize;
        if bytes.len() - 9 < bl {
            return Err(CodecError::ShortRead);
        }
        let end = 9 + bl;
        let body = vstd::slice::slice_subrange(bytes, 9, end);
        if header.opcode == 0x01 {
            proof {
                lemma_startup_body_len();
            }
            let startup = Request::Startup;
            let sb = startup.body();
            if bytes_eq(body, sb.as_slice()) {
                Ok((Request::Startup, header.stream_id, end))
            } else {
                Err(CodecError::InvalidFrame)
            }
        } else if header.opcode == 0x07 {
            if body.len() < 7 {
                return Err(CodecError::InvalidFrame);
            }
            let qlen = read_u32_be(body, 0) as usize;
            if body.len() - 7 != qlen {
                return Err(CodecError::InvalidFrame);
            }
            let qb = vstd::slice::slice_subrange(body, 4, 4 + qlen);
            match string_from_utf8(vstd::slice::slice_to_vec(qb)) {
                Some(text) => Ok((Request::Query(text), header.stream_id, end)),
                None => Err(CodecError::InvalidFrame),
            }
        } else {
            Err(CodecError::InvalidFrame)
        }
    }
}

} // verus!
