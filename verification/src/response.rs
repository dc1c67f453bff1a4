//! Inbound response frames: READY, RESULT and ERROR, their parser, and the
//! server-side mirror serializer used to state the decode/encode round trip.

use vstd::prelude::*;
use vstd::utf8::{decode_utf8, encode_utf8, valid_utf8};
use crate::types::{
    spec_be32, spec_header_bytes, spec_short_string, spec_u16_from_be, spec_u32_from_be,
    spec_parse_header, push_be32, push_short_string, read_u16_be, read_u32_be, string_from_utf8,
    CodecError, Header, StreamId,
};

verus! {

broadcast use vstd::utf8::group_utf8_lib;

/// The payload of a well-formed ERROR response: a numeric error code and a
/// human-readable message.
#[derive(Debug, PartialEq)]
pub struct ErrorMessage {
    pub message: String,
    pub code: u32,
}

/// The mathematical image of an [`ErrorMessage`].
pub struct ErrorMessageView {
    pub message: Seq<char>,
    pub code: u32,
}

impl View for ErrorMessage {
    type V = ErrorMessageView;

    open spec fn view(&self) -> ErrorMessageView {
        ErrorMessageView { message: self.message@, code: self.code }
    }
}

impl Default for ErrorMessage {
    /// An empty message with code zero, as produced for a fresh ERROR
    /// response before its body is parsed.
    fn default() -> (r: Self)
        ensures
            r@.code == 0,
            r@.message == Seq::<char>::empty(),
    {
        ErrorMessage { message: String::new(), code: 0 }
    }
}

/// A response frame received from the server. `Invalid` stands for an
/// opcode outside the supported set and never leaves the parser
/// successfully.
#[derive(Debug, PartialEq)]
pub enum Response {
    Ready,
    Error(ErrorMessage),
    Result,
    Invalid,
}

/// The mathematical image of a response frame.
pub enum ResponseView {
    Ready,
    Error(ErrorMessageView),
    Result,
    Invalid,
}

impl View for Response {
    type V = ResponseView;

    open spec fn view(&self) -> ResponseView {
        match self {
            Response::Ready => ResponseView::Ready,
            Response::Error(m) => ResponseView::Error(m@),
            Response::Result => ResponseView::Result,
            Response::Invalid => ResponseView::Invalid,
        }
    }
}

/// The structured error the parser reports for a malformed frame.
pub fn make_invalid_response_error() -> (r: CodecError)
    ensures
        r == CodecError::InvalidFrame,
{
    CodecError::InvalidFrame
}

/// The response variant a wire opcode announces; anything outside
/// ERROR/READY/RESULT is `Invalid`.
pub open spec fn spec_from_opcode(opcode: u8) -> ResponseView {
    if opcode == 0x00 {
        ResponseView::Error(ErrorMessageView { message: Seq::empty(), code: 0 })
    } else if opcode == 0x02 {
        ResponseView::Ready
    } else if opcode == 0x08 {
        ResponseView::Result
    } else {
        ResponseView::Invalid
    }
}

/// The wire opcode of a response frame.
pub open spec fn spec_response_opcode(v: ResponseView) -> u8
    recommends
        !(v is Invalid),
{
    match v {
        ResponseView::Error(_) => 0x00,
        ResponseView::Ready => 0x02,
        ResponseView::Result => 0x08,
        ResponseView::Invalid => 0xff,
    }
}

/// The body bytes of an ERROR response: a 32-bit code and a `[string]`
/// message.
pub open spec fn spec_error_body(m: ErrorMessageView) -> Seq<u8>
    recommends
        encode_utf8(m.message).len() <= u16::MAX,
{
    spec_be32(m.code) + spec_short_string(m.message)
}

/// The body bytes of a response frame; READY and RESULT have empty bodies
/// at this layer.
pub open spec fn spec_response_body(v: ResponseView) -> Seq<u8> {
    match v {
        ResponseView::Error(m) => spec_error_body(m),
        _ => Seq::empty(),
    }
}

/// A response frame is encodable when it is a supported variant whose
/// message fits the 16-bit length field.
pub open spec fn response_encodable(v: ResponseView) -> bool {
    match v {
        ResponseView::Error(m) => encode_utf8(m.message).len() <= u16::MAX,
        ResponseView::Invalid => false,
        _ => true,
    }
}

/// The complete wire bytes of a response frame: header then body.
pub open spec fn spec_response_bytes(v: ResponseView, stream_id: StreamId) -> Seq<u8>
    recommends
        response_encodable(v),
{
    spec_header_bytes(
        Header {
            protocol_version: 0x84,
            flags: 0,
            stream_id,
            opcode: spec_response_opcode(v),
            body_length: spec_response_body(v).len() as u32,
        },
    ) + spec_response_body(v)
}

/// The code and message carried by an ERROR body, when it is well formed;
/// bytes after the message are ignored, as the protocol may append fields
/// this layer does not model.
pub open spec fn spec_parse_error_body(body: Seq<u8>) -> Result<ErrorMessageView, CodecError> {
    if body.len() < 6 {
        Err(CodecError::InvalidFrame)
    } else {
        let code = spec_u32_from_be(body[0], body[1], body[2], body[3]);
        let mlen = spec_u16_from_be(body[4], body[5]);
        if body.len() - 6 < mlen {
            Err(CodecError::InvalidFrame)
        } else {
            let mb = body.subrange(6, 6 + mlen);
            if valid_utf8(mb) {
                Ok(ErrorMessageView { message: decode_utf8(mb), code })
            } else {
                Err(CodecError::InvalidFrame)
            }
        }
    }
}

/// The result of parsing one response frame from the front of a byte run:
/// the frame, its stream id, and how many bytes it occupied; or how the
/// bytes were malformed.
pub open spec fn spec_read_response(b: Seq<u8>) -> Result<(ResponseView, StreamId, int), CodecError> {
    if b.len() < 9 {
        Err(CodecError::ShortRead)
    } else {
        let h = spec_parse_header(b);
        if h.protocol_version != 0x84 {
            Err(CodecError::InvalidFrame)
        } else if spec_from_opcode(h.opcode) is Invalid {
            Err(CodecError::InvalidFrame)
        } else if b.len() - 9 < h.body_length {
            Err(CodecError::ShortRead)
        } else {
            let body = b.subrange(9, 9 + h.body_length);
            match spec_from_opcode(h.opcode) {
                ResponseView::Error(_) => match spec_parse_error_body(body) {
                    Ok(m) => Ok((ResponseView::Error(m), h.stream_id, 9 + h.body_length)),
                    Err(e) => Err(e),
                },
                v => Ok((v, h.stream_id, 9 + h.body_length)),
            }
        }
    }
}

impl Response {
    /// The response variant announced by a wire opcode.
    pub fn from_opcode(opcode: u8) -> (r: Response)
        ensures
            r@ == spec_from_opcode(opcode),
    {
        match opcode {
            0x00 => Response::Error(Default::default()),
            0x02 => Response::Ready,
            0x08 => Response::Result,
            _ => Response::Invalid,
        }
    }

    /// Fills this response from its body bytes. READY and RESULT ignore
    /// their bodies; an ERROR parses its code and message; `Invalid` always
    /// fails. On failure the response is left as it was.
    pub fn parse_body(&mut self, body: &[u8]) -> (r: Result<(), CodecError>)
        ensures
            match old(self)@ {
                ResponseView::Error(_) => match spec_parse_error_body(body@) {
                    Ok(m) => r is Ok && final(self)@ == ResponseView::Error(m),
                    Err(e) => r == Err::<(), CodecError>(e) && *final(self) == *old(self),
                },
                ResponseView::Invalid => r == Err::<(), CodecError>(CodecError::InvalidFrame)
                    && *final(self) == *old(self),
                _ => r is Ok && *final(self) == *old(self),
            },
    {
        match self {
            Response::Error(error) => {
                if body.len() < 6 {
                    return Err(make_invalid_response_error());
                }
                let code = read_u32_be(body, 0);
                let string_len = read_u16_be(body, 4) as usize;
                if body.len() - 6 < string_len {
                    return Err(make_invalid_response_error());
                }
                let mb = vstd::slice::slice_subrange(body, 6, 6 + string_len);
                match string_from_utf8(vstd::slice::slice_to_vec(mb)) {
                    Some(message) => {
                        error.code = code;
                        error.message = message;
                        Ok(())
                    },
                    None => Err(make_invalid_response_error()),
                }
            },
            Response::Ready => Ok(()),
            Response::Result => Ok(()),
            Response::Invalid => Err(make_invalid_response_error()),
        }
    }

    /// Parses one response frame from the front of `bytes`. Returns the
    /// frame, its stream id, and the number of bytes consumed.
    pub fn read(bytes: &[u8]) -> (r: Result<(Response, StreamId, usize), CodecError>)
        ensures
            ({
                let s = spec_read_response(bytes@);
                match r {
                    Ok(t) => s is Ok && t.0@ == s->Ok_0.0 && t.1 == s->Ok_0.1 && t.2 as int
                        == s->Ok_0.2,
                    Err(e) => s == Err::<(ResponseView, StreamId, int), CodecError>(e),
                }
            }),
    {
        let header = match Header::deserialize(bytes) {
            Ok(h) => h,
            Err(e) => {
                return Err(e);
            },
        };
        if header.protocol_version != 0x84 {
            return Err(make_invalid_response_error());
        }
        let mut response = Response::from_opcode(header.opcode);
        if let Response::Invalid = response {
            return Err(make_invalid_response_error());
        }
        let bl = header.body_length as usize;
        if bytes.len() - 9 < bl {
            return Err(CodecError::ShortRead);
        }
        let end = 9 + bl;
        let body = vstd::slice::slice_subrange(bytes, 9, end);
        match response.parse_body(body) {
            Ok(()) => Ok((response, header.stream_id, end)),
            Err(e) => Err(e),
        }
    }

    /// Serializes this response for the given stream id: the mirror of
    /// [`Response::read`], as a server emits the stream.
    pub fn write(&self, stream_id: StreamId) -> (r: Vec<u8>)
        requires
            response_encodable(self@),
        ensures
            r@ == spec_response_bytes(self@, stream_id),
    {
        let mut body: Vec<u8> = Vec::new();
        let opcode: u8;
        match self {
            Response::Error(m) => {
                opcode = 0x00;
                push_be32(&mut body, m.code);
                push_short_string(&mut body, m.message.as_str());
                assert(body@ =~= spec_response_body(self@));
            },
            Response::Ready => {
                opcode = 0x02;
                assert(body@ =~= spec_response_body(self@));
            },
            Response::Result => {
                opcode = 0x08;
                assert(body@ =~= spec_response_body(self@));
            },
            Response::Invalid => {
                proof {
                    assert(false);
                }
                opcode = 0xff;
            },
        }
        let header = Header {
            protocol_version: 0x84,
            flags: 0,
            stream_id,
            opcode,
            body_length: body.len() as u32,
        };
        let mut buf = header.serialize();
        let mut b = body;
        buf.append(&mut b);
        buf
    }
}

/// The canonical READY reply — protocol byte `0x84`, stream id 0, opcode
/// 2, empty body — decodes to `(Ready, 0)`.
pub proof fn lemma_ready_frame_decodes()
    ensures
        spec_read_response(seq![0x84u8, 0u8, 0u8, 0u8, 2u8, 0u8, 0u8, 0u8, 0u8]) == Ok::<
            (ResponseView, StreamId, int),
            CodecError,
        >((ResponseView::Ready, 0, 9)),
{
    let b = seq![0x84u8, 0u8, 0u8, 0u8, 2u8, 0u8, 0u8, 0u8, 0u8];
    assert(spec_parse_header(b).protocol_version == 0x84);
    assert(spec_parse_header(b).stream_id == 0);
    assert(spec_parse_header(b).opcode == 2);
    assert(spec_parse_header(b).body_length == 0);
}

/// Parsing the serialized bytes of a supported response frame yields the
/// frame, its stream id, and the exact length of the serialization.
pub proof fn lemma_response_round_trip(v: ResponseView, stream_id: StreamId)
    requires
        response_encodable(v),
    ensures
        spec_read_response(spec_response_bytes(v, stream_id)) == Ok::<
            (ResponseView, StreamId, int),
            CodecError,
        >((v, stream_id, spec_response_bytes(v, stream_id).len() as int)),
{
    let body = spec_response_body(v);
    let h = Header {
        protocol_version: 0x84,
        flags: 0,
        stream_id,
        opcode: spec_response_opcode(v),
        body_length: body.len() as u32,
    };
    let b = spec_response_bytes(v, stream_id);
    crate::types::lemma_header_round_trip(h, body);
    assert(b == spec_header_bytes(h) + body);
    assert(spec_parse_header(b) == h);
    assert(b.subrange(9, 9 + h.body_length) =~= body);
    match v {
        ResponseView::Error(m) => {
            let mlen = encode_utf8(m.message).len();
            assert(body[0] == spec_be32(m.code)[0]);
            assert(body[1] == spec_be32(m.code)[1]);
            assert(body[2] == spec_be32(m.code)[2]);
            assert(body[3] == spec_be32(m.code)[3]);
            crate::types::lemma_be32_round_trip(m.code);
            assert(body[4] == crate::types::spec_be16(mlen as u16)[0]);
            assert(body[5] == crate::types::spec_be16(mlen as u16)[1]);
            crate::types::lemma_be16_round_trip(mlen as u16);
            assert(body.subrange(6, 6 + mlen as int) =~= encode_utf8(m.message));
            assert(valid_utf8(encode_utf8(m.message)));
            assert(decode_utf8(encode_utf8(m.message)) == m.message);
        },
        _ => {
        },
    }
}

} // verus!
