use cql_driver::request::Request;
use cql_driver::response::{ErrorMessage, Response};
use cql_driver::types::{CodecError, Header};
use cql_driver::request::{serialize_map, serialize_query};
use cql_driver::response::make_invalid_response_error;

#[test]
fn test_startup_serialization() {
    let expected_startup = [
        4u8, 0u8, 0u8, 0u8, 1u8, 0u8, 0u8, 0u8, 22u8, 0u8, 1u8, 0u8, 11u8, 67u8, 81u8, 76u8,
        95u8, 86u8, 69u8, 82u8, 83u8, 73u8, 79u8, 78u8, 0u8, 5u8, 51u8, 46u8, 48u8, 46u8, 48u8,
    ];

    let req = Request::Startup;
    assert_eq!(req.write(0), expected_startup.to_vec());
}

#[test]
fn test_error_response_reading() {
    let error_response = [
        0x84, 0x00, 0x7f, 0xfe, 0x00, 0x00, 0x00, 0x00, 0x38, 0x00, 0x00, 0x20, 0x00, 0x00,
        0x32, 0x6c, 0x69, 0x6e, 0x65, 0x20, 0x31, 0x3a, 0x30, 0x20, 0x6e, 0x6f, 0x20, 0x76,
        0x69, 0x61, 0x62, 0x6c, 0x65, 0x20, 0x61, 0x6c, 0x74, 0x65, 0x72, 0x6e, 0x61, 0x74,
        0x69, 0x76, 0x65, 0x20, 0x61, 0x74, 0x20, 0x69, 0x6e, 0x70, 0x75, 0x74, 0x20, 0x27,
        0x73, 0x61, 0x64, 0x73, 0x64, 0x61, 0x73, 0x64, 0x27,
    ];

    let (rsp, stream_id, consumed) = Response::read(&error_response).unwrap();

    assert_eq!(
        rsp,
        Response::Error(ErrorMessage {
            code: 8192,
            message: String::from("line 1:0 no viable alternative at input 'sadsdasd'"),
        })
    );
    assert_eq!(stream_id, 32766);
    assert_eq!(consumed, error_response.len());
}

#[test]
fn response_test_startup_scylla_response() {
    let ready_response = [0x84, 0, 0, 0, 2, 0, 0, 0, 0];

    let (rsp, stream_id, consumed) = Response::read(&ready_response).unwrap();

    assert_eq!(rsp, Response::Ready);
    assert_eq!(stream_id, 0);
    assert_eq!(consumed, 9);
}

#[test]
fn test_header_round_trip() {
    let header = Header {
        protocol_version: 0x84,
        flags: 0,
        stream_id: -1,
        opcode: 0x0c,
        body_length: 70000,
    };
    let bytes = header.serialize();
    assert_eq!(bytes.len(), 9);
    assert_eq!(&bytes[2..4], &[0xff, 0xff]);
    let parsed = Header::deserialize(&bytes).unwrap();
    assert_eq!(parsed, header);
}

#[test]
fn test_startup_request_round_trip() {
    let bytes = Request::Startup.write(1);
    let (req, stream_id, consumed) = Request::read(&bytes).unwrap();
    assert!(matches!(req, Request::Startup));
    assert_eq!(stream_id, 1);
    assert_eq!(consumed, bytes.len());
}

#[test]
fn test_query_request_round_trip() {
    let text = "SELECT * FROM t WHERE name = 'café'";
    let bytes = Request::Query(String::from(text)).write(123);
    let (req, stream_id, consumed) = Request::read(&bytes).unwrap();
    match req {
        Request::Query(parsed) => assert_eq!(parsed, text),
        _ => panic!("expected a QUERY frame"),
    }
    assert_eq!(stream_id, 123);
    assert_eq!(consumed, bytes.len());
}

#[test]
fn test_response_round_trips() {
    let cases = vec![
        Response::Ready,
        Response::Result,
        Response::Error(ErrorMessage {
            code: 0x2000,
            message: String::from("unconfigured table"),
        }),
    ];
    for (i, case) in cases.into_iter().enumerate() {
        let stream_id = i as i16;
        let bytes = case.write(stream_id);
        let (rsp, sid, consumed) = Response::read(&bytes).unwrap();
        assert_eq!(rsp, case);
        assert_eq!(sid, stream_id);
        assert_eq!(consumed, bytes.len());
    }
}

#[test]
fn test_query_body_exact_bytes() {
    let body = serialize_query("AB");
    assert_eq!(body, vec![0, 0, 0, 2, 65, 66, 0, 1, 0]);
}

#[test]
fn test_map_exact_bytes() {
    let entries = vec![(String::from("k"), String::from("v"))];
    let body = serialize_map(&entries);
    assert_eq!(body, vec![0, 1, 0, 1, 107, 0, 1, 118]);
}

#[test]
fn test_short_header_is_short_read() {
    let bytes = [0x84, 0, 0, 0, 2];
    assert_eq!(Response::read(&bytes), Err(CodecError::ShortRead));
}

#[test]
fn test_wrong_protocol_version_is_invalid() {
    let bytes = [0x04, 0, 0, 0, 2, 0, 0, 0, 0];
    assert_eq!(Response::read(&bytes), Err(CodecError::InvalidFrame));
}

#[test]
fn test_unknown_opcode_is_invalid() {
    let bytes = [0x84, 0, 0, 0, 3, 0, 0, 0, 0];
    assert_eq!(Response::read(&bytes), Err(CodecError::InvalidFrame));
}

#[test]
fn test_truncated_body_is_short_read() {
    let bytes = [0x84, 0, 0, 0, 2, 0, 0, 0, 4, 1, 2];
    assert_eq!(Response::read(&bytes), Err(CodecError::ShortRead));
}

#[test]
fn test_truncated_error_message_is_invalid() {
    // Body announces a 9-byte message but carries only 2 bytes of it.
    let bytes = [
        0x84, 0, 0, 0, 0, 0, 0, 0, 8, 0, 0, 0x20, 0, 0, 9, 65, 66,
    ];
    assert_eq!(Response::read(&bytes), Err(CodecError::InvalidFrame));
}

#[test]
fn test_error_message_bad_utf8_is_invalid() {
    // Body: code 0, message length 2, bytes 0xff 0xfe (not UTF-8).
    let bytes = [
        0x84, 0, 0, 0, 0, 0, 0, 0, 8, 0, 0, 0, 0, 0, 2, 0xff, 0xfe,
    ];
    assert_eq!(Response::read(&bytes), Err(CodecError::InvalidFrame));
}

#[test]
fn test_error_body_trailing_bytes_ignored() {
    // A 12-byte body: code 5, message "ok", then two trailing bytes of
    // further fields this layer does not model.
    let bytes = [
        0x84, 0, 0, 7, 0, 0, 0, 0, 10, 0, 0, 0, 5, 0, 2, 111, 107, 9, 9,
    ];
    let (rsp, stream_id, consumed) = Response::read(&bytes).unwrap();
    assert_eq!(
        rsp,
        Response::Error(ErrorMessage { code: 5, message: String::from("ok") })
    );
    assert_eq!(stream_id, 7);
    assert_eq!(consumed, bytes.len());
}

#[test]
fn test_make_invalid_response_error() {
    assert_eq!(make_invalid_response_error(), CodecError::InvalidFrame);
}

#[test]
fn test_from_opcode() {
    assert_eq!(Response::from_opcode(0x02), Response::Ready);
    assert_eq!(Response::from_opcode(0x08), Response::Result);
    assert!(matches!(Response::from_opcode(0x00), Response::Error(_)));
    assert_eq!(Response::from_opcode(0x42), Response::Invalid);
}

#[test]
fn test_parse_body_fills_error() {
    let mut rsp = Response::from_opcode(0x00);
    let body = [0, 0, 0x20, 0, 0, 3, 98, 97, 100];
    rsp.parse_body(&body).unwrap();
    assert_eq!(
        rsp,
        Response::Error(ErrorMessage { code: 8192, message: String::from("bad") })
    );
}

#[test]
fn test_request_opcode_and_body() {
    assert_eq!(Request::Startup.opcode(), 0x01);
    assert_eq!(Request::Query(String::from("x")).opcode(), 0x07);
    assert_eq!(Request::Startup.body().len(), 22);
    assert_eq!(Request::Query(String::from("x")).body().len(), 8);
}
