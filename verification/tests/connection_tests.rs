//! End-to-end exchanges against a scripted byte-level server: the tests
//! drive the verified codec and stream table exactly as the asynchronous
//! shell does, feeding the bytes a server would send.

use cql_driver::connection::{check_handshake, emit_frames, fault_to_error, map_query_response,
    QueryError};
use cql_driver::query::Query;
use cql_driver::request::Request;
use cql_driver::response::{ErrorMessage, Response};
use cql_driver::streams::{ConnectionFault, RouteAction, StreamsManager};
use cql_driver::types::StreamId;

/// What a scripted server does with the bytes the driver wrote: parses
/// every request frame and returns the stream ids it saw, in order.
fn server_read_streams(written: &[u8]) -> Vec<StreamId> {
    let mut ids = Vec::new();
    let mut offset = 0;
    while offset < written.len() {
        let (_req, stream_id, consumed) = Request::read(&written[offset..]).unwrap();
        ids.push(stream_id);
        offset += consumed;
    }
    ids
}

/// Delivers a run of scripted server bytes to the reader side: parses each
/// response frame and routes it through the table.
fn deliver(manager: &mut StreamsManager, inbound: &[u8]) -> Vec<RouteAction> {
    let mut actions = Vec::new();
    let mut offset = 0;
    while offset < inbound.len() {
        let (response, stream_id, consumed) = Response::read(&inbound[offset..]).unwrap();
        actions.push(manager.on_response_received(response, stream_id));
        offset += consumed;
    }
    actions
}

#[test]
fn test_open_succeeds_on_ready() {
    // The driver sends STARTUP on stream 1; the server replies READY.
    let startup = Request::Startup.write(1);
    let (req, stream_id, _) = Request::read(&startup).unwrap();
    assert!(matches!(req, Request::Startup));
    assert_eq!(stream_id, 1);

    let reply = Response::Ready.write(1);
    assert_eq!(check_handshake(&reply), Ok(()));
}

#[test]
fn test_open_fails_on_unexpected_opcode() {
    // The server replies with opcode 0x03 (an AUTHENTICATE-class frame this
    // driver does not support): the handshake fails.
    let reply = [0x84, 0, 0, 1, 0x03, 0, 0, 0, 0];
    assert_eq!(check_handshake(&reply), Err(QueryError::HandshakeFailed));
}

#[test]
fn test_query_resolves_ok_on_result() {
    let mut manager = StreamsManager::new();

    let query = Query::new("SELECT 1");
    let handle = manager.register_stream().unwrap().unwrap();
    let id = handle.get_stream_id();
    let mut mailbox = Vec::new();
    mailbox.push((Request::Query(query.get_query_text()), id));
    let written = emit_frames(&mailbox);
    handle.mark_request_sent(&mut manager);

    // The server sees the query and answers RESULT on the same stream.
    let seen = server_read_streams(&written);
    assert_eq!(seen, vec![id]);
    let actions = deliver(&mut manager, &Response::Result.write(id));
    assert_eq!(actions, vec![RouteAction::Wake]);

    let response = handle.poll_response(&mut manager).unwrap().unwrap();
    assert_eq!(map_query_response(response), Ok(()));
    handle.release(&mut manager);
}

#[test]
fn test_query_resolves_to_server_error() {
    let mut manager = StreamsManager::new();

    let handle = manager.register_stream().unwrap().unwrap();
    let id = handle.get_stream_id();
    handle.mark_request_sent(&mut manager);

    let error = Response::Error(ErrorMessage {
        code: 8192,
        message: String::from("line 1:0 no viable alternative at input 'bogus'"),
    });
    deliver(&mut manager, &error.write(id));

    let response = handle.poll_response(&mut manager).unwrap().unwrap();
    match map_query_response(response) {
        Err(QueryError::ServerError(m)) => {
            assert_eq!(m.code, 8192);
            assert_eq!(m.message, "line 1:0 no viable alternative at input 'bogus'");
        }
        other => panic!("expected a server error, got {:?}", other),
    }
    handle.release(&mut manager);

    // The error was per-query: the connection still serves new queries.
    let handle2 = manager.register_stream().unwrap().unwrap();
    let id2 = handle2.get_stream_id();
    handle2.mark_request_sent(&mut manager);
    deliver(&mut manager, &Response::Result.write(id2));
    let response2 = handle2.poll_response(&mut manager).unwrap().unwrap();
    assert_eq!(map_query_response(response2), Ok(()));
    handle2.release(&mut manager);
}

#[test]
fn test_concurrent_queries_resolve_in_reply_order() {
    let mut manager = StreamsManager::new();

    let first = manager.register_stream().unwrap().unwrap();
    let second = manager.register_stream().unwrap().unwrap();
    first.mark_request_sent(&mut manager);
    second.mark_request_sent(&mut manager);

    // The server replies in reverse stream-id order: the second query's
    // answer comes first.
    let mut inbound = Response::Result.write(second.get_stream_id());
    inbound.extend_from_slice(&Response::Result.write(first.get_stream_id()));

    // After the first reply only the second query is resolvable.
    let (head, tail) = inbound.split_at(9);
    deliver(&mut manager, head);
    assert_eq!(first.poll_response(&mut manager), Ok(None));
    let response = second.poll_response(&mut manager).unwrap().unwrap();
    assert_eq!(map_query_response(response), Ok(()));

    deliver(&mut manager, tail);
    let response = first.poll_response(&mut manager).unwrap().unwrap();
    assert_eq!(map_query_response(response), Ok(()));

    first.release(&mut manager);
    second.release(&mut manager);
}

#[test]
fn test_dropped_handle_recycles_slot_on_late_reply() {
    let mut manager = StreamsManager::new();

    let handle = manager.register_stream().unwrap().unwrap();
    let id = handle.get_stream_id();
    handle.mark_request_sent(&mut manager);
    let permits_outstanding = manager.free_permits;

    // The caller gives up before the server answers.
    handle.release(&mut manager);
    assert_eq!(manager.free_permits, permits_outstanding);

    // The late reply recycles the slot without waking anyone.
    let actions = deliver(&mut manager, &Response::Result.write(id));
    assert_eq!(actions, vec![RouteAction::Freed]);
    assert_eq!(manager.free_permits, permits_outstanding + 1);

    // A subsequent query is admitted again, on the recycled id.
    let handle2 = manager.register_stream().unwrap().unwrap();
    assert_eq!(handle2.get_stream_id(), id);
    handle2.mark_request_sent(&mut manager);
    deliver(&mut manager, &Response::Result.write(id));
    let response = handle2.poll_response(&mut manager).unwrap().unwrap();
    assert_eq!(map_query_response(response), Ok(()));
    handle2.release(&mut manager);
}

#[test]
fn test_fault_maps_to_query_errors() {
    let mut manager = StreamsManager::new();
    let handle = manager.register_stream().unwrap().unwrap();
    handle.mark_request_sent(&mut manager);

    manager.on_receive_error(ConnectionFault::IoError);
    let fault = handle.poll_response(&mut manager).unwrap_err();
    assert_eq!(fault_to_error(fault), QueryError::IoError);

    let fault = manager.register_stream().unwrap_err();
    assert_eq!(fault_to_error(fault), QueryError::IoError);
    assert_eq!(fault_to_error(ConnectionFault::Closed), QueryError::ConnectionClosed);
}

#[test]
fn test_writer_emits_frames_in_mailbox_order() {
    let mailbox = vec![
        (Request::Startup, 1i16),
        (Request::Query(String::from("SELECT 1")), 5i16),
        (Request::Query(String::from("SELECT 2")), 3i16),
    ];
    let written = emit_frames(&mailbox);

    // The byte stream is the concatenation of the frames' serializations,
    // in mailbox order.
    let mut expected = Vec::new();
    expected.extend_from_slice(&Request::Startup.write(1));
    expected.extend_from_slice(&Request::Query(String::from("SELECT 1")).write(5));
    expected.extend_from_slice(&Request::Query(String::from("SELECT 2")).write(3));
    assert_eq!(written, expected);

    assert_eq!(server_read_streams(&written), vec![1, 5, 3]);
}
