use cql_driver::response::Response;
use cql_driver::streams::{
    ConnectionFault, RouteAction, StreamHandle, StreamState, StreamsManager, TOTAL_STREAMS,
};

fn count_free(manager: &StreamsManager) -> usize {
    manager
        .streams
        .iter()
        .filter(|s| matches!(s, StreamState::Free))
        .count()
}

#[test]
fn test_slot_accounting_through_a_lifecycle() {
    let mut m = StreamsManager::new();
    assert_eq!(m.free_permits, TOTAL_STREAMS);
    assert_eq!(count_free(&m), m.free_permits);

    let h = m.register_stream().unwrap().unwrap();
    assert_eq!(m.free_permits, TOTAL_STREAMS - 1);
    assert_eq!(count_free(&m), m.free_permits);
    assert_eq!(count_free(&m) + (TOTAL_STREAMS - count_free(&m)), TOTAL_STREAMS);

    h.mark_request_sent(&mut m);
    assert_eq!(count_free(&m), m.free_permits);

    let action = m.on_response_received(Response::Result, h.get_stream_id());
    assert_eq!(action, RouteAction::Wake);
    assert_eq!(count_free(&m), m.free_permits);

    let response = h.poll_response(&mut m).unwrap().unwrap();
    assert_eq!(response, Response::Result);
    h.release(&mut m);
    assert_eq!(m.free_permits, TOTAL_STREAMS);
    assert_eq!(count_free(&m), m.free_permits);
}

#[test]
fn test_register_assigns_distinct_ids() {
    let mut m = StreamsManager::new();
    let h1 = m.register_stream().unwrap().unwrap();
    let h2 = m.register_stream().unwrap().unwrap();
    assert_ne!(h1.get_stream_id(), h2.get_stream_id());
    assert!(h1.get_stream_id() >= 0);
    assert!(h2.get_stream_id() >= 0);
}

#[test]
fn test_backpressure_at_capacity() {
    let mut m = StreamsManager::new();
    let mut handles: Vec<StreamHandle> = Vec::new();
    for _ in 0..TOTAL_STREAMS {
        handles.push(m.register_stream().unwrap().unwrap());
    }
    assert_eq!(m.free_permits, 0);
    // One admission beyond capacity must suspend (no slot granted).
    assert!(m.register_stream().unwrap().is_none());

    // Completing one query frees its slot and admits the waiter.
    let h = handles.pop().unwrap();
    let id = h.get_stream_id();
    h.release(&mut m);
    assert_eq!(m.free_permits, 1);
    let h2 = m.register_stream().unwrap().unwrap();
    assert_eq!(h2.get_stream_id(), id);
}

#[test]
fn test_abandoned_handle_then_response_frees_slot() {
    let mut m = StreamsManager::new();
    let h = m.register_stream().unwrap().unwrap();
    let id = h.get_stream_id();
    h.mark_request_sent(&mut m);
    let permits_while_sent = m.free_permits;

    // The caller walks away before the server answers.
    h.release(&mut m);
    assert!(matches!(m.streams[id as usize], StreamState::SentButAbandoned));
    assert_eq!(m.free_permits, permits_while_sent);

    // The response arrives: the slot is recycled, one permit returns, and
    // nobody is woken.
    let action = m.on_response_received(Response::Result, id);
    assert_eq!(action, RouteAction::Freed);
    assert!(matches!(m.streams[id as usize], StreamState::Free));
    assert_eq!(m.free_permits, permits_while_sent + 1);
    assert_eq!(count_free(&m), m.free_permits);
}

#[test]
fn test_fault_fails_later_operations() {
    let mut m = StreamsManager::new();
    let h = m.register_stream().unwrap().unwrap();
    h.mark_request_sent(&mut m);

    m.on_receive_error(ConnectionFault::IoError);

    // The outstanding query resolves to the fault...
    assert_eq!(h.poll_response(&mut m), Err(ConnectionFault::IoError));
    // ...and new admissions fail fast with it.
    assert_eq!(m.register_stream(), Err(ConnectionFault::IoError));
}

#[test]
fn test_unsolicited_response_is_reported_not_routed() {
    let mut m = StreamsManager::new();
    let permits = m.free_permits;
    // No query is outstanding on stream 5.
    let action = m.on_response_received(Response::Result, 5);
    assert_eq!(action, RouteAction::Violation);
    assert_eq!(m.free_permits, permits);
    assert!(matches!(m.streams[5], StreamState::Free));
}

#[test]
fn test_negative_stream_id_is_violation() {
    let mut m = StreamsManager::new();
    let action = m.on_response_received(Response::Ready, -1);
    assert_eq!(action, RouteAction::Violation);
}

#[test]
fn test_poll_before_response_is_pending() {
    let mut m = StreamsManager::new();
    let h = m.register_stream().unwrap().unwrap();
    h.mark_request_sent(&mut m);
    assert_eq!(h.poll_response(&mut m), Ok(None));
    m.on_response_received(Response::Ready, h.get_stream_id());
    assert_eq!(h.poll_response(&mut m), Ok(Some(Response::Ready)));
}
