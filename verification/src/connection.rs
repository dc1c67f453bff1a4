//! Decision logic of the connection facade: the error taxonomy, the
//! handshake check, the classification of a routed response, and the byte
//! stream the writer task emits for a mailbox of outbound frames.
//!
//! The facade itself — sockets, tasks, channels — lives in the asynchronous
//! shell outside this crate; every choice it makes is a call in here.

use vstd::prelude::*;
use crate::request::{spec_request_bytes, request_encodable, Request, RequestView};
use crate::response::{spec_read_response, ErrorMessage, Response};
use crate::streams::ConnectionFault;
use crate::types::StreamId;

verus! {

/// Everything a query, or the handshake, can fail with. A malformed
/// inbound frame is a [`crate::types::CodecError`] at the codec; the
/// reader then faults the connection, so queries observe it as `IoError`.
#[derive(Debug, PartialEq)]
pub enum QueryError {
    /// The socket failed, or an inbound frame was malformed; fatal for the
    /// connection and reported to every outstanding query.
    IoError,
    /// The server's first response was not READY; reported only when
    /// opening a connection.
    HandshakeFailed,
    /// A well-formed ERROR response; reported only to the query it answers.
    ServerError(ErrorMessage),
    /// A well-formed but unexpected response; the connection continues.
    ProtocolViolation,
    /// The connection was shut down while the query was outstanding.
    ConnectionClosed,
}

/// The error a caller receives for a stored connection fault.
pub fn fault_to_error(fault: ConnectionFault) -> (r: QueryError)
    ensures
        fault == ConnectionFault::IoError ==> r == QueryError::IoError,
        fault == ConnectionFault::Closed ==> r == QueryError::ConnectionClosed,
{
    match fault {
        ConnectionFault::IoError => QueryError::IoError,
        ConnectionFault::Closed => QueryError::ConnectionClosed,
    }
}

/// Checks the single reply frame of the handshake: the connection is open
/// exactly when the reply parses as READY; anything else — another
/// variant, another stream, a malformed frame — fails the handshake.
pub fn check_handshake(reply: &[u8]) -> (r: Result<(), QueryError>)
    ensures
        ({
            let s = spec_read_response(reply@);
            &&& r is Ok <==> (s is Ok && s->Ok_0.0 is Ready)
            &&& r is Err ==> r->Err_0 == QueryError::HandshakeFailed
        }),
{
    match Response::read(reply) {
        Ok((Response::Ready, _, _)) => Ok(()),
        _ => Err(QueryError::HandshakeFailed),
    }
}

/// Classifies the response a query received: RESULT is success, a
/// well-formed ERROR carries the server's code and message to this caller
/// alone, and anything else is a protocol violation.
pub fn map_query_response(response: Response) -> (r: Result<(), QueryError>)
    ensures
        response is Result ==> r == Ok::<(), QueryError>(()),
        (response is Ready || response is Invalid) ==> r == Err::<(), QueryError>(
            QueryError::ProtocolViolation,
        ),
        response is Error ==> r is Err && r->Err_0 is ServerError && r->Err_0->ServerError_0
            == response->Error_0,
{
    match response {
        Response::Result => Ok(()),
        Response::Error(message) => Err(QueryError::ServerError(message)),
        _ => Err(QueryError::ProtocolViolation),
    }
}

/// The byte stream a writer emits for a mailbox of outbound frames: the
/// concatenation of their serializations, in mailbox order.
pub open spec fn spec_emitted_bytes(mailbox: Seq<(RequestView, StreamId)>) -> Seq<u8>
    decreases mailbox.len(),
{
    if mailbox.len() == 0 {
        Seq::empty()
    } else {
        spec_request_bytes(mailbox[0].0, mailbox[0].1) + spec_emitted_bytes(mailbox.drop_first())
    }
}

/// The views of a list of owned outbound frames.
pub open spec fn spec_mailbox_views(mailbox: Seq<(Request, StreamId)>) -> Seq<(
    RequestView,
    StreamId,
)> {
    mailbox.map_values(|p: (Request, StreamId)| (p.0@, p.1))
}

/// Splitting a mailbox anywhere splits its emitted bytes at the same
/// place: what is emitted depends only on the frames and their order.
pub proof fn lemma_emitted_bytes_concat(
    s1: Seq<(RequestView, StreamId)>,
    s2: Seq<(RequestView, StreamId)>,
)
    ensures
        spec_emitted_bytes(s1 + s2) == spec_emitted_bytes(s1) + spec_emitted_bytes(s2),
    decreases s1.len(),
{
    if s1.len() == 0 {
        assert(s1 + s2 =~= s2);
        assert(spec_emitted_bytes(s1) + spec_emitted_bytes(s2) =~= spec_emitted_bytes(s2));
    } else {
        assert((s1 + s2).drop_first() =~= s1.drop_first() + s2);
        lemma_emitted_bytes_concat(s1.drop_first(), s2);
        assert(spec_emitted_bytes(s1 + s2) =~= spec_emitted_bytes(s1) + spec_emitted_bytes(s2));
    }
}

/// Submitting one more frame appends exactly its serialization to the
/// emitted byte stream.
pub proof fn lemma_emitted_bytes_push(
    mailbox: Seq<(RequestView, StreamId)>,
    frame: RequestView,
    stream_id: StreamId,
)
    ensures
        spec_emitted_bytes(mailbox.push((frame, stream_id))) == spec_emitted_bytes(mailbox)
            + spec_request_bytes(frame, stream_id),
{
    let single = seq![(frame, stream_id)];
    assert(mailbox.push((frame, stream_id)) =~= mailbox + single);
    lemma_emitted_bytes_concat(mailbox, single);
    assert(single.drop_first() =~= Seq::<(RequestView, StreamId)>::empty());
    assert(spec_emitted_bytes(single.drop_first()) =~= Seq::<u8>::empty());
    assert(spec_emitted_bytes(single) =~= spec_request_bytes(frame, stream_id));
}

/// Serializes a whole mailbox in order, as the writer task does frame by
/// frame: the result is the concatenation of the frames' serializations.
pub fn emit_frames(mailbox: &Vec<(Request, StreamId)>) -> (r: Vec<u8>)
    requires
        forall|i: int|
            0 <= i < mailbox@.len() ==> request_encodable(#[trigger] mailbox@[i].0@),
    ensures
        r@ == spec_emitted_bytes(spec_mailbox_views(mailbox@)),
{
    let ghost views = spec_mailbox_views(mailbox@);
    let mut out: Vec<u8> = Vec::new();
    let n = mailbox.len();
    let mut i: usize = 0;
    while i < n
        invariant
            n == mailbox@.len(),
            i <= n,
            views == spec_mailbox_views(mailbox@),
            forall|j: int|
                0 <= j < mailbox@.len() ==> request_encodable(#[trigger] mailbox@[j].0@),
            out@ == spec_emitted_bytes(views.take(i as int)),
        decreases n - i,
    {
        let entry = &mailbox[i];
        let mut frame_bytes = entry.0.write(entry.1);
        out.append(&mut frame_bytes);
        proof {
            assert(views.take(i + 1) =~= views.take(i as int).push(views[i as int]));
            lemma_emitted_bytes_push(views.take(i as int), views[i as int].0, views[i as int].1);
            assert(views[i as int] == (mailbox@[i as int].0@, mailbox@[i as int].1));
        }
        i += 1;
    }
    proof {
        assert(views.take(n as int) =~= views);
    }
    out
}

} // verus!
