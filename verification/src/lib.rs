//! A verified core for a client-side driver speaking the Cassandra/Scylla
//! native protocol (version 4) over a single multiplexed TCP connection.
//!
//! This crate holds the pure, machine-checked heart of the driver:
//! the framing codec (request and response frames with their 9-byte headers),
//! the stream-slot table that multiplexes concurrent queries over one socket,
//! and the decision logic of the connection facade (handshake check, response
//! classification, writer emission). The asynchronous shell that owns the
//! socket and the runtime lives outside this crate and calls into it with
//! plain values.

pub mod connection;
pub mod query;
pub mod request;
pub mod response;
pub mod streams;
pub mod types;

pub use connection::QueryError;
pub use query::Query;
pub use request::Request;
pub use response::{ErrorMessage, Response};
pub use streams::{StreamHandle, StreamsManager};
pub use types::{Header, StreamId};
