//! The connection-accept policy that feeds the parser.
//!
//! The server itself only decides: given what happened on one connection, it
//! parses any received buffer and always directs the caller to keep
//! accepting, so a failed accept or read never stops the loop. Binding the
//! socket, accepting, reading and reporting are the caller's work.

use vstd::prelude::*;
use crate::error::ParseError;
use crate::request::{request_result_model, spec_parse_request, Request, BUFFER_SIZE};

verus! {

/// What happened on one accepted connection.
pub enum ConnectionEvent {
    /// A connection was accepted and a buffer was read from it.
    Received([u8; BUFFER_SIZE]),
    /// No connection could be established.
    AcceptFailed,
    /// A connection was accepted but could not be read from.
    ReadFailed,
}

/// The decision for one iteration of the accept loop.
pub struct LoopStep {
    /// The parse outcome of a received buffer; `None` when nothing was read.
    pub outcome: Option<Result<Request, ParseError>>,
    /// Whether the loop is to accept further connections.
    pub continue_accepting: bool,
}

/// A server bound to one listening address.
pub struct Server {
    pub address: String,
}

impl Server {
    /// A server that will listen on `address`.
    pub fn new(address: String) -> (r: Self)
        ensures
            r.address == address,
    {
        Server { address }
    }

    /// Decides one iteration of the accept loop: a received buffer is
    /// parsed; a failed accept or read yields no outcome. Every event, the
    /// failures included, directs the caller to keep accepting.
    pub fn handle_event(&self, event: &ConnectionEvent) -> (r: LoopStep)
        ensures
            r.continue_accepting,
            match event {
                ConnectionEvent::Received(buffer) => r.outcome matches Some(res)
                    && request_result_model(res) == spec_parse_request(buffer@),
                ConnectionEvent::AcceptFailed => r.outcome is None,
                ConnectionEvent::ReadFailed => r.outcome is None,
            },
    {
        match event {
            ConnectionEvent::Received(buffer) => LoopStep {
                outcome: Some(Request::try_from(buffer)),
                continue_accepting: true,
            },
            ConnectionEvent::AcceptFailed => LoopStep { outcome: None, continue_accepting: true },
            ConnectionEvent::ReadFailed => LoopStep { outcome: None, continue_accepting: true },
        }
    }
}

} // verus!
