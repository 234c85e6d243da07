//! The Model Context Protocol endpoint of the bridge.

use vstd::prelude::*;
use crate::text::prefixed;

verus! {

/// Errors of the protocol endpoint.
#[derive(Debug, Clone)]
pub enum Error {
    Protocol(String),
    Connection(String),
}

/// The displayed message of an endpoint error.
pub open spec fn mcp_error_text(e: Error) -> Seq<char> {
    match e {
        Error::Protocol(m) => "Protocol error: "@ + m@,
        Error::Connection(m) => "Connection error: "@ + m@,
    }
}

impl Error {
    /// The displayed message, such as `Protocol error: bad frame`.
    pub fn to_string(&self) -> (r: String)
        ensures
            r@ == mcp_error_text(*self),
    {
        match self {
            Error::Protocol(m) => prefixed("Protocol error: ", m),
            Error::Connection(m) => prefixed("Connection error: ", m),
        }
    }
}

/// The endpoint: it answers every request with an empty reply.
#[derive(Debug)]
pub struct McpServer;

impl McpServer {
    pub fn new() -> (r: Self) {
        McpServer
    }

    /// Handles a request.
    pub fn handle(&self, request: &[u8]) -> (r: Result<Vec<u8>, Error>)
        ensures
            r matches Ok(reply) && reply@.len() == 0,
    {
        Ok(Vec::new())
    }
}

impl Default for McpServer {
    fn default() -> (r: Self) {
        McpServer::new()
    }
}

} // verus!
