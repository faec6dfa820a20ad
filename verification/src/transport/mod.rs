//! How messages reach the server.

pub mod daemon_state;
pub mod http;
pub mod http1;
pub mod line;
pub mod listener;
pub mod origin;
pub mod socket_stream;
pub mod spelling;
pub mod stdio;
pub mod tls;

use crate::calendar::Span;
use crate::types::{JsonRpcMessage, McpError};
use vstd::prelude::*;

verus! {

/// Something that messages go through, one at a time.
pub trait Transport: Send + Sync {
    /// Waits for a message. The peer may leave instead, or the time may run
    /// out where it is bounded.
    fn read(&mut self) -> Result<JsonRpcMessage, McpError>;

    /// Sends a message.
    fn write(&mut self, message: &JsonRpcMessage) -> Result<(), McpError>;

    /// Ends the connection.
    fn close(&mut self) -> Result<(), McpError>;

    /// Ends the sending side, and leaves the other open. Where the two cannot
    /// be told apart, the connection ends.
    fn close_write(&mut self) -> Result<(), McpError> {
        self.close()
    }

    /// Bounds how long a read may take, or lifts the bound. Says whether that
    /// can be done at all: where it cannot, reads still take as long as they
    /// take.
    fn set_read_timeout(&mut self, timeout: Option<Span>) -> (r: Result<bool, McpError>)
        default_ensures
            r == Ok::<bool, McpError>(false),
    {
        let _ = timeout;
        Ok(false)
    }

    /// Bounds how long a message may be.
    fn set_max_message_bytes(&mut self, max: usize) {
        let _ = max;
    }
}

} // verus!
