//! Messages over standard input and output.

use crate::calendar::Span;
use crate::transport::line::LineReader;
use crate::types::McpError;
use vstd::prelude::*;

verus! {

/// What a transport over standard input and output keeps between messages. The
/// bytes are moved by whoever holds the two streams.
#[derive(Debug)]
pub struct StdioTransport {
    pub reader: LineReader,
    /// How long the next read may take; none means forever.
    pub read_timeout: Option<Span>,
    /// Whether the system can end a wait for input before input comes.
    pub bounded: bool,
}

impl Default for StdioTransport {
    fn default() -> (r: Self)
        ensures
            r.reader@.wf(),
            r.reader@.idle(),
            r.reader@.max_bytes == 8_388_608,
            r.read_timeout is None,
            r.bounded,
    {
        StdioTransport::new()
    }
}

impl StdioTransport {
    /// A transport on a system that can end a wait for input.
    pub fn new() -> (r: StdioTransport)
        ensures
            r.reader@.wf(),
            r.reader@.idle(),
            r.reader@.max_bytes == 8_388_608,
            r.read_timeout is None,
            r.bounded,
    {
        StdioTransport::on(true)
    }

    /// A transport on a system that can end a wait for input, or cannot.
    pub fn on(bounded: bool) -> (r: StdioTransport)
        ensures
            r.reader@.wf(),
            r.reader@.idle(),
            r.reader@.max_bytes == 8_388_608,
            r.read_timeout is None,
            r.bounded == bounded,
    {
        StdioTransport { reader: LineReader::new(), read_timeout: None, bounded }
    }

    /// There is nothing to close.
    pub fn close(&mut self) -> (r: Result<(), McpError>)
        ensures
            r == Ok::<(), McpError>(()),
            *final(self) == *old(self),
    {
        Ok(())
    }

    /// Output cannot be ended without ending the process, so nothing is.
    pub fn close_write(&mut self) -> (r: Result<(), McpError>)
        ensures
            r == Ok::<(), McpError>(()),
            *final(self) == *old(self),
    {
        Ok(())
    }

    /// Bounds how long a read may take, and says whether reads will keep to it.
    /// On a system that cannot end a wait for input they go on blocking.
    pub fn set_read_timeout(&mut self, timeout: Option<Span>) -> (r: Result<bool, McpError>)
        ensures
            r == Ok::<bool, McpError>(old(self).bounded),
            *final(self) == (StdioTransport { read_timeout: timeout, ..*old(self) }),
    {
        self.read_timeout = timeout;
        Ok(self.bounded)
    }

    /// Bounds how long a message may be, from the next one on.
    pub fn set_max_message_bytes(&mut self, max: usize)
        requires
            old(self).reader@.wf(),
        ensures
            final(self).read_timeout == old(self).read_timeout,
            final(self).bounded == old(self).bounded,
            final(self).reader@.wf(),
            final(self).reader@ == old(self).reader@.bounded_by(max),
    {
        self.reader.set_limit(max);
    }
}

/// How many milliseconds to wait for input. A wait that is shorter than one is
/// made one, so that it is a wait at all.
pub fn poll_millis(timeout: Span) -> (r: i32)
    requires
        timeout.wf(),
    ensures
        ({
            let millis = timeout.total() / 1_000_000;
            r == (if millis > i32::MAX {
                i32::MAX as int
            } else if millis == 0 && timeout.total() > 0 {
                1
            } else {
                millis
            })
        }),
{
    let part: u64 = (timeout.nanos / 1_000_000) as u64;
    if timeout.secs > 2_147_483 || (timeout.secs == 2_147_483 && part > 647) {
        return 2_147_483_647;
    }
    let millis: u64 = timeout.secs * 1000 + part;
    if millis == 0 && timeout.nanos > 0 {
        1
    } else {
        millis as i32
    }
}

/// What waiting for input came to.
#[derive(Debug, Clone, Copy, PartialEq, Eq, Structural)]
pub enum Readiness {
    /// Nothing came in time.
    TimedOut,
    /// There is something to read, or reason to look.
    Readable,
    /// It failed.
    Failed,
}

/// What waiting for input came to, by the number of ready streams and whether
/// a signal came in between. A signal is a reason to look: if the time is up,
/// that shows next.
pub fn poll_outcome(ready: i32, interrupted: bool) -> (r: Readiness)
    ensures
        r == (if ready == 0 {
            Readiness::TimedOut
        } else if ready > 0 || interrupted {
            Readiness::Readable
        } else {
            Readiness::Failed
        }),
{
    if ready == 0 {
        Readiness::TimedOut
    } else if ready > 0 || interrupted {
        Readiness::Readable
    } else {
        Readiness::Failed
    }
}

} // verus!
