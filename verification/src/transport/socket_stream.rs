//! Messages over a connected socket.

use crate::calendar::{time_left, Span};
use crate::types::{McpError, McpErrorView};
use vstd::prelude::*;

verus! {

/// The time that a read of a socket is given. A socket takes no time at all to
/// mean forever, so a deadline that has passed is given the shortest time
/// there is.
pub fn read_deadline(now: Span, deadline: Option<Span>) -> (r: Option<Span>)
    requires
        now.wf(),
        deadline matches Some(d) ==> d.wf(),
    ensures
        match deadline {
            None => r is None,
            Some(d) => r matches Some(t) && t.wf() && t.total() == if d.total() - now.total() >= 1 {
                d.total() - now.total()
            } else {
                1
            },
        },
{
    match deadline {
        None => None,
        Some(d) => match time_left(now, d) {
            Some(left) => Some(left),
            None => Some(Span { secs: 0, nanos: 1 }),
        },
    }
}

/// What shutting a socket down came to.
#[derive(Debug)]
pub enum ShutdownOutcome {
    Done,
    /// The peer was gone already.
    NotConnected,
    /// It failed, in these words.
    Failed(String),
}

/// Whether shutting a socket down is to be reported. One that is down already
/// is down.
pub fn after_shutdown(outcome: ShutdownOutcome) -> (r: Result<(), McpError>)
    ensures
        match outcome {
            ShutdownOutcome::Failed(why) => r matches Err(e) && e@ == McpErrorView::Io(why@),
            _ => r is Ok,
        },
{
    match outcome {
        ShutdownOutcome::Done | ShutdownOutcome::NotConnected => Ok(()),
        ShutdownOutcome::Failed(why) => Err(McpError::Io(why)),
    }
}

} // verus!
