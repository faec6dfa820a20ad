//! Messages as lines, and waiting for them.

use crate::calendar::Span;
use crate::transport::line::{after_failure, frame, Arming, LineReaderView, ReadFailure};
use crate::transport::socket_stream::{after_shutdown, read_deadline, ShutdownOutcome};
use crate::transport::stdio::{poll_millis, poll_outcome, Readiness};
use crate::types::{JsonRpcMessage, McpError, McpErrorView, MessageView};
use vstd::prelude::*;
use vstd::string::*;
use vstd::utf8::*;

verus! {

/// A line is read as the message that its text is where it is no longer than may
/// be, its line break counted, and is text; otherwise it is refused.
pub proof fn law_a_line_is_its_message(line: Seq<u8>, max: int)
    ensures
        line.len() + 1 > max ==> (crate::transport::line::line_message(line, max) matches Err(
            McpErrorView::InvalidMessage(_),
        )),
        line.len() + 1 <= max && !valid_utf8(line.push(10)) ==> (
        crate::transport::line::line_message(line, max) matches Err(
            McpErrorView::InvalidMessage(_),
        )),
        line.len() + 1 <= max && valid_utf8(line.push(10)) ==> crate::transport::line::line_message(
            line,
            max,
        ) == crate::types::message_in(decode_utf8(line.push(10))),
{
}

/// A new ceiling holds from the next line on: at once between lines, and after
/// the line that has begun otherwise. It is one byte at least.
pub proof fn law_a_ceiling_holds_from_the_next_line(reader: LineReaderView, max: usize)
    requires
        reader.wf(),
    ensures
        ({
            let after = reader.bounded_by(max);
            let limit = if max == 0 {
                1
            } else {
                max as int
            };
            &&& reader.partial.len() == 0 && !reader.overflowed ==> after.max_bytes == limit
            &&& reader.partial.len() > 0 || reader.overflowed ==> after.max_bytes
                == reader.max_bytes
            &&& after.next_line().max_bytes == limit
            &&& after.partial == reader.partial && after.overflowed == reader.overflowed
                && after.armed == reader.armed
        }),
{
}

/// Before a read, a wait whose time is up ends; otherwise the source is given its
/// deadline, or has it taken off where it had one and none is wanted. What has
/// arrived of a line is kept either way.
pub proof fn law_a_deadline_is_set_before_a_read(
    before: LineReaderView,
    after: LineReaderView,
    timeout: Option<Span>,
    deadline: Option<Span>,
    now: Span,
    r: Result<Arming, McpErrorView>,
)
    requires
        crate::transport::line::ready_to_read(before, after, timeout, deadline, now, r),
    ensures
        r is Err <==> deadline is Some && deadline->0.total() <= now.total(),
        r matches Err(e) ==> e is Timeout && after == before,
        r matches Ok(a) ==> {
            &&& a == Arming::Apply <==> deadline is Some
            &&& a == Arming::Clear <==> deadline is None && before.armed
            &&& after.armed <==> deadline is Some
        },
        after.partial == before.partial && after.overflowed == before.overflowed,
        after.max_bytes == before.max_bytes && after.next_max == before.next_max,
{
}

/// A read that failed means that the time is up, that it is to be tried again,
/// that the peer is gone, or what it says.
pub proof fn law_failures_are_told_apart(
    failure: ReadFailure,
    timeout: Option<Span>,
    r: Option<McpError>,
)
    requires
        call_ensures(after_failure, (failure, timeout), r),
    ensures
        failure is Expired ==> r is Some && r->0@ is Timeout,
        failure is Interrupted <==> r is None,
        failure is Disconnected ==> r is Some && r->0@ == McpErrorView::TransportClosed,
        failure matches ReadFailure::Other(why) ==> r is Some && r->0@ == McpErrorView::Io(why@),
{
}

/// A message goes out as its text and one line break, which is the only one, and
/// is read back by whoever accepts a line that long.
pub proof fn law_a_message_is_one_line(message: JsonRpcMessage, r: Vec<u8>)
    requires
        call_ensures(frame, (&message,), r),
    ensures
        r@.len() > 0 && r@.last() == 10,
        forall|k: int| 0 <= k < r@.len() - 1 ==> (#[trigger] r@[k]) != 10,
        r@.drop_last() == encode_utf8(crate::types::message_text(message@)),
        crate::types::sound(message@) ==> crate::transport::line::line_message(
            r@.drop_last(),
            r@.len() as int,
        ) == Ok::<MessageView, McpErrorView>(message@),
{
    crate::bytes::lemma_byte_from(r@, 10, 0);
    assert(r@.drop_last() =~= encode_utf8(crate::types::message_text(message@)));
}

/// A wait for input is given in milliseconds, rounded down, but never to none
/// where there is time, and never to more than can be said.
pub proof fn law_waits_are_given_in_milliseconds(t: Span, r: i32)
    requires
        t.wf(),
        call_ensures(poll_millis, (t,), r),
    ensures
        r >= 0,
        r == 0 <==> t.total() == 0,
        1_000_000 <= t.total() <= 2_147_483_647 * 1_000_000 ==> r * 1_000_000 <= t.total() < (r + 1)
            * 1_000_000,
        0 < t.total() < 1_000_000 ==> r == 1,
        t.total() > 2_147_483_647 * 1_000_000 ==> r == i32::MAX,
{
}

/// Waiting for input ends with the time, with input or a reason to look, or in
/// failure.
pub proof fn law_waiting_for_input_ends(ready: i32, interrupted: bool, r: Readiness)
    requires
        call_ensures(poll_outcome, (ready, interrupted), r),
    ensures
        r == Readiness::TimedOut <==> ready == 0,
        r == Readiness::Readable <==> ready > 0 || (ready < 0 && interrupted),
        r == Readiness::Failed <==> ready < 0 && !interrupted,
{
}

/// A read of a socket is given what is left of its time, and the shortest time
/// there is where none is left, but never forever.
pub proof fn law_a_socket_is_given_what_is_left(
    now: Span,
    deadline: Option<Span>,
    r: Option<Span>,
)
    requires
        now.wf(),
        deadline matches Some(d) ==> d.wf(),
        call_ensures(read_deadline, (now, deadline), r),
    ensures
        r is Some <==> deadline is Some,
        r matches Some(t) ==> t.total() >= 1,
        r matches Some(t) ==> deadline->0.total() > now.total() ==> t.total()
            == deadline->0.total() - now.total(),
        r matches Some(t) ==> deadline->0.total() <= now.total() ==> t.total() == 1,
{
}

/// Shutting down what is down already is no failure.
pub proof fn law_what_is_down_is_down(outcome: ShutdownOutcome, r: Result<(), McpError>)
    requires
        call_ensures(after_shutdown, (outcome,), r),
    ensures
        r is Err <==> outcome is Failed,
        outcome matches ShutdownOutcome::Failed(why) ==> r->Err_0@ == McpErrorView::Io(why@),
{
}

/// A server that is to use TLS starts only with a chain that has certificates in
/// it and a key, both of which could be read; the chain is looked at first.
pub proof fn law_tls_needs_a_chain_and_a_key(
    chain: Result<Seq<Seq<u8>>, Seq<char>>,
    key: Result<Option<crate::transport::tls::PrivateKeyView>, Seq<char>>,
)
    ensures
        crate::transport::tls::material_fault(chain, key) is None <==> chain is Ok
            && chain->Ok_0.len() > 0 && key is Ok && key->Ok_0 is Some,
        chain matches Err(e) ==> (crate::transport::tls::material_fault(chain, key) matches Some(
            words,
        ) && crate::laws::messages::ends_in(words, e)),
        chain is Ok && chain->Ok_0.len() > 0 && key is Err ==> (
        crate::transport::tls::material_fault(chain, key) matches Some(words)
            && crate::laws::messages::ends_in(words, key->Err_0)),
{
    if let Err(e) = chain {
        let w = "unreadable certificate chain: "@ + e;
        assert(w.skip(w.len() - e.len()) =~= e);
    }
    if let Err(e) = key {
        let w = "unreadable private key: "@ + e;
        assert(w.skip(w.len() - e.len()) =~= e);
    }
}

} // verus!
