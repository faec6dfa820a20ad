//! What happens on a connection.

use crate::calendar::Timestamp;
use crate::calls::Dispatch;
use crate::json::JsonView;
use crate::laws::words::lemma_methods_differ;
use crate::server::Server;
use crate::session::{after_read, Handling, LoopStep, Pump};
use crate::types::{
    JsonRpcMessage, McpError, McpErrorView, MessageView, RequestIdView, RequestView,
};
use vstd::prelude::*;
use vstd::string::*;

verus! {

/// Whether a request is answered with this outcome, as it would be on its own.
pub open spec fn as_on_its_own(
    before: Server,
    after: Server,
    request: RequestView,
    now: Timestamp,
    x: Result<JsonView, McpErrorView>,
) -> bool {
    forall|d: Dispatch|
        d is Done && crate::types::outcome_view(d->Done_0) == x
            ==> #[trigger] crate::dispatch::dispatch_step(before, after, request, now, d)
}

/// While `tasks/result` waits, `ping`, `tasks/get`, `tasks/list` and
/// `tasks/cancel` are answered at once, as they would be on their own. Every
/// other request is kept for its turn, behind what is kept already, and changes
/// nothing meanwhile.
pub proof fn law_four_requests_are_answered_meanwhile(
    before: Server,
    after: Server,
    request: RequestView,
    now: Timestamp,
    r: Pump,
)
    requires
        crate::session::pump_step(before, after, Ok(MessageView::Request(request)), now, r),
    ensures
        request.method == "ping"@ || request.method == "tasks/get"@ || request.method
            == "tasks/list"@ || request.method == "tasks/cancel"@ ==> after.broker == before.broker
            && (r matches Pump::Write(m) && exists|x: Result<JsonView, McpErrorView>|
            m@ == #[trigger] crate::types::answer(request.id, x) && as_on_its_own(
                before,
                after,
                request,
                now,
                x,
            )),
        request.method != "ping"@ && request.method != "tasks/get"@ && request.method
            != "tasks/list"@ && request.method != "tasks/cancel"@ ==> r is Again && after.tasks
            == before.tasks && after.broker@.deferred == before.broker@.deferred.push(
            MessageView::Request(request),
        ) && after.broker@.parked == before.broker@.parked && after.broker@.waiting
            == before.broker@.waiting && after.broker@.abandoned == before.broker@.abandoned,
{
    lemma_methods_differ();
    if r is Write && (request.method == "ping"@ || request.method == "tasks/get"@
        || request.method == "tasks/list"@ || request.method == "tasks/cancel"@) {
        let m = r->Write_0@;
        let x = choose|x: Result<JsonView, McpErrorView>|
            crate::session::inline_step(before, after, request, now, x) && m
                == #[trigger] crate::types::answer(request.id, x);
        assert(as_on_its_own(before, after, request, now, x));
    }
}

/// What is answered without waiting is answered alike by itself and from inside
/// a wait; of any other request it is not for here to say anything.
pub proof fn law_an_inline_answer_is_the_usual_one(
    before: Server,
    after: Server,
    request: RequestView,
    now: Timestamp,
    r: Option<MessageView>,
)
    requires
        crate::session::inline_reply(before, after, request, now, r),
    ensures
        r is Some <==> (request.method == "ping"@ || request.method == "tasks/get"@
            || request.method == "tasks/list"@ || request.method == "tasks/cancel"@),
        r is None ==> after == before,
        r matches Some(m) ==> exists|x: Result<JsonView, McpErrorView>|
            m == #[trigger] crate::types::answer(request.id, x) && as_on_its_own(
                before,
                after,
                request,
                now,
                x,
            ),
{
    lemma_methods_differ();
    if let Some(m) = r {
        let x = choose|x: Result<JsonView, McpErrorView>|
            crate::session::inline_step(before, after, request, now, x) && m
                == #[trigger] crate::types::answer(request.id, x);
        assert(as_on_its_own(before, after, request, now, x));
    }
}

/// While `tasks/result` waits, silence is waited out, a client that left is not
/// waited for but its task is, what makes no sense is complained of without an
/// id, a notification is kept for its turn, and any other failure ends the wait
/// as it is.
pub proof fn law_waiting_goes_on(
    before: Server,
    after: Server,
    read: Result<MessageView, McpErrorView>,
    now: Timestamp,
    r: Pump,
)
    requires
        crate::session::pump_step(before, after, read, now, r),
    ensures
        read is Err ==> after == before,
        read matches Err(McpErrorView::Timeout(_)) ==> r is Again,
        read == Err::<MessageView, McpErrorView>(McpErrorView::TransportClosed) ==> r is WaitOnTask,
        read matches Err(e) ==> (e is Json || e is InvalidMessage) ==> (r matches Pump::Write(m)
            && (m@ matches MessageView::Response(x) && x.id == RequestIdView::Null
            && x.result is None && x.error is Some)),
        read matches Err(e) ==> !(e is Json || e is InvalidMessage || e is Timeout
            || e is TransportClosed) ==> (r matches Pump::Fail(x) && x@ == e),
        read matches Ok(MessageView::Notification(n)) ==> r is Again && after.broker@.deferred
            == before.broker@.deferred.push(MessageView::Notification(n)) && after.tasks
            == before.tasks,
{
}

/// An answer is handed to whoever waits for it, and is otherwise nobody's: it is
/// kept unless it was given up, and nothing else changes. Notifications change
/// nothing. A request is answered under its own id.
pub proof fn law_messages_go_where_they_belong(
    before: Server,
    after: Server,
    message: MessageView,
    now: Timestamp,
    r: Handling,
)
    requires
        crate::session::message_step(before, after, message, now, r),
    ensures
        message matches MessageView::Request(q) ==> (r matches Handling::Request(id, d) && id@
            == q.id && crate::dispatch::dispatch_step(before, after, q, now, d)),
        message matches MessageView::Notification(_) ==> r is Nothing && after == before,
        message matches MessageView::Response(x) ==> after.tasks == before.tasks
            && after.client_capabilities == before.client_capabilities && after.log_level
            == before.log_level && after.broker@.deferred == before.broker@.deferred && ({
            let gone = before.broker@.abandoned.contains(x.id);
            let wanted = before.broker@.waiting.contains(x.id);
            &&& !gone && wanted <==> r is HandOver
            &&& r matches Handling::HandOver(y) ==> y@ == x
            &&& gone || wanted ==> after.broker@.parked == before.broker@.parked
            &&& !gone && !wanted ==> after.broker@.parked == before.broker@.parked.push(x)
        }),
{
}

/// The main loop handles what it read, ends quietly where the client left, reads
/// on after silence, complains of what makes no sense without ending, and ends
/// with any other failure.
pub proof fn law_the_loop_ends_for_cause(read: Result<JsonRpcMessage, McpError>, r: LoopStep)
    requires
        call_ensures(after_read, (read,), r),
    ensures
        read matches Ok(m) ==> r == LoopStep::Handle(m),
        read matches Err(e) ==> match e@ {
            McpErrorView::TransportClosed => r is Stop,
            McpErrorView::Timeout(_) => r is Again,
            McpErrorView::Json(_) | McpErrorView::InvalidMessage(_) => r matches LoopStep::Write(m)
                && (m@ matches MessageView::Response(x) && x.id == RequestIdView::Null
                && x.result is None && (x.error matches Some(y) && (y.code == -32700 || y.code
                == -32600))),
            _ => r matches LoopStep::Fail(x) && x@ == e@,
        },
{
}

} // verus!
