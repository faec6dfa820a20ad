//! One client's session: what is done with each message, and with each
//! failure to read one.

use crate::broker::{BrokerView, Delivery, Fate};
use crate::calendar::Timestamp;
use crate::calls::Dispatch;
use crate::json::{empty_object, Json, JsonView};
use crate::server::Server;
use crate::text::same_text;
use crate::types::{
    JsonRpcMessage, JsonRpcRequest, JsonRpcResponse, McpError, McpErrorView, MessageView, RequestId,
    RequestIdView, RequestView,
};
use vstd::prelude::*;
use vstd::string::*;

verus! {

/// Whether a failure to read is about what the peer sent, and not about the
/// connection.
pub open spec fn malformed(e: McpErrorView) -> bool {
    e is Json || e is InvalidMessage
}

/// Whether a failure to read is about what the peer sent, and not about the
/// connection.
pub fn is_malformed(e: &McpError) -> (r: bool)
    ensures
        r == malformed(e@),
{
    match e {
        McpError::Json(_) | McpError::InvalidMessage(_) => true,
        _ => false,
    }
}

/// The answer to what could not be read. Its id could not be read either.
pub open spec fn complaint(e: McpErrorView) -> MessageView {
    crate::types::answer(RequestIdView::Null, Err(e))
}

fn complain(e: &McpError) -> (r: JsonRpcMessage)
    ensures
        r@ == complaint(e@),
{
    JsonRpcMessage::error(RequestId::Null, e.to_jsonrpc_error())
}

/// What is to be done about a message.
#[derive(Debug)]
pub enum Handling {
    /// It is a request: answer it as decided.
    Request(RequestId, Dispatch),
    /// It is the answer that somebody waits for.
    HandOver(JsonRpcResponse),
    /// Nothing.
    Nothing,
}

/// What the main loop does next.
#[derive(Debug)]
pub enum LoopStep {
    /// Handle a message.
    Handle(JsonRpcMessage),
    /// Send a message, and read on.
    Write(JsonRpcMessage),
    /// Read on.
    Again,
    /// End the session: the client is gone.
    Stop,
    /// End the session with an error.
    Fail(McpError),
}

/// What the main loop does with what it read. Garbage is answered, and ends
/// nothing.
pub fn after_read(read: Result<JsonRpcMessage, McpError>) -> (r: LoopStep)
    ensures
        match read {
            Ok(m) => r == LoopStep::Handle(m),
            Err(e) => match e@ {
                McpErrorView::TransportClosed => r is Stop,
                McpErrorView::Timeout(_) => r is Again,
                _ => if malformed(e@) {
                    r matches LoopStep::Write(m) && m@ == complaint(e@)
                } else {
                    r matches LoopStep::Fail(x) && x@ == e@
                },
            },
        },
{
    match read {
        Ok(m) => LoopStep::Handle(m),
        Err(McpError::TransportClosed) => LoopStep::Stop,
        Err(McpError::Timeout(_)) => LoopStep::Again,
        Err(e) => if is_malformed(&e) {
            LoopStep::Write(complain(&e))
        } else {
            LoopStep::Fail(e)
        },
    }
}

/// Whether a request is answered while another one waits for a task: those
/// that look at tasks or give them up, and those that ask for a sign of life.
pub open spec fn answered_inline(method: Seq<char>) -> bool {
    method == "ping"@ || method == "tasks/get"@ || method == "tasks/list"@ || method
        == "tasks/cancel"@
}

/// What such a request does.
pub open spec fn inline_step(
    before: Server,
    after: Server,
    request: RequestView,
    now: Timestamp,
    r: Result<JsonView, McpErrorView>,
) -> bool {
    if request.method == "ping"@ {
        after == before && r == Ok::<JsonView, McpErrorView>(JsonView::Object(Seq::empty()))
    } else if request.method == "tasks/get"@ {
        crate::task_requests::get_step(before, after, request.params, now, r)
    } else if request.method == "tasks/list"@ {
        crate::task_requests::list_step(before, after, request.params, now, r)
    } else {
        crate::task_requests::cancel_step(before, after, request.params, now, r)
    }
}

/// What to do next while waiting for a task.
#[derive(Debug)]
pub enum Pump {
    /// Look at the task again.
    Again,
    /// Send a message first.
    Write(JsonRpcMessage),
    /// Hand an answer to whoever waits for it first.
    HandOver(JsonRpcResponse),
    /// Wait for the task without reading: the client is gone, but its task is
    /// not.
    WaitOnTask,
    /// End the wait with an error.
    Fail(McpError),
}

/// What was read, or why nothing was.
pub open spec fn read_view(r: Result<JsonRpcMessage, McpError>) -> Result<
    MessageView,
    McpErrorView,
> {
    match r {
        Ok(m) => Ok(m@),
        Err(e) => Err(e@),
    }
}

/// The message that is sent, where there is one.
pub open spec fn sent(m: Option<JsonRpcMessage>) -> Option<MessageView> {
    match m {
        Some(m) => Some(m@),
        None => None,
    }
}

/// What is done about a message.
pub open spec fn message_step(
    before: Server,
    after: Server,
    message: MessageView,
    now: Timestamp,
    r: Handling,
) -> bool {
    match message {
        MessageView::Request(request) => r matches Handling::Request(id, d) && id@ == request.id
            && crate::dispatch::dispatch_step(before, after, request, now, d),
        MessageView::Notification(_) => r is Nothing && after == before,
        MessageView::Response(answer) => {
            &&& after.offers_as(&before)
            &&& after.session_as(&before)
            &&& after.tasks == before.tasks
            &&& after.broker@ == before.broker@.delivered(answer)
            &&& match before.broker@.fate(answer.id) {
                Fate::HandedOver => r matches Handling::HandOver(x) && x@ == answer,
                _ => r is Nothing,
            }
        },
    }
}

/// What is answered while a request waits for a task.
pub open spec fn inline_reply(
    before: Server,
    after: Server,
    request: RequestView,
    now: Timestamp,
    r: Option<MessageView>,
) -> bool {
    match r {
        Some(m) => answered_inline(request.method) && exists|x: Result<JsonView, McpErrorView>|
            inline_step(before, after, request, now, x) && m == #[trigger] crate::types::answer(
                request.id,
                x,
            ),
        None => !answered_inline(request.method) && after == before,
    }
}

/// What is done with what was read while waiting for a task.
pub open spec fn pump_step(
    before: Server,
    after: Server,
    read: Result<MessageView, McpErrorView>,
    now: Timestamp,
    r: Pump,
) -> bool {
    match read {
        Err(e) => after == before && match e {
            McpErrorView::Timeout(_) => r is Again,
            McpErrorView::TransportClosed => r is WaitOnTask,
            _ => if malformed(e) {
                r matches Pump::Write(m) && m@ == complaint(e)
            } else {
                r matches Pump::Fail(x) && x@ == e
            },
        },
        Ok(MessageView::Response(answer)) => {
            &&& after.tasks == before.tasks
            &&& after.broker@ == before.broker@.delivered(answer)
            &&& match before.broker@.fate(answer.id) {
                Fate::HandedOver => r matches Pump::HandOver(x) && x@ == answer,
                _ => r is Again,
            }
        },
        Ok(MessageView::Request(request)) => if answered_inline(request.method) {
            &&& after.broker == before.broker
            &&& r matches Pump::Write(m) && inline_reply(before, after, request, now, Some(m@))
        } else {
            &&& r is Again
            &&& after.tasks == before.tasks
            &&& after.broker@ == (BrokerView {
                deferred: before.broker@.deferred.push(MessageView::Request(request)),
                ..before.broker@
            })
        },
        Ok(MessageView::Notification(n)) => {
            &&& r is Again
            &&& after.tasks == before.tasks
            &&& after.broker@ == (BrokerView {
                deferred: before.broker@.deferred.push(MessageView::Notification(n)),
                ..before.broker@
            })
        },
    }
}

impl Server {
    /// What is done about a message.
    pub fn handle_message(&mut self, message: JsonRpcMessage, now: Timestamp) -> (r: Handling)
        requires
            old(self).wf(),
        ensures
            final(self).wf(),
            message_step(*old(self), *final(self), message@, now, r),
    {
        match message {
            JsonRpcMessage::Request(request) => {
                let dispatch = self.dispatch_request(&request, now);
                Handling::Request(request.id, dispatch)
            },
            JsonRpcMessage::Notification(_) => Handling::Nothing,
            JsonRpcMessage::Response(answer) => match self.broker.deliver(answer) {
                Delivery::HandedOver(x) => Handling::HandOver(x),
                _ => Handling::Nothing,
            },
        }
    }

    /// Answers a request that can be answered while another one waits for a
    /// task. Everything else has to wait for its turn.
    pub fn answer_inline(&mut self, request: &JsonRpcRequest, now: Timestamp) -> (r: Option<
        JsonRpcMessage,
    >)
        requires
            old(self).wf(),
        ensures
            final(self).wf(),
            final(self).same_but_tasks(old(self)),
            inline_reply(*old(self), *final(self), request@, now, sent(r)),
    {
        let method = request.method.as_str();
        let outcome = if same_text(method, "ping") {
            Ok(empty_object())
        } else if same_text(method, "tasks/get") {
            self.handle_task_get(&request.params, now)
        } else if same_text(method, "tasks/list") {
            self.handle_task_list(&request.params, now)
        } else if same_text(method, "tasks/cancel") {
            self.handle_task_cancel(&request.params, now)
        } else {
            return None;
        };
        let ghost x = crate::types::outcome_view(outcome);
        assert(inline_step(*old(self), *self, request@, now, x));
        Some(JsonRpcMessage::answer(request.id.copy(), outcome))
    }

    /// What is done with what was read while waiting for a task. A message that
    /// has to wait for its turn is kept for the main loop.
    pub fn pump(&mut self, read: Result<JsonRpcMessage, McpError>, now: Timestamp) -> (r: Pump)
        requires
            old(self).wf(),
        ensures
            final(self).wf(),
            final(self).offers_as(old(self)),
            final(self).session_as(old(self)),
            pump_step(*old(self), *final(self), read_view(read), now, r),
    {
        match read {
            Err(McpError::Timeout(_)) => Pump::Again,
            Err(McpError::TransportClosed) => Pump::WaitOnTask,
            Err(e) => if is_malformed(&e) {
                Pump::Write(complain(&e))
            } else {
                Pump::Fail(e)
            },
            Ok(JsonRpcMessage::Response(answer)) => match self.broker.deliver(answer) {
                Delivery::HandedOver(x) => Pump::HandOver(x),
                _ => Pump::Again,
            },
            Ok(JsonRpcMessage::Request(request)) => match self.answer_inline(&request, now) {
                Some(m) => Pump::Write(m),
                None => {
                    self.broker.defer(JsonRpcMessage::Request(request));
                    Pump::Again
                },
            },
            Ok(other) => {
                self.broker.defer(other);
                Pump::Again
            },
        }
    }
}

/// Nothing that a peer sends ends a session: only its leaving does, or the
/// connection's failing.
pub proof fn law_garbage_ends_no_session(e: McpErrorView)
    requires
        malformed(e),
    ensures
        !(e is TransportClosed),
        complaint(e) matches MessageView::Response(r) && r.id == RequestIdView::Null && (
        r.error matches Some(x) && (x.code == -32700 || x.code == -32600)),
{
}

/// What is answered while a request waits for a task never waits itself, never
/// runs a tool, and changes nothing but tasks.
pub proof fn law_waits_do_not_nest(method: Seq<char>)
    requires
        answered_inline(method),
    ensures
        method != "tasks/result"@,
        method != "tools/call"@,
        method != "initialize"@,
        method != "logging/setLevel"@,
{
    reveal_strlit("tasks/result");
    reveal_strlit("tools/call");
    reveal_strlit("initialize");
    reveal_strlit("logging/setLevel");
    reveal_strlit("ping");
    reveal_strlit("tasks/get");
    reveal_strlit("tasks/list");
    reveal_strlit("tasks/cancel");
    assert("tasks/result"@.len() == 12 && "tasks/cancel"@.len() == 12);
    assert("tasks/result"@[6] == 'r' && "tasks/cancel"@[6] == 'c');
    assert("tools/call"@.len() == 10 && "tasks/list"@.len() == 10);
    assert("tools/call"@[1] == 'o' && "tasks/list"@[1] == 'a');
    assert("initialize"@.len() == 10 && "initialize"@[0] == 'i' && "tasks/list"@[0] == 't');
    assert("tasks/get"@.len() == 9 && "ping"@.len() == 4 && "logging/setLevel"@.len() == 16);
}

} // verus!
