//! What a tool can do while it runs.
//!
//! A tool logs, reports progress, and asks the client things. Here it is
//! decided what is said, to whom, and what an answer is; the messages are
//! carried by whoever holds the transport.

use crate::broker::{into_result, BrokerView, Delivery, Fate, RequestBroker};
use crate::calendar::{describe_span, time_left, Span, Timestamp};
use crate::capabilities::ClientCapabilities;
use crate::json::{
    empty_object, find_field, object, push_field, push_maybe, set_field, text, Json, JsonView,
    Number,
};
use crate::log::{LogLevel, StderrLogging};
use crate::tasks::{task_reference_json, TaskStatus, TaskStore, RELATED_TASK};
use crate::text::{join, join3, same_text};
use crate::types::{
    JsonRpcMessage, JsonRpcResponse, McpError, McpErrorView, MessageView, NotificationView,
    RequestId, RequestIdView, RequestView,
};
use vstd::prelude::*;
use vstd::string::*;

verus! {

/// How the answer to a request of the server's own is come by.
#[derive(Debug, Clone, Copy, PartialEq, Eq, Structural)]
pub enum RequestMode {
    /// By reading the transport: for the thread that would be reading anyway.
    Direct,
    /// From whoever reads the transport: for task workers.
    Delegated,
    /// Not at all: nobody would read it.
    Forbidden,
}

/// What a tool can do while it runs.
#[derive(Debug)]
pub struct ToolEnv {
    /// Whether there is anything to send messages through.
    pub has_transport: bool,
    /// The URIs of the server's resources.
    pub resources: Vec<String>,
    /// The least severe log record that the client wants.
    pub log_level: LogLevel,
    /// What becomes of log records that the client does not get.
    pub stderr_logging: StderrLogging,
    /// The name of the logger where a record names none.
    pub logger: String,
    /// What the client said it can do.
    pub client_capabilities: ClientCapabilities,
    /// How answers are come by.
    pub mode: RequestMode,
    /// How long to wait for an answer.
    pub request_timeout: Option<Span>,
    /// The task that the tool runs in.
    pub task_id: Option<String>,
}

/// The view of an optional task.
pub open spec fn optional_task(id: Option<String>) -> Option<Seq<char>> {
    match id {
        Some(id) => Some(id@),
        None => None,
    }
}

/// The view of an optional number, as JSON.
pub open spec fn optional_number(n: Option<Number>) -> Option<JsonView> {
    match n {
        Some(n) => Some(JsonView::Number(n@)),
        None => None,
    }
}

/// A `_meta` object with the task in it. What is there and no object is left
/// alone.
pub open spec fn tagged_meta(meta: JsonView, id: Seq<char>) -> JsonView {
    match meta {
        JsonView::Object(f) => JsonView::Object(
            crate::json::with_field(f, RELATED_TASK@, crate::tasks::task_reference(id)),
        ),
        other => other,
    }
}

/// Parameters that say which task they belong to. Outside a task they stay as
/// they are, and so do parameters that are no object.
pub open spec fn tagged(task: Option<Seq<char>>, params: Option<JsonView>) -> Option<JsonView> {
    match task {
        None => params,
        Some(id) => {
            let p = match params {
                Some(p) => p,
                None => JsonView::Object(Seq::empty()),
            };
            match p {
                JsonView::Object(f) => {
                    let meta = match crate::json::field(f, "_meta"@) {
                        Some(m) => m,
                        None => JsonView::Object(Seq::empty()),
                    };
                    Some(
                        JsonView::Object(
                            crate::json::with_field(f, "_meta"@, tagged_meta(meta, id)),
                        ),
                    )
                },
                other => Some(other),
            }
        },
    }
}

/// The parameters of a log record.
pub open spec fn log_params(level: LogLevel, logger: Seq<char>, data: JsonView) -> JsonView {
    JsonView::Object(
        seq![
            ("level"@, JsonView::Text(level.name())),
            ("logger"@, JsonView::Text(logger)),
            ("data"@, data),
        ],
    )
}

/// A log record on stderr. Text is written as it is.
pub open spec fn log_line(level: LogLevel, logger: Seq<char>, data: JsonView) -> Seq<char> {
    "["@ + logger + "] "@ + level.name() + ": "@ + match data {
        JsonView::Text(s) => s,
        other => crate::json::json_written(other),
    }
}

/// An id in words.
pub open spec fn id_words(id: RequestIdView) -> Seq<char> {
    match id {
        RequestIdView::Number(n) => "Number("@ + crate::json::json_written(
            crate::types::integer(n),
        ) + ")"@,
        RequestIdView::String(s) => "String(\""@ + s + "\")"@,
        RequestIdView::Null => "Null"@,
    }
}

/// An id in words.
fn describe_id(id: &RequestId) -> (r: String)
    ensures
        r@ == id_words(id@),
{
    match id {
        RequestId::Number(_) => join3(
            "Number(",
            crate::json::write(&id.to_json()).as_str(),
            ")",
        ),
        RequestId::String(s) => join3("String(\"", s.as_str(), "\")"),
        RequestId::Null => "Null".to_owned(),
    }
}

/// A request that is to go out.
#[derive(Debug)]
pub struct PendingRequest {
    pub id: RequestId,
    pub message: JsonRpcMessage,
    /// Whether the answer comes from whoever reads the transport.
    pub delegated: bool,
    /// How long to wait.
    pub timeout: Option<Span>,
}

/// The parameters that tell a client to stop working on a request.
pub open spec fn cancel_params(id: RequestIdView, timeout: Option<Span>) -> JsonView {
    let waited = match timeout {
        Some(t) => t,
        None => Span { secs: 0, nanos: 0 },
    };
    JsonView::Object(
        seq![
            ("requestId"@, id.json()),
            (
                "reason"@,
                JsonView::Text("no response within "@ + crate::calendar::span_text(waited)),
            ),
        ],
    )
}

/// The notification that tells a client to stop working on a request.
pub open spec fn cancellation(env: ToolEnv, id: RequestIdView, timeout: Option<Span>) -> MessageView {
    MessageView::Notification(
        NotificationView {
            method: "notifications/cancelled"@,
            params: tagged(optional_task(env.task_id), Some(cancel_params(id, timeout))),
        },
    )
}

/// The refusal of a request that cannot be made.
pub open spec fn request_refusal(env: ToolEnv, method: Seq<char>) -> Option<McpErrorView> {
    if env.mode == RequestMode::Forbidden {
        Some(
            McpErrorView::Internal(
                "`"@ + method
                    + "` needs a response from the client, which is not possible here: nothing is reading the transport on this thread"@,
            ),
        )
    } else if !env.has_transport {
        Some(
            McpErrorView::Internal("`"@ + method + "` needs a transport to reach the client"@),
        )
    } else {
        None
    }
}

impl ToolEnv {
    /// Says which task outgoing parameters belong to.
    pub fn tag_with_task(&self, params: Option<Json>) -> (r: Option<Json>)
        ensures
            crate::json::optional(r) == tagged(
                optional_task(self.task_id),
                crate::json::optional(params),
            ),
    {
        broadcast use crate::json::lemma_object_view;

        let id = match &self.task_id {
            None => {
                return params;
            },
            Some(id) => id,
        };
        let p = match params {
            Some(p) => p,
            None => empty_object(),
        };
        match p {
            Json::Object(f) => {
                let mut f = f;
                let ghost before = crate::json::fields(f@);
                let at = find_field(&f, "_meta");
                let meta = if at < f.len() {
                    assert(before[at as int] == (f@[at as int].0@, f@[at as int].1@));
                    f[at].1.copy()
                } else {
                    empty_object()
                };
                let new_meta = match meta {
                    Json::Object(m) => {
                        let mut m = m;
                        set_field(&mut m, RELATED_TASK, task_reference_json(id.as_str()));
                        Json::Object(m)
                    },
                    other => other,
                };
                set_field(&mut f, "_meta", new_meta);
                Some(Json::Object(f))
            },
            other => Some(other),
        }
    }

    /// A notification to the client, or nothing where there is no way to it.
    pub fn send_notification(&self, method: &str, params: Option<Json>) -> (r: Option<
        JsonRpcMessage,
    >)
        ensures
            match r {
                Some(m) => self.has_transport && m@ == MessageView::Notification(
                    NotificationView {
                        method: method@,
                        params: tagged(
                            optional_task(self.task_id),
                            crate::json::optional(params),
                        ),
                    },
                ),
                None => !self.has_transport,
            },
    {
        if self.has_transport {
            Some(JsonRpcMessage::notification(method, self.tag_with_task(params)))
        } else {
            None
        }
    }

    /// Whether a record of this level reaches the client.
    pub fn log_enabled(&self, level: LogLevel) -> (r: bool)
        ensures
            r == (level.severity() >= self.log_level.severity()),
    {
        level.at_least(self.log_level)
    }

    /// The least severe level that the client wants.
    pub fn log_level(&self) -> (r: LogLevel)
        ensures
            r == self.log_level,
    {
        self.log_level
    }

    /// The notification that brings a log record to the client, where the
    /// client wants it and can be reached.
    pub fn log_data(&self, level: LogLevel, logger: Option<&str>, data: &Json) -> (r: Option<
        JsonRpcMessage,
    >)
        ensures
            ({
                let name = match logger {
                    Some(name) => name@,
                    None => self.logger@,
                };
                match r {
                    Some(m) => level.severity() >= self.log_level.severity() && self.has_transport
                        && m@ == MessageView::Notification(
                        NotificationView {
                            method: "notifications/message"@,
                            params: tagged(
                                optional_task(self.task_id),
                                Some(log_params(level, name, data@)),
                            ),
                        },
                    ),
                    None => level.severity() < self.log_level.severity() || !self.has_transport,
                }
            }),
    {
        if !level.at_least(self.log_level) {
            return None;
        }
        let name = match logger {
            Some(name) => name,
            None => self.logger.as_str(),
        };
        let mut v: Vec<(String, Json)> = Vec::new();
        assert(crate::json::fields(v@) =~= Seq::empty());
        push_field(&mut v, "level", text(level.as_str()));
        push_field(&mut v, "logger", text(name));
        push_field(&mut v, "data", data.copy());
        assert(crate::json::fields(v@) =~= log_params(level, name@, data@)->Object_0);
        self.send_notification("notifications/message", Some(object(v)))
    }

    /// The notification that brings a line of text to the client.
    pub fn log(&self, level: LogLevel, message: &str) -> (r: Option<JsonRpcMessage>)
        ensures
            match r {
                Some(m) => level.severity() >= self.log_level.severity() && self.has_transport
                    && m@ == MessageView::Notification(
                    NotificationView {
                        method: "notifications/message"@,
                        params: tagged(
                            optional_task(self.task_id),
                            Some(log_params(level, self.logger@, JsonView::Text(message@))),
                        ),
                    },
                ),
                None => level.severity() < self.log_level.severity() || !self.has_transport,
            },
    {
        self.log_data(level, None, &text(message))
    }

    /// The line that a log record is on stderr, where it goes there. Whether
    /// the client got the record is known by then.
    pub fn log_to_stderr(
        &self,
        level: LogLevel,
        logger: Option<&str>,
        data: &Json,
        delivered: bool,
    ) -> (r: Option<String>)
        ensures
            ({
                let name = match logger {
                    Some(name) => name@,
                    None => self.logger@,
                };
                match r {
                    Some(line) => self.stderr_logging.writes(delivered) && line@ == log_line(
                        level,
                        name,
                        data@,
                    ),
                    None => !self.stderr_logging.writes(delivered),
                }
            }),
    {
        if !self.stderr_logging.writes_stderr(delivered) {
            return None;
        }
        let name = match logger {
            Some(name) => name,
            None => self.logger.as_str(),
        };
        let mut line = join3("[", name, "] ");
        line.append(level.as_str());
        line.append(": ");
        match data {
            Json::Text(s) => {
                line.append(s.as_str());
            },
            other => {
                line.append(crate::json::write(other).as_str());
            },
        }
        Some(line)
    }

    /// The notification of how far a long operation has come.
    pub fn send_progress(&self, token: &str, progress: Number, total: Option<Number>) -> (r: Option<
        JsonRpcMessage,
    >)
        ensures
            match r {
                Some(m) => self.has_transport && m@ == MessageView::Notification(
                    NotificationView {
                        method: "notifications/progress"@,
                        params: tagged(
                            optional_task(self.task_id),
                            Some(
                                JsonView::Object(
                                    seq![
                                        ("progressToken"@, JsonView::Text(token@)),
                                        ("progress"@, JsonView::Number(progress@)),
                                    ] + crate::json::maybe(
                                        "total"@,
                                        optional_number(total),
                                    ),
                                ),
                            ),
                        ),
                    },
                ),
                None => !self.has_transport,
            },
    {
        let ghost end = optional_number(total);
        let mut v: Vec<(String, Json)> = Vec::new();
        assert(crate::json::fields(v@) =~= Seq::empty());
        push_field(&mut v, "progressToken", text(token));
        push_field(&mut v, "progress", Json::Number(progress));
        let t = match total {
            Some(t) => Some(Json::Number(t)),
            None => None,
        };
        assert(crate::json::optional(t) == end);
        push_maybe(&mut v, "total", t);
        assert(crate::json::fields(v@) =~= seq![
            ("progressToken"@, JsonView::Text(token@)),
            ("progress"@, JsonView::Number(progress@)),
        ] + crate::json::maybe("total"@, end));
        self.send_notification("notifications/progress", Some(object(v)))
    }

    /// The URIs of the server's resources.
    pub fn list_resources(&self) -> (r: &Vec<String>)
        ensures
            *r == self.resources,
    {
        &self.resources
    }

    /// Which of the server's resources this is, if any.
    pub fn get_resource(&self, uri: &str) -> (r: Option<usize>)
        ensures
            match r {
                Some(i) => i == crate::server::name_at(
                    crate::text::texts(self.resources@),
                    uri@,
                    0,
                ) && i < self.resources@.len() && self.resources@[i as int]@ == uri@,
                None => forall|k: int|
                    0 <= k < self.resources@.len() ==> (#[trigger] self.resources@[k])@ != uri@,
            },
    {
        let ghost all = crate::text::texts(self.resources@);
        let mut i: usize = 0;
        while i < self.resources.len()
            invariant
                i <= self.resources@.len(),
                all == crate::text::texts(self.resources@),
                crate::server::name_at(all, uri@, 0) == crate::server::name_at(all, uri@, i as int),
                forall|k: int| 0 <= k < i ==> (#[trigger] self.resources@[k])@ != uri@,
            decreases self.resources@.len() - i,
        {
            assert(all[i as int] == self.resources@[i as int]@);
            if same_text(self.resources[i].as_str(), uri) {
                return Some(i);
            }
            i = i + 1;
        }
        None
    }

    /// Whether the tool runs in a task that was cancelled. What it produces is
    /// not wanted any more.
    pub fn is_cancelled(&self, tasks: &TaskStore) -> (r: bool)
        ensures
            r == (self.task_id matches Some(id) && crate::tasks::to_stop(
                tasks@,
                tasks.stopping(),
                id@,
            )),
    {
        match &self.task_id {
            Some(id) => tasks.is_cancelled(id.as_str()),
            None => false,
        }
    }

    /// Moves the task that the tool runs in, if any, between working and
    /// waiting for the client, and says whether it moved.
    pub fn set_task_status(&self, tasks: &mut TaskStore, status: TaskStatus, now: Timestamp) -> (r:
        Result<bool, McpError>)
        requires
            old(tasks).wf(),
        ensures
            final(tasks).wf(),
            final(tasks).limits() == old(tasks).limits(),
            final(tasks).stopping() == old(tasks).stopping(),
            match self.task_id {
                None => r == Ok::<bool, McpError>(false) && final(tasks)@ == old(tasks)@,
                Some(id) => crate::tasks::status_step(
                    old(tasks)@,
                    final(tasks)@,
                    id@,
                    status,
                    now,
                    crate::tasks::moved_view(r),
                ),
            },
    {
        match &self.task_id {
            Some(id) => tasks.set_status(id.as_str(), status, now),
            None => Ok(false),
        }
    }

    /// Whether the tool runs in a task.
    pub fn is_task(&self) -> (r: bool)
        ensures
            r == (self.task_id is Some),
    {
        self.task_id.is_some()
    }

    /// The task that the tool runs in.
    pub fn task_id(&self) -> (r: Option<&str>)
        ensures
            match r {
                Some(id) => optional_task(self.task_id) == Some(id@),
                None => self.task_id is None,
            },
    {
        match &self.task_id {
            Some(id) => Some(id.as_str()),
            None => None,
        }
    }

    /// What the client said it can do.
    pub fn client_capabilities(&self) -> (r: &ClientCapabilities)
        ensures
            *r == self.client_capabilities,
    {
        &self.client_capabilities
    }

    /// Begins a request to the client: gives it an id, and notes that its
    /// answer is waited for where somebody else reads it. Refused where no
    /// answer could be come by.
    pub fn send_request_with_timeout(
        &self,
        broker: &mut RequestBroker,
        method: &str,
        params: Json,
        timeout: Option<Span>,
    ) -> (r: Result<PendingRequest, McpError>)
        requires
            old(broker)@.issued < u64::MAX,
        ensures
            match r {
                Err(e) => request_refusal(*self, method@) == Some(e@) && final(broker)@
                    == old(broker)@,
                Ok(pending) => {
                    &&& request_refusal(*self, method@) is None
                    &&& pending.id@ == crate::broker::request_id(old(broker)@.issued + 1)
                    &&& pending.message@ == MessageView::Request(
                        RequestView {
                            id: pending.id@,
                            method: method@,
                            params: tagged(optional_task(self.task_id), Some(params@)),
                        },
                    )
                    &&& pending.delegated == (self.mode == RequestMode::Delegated)
                    &&& pending.timeout == timeout
                    &&& final(broker)@ == old(broker)@.asked(pending.delegated)
                    &&& old(broker)@.wf() ==> final(broker)@.wf() && final(broker)@.gave_out(
                        pending.id@,
                    )
                },
            },
    {
        if self.mode == RequestMode::Forbidden {
            return Err(
                McpError::Internal(
                    join3(
                        "`",
                        method,
                        "` needs a response from the client, which is not possible here: nothing is reading the transport on this thread",
                    ),
                ),
            );
        }
        if !self.has_transport {
            return Err(
                McpError::Internal(
                    join3("`", method, "` needs a transport to reach the client"),
                ),
            );
        }
        let id = broker.next_request_id();
        let message = JsonRpcMessage::request(
            id.copy(),
            method,
            self.tag_with_task(Some(params)),
        );
        let delegated = self.mode == RequestMode::Delegated;
        if delegated {
            broker.register_waiter(&id);
        }
        Ok(PendingRequest { id, message, delegated, timeout })
    }

    /// Begins a request to the client, with the usual time to wait.
    pub fn send_request(&self, broker: &mut RequestBroker, method: &str, params: Json) -> (r: Result<
        PendingRequest,
        McpError,
    >)
        requires
            old(broker)@.issued < u64::MAX,
        ensures
            match r {
                Err(e) => request_refusal(*self, method@) == Some(e@) && final(broker)@
                    == old(broker)@,
                Ok(pending) => {
                    &&& request_refusal(*self, method@) is None
                    &&& pending.id@ == crate::broker::request_id(old(broker)@.issued + 1)
                    &&& pending.message@ == MessageView::Request(
                        RequestView {
                            id: pending.id@,
                            method: method@,
                            params: tagged(optional_task(self.task_id), Some(params@)),
                        },
                    )
                    &&& pending.delegated == (self.mode == RequestMode::Delegated)
                    &&& pending.timeout == self.request_timeout
                    &&& final(broker)@ == old(broker)@.asked(pending.delegated)
                    &&& old(broker)@.wf() ==> final(broker)@.wf() && final(broker)@.gave_out(
                        pending.id@,
                    )
                },
            },
    {
        self.send_request_with_timeout(broker, method, params, self.request_timeout)
    }

    /// Ends a request whose wait ran out: its answer is not wanted any more,
    /// and the client is told to stop working on it.
    pub fn give_up(&self, broker: &mut RequestBroker, pending: &PendingRequest) -> (r: Option<
        JsonRpcMessage,
    >)
        ensures
            final(broker)@ == old(broker)@.given_up(pending.id@),
            old(broker)@.wf() && old(broker)@.gave_out(pending.id@) ==> final(broker)@.wf(),
            match r {
                Some(m) => self.has_transport && m@ == cancellation(
                    *self,
                    pending.id@,
                    pending.timeout,
                ),
                None => !self.has_transport,
            },
    {
        broker.abandon(&pending.id);
        let waited = match pending.timeout {
            Some(t) => t,
            None => Span { secs: 0, nanos: 0 },
        };
        let reason = join("no response within ", describe_span(waited).as_str());
        let mut v: Vec<(String, Json)> = Vec::new();
        assert(crate::json::fields(v@) =~= Seq::empty());
        push_field(&mut v, "requestId", pending.id.to_json());
        push_field(&mut v, "reason", text(reason.as_str()));
        assert(crate::json::fields(v@) =~= cancel_params(pending.id@, pending.timeout)->Object_0);
        self.send_notification("notifications/cancelled", Some(object(v)))
    }

    /// Ends a request whose wait is over, however it ended. One that ran out is
    /// given up; of any other, nothing is left to do.
    pub fn after_wait(
        &self,
        broker: &mut RequestBroker,
        pending: &PendingRequest,
        outcome: &Result<Json, McpError>,
    ) -> (r: Option<JsonRpcMessage>)
        ensures
            if *outcome matches Err(McpError::Timeout(_)) {
                &&& final(broker)@ == old(broker)@.given_up(pending.id@)
                &&& match r {
                    Some(m) => self.has_transport && m@ == cancellation(
                        *self,
                        pending.id@,
                        pending.timeout,
                    ),
                    None => !self.has_transport,
                }
            } else {
                final(broker)@ == old(broker)@ && r is None
            },
            old(broker)@.wf() && old(broker)@.gave_out(pending.id@) ==> final(broker)@.wf(),
    {
        match outcome {
            Err(McpError::Timeout(_)) => self.give_up(broker, pending),
            _ => None,
        }
    }
}

/// What to do next while reading for an answer.
#[derive(Debug)]
pub enum Wait {
    /// The wait is over.
    Done(Result<Json, McpError>),
    /// Read a message, for this long at most.
    Read(Option<Span>),
}

/// The end of a wait that ran out.
pub open spec fn no_response(id: RequestIdView) -> McpErrorView {
    McpErrorView::Timeout("no response to request "@ + id_words(id))
}

/// Decides on the next read for an answer: it may be there already, or the
/// time may be up. However many messages for others come in, the deadline
/// stays where it is.
pub fn await_response(
    broker: &mut RequestBroker,
    id: &RequestId,
    now: Span,
    deadline: Option<Span>,
) -> (r: Wait)
    requires
        now.wf(),
        deadline matches Some(d) ==> d.wf(),
    ensures
        final(broker)@ == (BrokerView {
            parked: crate::broker::answers_without(old(broker)@.parked, id@),
            ..old(broker)@
        }),
        old(broker)@.wf() ==> final(broker)@.wf(),
        match crate::broker::answer_for(old(broker)@.parked, id@) {
            Some(answer) => r matches Wait::Done(result) && crate::types::outcome_view(result)
                == crate::broker::response_result(answer),
            None => match deadline {
                None => r matches Wait::Read(None),
                Some(d) => if d.total() <= now.total() {
                    r matches Wait::Done(Err(e)) && e@ == no_response(id@)
                } else {
                    r matches Wait::Read(Some(left)) && left.wf() && left.total() == d.total()
                        - now.total()
                },
            },
        },
{
    if let Some(answer) = broker.take_parked(id) {
        return Wait::Done(into_result(answer));
    }
    match deadline {
        None => Wait::Read(None),
        Some(d) => match time_left(now, d) {
            Some(left) => Wait::Read(Some(left)),
            None => Wait::Done(
                Err(
                    McpError::Timeout(join("no response to request ", describe_id(id).as_str())),
                ),
            ),
        },
    }
}

/// Where a message went that was read while waiting for an answer.
#[derive(Debug)]
pub enum Routed {
    /// It is the answer.
    Ours(Result<Json, McpError>),
    /// It is the answer that somebody else waits for.
    HandOver(JsonRpcResponse),
    /// It is kept, or dropped.
    Elsewhere,
}

/// Places a message that was read while waiting for the answer to `id`: no
/// other answer is taken for it, and no message is lost.
pub fn route(broker: &mut RequestBroker, id: &RequestId, message: JsonRpcMessage) -> (r: Routed)
    ensures
        old(broker)@.wf() ==> final(broker)@.wf(),
        match message@ {
            MessageView::Response(answer) => if answer.id == id@ {
                &&& final(broker)@ == old(broker)@
                &&& r matches Routed::Ours(result) && crate::types::outcome_view(result)
                    == crate::broker::response_result(answer)
            } else {
                &&& final(broker)@ == old(broker)@.delivered(answer)
                &&& match old(broker)@.fate(answer.id) {
                    Fate::HandedOver => r matches Routed::HandOver(x) && x@ == answer,
                    _ => r is Elsewhere,
                }
            },
            other => final(broker)@ == (BrokerView {
                deferred: old(broker)@.deferred.push(other),
                ..old(broker)@
            }) && r is Elsewhere,
        },
{
    match message {
        JsonRpcMessage::Response(answer) => if answer.id.same(id) {
            Routed::Ours(into_result(answer))
        } else {
            match broker.deliver(answer) {
                Delivery::HandedOver(x) => Routed::HandOver(x),
                _ => Routed::Elsewhere,
            }
        },
        other => {
            broker.defer(other);
            Routed::Elsewhere
        },
    }
}

/// What to do next while somebody else reads for the answer.
#[derive(Debug)]
pub enum DelegatedWait {
    /// The wait is over.
    Fail(McpError),
    /// Look for the answer, for this long at most.
    Look(Span),
}

/// The end of a wait in a task that was cancelled.
pub open spec fn abandoned(id: RequestIdView) -> McpErrorView {
    McpErrorView::Internal("`"@ + id_words(id) + "` abandoned: the task was cancelled"@)
}

/// The end of a wait for an answer that cannot arrive any more.
pub open spec fn out_of_reach(id: RequestIdView) -> McpErrorView {
    McpErrorView::Internal("the response to "@ + id_words(id) + " can no longer be delivered"@)
}

/// How long a look for an answer takes: a tenth of a second, or less where the
/// deadline is nearer.
pub open spec fn look_for(deadline: Option<int>, now: int) -> int {
    match deadline {
        Some(d) if d - now < 100_000_000 => d - now,
        _ => 100_000_000,
    }
}

/// Decides on the next look for an answer that somebody else reads. A task
/// that was cancelled stops waiting; no look is longer than a tenth of a
/// second.
pub fn await_delegated_response(
    cancelled: bool,
    id: &RequestId,
    now: Span,
    deadline: Option<Span>,
) -> (r: DelegatedWait)
    requires
        now.wf(),
        deadline matches Some(d) ==> d.wf(),
    ensures
        ({
            let over = deadline matches Some(d) && d.total() <= now.total();
            match r {
                DelegatedWait::Fail(e) => if cancelled {
                    e@ == abandoned(id@)
                } else {
                    over && e@ == no_response(id@)
                },
                DelegatedWait::Look(t) => !cancelled && !over && t.wf() && t.total() == look_for(
                    match deadline {
                        Some(d) => Some(d.total()),
                        None => None,
                    },
                    now.total(),
                ),
            }
        }),
{
    if cancelled {
        return DelegatedWait::Fail(
            McpError::Internal(
                join3("`", describe_id(id).as_str(), "` abandoned: the task was cancelled"),
            ),
        );
    }
    let poll = Span { secs: 0, nanos: 100_000_000 };
    match deadline {
        None => DelegatedWait::Look(poll),
        Some(d) => match time_left(now, d) {
            None => DelegatedWait::Fail(
                McpError::Timeout(join("no response to request ", describe_id(id).as_str())),
            ),
            Some(left) => if left.secs == 0 && left.nanos < 100_000_000 {
                DelegatedWait::Look(left)
            } else {
                DelegatedWait::Look(poll)
            },
        },
    }
}

/// The error for an answer that cannot arrive any more.
pub fn undeliverable(id: &RequestId) -> (r: McpError)
    ensures
        r@ == out_of_reach(id@),
{
    McpError::Internal(
        join3("the response to ", describe_id(id).as_str(), " can no longer be delivered"),
    )
}

/// The deadline of a wait that begins now.
pub fn deadline_from(now: Span, timeout: Option<Span>) -> (r: Option<Span>)
    requires
        now.wf(),
        timeout matches Some(t) ==> t.wf() && now.secs + t.secs + 1 <= u64::MAX,
    ensures
        match timeout {
            None => r is None,
            Some(t) => r matches Some(d) && d.wf() && d.total() == now.total() + t.total(),
        },
{
    match timeout {
        None => None,
        Some(t) => {
            let nanos: u32 = now.nanos + t.nanos;
            if nanos >= 1_000_000_000 {
                Some(Span { secs: now.secs + t.secs + 1, nanos: nanos - 1_000_000_000 })
            } else {
                Some(Span { secs: now.secs + t.secs, nanos })
            }
        },
    }
}

} // verus!
