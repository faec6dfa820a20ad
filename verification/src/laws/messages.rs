//! Messages: what is one, and what is said by one.

use crate::env::ToolEnv;
use crate::json::{Json, JsonView, Number, NumberView};
use crate::laws::calls::unsaid;
use crate::log::LogLevel;
use crate::tasks::RELATED_TASK;
use crate::types::{
    JsonRpcErrorView, JsonRpcMessage, McpError, McpErrorView, MessageView, RequestId, RequestIdView, ResponseView,
};
use vstd::prelude::*;
use vstd::string::*;

verus! {

/// The id that a value is: a text, a whole number of 64 bits, or null.
pub open spec fn is_id(j: JsonView, id: RequestIdView) -> bool {
    match id {
        RequestIdView::String(s) => j == JsonView::Text(s),
        RequestIdView::Number(n) => if n >= 0 {
            j == JsonView::Number(NumberView::Unsigned(n as u64))
        } else {
            j == JsonView::Number(NumberView::Negative(n))
        },
        RequestIdView::Null => j is Null,
    }
}

/// What a field says: nothing where it is left out or null.
pub open spec fn field_says(j: JsonView, key: Seq<char>, v: Option<JsonView>) -> bool {
    match v {
        Some(v) => j.get(key) == Some(v) && !(v is Null),
        None => unsaid(j, key),
    }
}

/// An object of the right version with a method is a notification where it has
/// no id, and a request where it has one that is not null. Its method and its
/// parameters are those that it names.
pub proof fn law_calls_are_told_apart(j: JsonView, method: Seq<char>)
    requires
        j.get("jsonrpc"@) == Some(JsonView::Text("2.0"@)),
        j.get("method"@) == Some(JsonView::Text(method)),
        j.get("id"@) matches Some(JsonView::Number(NumberView::Negative(n))) ==> n < 0,
    ensures
        j.get("id"@) is None ==> (crate::types::message_of(j) matches Ok(
            MessageView::Notification(n),
        ) && n.method == method && field_says(j, "params"@, n.params)),
        forall|id: RequestIdView|
            !(id is Null) && j.get("id"@) is Some && #[trigger] is_id(j.get("id"@)->0, id) ==> (
            crate::types::message_of(j) matches Ok(MessageView::Request(q)) && q.id == id
                && q.method == method && field_says(j, "params"@, q.params)),
        j.get("id"@) is Some && (forall|id: RequestIdView|
            !(id is Null) ==> !#[trigger] is_id(j.get("id"@)->0, id))
            ==> crate::types::message_of(j) matches Err(McpErrorView::InvalidMessage(_)),
{
    if let Some(v) = j.get("id"@) {
        match v {
            JsonView::Text(s) => {
                assert(is_id(v, RequestIdView::String(s)));
            },
            JsonView::Number(NumberView::Negative(n)) => {
                assert(is_id(v, RequestIdView::Number(n)));
            },
            JsonView::Number(NumberView::Unsigned(n)) => {
                if n <= i64::MAX {
                    assert(is_id(v, RequestIdView::Number(n as i64)));
                }
            },
            _ => {},
        }
    }
}

/// Whether the code of an error, where it is kept as a negative number, is one.
pub open spec fn well_signed(e: Option<JsonView>) -> bool {
    e matches Some(e) ==> (e.get("code"@) matches Some(JsonView::Number(NumberView::Negative(n)))
        ==> n < 0)
}

/// An object of the right version without a method is the response to the
/// request that its id names, with the result or the error that it holds.
pub proof fn law_responses_are_read(j: JsonView, id: RequestIdView)
    requires
        j.get("jsonrpc"@) == Some(JsonView::Text("2.0"@)),
        j.get("method"@) is None,
        j.get("id"@) is Some,
        is_id(j.get("id"@)->0, id),
        well_signed(j.get("error"@)),
    ensures
        unsaid(j, "error"@) && j.get("result"@) is Some ==> crate::types::message_of(j) == Ok::<
            MessageView,
            McpErrorView,
        >(MessageView::Response(ResponseView { id, result: j.get("result"@), error: None })),
        unsaid(j, "error"@) && j.get("result"@) is None ==> crate::types::message_of(
            j,
        ) matches Err(McpErrorView::InvalidMessage(_)),
        !unsaid(j, "error"@) ==> match crate::types::message_of(j) {
            Ok(m) => m matches MessageView::Response(x) && x.id == id && x.result == j.get(
                "result"@,
            ) && (x.error matches Some(e) && j.get("error"@)->0.get("message"@) == Some(
                JsonView::Text(e.message),
            ) && j.get("error"@)->0.get("code"@) is Some && is_id(
                j.get("error"@)->0.get("code"@)->0,
                RequestIdView::Number(e.code as i64),
            ) && field_says(j.get("error"@)->0, "data"@, e.data)),
            Err(e) => e is InvalidMessage,
        },
{
}

/// What is no object, has another version, or has neither a method nor an id is
/// no message; and a list is none, whatever is in it.
pub proof fn law_other_values_are_no_messages(j: JsonView)
    ensures
        !(j is Object) || j.get("jsonrpc"@) != Some(JsonView::Text("2.0"@)) || (j.get("method"@)
            is None && j.get("id"@) is None) || (j.get("method"@) is Some && !(
        j.get("method"@)->0 is Text)) || (j.get("method"@) is Some && j.get("id"@) == Some(
            JsonView::Null,
        )) ==> crate::types::message_of(j) matches Err(McpErrorView::InvalidMessage(_)),
{
}

/// A text is the message that the JSON in it is; where there is none in it, that
/// is said, in the reader's words.
pub proof fn law_texts_are_read_as_json(text: Seq<char>)
    ensures
        crate::json::json_read(text) matches Err(why) ==> crate::types::message_in(text) == Err::<
            MessageView,
            McpErrorView,
        >(McpErrorView::Json(why)) || crate::types::message_in(text) matches Err(
            McpErrorView::InvalidMessage(_),
        ),
        crate::types::message_in(text) is Ok ==> crate::json::json_read(text) is Ok
            && crate::types::message_in(text) == crate::types::message_of(
            crate::json::json_read(text)->Ok_0,
        ),
        crate::text::trim(text).len() > 0 && crate::text::trim(text)[0] == '['
            ==> crate::types::message_in(text) matches Err(McpErrorView::InvalidMessage(_)),
        crate::text::trim(text).len() > 0 && crate::text::trim(text)[0] != '['
            ==> crate::types::message_in(text) == (match crate::json::json_read(text) {
            Ok(j) => crate::types::message_of(j),
            Err(why) => Err(McpErrorView::Json(why)),
        }),
{
}

/// A message is written whole: the version, the id and the method that it has,
/// its parameters, or its result or error.
pub proof fn law_messages_are_written_whole(m: MessageView)
    ensures
        ({
            let j = crate::types::message_json(m);
            &&& j.get("jsonrpc"@) == Some(JsonView::Text("2.0"@))
            &&& match m {
                MessageView::Request(q) => j.get("id"@) is Some && is_id(j.get("id"@)->0, q.id)
                    && j.get("method"@) == Some(JsonView::Text(q.method)) && j.get("params"@)
                    == q.params && j.get("result"@) is None && j.get("error"@) is None,
                MessageView::Notification(n) => j.get("id"@) is None && j.get("method"@) == Some(
                    JsonView::Text(n.method),
                ) && j.get("params"@) == n.params && j.get("result"@) is None && j.get("error"@)
                    is None,
                MessageView::Response(r) => j.get("id"@) is Some && is_id(j.get("id"@)->0, r.id)
                    && j.get("method"@) is None && j.get("params"@) is None && j.get("result"@)
                    == r.result && match r.error {
                    None => j.get("error"@) is None,
                    Some(e) => j.get("error"@) is Some && j.get("error"@)->0.get("message"@) == Some(
                        JsonView::Text(e.message),
                    ) && j.get("error"@)->0.get("data"@) == e.data && (i64::MIN <= e.code
                        <= i64::MAX ==> j.get("error"@)->0.get("code"@) is Some && is_id(
                        j.get("error"@)->0.get("code"@)->0,
                        RequestIdView::Number(e.code as i64),
                    )),
                },
            }
        }),
{
    broadcast use crate::laws::objects::group_fields;

    reveal_with_fuel(crate::json::field_at, 3);
    crate::laws::words::lemma_message_words_differ();
    if let MessageView::Response(r) = m {
        if let Some(e) = r.error {
            let x = crate::types::error_json(e);
            assert(x.get("message"@) == Some(JsonView::Text(e.message)));
            assert(x.get("data"@) == e.data);
            assert(x.get("code"@) == Some(crate::types::integer(e.code as i64)));
        }
    }
}

/// A request is answered under its own id: with its value and no error, or with
/// an error and no value. The error has the code of its kind, and its words say
/// what is wrong; one that was given as it is, is passed on as it is.
pub proof fn law_answers_say_what_came_of_it(
    id: RequestIdView,
    outcome: Result<JsonView, McpErrorView>,
)
    ensures
        crate::types::answer(id, outcome) matches MessageView::Response(r) && r.id == id
            && match outcome {
            Ok(j) => r.result == Some(j) && r.error is None,
            Err(e) => r.result is None && r.error is Some && match e {
                McpErrorView::Passthrough(x) => r.error == Some(x),
                McpErrorView::Json(m) => r.error->0.code == -32700 && ends_in(
                    r.error->0.message,
                    m,
                ),
                McpErrorView::InvalidMessage(m) => r.error->0.code == -32600 && ends_in(
                    r.error->0.message,
                    m,
                ),
                McpErrorView::MethodNotFound(m) => r.error->0.code == -32601 && ends_in(
                    r.error->0.message,
                    m,
                ),
                McpErrorView::InvalidParams(m) | McpErrorView::PromptNotFound(m) =>
                    r.error->0.code == -32602 && ends_in(r.error->0.message, m),
                McpErrorView::ResourceNotFound(m) => r.error->0.code == -32002 && ends_in(
                    r.error->0.message,
                    m,
                ),
                McpErrorView::ToolError(m) | McpErrorView::Timeout(m) | McpErrorView::Io(m)
                | McpErrorView::Internal(m) => r.error->0.code == -32603 && ends_in(
                    r.error->0.message,
                    m,
                ),
                McpErrorView::TransportClosed => r.error->0.code == -32603,
            } && (!(e is Passthrough) ==> r.error->0.data is None),
        },
{
    if let Err(e) = outcome {
        let w = e.words();
        match e {
            McpErrorView::Json(m) => {
                assert(w.skip(w.len() - m.len()) =~= m);
            },
            McpErrorView::InvalidMessage(m) => {
                assert(w.skip(w.len() - m.len()) =~= m);
            },
            McpErrorView::InvalidParams(m) => {
                assert(w.skip(w.len() - m.len()) =~= m);
            },
            McpErrorView::MethodNotFound(m) => {
                assert(w.skip(w.len() - m.len()) =~= m);
            },
            McpErrorView::ResourceNotFound(m) => {
                assert(w.skip(w.len() - m.len()) =~= m);
            },
            McpErrorView::PromptNotFound(m) => {
                assert(w.skip(w.len() - m.len()) =~= m);
            },
            McpErrorView::ToolError(m) => {
                assert(w.skip(w.len() - m.len()) =~= m);
            },
            McpErrorView::Timeout(m) => {
                assert(w.skip(w.len() - m.len()) =~= m);
            },
            McpErrorView::Io(m) => {
                assert(w.skip(w.len() - m.len()) =~= m);
            },
            McpErrorView::Internal(m) => {
                assert(w.skip(w.len() - m.len()) =~= m);
            },
            _ => {},
        }
    }
}

/// Whether a text ends in another.
pub open spec fn ends_in(s: Seq<char>, end: Seq<char>) -> bool {
    s.len() >= end.len() && s.skip(s.len() - end.len()) == end
}

/// Parameters that belong to a task name it in their `_meta`, and keep all else
/// that they say; outside a task, parameters are sent as they are.
pub proof fn law_tagging_adds_the_task_and_nothing_else(
    task: Option<Seq<char>>,
    params: Option<JsonView>,
)
    ensures
        task is None ==> crate::env::tagged(task, params) == params,
        task is Some && (params is None || params->0 is Object) ==> ({
            let was = match params {
                Some(p) => p,
                None => JsonView::Object(Seq::empty()),
            };
            &&& crate::env::tagged(task, params) matches Some(is) && is is Object && (forall|
                key: Seq<char>,
            |
                key != "_meta"@ ==> #[trigger] is.get(key) == was.get(key)) && is.get("_meta"@)
                is Some && (was.get("_meta"@) is None || was.get("_meta"@)->0 is Object ==> is.get(
                "_meta"@,
            )->0.get(RELATED_TASK@) is Some && is.get("_meta"@)->0.get(RELATED_TASK@)->0.get(
                "taskId"@,
            ) == Some(JsonView::Text(task->0))) && (forall|key: Seq<char>|
                key != RELATED_TASK@ && was.get("_meta"@) is Some ==> #[trigger] is.get(
                    "_meta"@,
                )->0.get(key) == was.get("_meta"@)->0.get(key))
        }),
        task is Some && params is Some && !(params->0 is Object) ==> crate::env::tagged(
            task,
            params,
        ) == params,
{
    broadcast use crate::laws::objects::group_fields;

    if task is Some && (params is None || params->0 is Object) {
        let id = task->0;
        let f = match params {
            Some(JsonView::Object(f)) => f,
            _ => Seq::empty(),
        };
        let was = JsonView::Object(f);
        let meta = match crate::json::field(f, "_meta"@) {
            Some(m) => m,
            None => JsonView::Object(Seq::empty()),
        };
        let mark = crate::tasks::task_reference(id);
        let named = crate::env::tagged_meta(meta, id);
        let is = crate::env::tagged(task, params)->0;
        crate::json::lemma_with_field(f, "_meta"@, named, "_meta"@);
        assert(is.get("_meta"@) == Some(named));
        assert forall|key: Seq<char>| key != "_meta"@ implies #[trigger] is.get(key) == was.get(
            key,
        ) by {
            crate::json::lemma_with_field(f, "_meta"@, named, key);
        }
        if let JsonView::Object(m) = meta {
            crate::json::lemma_with_field(m, RELATED_TASK@, mark, RELATED_TASK@);
            assert(named.get(RELATED_TASK@) == Some(mark));
            assert(mark.get("taskId"@) == Some(JsonView::Text(id)));
            assert forall|key: Seq<char>|
                key != RELATED_TASK@ && was.get("_meta"@) is Some implies #[trigger] is.get(
                "_meta"@,
            )->0.get(key) == was.get("_meta"@)->0.get(key) by {
                crate::json::lemma_with_field(m, RELATED_TASK@, mark, key);
            }
        }
    }
}

/// A log record reaches a client exactly where it is at least as severe as the
/// client wants and there is a way to the client. It says how severe it is, from
/// which logger it comes, and what it is about.
pub proof fn law_records_reach_who_wants_them(
    env: ToolEnv,
    level: LogLevel,
    logger: Option<&str>,
    data: Json,
    r: Option<JsonRpcMessage>,
)
    requires
        call_ensures(ToolEnv::log_data, (&env, level, logger, &data), r),
    ensures
        r is Some <==> env.has_transport && rank(level) >= rank(env.log_level),
        r matches Some(m) ==> (m@ matches MessageView::Notification(n) && n.method
            == "notifications/message"@ && (n.params matches Some(p) && p.get("level"@) == Some(
            JsonView::Text(level.name()),
        ) && p.get("logger"@) == Some(
            JsonView::Text(
                match logger {
                    Some(s) => s@,
                    None => env.logger@,
                },
            ),
        ) && p.get("data"@) == Some(data@))),
{
    broadcast use crate::laws::objects::group_fields;

    reveal_with_fuel(crate::json::field_at, 4);
    crate::laws::words::lemma_record_words_differ();
    let name = match logger {
        Some(s) => s@,
        None => env.logger@,
    };
    let p = crate::env::log_params(level, name, data@);
    let task = crate::env::optional_task(env.task_id);
    law_tagging_adds_the_task_and_nothing_else(task, Some(p));
    assert(p.get("level"@) == Some(JsonView::Text(level.name())));
    assert(p.get("logger"@) == Some(JsonView::Text(name)));
    assert(p.get("data"@) == Some(data@));
}

/// How severe a level is, from the least.
pub open spec fn rank(level: LogLevel) -> int {
    match level {
        LogLevel::Debug => 0,
        LogLevel::Info => 1,
        LogLevel::Notice => 2,
        LogLevel::Warning => 3,
        LogLevel::Error => 4,
        LogLevel::Critical => 5,
        LogLevel::Alert => 6,
        LogLevel::Emergency => 7,
    }
}

/// The names of the levels.
pub proof fn law_levels_have_their_names(level: LogLevel)
    ensures
        crate::laws::requests::level_named(level.name()) == Some(level),
        level.severity() == rank(level),
{
    crate::log::law_levels_are_read_back_from_their_names(level, level);
    crate::laws::words::lemma_levels_differ();
}

/// Progress is reported with its token, how far it is, and of how much, where
/// that is known; and only where there is a way to the client.
pub proof fn law_progress_is_reported(
    env: ToolEnv,
    token: &str,
    progress: Number,
    total: Option<Number>,
    r: Option<JsonRpcMessage>,
)
    requires
        call_ensures(ToolEnv::send_progress, (&env, token, progress, total), r),
    ensures
        r is Some <==> env.has_transport,
        r matches Some(m) ==> (m@ matches MessageView::Notification(n) && n.method
            == "notifications/progress"@ && (n.params matches Some(p) && p.get("progressToken"@)
            == Some(JsonView::Text(token@)) && p.get("progress"@) == Some(
            JsonView::Number(progress@),
        ) && p.get("total"@) == (match total {
            Some(t) => Some(JsonView::Number(t@)),
            None => None,
        }))),
{
    broadcast use crate::laws::objects::group_fields;

    reveal_with_fuel(crate::json::field_at, 4);
    crate::laws::words::lemma_progress_words_differ();
    let p = JsonView::Object(
        seq![
            ("progressToken"@, JsonView::Text(token@)),
            ("progress"@, JsonView::Number(progress@)),
        ] + crate::json::maybe("total"@, crate::env::optional_number(total)),
    );
    law_tagging_adds_the_task_and_nothing_else(crate::env::optional_task(env.task_id), Some(p));
    assert(p.get("progressToken"@) == Some(JsonView::Text(token@)));
    assert(p.get("progress"@) == Some(JsonView::Number(progress@)));
    assert(p.get("total"@) == crate::env::optional_number(total));
}

/// A record on stderr says where it comes from, how severe it is, and what it is
/// about: a text as it is. It goes there as configured.
pub proof fn law_records_on_stderr_are_lines(
    env: ToolEnv,
    level: LogLevel,
    logger: Option<&str>,
    data: Json,
    delivered: bool,
    r: Option<String>,
)
    requires
        call_ensures(ToolEnv::log_to_stderr, (&env, level, logger, &data, delivered), r),
    ensures
        r is Some <==> match env.stderr_logging {
            crate::log::StderrLogging::Never => false,
            crate::log::StderrLogging::Fallback => !delivered,
            crate::log::StderrLogging::Always => true,
        },
        r matches Some(line) ==> line@ == "["@ + (match logger {
            Some(s) => s@,
            None => env.logger@,
        }) + "] "@ + level.name() + ": "@ + (match data@ {
            JsonView::Text(s) => s,
            other => crate::json::json_written(other),
        }),
{
}

/// A client is told to stop working on a request by its id, and why.
pub proof fn law_a_cancellation_names_the_request(
    env: ToolEnv,
    id: RequestIdView,
    timeout: Option<crate::calendar::Span>,
)
    ensures
        crate::env::cancellation(env, id, timeout) matches MessageView::Notification(n) && n.method
            == "notifications/cancelled"@ && (n.params matches Some(p) && p.get("requestId"@)
            is Some && is_id(p.get("requestId"@)->0, id) && p.get("reason"@) == Some(
            JsonView::Text(
                "no response within "@ + crate::calendar::span_text(
                    match timeout {
                        Some(t) => t,
                        None => crate::calendar::Span { secs: 0, nanos: 0 },
                    },
                ),
            ),
        )),
{
    broadcast use crate::laws::objects::group_fields;

    reveal_with_fuel(crate::json::field_at, 4);
    crate::laws::words::lemma_cancel_words_differ();
    let p = crate::env::cancel_params(id, timeout);
    law_tagging_adds_the_task_and_nothing_else(crate::env::optional_task(env.task_id), Some(p));
    assert(p.get("requestId"@) == Some(id.json()));
    assert(p.get("reason"@) is Some);
}

/// Errors in words say first of what kind they are.
pub proof fn law_errors_say_of_what_kind_they_are(m: Seq<char>, e: JsonRpcErrorView)
    ensures
        McpErrorView::Json(m).words() == "JSON error: "@ + m,
        McpErrorView::InvalidMessage(m).words() == "Invalid message: "@ + m,
        McpErrorView::InvalidParams(m).words() == "Invalid params: "@ + m,
        McpErrorView::MethodNotFound(m).words() == "Method not found: "@ + m,
        McpErrorView::ResourceNotFound(m).words() == "Resource not found: "@ + m,
        McpErrorView::PromptNotFound(m).words() == "Prompt not found: "@ + m,
        McpErrorView::ToolError(m).words() == "Tool error: "@ + m,
        McpErrorView::Timeout(m).words() == "Timeout: "@ + m,
        McpErrorView::Io(m).words() == "I/O error: "@ + m,
        McpErrorView::Internal(m).words() == "Internal error: "@ + m,
        McpErrorView::TransportClosed.words() == "Transport closed"@,
        McpErrorView::Passthrough(e).words() == e.message,
{
}

/// A level is enough exactly where it is no less severe.
pub proof fn law_levels_are_compared(a: LogLevel, b: LogLevel, r: bool)
    requires
        call_ensures(LogLevel::at_least, (&a, b), r),
    ensures
        r <==> rank(a) >= rank(b),
{
}

/// An id is written as what it is, and read back; ids are the same where they are
/// of one kind and equal.
pub proof fn law_ids_are_read_back(id: RequestIdView, a: RequestId, b: RequestId, r: bool)
    requires
        call_ensures(RequestId::same, (&a, &b), r),
    ensures
        crate::types::id_of(id.json()) == Some(id),
        r <==> a@ == b@,
{
}

/// A level is read from its name, in whatever case, and from nothing else.
pub proof fn law_levels_are_read_from_their_names(
    name: &str,
    read: Option<LogLevel>,
    s: Seq<char>,
    level: Option<LogLevel>,
)
    requires
        call_ensures(LogLevel::from_wire, (name,), read),
    ensures
        read == crate::laws::requests::level_named(name@),
        crate::log::reads_as(s, level) <==> level == crate::laws::requests::level_named(s),
{
    lemma_reads_as(name@, read);
    lemma_reads_as(s, level);
}

proof fn lemma_reads_as(s: Seq<char>, level: Option<LogLevel>)
    ensures
        crate::log::reads_as(s, level) <==> level == crate::laws::requests::level_named(s),
{
    crate::laws::words::lemma_levels_differ();
    if let Some(named) = crate::laws::requests::level_named(s) {
        assert(named.name() == crate::text::lower_all(s));
    }
}

/// A text is read as the message it is, and a message is written as the text it
/// is; a sound message is read back from what is written of it.
pub proof fn law_messages_are_read_and_written(
    text: &str,
    read: Result<JsonRpcMessage, McpError>,
    message: JsonRpcMessage,
    written: String,
)
    requires
        call_ensures(JsonRpcMessage::parse, (text,), read),
        call_ensures(JsonRpcMessage::to_text, (&message,), written),
    ensures
        match read {
            Ok(m) => crate::types::message_in(text@) == Ok::<MessageView, McpErrorView>(m@),
            Err(e) => crate::types::message_in(text@) == Err::<MessageView, McpErrorView>(e@),
        },
        written@ == crate::json::json_written(crate::types::message_json(message@)),
        !written@.contains('\n'),
        crate::types::sound(message@) ==> crate::types::message_of(
            crate::types::message_json(message@),
        ) == Ok::<MessageView, McpErrorView>(message@),
{
    if crate::types::sound(message@) {
        crate::types::law_messages_are_read_back(message@);
    }
}

} // verus!
