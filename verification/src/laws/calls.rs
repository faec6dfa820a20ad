//! Calling tools.

use crate::calendar::Timestamp;
use crate::calls::{Dispatch, ExecutedView};
use crate::json::{Json, JsonView, NumberView};
use crate::laws::words::lemma_methods_differ;
use crate::protocol::{CallToolResult, CallToolResultView, TaskSupport};
use crate::server::Server;
use crate::tasks::{OutcomeView, TaskConfig, TaskStatus};
use crate::types::{McpErrorView, RequestView};
use vstd::prelude::*;
use vstd::string::*;

verus! {

/// Whether a field is left out, or says nothing.
pub open spec fn unsaid(j: JsonView, key: Seq<char>) -> bool {
    j.get(key) is None || j.get(key) == Some(JsonView::Null)
}

/// The arguments of a call: what is said, or an empty object.
pub open spec fn arguments_in(j: JsonView, arguments: JsonView) -> bool {
    if unsaid(j, "arguments"@) {
        arguments == JsonView::Object(Seq::empty())
    } else {
        j.get("arguments"@) == Some(arguments)
    }
}

/// Whether this is a refusal for this reason.
pub open spec fn refused(r: Dispatch, e: McpErrorView) -> bool {
    r matches Dispatch::Done(Err(x)) && x@ == e
}

/// The one tool of this name is what a name finds.
pub proof fn lemma_tool_found(server: Server, i: int)
    requires
        server.wf(),
        0 <= i < server.tools@.len(),
    ensures
        crate::server::name_at(
            crate::server::tool_names(server.tools@),
            server.tools@[i].name@,
            0,
        ) == i,
{
    let names = crate::server::tool_names(server.tools@);
    crate::server::lemma_name_at(names, server.tools@[i].name@, 0);
    assert(names[i] == server.tools@[i].name@);
}

/// A call without a `task` field, of a tool that is there, is refused exactly
/// where the server has tasks and the tool cannot do without one. Otherwise that
/// tool, and no other, is run at once with the arguments that were sent. Either
/// way nothing changes.
pub proof fn law_a_plain_call_runs_unless_a_task_is_required(
    before: Server,
    after: Server,
    request: RequestView,
    now: Timestamp,
    r: Dispatch,
    i: int,
)
    requires
        before.wf(),
        crate::dispatch::dispatch_step(before, after, request, now, r),
        request.method == "tools/call"@,
        0 <= i < before.tools@.len(),
        request.params matches Some(p) && p.get("name"@) == Some(
            JsonView::Text(before.tools@[i].name@),
        ) && unsaid(p, "task"@),
    ensures
        after == before,
        before.tasks is Some && before.tools@[i].task_support == TaskSupport::Required ==> refused(
            r,
            McpErrorView::MethodNotFound(
                "tool `"@ + before.tools@[i].name@ + "` must be invoked as a task"@,
            ),
        ),
        before.tasks is None || before.tools@[i].task_support != TaskSupport::Required ==> (
        r matches Dispatch::CallTool { tool, arguments } && tool == i && arguments_in(
            request.params->0,
            arguments@,
        )),
{
    lemma_methods_differ();
    lemma_tool_found(before, i);
}

/// Whether a task may live as long as this: as long as was asked for, or as
/// usual, and never longer than is allowed.
pub open spec fn lifetime_granted(
    limits: TaskConfig,
    asked: Option<u64>,
    ttl: Option<u64>,
) -> bool {
    let wanted = match asked {
        Some(n) => n,
        None => limits.default_ttl_ms,
    };
    &&& ttl is Some
    &&& ttl->0 == wanted || ttl->0 == limits.max_ttl_ms
    &&& ttl->0 <= wanted
    &&& ttl->0 <= limits.max_ttl_ms
}

/// A call with a `task` field, of a tool that is there: a server without tasks
/// runs it at once; a server with tasks refuses it exactly where the tool cannot
/// be a task or as many tasks run as may, and otherwise starts a task of that
/// tool with the arguments that were sent. The task is working, belongs to who
/// asked, and has the lifetime asked for or the usual one, cut to the longest
/// that is allowed.
pub proof fn law_a_call_becomes_a_task_where_it_can(
    before: Server,
    after: Server,
    request: RequestView,
    now: Timestamp,
    r: Dispatch,
    i: int,
    params: JsonView,
    task_field: JsonView,
    asked: Option<u64>,
)
    requires
        before.wf(),
        crate::dispatch::dispatch_step(before, after, request, now, r),
        request.method == "tools/call"@,
        0 <= i < before.tools@.len(),
        request.params == Some(params),
        params.get("name"@) == Some(JsonView::Text(before.tools@[i].name@)),
        params.get("task"@) == Some(task_field),
        task_field is Object,
        match asked {
            None => unsaid(task_field, "ttl"@),
            Some(n) => task_field.get("ttl"@) == Some(JsonView::Number(NumberView::Unsigned(n))),
        },
    ensures
        match before.tasks {
            None => after == before && (r matches Dispatch::CallTool { tool, arguments } && tool
                == i && arguments_in(params, arguments@)),
            Some(store) => {
                let limits = store.limits();
                let full = crate::tasks::running_in(crate::tasks::alive(store@, now))
                    >= limits.max_concurrent;
                if before.tools@[i].task_support == TaskSupport::Forbidden {
                    after == before && refused(
                        r,
                        McpErrorView::MethodNotFound(
                            "tool `"@ + before.tools@[i].name@
                                + "` cannot be invoked as a task"@,
                        ),
                    )
                } else if full {
                    r matches Dispatch::Done(Err(e)) && e@ is Internal
                } else {
                    match (r, after.tasks) {
                        (Dispatch::StartTask { tool, arguments, task, warning }, Some(s)) => {
                            &&& tool == i
                            &&& arguments_in(params, arguments@)
                            &&& task.status == TaskStatus::Working
                            &&& task.status_message is None
                            &&& task@.created_at == task@.last_updated_at
                            &&& task.poll_interval == Some(limits.poll_interval_ms)
                            &&& lifetime_granted(limits, asked, task.ttl)
                            &&& s.limits() == limits
                            &&& s@.len() > 0
                            &&& s@.last().task == task@
                            &&& crate::tasks::lookup(s@, task@.task_id) == Some(s@.last())
                            &&& s@.last().outcome is None
                            &&& !s@.last().cancelled
                            &&& s@.last().created == now
                            &&& s@.last().owner == (match before.task_context {
                                crate::server::TaskContext::Owner(o) => Some(o@),
                                _ => None,
                            })
                        },
                        _ => false,
                    }
                }
            },
        },
        after.tools == before.tools,
        after.log_level == before.log_level,
        after.client_capabilities == before.client_capabilities,
{
    lemma_methods_differ();
    lemma_tool_found(before, i);
    if let Some(store) = before.tasks {
        let kept = crate::tasks::alive(store@, now);
        lemma_alive_keeps_ids_apart(store@, now);
        if let Dispatch::StartTask { tool, arguments, task, warning } = r {
            let s = after.tasks->0;
            crate::tasks::law_created_task_is_found(kept, s@.last(), task@.task_id);
        }
    }
}

/// Records of different tasks stay so when some are dropped.
pub proof fn lemma_alive_keeps_ids_apart(
    s: Seq<crate::tasks::RecordView>,
    now: Timestamp,
)
    requires
        crate::tasks::ids_differ(s),
    ensures
        crate::tasks::ids_differ(crate::tasks::alive(s, now)),
        forall|k: int|
            0 <= k < crate::tasks::alive(s, now).len() ==> s.contains(
                #[trigger] crate::tasks::alive(s, now)[k],
            ),
    decreases s.len(),
{
    reveal(Seq::filter);
    if s.len() > 0 {
        let front = s.drop_last();
        lemma_alive_keeps_ids_apart(front, now);
        let kept = crate::tasks::alive(front, now);
        let all = crate::tasks::alive(s, now);
        assert forall|k: int| 0 <= k < all.len() implies s.contains(#[trigger] all[k]) by {
            if k < kept.len() {
                assert(all[k] == kept[k]);
                let j = choose|j: int| 0 <= j < front.len() && front[j] == kept[k];
                assert(s[j] == all[k]);
            } else {
                assert(s[s.len() - 1] == all[k]);
            }
        }
        assert forall|i: int, j: int| 0 <= i < j < all.len() implies (
        #[trigger] all[i]).task.task_id != (#[trigger] all[j]).task.task_id by {
            assert(all[i] == kept[i]);
            if j < kept.len() {
                assert(all[j] == kept[j]);
            } else {
                assert(front.contains(kept[i]));
                let m = choose|m: int| 0 <= m < front.len() && front[m] == kept[i];
                assert(s[m] == kept[i] && s[s.len() - 1] == all[j]);
            }
        }
    }
}

/// A call of a tool that is not there is refused with its name, one without a
/// name is refused, and neither changes anything or runs anything.
pub proof fn law_a_call_of_nothing_is_refused(
    before: Server,
    after: Server,
    request: RequestView,
    now: Timestamp,
    r: Dispatch,
    name: Seq<char>,
)
    requires
        before.wf(),
        crate::dispatch::dispatch_step(before, after, request, now, r),
        request.method == "tools/call"@,
    ensures
        request.params is None ==> after == before && refused(
            r,
            McpErrorView::InvalidParams("Missing params"@),
        ),
        request.params matches Some(p) && !(p.get("name"@) matches Some(JsonView::Text(_)))
            ==> after == before && refused(
            r,
            McpErrorView::InvalidParams("Invalid params: `name` must be a string"@),
        ),
        request.params is Some && request.params->0.get("name"@) == Some(JsonView::Text(name))
            && unsaid(request.params->0, "task"@) && (forall|k: int|
            0 <= k < before.tools@.len() ==> (#[trigger] before.tools@[k]).name@ != name)
            ==> after == before && refused(
            r,
            McpErrorView::InvalidParams("Unknown tool: "@ + name),
        ),
{
    lemma_methods_differ();
    reveal_strlit("Invalid params: `");
    reveal_strlit("` must be a string");
    reveal_strlit("name");
    reveal_strlit("Invalid params: `name` must be a string");
    assert("Invalid params: `"@ + "name"@ + "` must be a string"@
        =~= "Invalid params: `name` must be a string"@);
    if let Some(p) = request.params {
        if p.get("name"@) == Some(JsonView::Text(name)) {
            let names = crate::server::tool_names(before.tools@);
            crate::server::lemma_name_at(names, name, 0);
            let i = crate::server::name_at(names, name, 0);
            if i < names.len() {
                assert(before.tools@[i].name@ == name);
            }
        }
    }
}

/// What a tool returns is what the client gets, where the tool promises nothing
/// of its output or what it returned is a failure.
pub proof fn law_a_result_is_handed_on(
    name: Seq<char>,
    schema: Option<JsonView>,
    result: CallToolResultView,
)
    requires
        schema is None || result.is_error,
    ensures
        crate::calls::call_result(name, schema, ExecutedView::Returned(Ok(result))) == Ok::<
            CallToolResultView,
            McpErrorView,
        >(result),
        crate::calls::call_answer(name, schema, ExecutedView::Returned(Ok(result))) == Ok::<
            JsonView,
            McpErrorView,
        >(result.json()),
        crate::calls::task_end(name, schema, ExecutedView::Returned(Ok(result))) == (
            if result.is_error {
                TaskStatus::Failed
            } else {
                TaskStatus::Completed
            },
            OutcomeView::Value(result.json()),
        ),
{
}

/// What a tool says of its own failure reaches the model as a result: one text,
/// marked as an error. Every other fault reaches the client as an error, with
/// its own words and code; a panic is one too.
pub proof fn law_failures_go_where_they_can_be_read(
    name: Seq<char>,
    schema: Option<JsonView>,
    e: McpErrorView,
    words: Seq<char>,
)
    ensures
        ({
            let answer = crate::calls::call_answer(name, schema, ExecutedView::Returned(Err(e)));
            let said = match e {
                McpErrorView::ToolError(m) => Some(m),
                McpErrorView::InvalidParams(m) => Some("Invalid arguments: "@ + m),
                _ => None,
            };
            match said {
                Some(m) => answer matches Ok(j) && j.get("isError"@) == Some(JsonView::Bool(true))
                    && (j.get("content"@) matches Some(JsonView::List(c)) && c.len() == 1
                    && c[0].get("type"@) == Some(JsonView::Text("text"@)) && c[0].get("text"@)
                    == Some(JsonView::Text(m))),
                None => answer == Err::<JsonView, McpErrorView>(e),
            }
        }),
        crate::calls::call_answer(name, schema, ExecutedView::Panicked(words)) == Err::<
            JsonView,
            McpErrorView,
        >(McpErrorView::Internal("tool `"@ + name + "` panicked: "@ + words)),
{
    broadcast use crate::laws::objects::group_fields;

    reveal_with_fuel(crate::json::field_at, 3);
    crate::laws::words::lemma_result_keys_differ();
    let m = match e {
        McpErrorView::ToolError(m) => m,
        McpErrorView::InvalidParams(m) => "Invalid arguments: "@ + m,
        _ => words,
    };
    let c = crate::protocol::text_content(m);
    assert(c.get("text"@) == Some(JsonView::Text(m)));
}

/// What a tool returned is written as it is: its content, its structured content
/// where there is any, that it failed where it did, and what it says of itself.
pub proof fn law_a_result_is_written_whole(result: CallToolResultView, other: Seq<char>)
    ensures
        result.json().get("content"@) == Some(JsonView::List(result.content)),
        result.json().get("structuredContent"@) == result.structured_content,
        result.json().get("isError"@) == (if result.is_error {
            Some(JsonView::Bool(true))
        } else {
            None
        }),
        result.json().get("_meta"@) == result.meta,
        other != "content"@ && other != "structuredContent"@ && other != "isError"@ && other
            != "_meta"@ ==> result.json().get(other) is None,
{
    broadcast use crate::laws::objects::group_fields;

    crate::laws::words::lemma_result_keys_differ();
}

/// A call whose `task` is no object, or asks for a lifetime that is no whole
/// number, is refused and changes nothing, whatever the tool.
pub proof fn law_a_task_is_asked_for_in_form(
    before: Server,
    after: Server,
    request: RequestView,
    now: Timestamp,
    r: Dispatch,
    params: JsonView,
)
    requires
        crate::dispatch::dispatch_step(before, after, request, now, r),
        request.method == "tools/call"@,
        request.params == Some(params),
        params.get("name"@) matches Some(JsonView::Text(_)),
        !unsaid(params, "task"@),
        !(params.get("task"@)->0 is Object) || (!unsaid(params.get("task"@)->0, "ttl"@) && !(
        params.get("task"@)->0.get("ttl"@)->0 matches JsonView::Number(NumberView::Unsigned(_)))),
    ensures
        after == before,
        r matches Dispatch::Done(Err(e)) && e@ is InvalidParams,
{
    lemma_methods_differ();
}

/// A structured result says the same in text, for clients that read only that,
/// and is no failure; a text that is a result, or a failure, is that text.
pub proof fn law_results_are_made_whole(
    value: Json,
    structured: CallToolResult,
    words: &str,
    plain: CallToolResult,
    failure: CallToolResult,
)
    requires
        call_ensures(CallToolResult::structured, (value,), structured),
        call_ensures(CallToolResult::text, (words,), plain),
        call_ensures(CallToolResult::error, (words,), failure),
    ensures
        structured@.structured_content == Some(value@),
        !structured@.is_error && !plain@.is_error && failure@.is_error,
        plain@.structured_content is None && failure@.structured_content is None,
        structured@.content.len() == 1 && structured@.content[0].get("text"@) == Some(
            JsonView::Text(crate::json::json_written(value@)),
        ),
        plain@.content.len() == 1 && plain@.content[0].get("text"@) == Some(
            JsonView::Text(words@),
        ),
        failure@.content.len() == 1 && failure@.content[0].get("text"@) == Some(
            JsonView::Text(words@),
        ),
{
    reveal_with_fuel(crate::json::field_at, 3);
    crate::laws::words::lemma_result_keys_differ();
    let a = crate::protocol::text_content(crate::json::json_written(value@));
    let b = crate::protocol::text_content(words@);
    assert(a.get("text"@) == Some(JsonView::Text(crate::json::json_written(value@))));
    assert(b.get("text"@) == Some(JsonView::Text(words@)));
}

} // verus!
