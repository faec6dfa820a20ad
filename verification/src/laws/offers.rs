//! What a server offers, and what a tool is given to run with.

use crate::calendar::Timestamp;
use crate::calls::{Executed, ExecutedView};
use crate::env::{RequestMode, ToolEnv};
use crate::json::{Json, JsonView};
use crate::laws::tasks::done;
use crate::protocol::{Prompt, ResourceInfo, ResourceTemplate, ToolInfo};
use crate::server::{Server, ServerConfig};
use crate::tasks::{OutcomeView, Task, TaskConfig, TaskStatus};
use crate::types::{McpError, McpErrorView, MessageView};
use vstd::prelude::*;
use vstd::string::*;

verus! {

/// A name is taken exactly where it is among those there are.
pub proof fn law_a_name_is_taken_where_it_is_there(names: Seq<Seq<char>>, name: Seq<char>)
    ensures
        crate::server::taken(names, name) <==> names.contains(name),
{
    crate::server::lemma_name_at(names, name, 0);
    if names.contains(name) {
        let k = choose|k: int| 0 <= k < names.len() && names[k] == name;
        assert(names[k] == name);
    }
}

/// A tool is added exactly where no other has its name. It is then the last one,
/// under its name, as it says of itself, with what it says of tasks and of its
/// output; everything else stays as it is. One that is refused changes nothing.
pub proof fn law_a_tool_is_added_once(
    before: Server,
    after: Server,
    tool: ToolInfo,
    r: Result<(), McpErrorView>,
)
    requires
        crate::server::tool_added(before, after, tool, r),
    ensures
        r is Err <==> exists|k: int|
            0 <= k < before.tools@.len() && (#[trigger] before.tools@[k]).name@ == tool.name@,
        r is Err ==> after == before && r->Err_0 is Internal,
        r is Ok ==> ({
            let new = after.tools@.last();
            &&& after.tools@.len() == before.tools@.len() + 1
            &&& forall|k: int|
                0 <= k < before.tools@.len() ==> #[trigger] after.tools@[k] == before.tools@[k]
            &&& new.name@ == tool.name@
            &&& new.wire@ == JsonView::Object(tool.wire_fields())
            &&& new.task_support == tool.task_support
            &&& match (new.output_schema, tool.output_schema) {
                (Some(a), Some(b)) => a@ == b@,
                (None, None) => true,
                _ => false,
            }
            &&& after.resources == before.resources && after.prompts == before.prompts
            &&& after.resource_templates == before.resource_templates && after.tasks
                == before.tasks
            &&& after.config == before.config && after.log_level == before.log_level
        }),
{
    let names = crate::server::tool_names(before.tools@);
    law_a_name_is_taken_where_it_is_there(names, tool.name@);
    if names.contains(tool.name@) {
        let k = choose|k: int| 0 <= k < names.len() && names[k] == tool.name@;
        assert(before.tools@[k].name@ == tool.name@);
    }
    if exists|k: int|
        0 <= k < before.tools@.len() && (#[trigger] before.tools@[k]).name@ == tool.name@ {
        let k = choose|k: int|
            0 <= k < before.tools@.len() && (#[trigger] before.tools@[k]).name@ == tool.name@;
        assert(names[k] == tool.name@);
    }
    if r is Ok {
        assert forall|k: int| 0 <= k < before.tools@.len() implies #[trigger] after.tools@[k]
            == before.tools@[k] by {
            assert(after.tools@.drop_last()[k] == after.tools@[k]);
        }
    }
}

/// A resource is added exactly where no other has its URI, and is then the last
/// one, under its URI and as it says of itself.
pub proof fn law_a_resource_is_added_once(
    before: Server,
    after: Server,
    resource: ResourceInfo,
    r: Result<(), McpErrorView>,
)
    requires
        crate::server::resource_added(before, after, resource, r),
    ensures
        r is Err <==> exists|k: int|
            0 <= k < before.resources@.len() && (#[trigger] before.resources@[k]).key@
                == resource.uri@,
        r is Err ==> after == before && r->Err_0 is Internal,
        r is Ok ==> after.resources@.len() == before.resources@.len() + 1 && (forall|k: int|
            0 <= k < before.resources@.len() ==> #[trigger] after.resources@[k]
                == before.resources@[k]) && after.resources@.last().key@ == resource.uri@
            && after.resources@.last().wire@ == JsonView::Object(resource.wire_fields())
            && after.tools == before.tools && after.prompts == before.prompts
            && after.resource_templates == before.resource_templates && after.tasks == before.tasks,
{
    let names = crate::server::keys(before.resources@);
    let uri = resource.uri@;
    law_a_name_is_taken_where_it_is_there(names, uri);
    if names.contains(uri) {
        let k = choose|k: int| 0 <= k < names.len() && names[k] == uri;
        assert(before.resources@[k].key@ == uri);
    }
    if exists|k: int| 0 <= k < before.resources@.len() && (#[trigger] before.resources@[k]).key@ == uri {
        let k = choose|k: int|
            0 <= k < before.resources@.len() && (#[trigger] before.resources@[k]).key@ == uri;
        assert(names[k] == uri);
    }
    if r is Ok {
        assert forall|k: int| 0 <= k < before.resources@.len() implies #[trigger] after.resources@[k]
            == before.resources@[k] by {
            assert(after.resources@.drop_last()[k] == after.resources@[k]);
        }
    }
}

/// A template is added exactly where no other has its URI, and is then the last
/// one, under its URI and as it says of itself.
pub proof fn law_a_template_is_added_once(
    before: Server,
    after: Server,
    template: ResourceTemplate,
    r: Result<(), McpErrorView>,
)
    requires
        crate::server::template_added(before, after, template, r),
    ensures
        r is Err <==> exists|k: int|
            0 <= k < before.resource_templates@.len() && (
            #[trigger] before.resource_templates@[k]).key@ == template.uri_template@,
        r is Err ==> after == before && r->Err_0 is Internal,
        r is Ok ==> after.resource_templates@.len() == before.resource_templates@.len() + 1 && (
        forall|k: int|
            0 <= k < before.resource_templates@.len() ==> #[trigger] after.resource_templates@[k]
                == before.resource_templates@[k]) && after.resource_templates@.last().key@
            == template.uri_template@ && after.resource_templates@.last().wire@
            == JsonView::Object(template.wire_fields()) && after.tools == before.tools
            && after.prompts == before.prompts && after.resources == before.resources && after.tasks
            == before.tasks,
{
    let names = crate::server::keys(before.resource_templates@);
    let uri = template.uri_template@;
    law_a_name_is_taken_where_it_is_there(names, uri);
    if names.contains(uri) {
        let k = choose|k: int| 0 <= k < names.len() && names[k] == uri;
        assert(before.resource_templates@[k].key@ == uri);
    }
    if exists|k: int|
        0 <= k < before.resource_templates@.len() && (#[trigger] before.resource_templates@[k]).key@
            == uri {
        let k = choose|k: int|
            0 <= k < before.resource_templates@.len() && (
            #[trigger] before.resource_templates@[k]).key@ == uri;
        assert(names[k] == uri);
    }
    if r is Ok {
        assert forall|k: int|
            0 <= k < before.resource_templates@.len() implies #[trigger] after.resource_templates@[k]
            == before.resource_templates@[k] by {
            assert(after.resource_templates@.drop_last()[k] == after.resource_templates@[k]);
        }
    }
}

/// A prompt is added exactly where no other has its name, and is then the last
/// one, under its name and as it says of itself.
pub proof fn law_a_prompt_is_added_once(
    before: Server,
    after: Server,
    prompt: Prompt,
    r: Result<(), McpErrorView>,
)
    requires
        crate::server::prompt_added(before, after, prompt, r),
    ensures
        r is Err <==> exists|k: int|
            0 <= k < before.prompts@.len() && (#[trigger] before.prompts@[k]).name@ == prompt.name@,
        r is Err ==> after == before && r->Err_0 is Internal,
        r is Ok ==> after.prompts@.len() == before.prompts@.len() + 1 && (forall|k: int|
            0 <= k < before.prompts@.len() ==> #[trigger] after.prompts@[k] == before.prompts@[k])
            && after.prompts@.last().name@ == prompt.name@ && after.prompts@.last().wire@
            == JsonView::Object(prompt.wire_fields()) && (match (
            after.prompts@.last().description,
            prompt.description,
        ) {
            (Some(a), Some(b)) => a@ == b@,
            (None, None) => true,
            _ => false,
        }) && after.tools == before.tools && after.resources == before.resources && after.tasks
            == before.tasks,
{
    let names = crate::server::prompt_names(before.prompts@);
    law_a_name_is_taken_where_it_is_there(names, prompt.name@);
    if names.contains(prompt.name@) {
        let k = choose|k: int| 0 <= k < names.len() && names[k] == prompt.name@;
        assert(before.prompts@[k].name@ == prompt.name@);
    }
    if exists|k: int|
        0 <= k < before.prompts@.len() && (#[trigger] before.prompts@[k]).name@ == prompt.name@ {
        let k = choose|k: int|
            0 <= k < before.prompts@.len() && (#[trigger] before.prompts@[k]).name@ == prompt.name@;
        assert(names[k] == prompt.name@);
    }
    if r is Ok {
        assert forall|k: int| 0 <= k < before.prompts@.len() implies #[trigger] after.prompts@[k]
            == before.prompts@[k] by {
            assert(after.prompts@.drop_last()[k] == after.prompts@[k]);
        }
    }
}

/// A new server offers nothing, knows no client, has no tasks, and logs what it
/// is configured to. Enabling tasks gives it a store without tasks that keeps to
/// the limits; attaching a transport lets it speak, and lets tasks ask only where
/// the transport can be split and its reads bounded.
pub proof fn law_a_server_begins_with_nothing(
    config: ServerConfig,
    r: Server,
    after: Server,
    limits: TaskConfig,
    honors_deadlines: bool,
    splits: bool,
)
    requires
        call_ensures(Server::new, (config,), r),
        crate::server::tasks_enabled(r, after, limits),
    ensures
        r.config == config,
        r.tools@.len() == 0 && r.resources@.len() == 0 && r.prompts@.len() == 0
            && r.resource_templates@.len() == 0,
        !r.initialized && r.negotiated_version is None && r.tasks is None && !r.has_transport
            && !r.can_pump,
        r.log_level == config.default_log_level,
        r.task_context is Local,
        !r.client_capabilities.roots && r.client_capabilities.sampling is None
            && r.client_capabilities.elicitation is None,
        after.tasks is Some && after.tasks->0@.len() == 0 && after.tasks->0.limits() == limits,
        after.tools == r.tools && after.config == config && after.log_level == r.log_level,
        crate::server::attached(r, honors_deadlines, splits).has_transport,
        crate::server::attached(r, honors_deadlines, splits).can_pump <==> honors_deadlines
            && splits,
        crate::server::attached(r, honors_deadlines, splits).tools == r.tools,
{
}

/// A tool that is called plainly may ask the client what the client declared, and
/// reads the answer itself. It sees the server's resources, and logs as the
/// client asked.
pub proof fn law_a_plain_call_asks_for_itself(server: Server, env: ToolEnv)
    requires
        call_ensures(Server::tool_env, (&server,), env),
    ensures
        env.has_transport == server.has_transport,
        env.log_level == server.log_level,
        env.stderr_logging == server.config.stderr_logging,
        env.logger@ == server.config.name@,
        env.client_capabilities == server.client_capabilities,
        env.mode == RequestMode::Direct,
        env.request_timeout == server.config.request_timeout,
        env.task_id is None,
        env.resources@.len() == server.resources@.len(),
        forall|k: int|
            0 <= k < env.resources@.len() ==> (#[trigger] env.resources@[k])@
                == server.resources@[k].key@,
{
    lemma_resources(server, env);
}

proof fn lemma_resources(server: Server, env: ToolEnv)
    requires
        crate::text::texts(env.resources@) == crate::server::keys(server.resources@),
    ensures
        env.resources@.len() == server.resources@.len(),
        forall|k: int|
            0 <= k < env.resources@.len() ==> (#[trigger] env.resources@[k])@
                == server.resources@[k].key@,
{
    let a = crate::text::texts(env.resources@);
    let b = crate::server::keys(server.resources@);
    assert(a.len() == env.resources@.len() && b.len() == server.resources@.len());
    assert forall|k: int| 0 <= k < env.resources@.len() implies (#[trigger] env.resources@[k])@
        == server.resources@[k].key@ by {
        assert(a[k] == env.resources@[k]@);
        assert(b[k] == server.resources@[k].key@);
    }
}

/// A tool that runs as a task leaves the reading to another, and may ask the
/// client only where another reads; elsewhere it is told of nothing that the
/// client can do. It knows its task.
pub proof fn law_a_task_leaves_the_reading_to_another(server: Server, id: &str, env: ToolEnv)
    requires
        call_ensures(Server::task_env, (&server, id), env),
    ensures
        env.has_transport == server.has_transport,
        env.log_level == server.log_level,
        env.stderr_logging == server.config.stderr_logging,
        env.logger@ == server.config.name@,
        env.request_timeout == server.config.request_timeout,
        env.task_id is Some && env.task_id->0@ == id@,
        server.can_pump ==> env.mode == RequestMode::Delegated && env.client_capabilities
            == server.client_capabilities,
        !server.can_pump ==> env.mode == RequestMode::Forbidden && !env.client_capabilities.roots
            && env.client_capabilities.sampling is None && env.client_capabilities.elicitation
            is None,
        env.resources@.len() == server.resources@.len(),
        forall|k: int|
            0 <= k < env.resources@.len() ==> (#[trigger] env.resources@[k])@
                == server.resources@[k].key@,
{
    lemma_resources(server, env);
}

/// What a resource holds is given to the client item by item and in order.
pub proof fn law_contents_are_handed_on(server: Server, contents: Vec<Json>, r: Json)
    requires
        call_ensures(Server::finish_read, (&server, contents), r),
    ensures
        crate::laws::wire::is_list(
            r@.get("contents"@),
            contents@.len(),
            |i: int| contents@[i]@,
        ),
{
    broadcast use crate::laws::objects::group_fields;

}

/// The messages of a prompt are given to the client in order, with what the
/// prompt is; a prompt that could not be filled in is answered with its error.
pub proof fn law_messages_of_a_prompt_are_handed_on(
    server: Server,
    prompt: usize,
    messages: Result<Vec<Json>, McpError>,
    r: Result<Json, McpError>,
)
    requires
        prompt < server.prompts@.len(),
        call_ensures(Server::finish_prompt, (&server, prompt, messages), r),
    ensures
        match messages {
            Err(e) => r is Err && r->Err_0@ == e@,
            Ok(m) => r is Ok && crate::laws::wire::is_list(
                r->Ok_0@.get("messages"@),
                m@.len(),
                |i: int| m@[i]@,
            ) && r->Ok_0@.get("description"@) == (match server.prompts@[prompt as int].description {
                Some(s) => Some(JsonView::Text(s@)),
                None => None,
            }),
        },
{
    broadcast use crate::laws::objects::group_fields;

    reveal_strlit("messages");
    reveal_strlit("description");
    assert("messages"@.len() == 8 && "description"@.len() == 11);
}

/// The answer to a call is what [`crate::calls::call_answer`] says of the tool
/// that was called and of what it came to.
pub proof fn law_a_call_is_answered_for_its_tool(
    server: Server,
    tool: usize,
    executed: Executed,
    r: Result<Json, McpError>,
)
    requires
        tool < server.tools@.len(),
        call_ensures(Server::finish_call, (&server, tool, executed), r),
    ensures
        crate::types::outcome_view(r) == crate::calls::call_answer(
            server.tools@[tool as int].name@,
            match server.tools@[tool as int].output_schema {
                Some(s) => Some(s@),
                None => None,
            },
            executed@,
        ),
{
}

/// A client that created a task is told of it whole.
pub proof fn law_a_client_is_told_of_its_task(task: Task, r: Json)
    requires
        call_ensures(crate::calls::task_created, (task,), r),
    ensures
        r@.get("task"@) == Some(task@.json()),
{
    broadcast use crate::laws::objects::group_fields;

}

/// A task whose tool ended is over from then on: completed where the tool gave a
/// result, failed where it gave an error, was wrong about its output, or
/// panicked. A task that was cancelled meanwhile stays cancelled. The client is
/// told of the task as it now is, where it is still there and can be reached; the
/// tool is not told to stop any more, and no other task is touched.
pub proof fn law_the_end_of_a_tool_ends_its_task(
    before: Server,
    after: Server,
    id: Seq<char>,
    tool: int,
    executed: ExecutedView,
    now: Timestamp,
    r: Option<MessageView>,
    k: int,
)
    requires
        before.wf(),
        0 <= tool < before.tools@.len(),
        crate::calls::finish_step(before, after, id, tool, executed, now, r),
        before.tasks is Some,
        0 <= k < before.tasks->0@.len(),
        before.tasks->0@[k].task.task_id == id,
        !crate::laws::tasks::over(before.tasks->0@[k], now),
    ensures
        after.tasks is Some,
        !after.tasks->0.stopping().contains(id),
        r is Some <==> before.has_transport,
        ({
            let was = before.tasks->0@[k];
            let is = crate::tasks::lookup(after.tasks->0@, id);
            let t = before.tools@[tool];
            let answer = crate::calls::call_answer(
                t.name@,
                match t.output_schema {
                    Some(s) => Some(s@),
                    None => None,
                },
                executed,
            );
            &&& is is Some
            &&& done(was) ==> is == Some(was)
            &&& !done(was) ==> done(is->0) && is->0.task.status != TaskStatus::Cancelled
            &&& !done(was) && executed is Panicked ==> is->0.task.status == TaskStatus::Failed && (
            is->0.outcome matches Some(OutcomeView::Error(e)) && e.code == -32603)
            &&& !done(was) && !(executed is Panicked) && answer is Err ==> is->0.task.status
                == TaskStatus::Failed && is->0.outcome == Some(
                OutcomeView::Error((answer->Err_0).on_the_wire()),
            )
            &&& !done(was) && !(executed is Panicked) && answer is Ok ==> is->0.outcome == Some(
                OutcomeView::Value(answer->Ok_0),
            )
            &&& r matches Some(m) ==> (m matches MessageView::Notification(n) && n.method
                == "notifications/tasks/status"@ && n.params == Some(is->0.task.json()))
        }),
{
    let store = before.tasks->0;
    let kept = crate::tasks::alive(store@, now);
    let t = before.tools@[tool];
    let end = crate::calls::task_end(t.name@, crate::json::optional(t.output_schema), executed);
    let ended = crate::tasks::after_finish(kept, id, end.0, end.1, now);
    crate::laws::tasks::lemma_found(store, id, now);
    assert(store@[k].task.task_id == id);
    assert(crate::tasks::lookup(kept, id) == Some(store@[k]));
    crate::tasks::lemma_task_at(kept, id, 0);
    if !done(store@[k]) {
        crate::laws::tasks::law_finishing_touches_one_task(kept, id, end.0, end.1, now, id);
    }
    crate::laws::tasks::lemma_still_alive(kept, ended, id, end.0, end.1, now);
}

/// A task for which nobody could be found to run it has failed, in the words of
/// the failure.
pub proof fn law_a_task_that_cannot_run_has_failed(
    before: Server,
    after: Server,
    id: Seq<char>,
    why: Seq<char>,
    now: Timestamp,
    e: McpErrorView,
    k: int,
)
    requires
        before.wf(),
        crate::calls::abort_step(before, after, id, why, now, e),
        before.tasks is Some,
        0 <= k < before.tasks->0@.len(),
        before.tasks->0@[k].task.task_id == id,
        !crate::laws::tasks::over(before.tasks->0@[k], now),
        !done(before.tasks->0@[k]),
    ensures
        e matches McpErrorView::Internal(words) && crate::laws::messages::ends_in(words, why),
        after.tasks is Some,
        crate::tasks::lookup(after.tasks->0@, id) matches Some(is) && is.task.status
            == TaskStatus::Failed && (is.outcome matches Some(OutcomeView::Error(x)) && x.code
            == -32603 && crate::laws::messages::ends_in(x.message, why)),
{
    let store = before.tasks->0;
    let kept = crate::tasks::alive(store@, now);
    crate::laws::tasks::lemma_found(store, id, now);
    assert(store@[k].task.task_id == id);
    let words = "failed to spawn task worker: "@ + why;
    assert(words.skip(words.len() - why.len()) =~= why);
    crate::laws::tasks::law_finishing_touches_one_task(
        kept,
        id,
        TaskStatus::Failed,
        OutcomeView::Error(
            crate::types::JsonRpcErrorView { code: -32603, message: words, data: None },
        ),
        now,
        id,
    );
}

/// What a server is configured with unless it is told otherwise.
pub proof fn law_a_server_has_usual_settings(config: ServerConfig, limits: TaskConfig)
    requires
        call_ensures(ServerConfig::default, (), config),
        call_ensures(TaskConfig::default, (), limits),
    ensures
        config.page_size == 50,
        config.default_log_level == crate::log::LogLevel::Info,
        config.stderr_logging == crate::log::StderrLogging::Fallback,
        config.request_timeout is Some && config.request_timeout->0.total() == 120 * 1_000_000_000,
        config.max_message_bytes == 8 * 1024 * 1024,
        config.instructions is None && config.title is None,
        limits.default_ttl_ms == 5 * 60 * 1000,
        limits.max_ttl_ms == 60 * 60 * 1000,
        limits.poll_interval_ms == 1000,
        limits.max_concurrent == 16,
{
}

} // verus!
