//! What is said on the wire: each thing whole, under its own name, and nothing
//! beside it.

use crate::ask::ElicitParams;
use crate::capabilities::ElicitationMode;
use crate::json::{Json, JsonView, NumberView};
use crate::protocol::{
    Prompt, PromptArgument, ResourceInfo, ResourceTemplate, TaskSupport, ToolInfo,
};
use crate::sampling::{
    ContentView, CreateMessageParams, SamplingRole, SamplingTool, ToolChoice, TurnView,
};
use crate::tasks::{TaskStatus, TaskView};
use vstd::prelude::*;
use vstd::string::*;

verus! {

/// Whether this is a list of these values, left out where there are none.
pub open spec fn lists(j: Option<JsonView>, n: nat, item: spec_fn(int) -> JsonView) -> bool {
    match j {
        None => n == 0,
        Some(JsonView::List(s)) => n > 0 && s.len() == n && forall|i: int|
            0 <= i < n ==> #[trigger] s[i] == item(i),
        _ => false,
    }
}

/// Whether this is a list of these values.
pub open spec fn is_list(j: Option<JsonView>, n: nat, item: spec_fn(int) -> JsonView) -> bool {
    j matches Some(JsonView::List(s)) && s.len() == n && forall|i: int|
        0 <= i < n ==> #[trigger] s[i] == item(i)
}

/// A tool, as it is listed.
pub proof fn law_a_tool_is_written_whole(x: ToolInfo, r: Json, other: Seq<char>)
    requires
        call_ensures(ToolInfo::to_json, (&x,), r),
    ensures
        ({
            let j = JsonView::Object(x.wire_fields());
            &&& r@ == j
            &&& j.get("name"@) == Some(JsonView::Text(x.name@))
            &&& j.get("title"@) == (match x.title {
                Some(s) => Some(JsonView::Text(s@)),
                None => None,
            })
            &&& j.get("description"@) == (match x.description {
                Some(s) => Some(JsonView::Text(s@)),
                None => None,
            })
            &&& j.get("inputSchema"@) == Some(x.input_schema@)
            &&& j.get("outputSchema"@) == (match x.output_schema {
                Some(j) => Some(j@),
                None => None,
            })
            &&& j.get("annotations"@) == (match x.annotations {
                Some(j) => Some(j@),
                None => None,
            })
            &&& lists(j.get("icons"@), x.icons@.len(), |i: int| x.icons@[i]@)
            &&& (if x.task_support == TaskSupport::Forbidden {
                j.get("execution"@) is None
            } else {
                j.get("execution"@) is Some && j.get("execution"@)->0.get("taskSupport"@) == Some(
                    JsonView::Text(
                        if x.task_support == TaskSupport::Required {
                            "required"@
                        } else {
                            "optional"@
                        },
                    ),
                )
            })
            &&& j.get("_meta"@) == (match x.meta {
                Some(j) => Some(j@),
                None => None,
            })
            &&& other != "name"@ && other != "title"@ && other != "description"@
                && other != "inputSchema"@ && other != "outputSchema"@
                && other != "annotations"@ && other != "icons"@ && other != "execution"@
                && other != "_meta"@ ==> j.get(other)
                is None
        }),
{
    broadcast use crate::laws::objects::group_fields;

    reveal_with_fuel(crate::json::field_at, 6);
    crate::laws::words::lemma_words_of_a_tool_is_written_whole();
}

/// Whether a tool can or must be a task is said in one word.
pub proof fn law_what_a_tool_does_as_a_task_is_written(support: TaskSupport, other: Seq<char>)
    requires
        support != TaskSupport::Forbidden,
    ensures
        ({
            let j = crate::protocol::execution_json(support)->0;
            &&& j.get("taskSupport"@) == Some(
                JsonView::Text(
                    if support == TaskSupport::Required {
                        "required"@
                    } else {
                        "optional"@
                    },
                ),
            )
            &&& other != "taskSupport"@ ==> j.get(other)
                is None
        }),
{
    broadcast use crate::laws::objects::group_fields;

    reveal_with_fuel(crate::json::field_at, 3);
}

/// A resource, as it is listed.
pub proof fn law_a_resource_is_written_whole(x: ResourceInfo, r: Json, other: Seq<char>)
    requires
        call_ensures(ResourceInfo::to_json, (&x,), r),
    ensures
        ({
            let j = JsonView::Object(x.wire_fields());
            &&& r@ == j
            &&& j.get("uri"@) == Some(JsonView::Text(x.uri@))
            &&& j.get("name"@) == Some(JsonView::Text(x.name@))
            &&& j.get("title"@) == (match x.title {
                Some(s) => Some(JsonView::Text(s@)),
                None => None,
            })
            &&& j.get("description"@) == (match x.description {
                Some(s) => Some(JsonView::Text(s@)),
                None => None,
            })
            &&& j.get("mimeType"@) == (match x.mime_type {
                Some(s) => Some(JsonView::Text(s@)),
                None => None,
            })
            &&& j.get("size"@) == (match x.size {
                Some(n) => Some(JsonView::Number(NumberView::Unsigned(n))),
                None => None,
            })
            &&& lists(j.get("icons"@), x.icons@.len(), |i: int| x.icons@[i]@)
            &&& j.get("annotations"@) == (match x.annotations {
                Some(j) => Some(j@),
                None => None,
            })
            &&& j.get("_meta"@) == (match x.meta {
                Some(j) => Some(j@),
                None => None,
            })
            &&& other != "uri"@ && other != "name"@ && other != "title"@
                && other != "description"@ && other != "mimeType"@ && other != "size"@
                && other != "icons"@ && other != "annotations"@ && other != "_meta"@ ==> j.get(other)
                is None
        }),
{
    broadcast use crate::laws::objects::group_fields;

    reveal_with_fuel(crate::json::field_at, 6);
    crate::laws::words::lemma_words_of_a_resource_is_written_whole();
}

/// A template, as it is listed.
pub proof fn law_a_template_is_written_whole(x: ResourceTemplate, r: Json, other: Seq<char>)
    requires
        call_ensures(ResourceTemplate::to_json, (&x,), r),
    ensures
        ({
            let j = JsonView::Object(x.wire_fields());
            &&& r@ == j
            &&& j.get("uriTemplate"@) == Some(JsonView::Text(x.uri_template@))
            &&& j.get("name"@) == Some(JsonView::Text(x.name@))
            &&& j.get("title"@) == (match x.title {
                Some(s) => Some(JsonView::Text(s@)),
                None => None,
            })
            &&& j.get("description"@) == (match x.description {
                Some(s) => Some(JsonView::Text(s@)),
                None => None,
            })
            &&& j.get("mimeType"@) == (match x.mime_type {
                Some(s) => Some(JsonView::Text(s@)),
                None => None,
            })
            &&& other != "uriTemplate"@ && other != "name"@ && other != "title"@
                && other != "description"@ && other != "mimeType"@ ==> j.get(other)
                is None
        }),
{
    broadcast use crate::laws::objects::group_fields;

    reveal_with_fuel(crate::json::field_at, 6);
    crate::laws::words::lemma_words_of_a_template_is_written_whole();
}

/// An argument of a prompt, as it is listed.
pub proof fn law_an_argument_is_written_whole(x: PromptArgument, r: Json, other: Seq<char>)
    requires
        call_ensures(PromptArgument::to_json, (&x,), r),
    ensures
        ({
            let j = JsonView::Object(x.wire_fields());
            &&& r@ == j
            &&& j.get("name"@) == Some(JsonView::Text(x.name@))
            &&& j.get("description"@) == (match x.description {
                Some(s) => Some(JsonView::Text(s@)),
                None => None,
            })
            &&& j.get("required"@) == Some(JsonView::Bool(x.required))
            &&& other != "name"@ && other != "description"@ && other != "required"@ ==> j.get(other)
                is None
        }),
{
    broadcast use crate::laws::objects::group_fields;

    reveal_with_fuel(crate::json::field_at, 4);
    crate::laws::words::lemma_words_of_an_argument_is_written_whole();
}

/// A prompt, as it is listed, with its arguments in order.
pub proof fn law_a_prompt_is_written_whole(x: Prompt, r: Json, other: Seq<char>)
    requires
        call_ensures(Prompt::to_json, (&x,), r),
    ensures
        ({
            let j = JsonView::Object(x.wire_fields());
            &&& r@ == j
            &&& j.get("name"@) == Some(JsonView::Text(x.name@))
            &&& j.get("title"@) == (match x.title {
                Some(s) => Some(JsonView::Text(s@)),
                None => None,
            })
            &&& j.get("description"@) == (match x.description {
                Some(s) => Some(JsonView::Text(s@)),
                None => None,
            })
            &&& lists(j.get("arguments"@), x.arguments@.len(), |i: int| JsonView::Object(x.arguments@[i].wire_fields()))
            &&& lists(j.get("icons"@), x.icons@.len(), |i: int| x.icons@[i]@)
            &&& j.get("_meta"@) == (match x.meta {
                Some(j) => Some(j@),
                None => None,
            })
            &&& other != "name"@ && other != "title"@ && other != "description"@
                && other != "arguments"@ && other != "icons"@ && other != "_meta"@ ==> j.get(other)
                is None
        }),
{
    broadcast use crate::laws::objects::group_fields;

    reveal_with_fuel(crate::json::field_at, 6);
    crate::laws::words::lemma_words_of_a_prompt_is_written_whole();
}

/// A request for a completion: everything that is set in it is sent.
pub proof fn law_a_request_for_a_completion_is_written_whole(x: CreateMessageParams, r: Json, other: Seq<char>)
    requires
        call_ensures(CreateMessageParams::to_json, (&x,), r),
    ensures
        ({
            let j = JsonView::Object(x.wire_fields());
            &&& r@ == j
            &&& is_list(j.get("messages"@), x.messages@.len(), |i: int| x.messages@[i]@.json())
            &&& j.get("modelPreferences"@) == (match x.model_preferences {
                Some(j) => Some(j@),
                None => None,
            })
            &&& j.get("systemPrompt"@) == (match x.system_prompt {
                Some(s) => Some(JsonView::Text(s@)),
                None => None,
            })
            &&& j.get("includeContext"@) == (match x.include_context {
                Some(s) => Some(JsonView::Text(s@)),
                None => None,
            })
            &&& j.get("temperature"@) == (match x.temperature {
                Some(n) => Some(JsonView::Number(n@)),
                None => None,
            })
            &&& j.get("maxTokens"@) == Some(JsonView::Number(NumberView::Unsigned(x.max_tokens)))
            &&& j.get("stopSequences"@) == (match x.stop_sequences {
                Some(j) => Some(j@),
                None => None,
            })
            &&& j.get("metadata"@) == (match x.metadata {
                Some(j) => Some(j@),
                None => None,
            })
            &&& lists(j.get("tools"@), x.tools@.len(), |i: int| x.tools@[i].json())
            &&& j.get("toolChoice"@) == (match x.tool_choice {
                Some(c) => Some(c.json()),
                None => None,
            })
            &&& other != "messages"@ && other != "modelPreferences"@
                && other != "systemPrompt"@ && other != "includeContext"@
                && other != "temperature"@ && other != "maxTokens"@
                && other != "stopSequences"@ && other != "metadata"@ && other != "tools"@
                && other != "toolChoice"@ ==> j.get(other)
                is None
        }),
{
    broadcast use crate::laws::objects::group_fields;

    reveal_with_fuel(crate::json::field_at, 6);
    crate::laws::words::lemma_words_of_a_request_for_a_completion_is_written_whole();
}

/// A tool that is offered to the model.
pub proof fn law_an_offered_tool_is_written_whole(x: SamplingTool, r: Json, other: Seq<char>)
    requires
        call_ensures(SamplingTool::to_json, (&x,), r),
    ensures
        ({
            let j = x.json();
            &&& r@ == j
            &&& j.get("name"@) == Some(JsonView::Text(x.name@))
            &&& j.get("description"@) == (match x.description {
                Some(s) => Some(JsonView::Text(s@)),
                None => None,
            })
            &&& j.get("inputSchema"@) == Some(x.input_schema@)
            &&& other != "name"@ && other != "description"@ && other != "inputSchema"@ ==> j.get(other)
                is None
        }),
{
    broadcast use crate::laws::objects::group_fields;

    reveal_with_fuel(crate::json::field_at, 4);
    crate::laws::words::lemma_words_of_an_offered_tool_is_written_whole();
}

/// Whether the model may use tools, in one word.
pub proof fn law_a_choice_is_written(x: ToolChoice, r: Json, other: Seq<char>)
    requires
        call_ensures(ToolChoice::to_json, (&x,), r),
    ensures
        ({
            let j = x.json();
            &&& r@ == j
            &&& j.get("mode"@) == Some(
                JsonView::Text(
                    match x {
                        ToolChoice::Auto => "auto"@,
                        ToolChoice::Required => "required"@,
                        ToolChoice::Never => "none"@,
                    },
                ),
            )
            &&& other != "mode"@ ==> j.get(other)
                is None
        }),
{
    broadcast use crate::laws::objects::group_fields;

    reveal_with_fuel(crate::json::field_at, 3);
}

/// A message of a conversation says who speaks, and all that is said: a single
/// piece alone, others as a list.
pub proof fn law_a_turn_is_written_whole(x: TurnView, other: Seq<char>)
    ensures
        ({
            let j = x.json();
            &&& j.get("role"@) == Some(
                JsonView::Text(
                    if x.role == SamplingRole::User {
                        "user"@
                    } else {
                        "assistant"@
                    },
                ),
            )
            &&& (if x.content.len() == 1 {
                j.get("content"@) == Some(x.content[0].json())
            } else {
                is_list(j.get("content"@), x.content.len(), |i: int| x.content[i].json())
            })
            &&& other != "role"@ && other != "content"@ ==> j.get(other)
                is None
        }),
{
    broadcast use crate::laws::objects::group_fields;

    reveal_with_fuel(crate::json::field_at, 3);
    crate::laws::words::lemma_words_of_a_turn_is_written_whole();
}

/// A piece of text.
pub proof fn law_a_piece_of_text_is_written(s: Seq<char>, other: Seq<char>)
    ensures
        ({
            let j = (ContentView::Text(s)).json();
            &&& j.get("type"@) == Some(JsonView::Text("text"@))
            &&& j.get("text"@) == Some(JsonView::Text(s))
            &&& other != "type"@ && other != "text"@ ==> j.get(other)
                is None
        }),
{
    broadcast use crate::laws::objects::group_fields;

    reveal_with_fuel(crate::json::field_at, 3);
    crate::laws::words::lemma_words_of_a_piece_of_text_is_written();
}

/// A use of a tool that the model wants.
pub proof fn law_a_use_of_a_tool_is_written_whole(id: Seq<char>, name: Seq<char>, input: JsonView, other: Seq<char>)
    ensures
        ({
            let j = (ContentView::ToolUse { id, name, input }).json();
            &&& j.get("type"@) == Some(JsonView::Text("tool_use"@))
            &&& j.get("id"@) == Some(JsonView::Text(id))
            &&& j.get("name"@) == Some(JsonView::Text(name))
            &&& j.get("input"@) == Some(input)
            &&& other != "type"@ && other != "id"@ && other != "name"@ && other != "input"@ ==> j.get(other)
                is None
        }),
{
    broadcast use crate::laws::objects::group_fields;

    reveal_with_fuel(crate::json::field_at, 5);
    crate::laws::words::lemma_words_of_a_use_of_a_tool_is_written_whole();
}

/// What the use of a tool came to.
pub proof fn law_the_result_of_a_tool_is_written_whole(tool_use_id: Seq<char>, content: Seq<JsonView>, is_error: bool, other: Seq<char>)
    ensures
        ({
            let j = (ContentView::ToolResult { tool_use_id, content, is_error }).json();
            &&& j.get("type"@) == Some(JsonView::Text("tool_result"@))
            &&& j.get("toolUseId"@) == Some(JsonView::Text(tool_use_id))
            &&& j.get("content"@) == Some(JsonView::List(content))
            &&& j.get("isError"@) == (if is_error {
                Some(JsonView::Bool(true))
            } else {
                None
            })
            &&& other != "type"@ && other != "toolUseId"@ && other != "content"@
                && other != "isError"@ ==> j.get(other)
                is None
        }),
{
    broadcast use crate::laws::objects::group_fields;

    reveal_with_fuel(crate::json::field_at, 5);
    crate::laws::words::lemma_words_of_the_result_of_a_tool_is_written_whole();
}

/// A request for input from the user: everything that is set in it is sent.
pub proof fn law_a_request_for_input_is_written_whole(x: ElicitParams, r: Json, other: Seq<char>)
    requires
        call_ensures(ElicitParams::to_json, (&x,), r),
    ensures
        ({
            let j = JsonView::Object(x.wire_fields());
            &&& r@ == j
            &&& j.get("mode"@) == Some(
                JsonView::Text(
                    match x.mode {
                        ElicitationMode::Form => "form"@,
                        ElicitationMode::Url => "url"@,
                    },
                ),
            )
            &&& j.get("message"@) == Some(JsonView::Text(x.message@))
            &&& j.get("requestedSchema"@) == (match x.requested_schema {
                Some(j) => Some(j@),
                None => None,
            })
            &&& j.get("url"@) == (match x.url {
                Some(s) => Some(JsonView::Text(s@)),
                None => None,
            })
            &&& j.get("elicitationId"@) == (match x.elicitation_id {
                Some(s) => Some(JsonView::Text(s@)),
                None => None,
            })
            &&& other != "mode"@ && other != "message"@ && other != "requestedSchema"@
                && other != "url"@ && other != "elicitationId"@ ==> j.get(other)
                is None
        }),
{
    broadcast use crate::laws::objects::group_fields;

    reveal_with_fuel(crate::json::field_at, 6);
    crate::laws::words::lemma_words_of_a_request_for_input_is_written_whole();
}

/// A task, as clients see it. Its lifetime is always said; none is null.
pub proof fn law_a_task_is_written_whole(x: TaskView, other: Seq<char>)
    ensures
        ({
            let j = x.json();
            &&& j.get("taskId"@) == Some(JsonView::Text(x.task_id))
            &&& j.get("status"@) == Some(
                JsonView::Text(
                    match x.status {
                        TaskStatus::Working => "working"@,
                        TaskStatus::InputRequired => "input_required"@,
                        TaskStatus::Completed => "completed"@,
                        TaskStatus::Failed => "failed"@,
                        TaskStatus::Cancelled => "cancelled"@,
                    },
                ),
            )
            &&& j.get("statusMessage"@) == (match x.status_message {
                Some(s) => Some(JsonView::Text(s)),
                None => None,
            })
            &&& j.get("createdAt"@) == Some(JsonView::Text(x.created_at))
            &&& j.get("lastUpdatedAt"@) == Some(JsonView::Text(x.last_updated_at))
            &&& j.get("ttl"@) == Some(
                match x.ttl {
                    Some(n) => JsonView::Number(NumberView::Unsigned(n)),
                    None => JsonView::Null,
                },
            )
            &&& j.get("pollInterval"@) == (match x.poll_interval {
                Some(n) => Some(JsonView::Number(NumberView::Unsigned(n))),
                None => None,
            })
            &&& other != "taskId"@ && other != "status"@ && other != "statusMessage"@
                && other != "createdAt"@ && other != "lastUpdatedAt"@ && other != "ttl"@
                && other != "pollInterval"@ ==> j.get(other)
                is None
        }),
{
    broadcast use crate::laws::objects::group_fields;

    reveal_with_fuel(crate::json::field_at, 6);
    crate::laws::words::lemma_words_of_a_task_is_written_whole();
}

/// A page of tasks, in order, and where the next one begins.
pub proof fn law_a_page_of_tasks_is_written_whole(s: Seq<TaskView>, next: Option<Seq<char>>, other: Seq<char>)
    ensures
        ({
            let j = crate::tasks::task_page(s, next);
            &&& is_list(j.get("tasks"@), s.len(), |i: int| s[i].json())
            &&& j.get("nextCursor"@) == (match next {
                Some(s) => Some(JsonView::Text(s)),
                None => None,
            })
            &&& other != "tasks"@ && other != "nextCursor"@ ==> j.get(other)
                is None
        }),
{
    broadcast use crate::laws::objects::group_fields;

    reveal_with_fuel(crate::json::field_at, 3);
    crate::laws::words::lemma_words_of_a_page_of_tasks_is_written_whole();
}

} // verus!
