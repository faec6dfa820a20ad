//! Calling tools, at once or as tasks.

use crate::calendar::Timestamp;
use crate::json::{Json, JsonView};
use crate::params::read_call;
use crate::protocol::{CallToolResult, CallToolResultView, TaskSupport};
use crate::schema::validate_structured_output;
use crate::server::{find_tool, Server, TaskContext, ToolEntry};
use crate::tasks::{CreateTaskResult, OutcomeView, Task, TaskOutcome, TaskStatus};
use crate::text::{join, join3};
use crate::types::{
    JsonRpcError, JsonRpcErrorView, JsonRpcMessage, McpError, McpErrorView, MessageView,
    NotificationView,
};
use vstd::prelude::*;
use vstd::string::*;

verus! {

/// What running a tool came to.
#[derive(Debug)]
pub enum Executed {
    Returned(Result<CallToolResult, McpError>),
    /// It panicked, with these words.
    Panicked(String),
}

/// What an [`Executed`] is.
pub enum ExecutedView {
    Returned(Result<CallToolResultView, McpErrorView>),
    Panicked(Seq<char>),
}

impl View for Executed {
    type V = ExecutedView;

    open spec fn view(&self) -> ExecutedView {
        match *self {
            Executed::Returned(Ok(r)) => ExecutedView::Returned(Ok(r@)),
            Executed::Returned(Err(e)) => ExecutedView::Returned(Err(e@)),
            Executed::Panicked(m) => ExecutedView::Panicked(m@),
        }
    }
}

/// What running a tool means for its caller. A tool that ran and failed gives
/// a result that the model can read; only what is wrong with the call itself,
/// or with the server, is an error.
pub open spec fn settled(name: Seq<char>, executed: ExecutedView) -> Result<
    CallToolResultView,
    McpErrorView,
> {
    match executed {
        ExecutedView::Returned(Ok(r)) => Ok(r),
        ExecutedView::Returned(Err(McpErrorView::ToolError(m))) => Ok(
            CallToolResultView::of_text(m, true),
        ),
        ExecutedView::Returned(Err(McpErrorView::InvalidParams(m))) => Ok(
            CallToolResultView::of_text("Invalid arguments: "@ + m, true),
        ),
        ExecutedView::Returned(Err(e)) => Err(e),
        ExecutedView::Panicked(m) => Err(
            McpErrorView::Internal("tool `"@ + name + "` panicked: "@ + m),
        ),
    }
}

/// A result that keeps the promise of the tool's output schema, or the fault
/// of one that does not. A failure promises nothing.
pub open spec fn checked(
    name: Seq<char>,
    schema: Option<JsonView>,
    r: CallToolResultView,
) -> Result<CallToolResultView, McpErrorView> {
    match schema {
        Some(s) => if r.is_error {
            Ok(r)
        } else {
            match crate::schema::output_problem(s, r.structured_content) {
                Some(why) => Err(
                    McpErrorView::Internal(
                        "Tool `"@ + name + "` declares an outputSchema but returned "@ + why,
                    ),
                ),
                None => Ok(r),
            }
        },
        None => Ok(r),
    }
}

/// What a call of a tool returns.
pub open spec fn call_result(
    name: Seq<char>,
    schema: Option<JsonView>,
    executed: ExecutedView,
) -> Result<CallToolResultView, McpErrorView> {
    match settled(name, executed) {
        Ok(r) => checked(name, schema, r),
        Err(e) => Err(e),
    }
}

/// What a call of a tool is answered with.
pub open spec fn call_answer(
    name: Seq<char>,
    schema: Option<JsonView>,
    executed: ExecutedView,
) -> Result<JsonView, McpErrorView> {
    match call_result(name, schema, executed) {
        Ok(r) => Ok(r.json()),
        Err(e) => Err(e),
    }
}

/// How a task ends, and with what.
pub open spec fn task_end(
    name: Seq<char>,
    schema: Option<JsonView>,
    executed: ExecutedView,
) -> (TaskStatus, OutcomeView) {
    match executed {
        ExecutedView::Panicked(m) => (
            TaskStatus::Failed,
            OutcomeView::Error(
                JsonRpcErrorView {
                    code: -32603,
                    message: "task worker panicked: "@ + m,
                    data: None,
                },
            ),
        ),
        _ => match call_result(name, schema, executed) {
            Ok(r) => (
                if r.is_error {
                    TaskStatus::Failed
                } else {
                    TaskStatus::Completed
                },
                OutcomeView::Value(r.json()),
            ),
            Err(e) => (TaskStatus::Failed, OutcomeView::Error(e.on_the_wire())),
        },
    }
}

impl ToolEntry {
    /// What running the tool means for its caller.
    pub fn settle(&self, executed: Executed) -> (r: Result<CallToolResult, McpError>)
        ensures
            match r {
                Ok(result) => call_result(
                    self.name@,
                    crate::json::optional(self.output_schema),
                    executed@,
                ) == Ok::<CallToolResultView, McpErrorView>(result@),
                Err(e) => call_result(
                    self.name@,
                    crate::json::optional(self.output_schema),
                    executed@,
                ) == Err::<CallToolResultView, McpErrorView>(e@),
            },
    {
        let result = match executed {
            Executed::Returned(Ok(result)) => result,
            Executed::Returned(Err(McpError::ToolError(m))) => CallToolResult::error(m.as_str()),
            Executed::Returned(Err(McpError::InvalidParams(m))) => CallToolResult::error(
                join("Invalid arguments: ", m.as_str()).as_str(),
            ),
            Executed::Returned(Err(e)) => {
                return Err(e);
            },
            Executed::Panicked(m) => {
                let mut why = join3("tool `", self.name.as_str(), "` panicked: ");
                why.append(m.as_str());
                return Err(McpError::Internal(why));
            },
        };
        if !result.is_error {
            if let Some(schema) = &self.output_schema {
                if let Some(problem) = validate_structured_output(
                    schema,
                    &result.structured_content,
                ) {
                    let mut why = join3(
                        "Tool `",
                        self.name.as_str(),
                        "` declares an outputSchema but returned ",
                    );
                    why.append(problem.as_str());
                    return Err(McpError::Internal(why));
                }
            }
        }
        Ok(result)
    }

    /// How a task that ran the tool ends, and with what.
    pub fn settle_task(&self, executed: Executed) -> (r: (TaskStatus, TaskOutcome))
        ensures
            (r.0, r.1@) == task_end(
                self.name@,
                crate::json::optional(self.output_schema),
                executed@,
            ),
    {
        match executed {
            Executed::Panicked(m) => (
                TaskStatus::Failed,
                TaskOutcome::Error(
                    JsonRpcError::internal_error(
                        join("task worker panicked: ", m.as_str()).as_str(),
                    ),
                ),
            ),
            returned => match self.settle(returned) {
                Ok(result) => (
                    if result.is_error {
                        TaskStatus::Failed
                    } else {
                        TaskStatus::Completed
                    },
                    TaskOutcome::Value(result.to_json()),
                ),
                Err(e) => (TaskStatus::Failed, TaskOutcome::Error(e.to_jsonrpc_error())),
            },
        }
    }
}

/// A task that did not panic ends with exactly what the plain call would have
/// been answered with.
pub proof fn law_a_task_ends_with_what_the_call_would_have_returned(
    name: Seq<char>,
    schema: Option<JsonView>,
    executed: ExecutedView,
)
    requires
        !(executed is Panicked),
    ensures
        match call_answer(name, schema, executed) {
            Ok(j) => task_end(name, schema, executed).1 == OutcomeView::Value(j),
            Err(e) => task_end(name, schema, executed) == (
                TaskStatus::Failed,
                OutcomeView::Error(e.on_the_wire()),
            ),
        },
        task_end(name, schema, executed).0.terminal(),
{
}

/// A tool that ran and said that it failed is never an error of the protocol.
pub proof fn law_a_failing_tool_is_heard_by_the_model(
    name: Seq<char>,
    schema: Option<JsonView>,
    m: Seq<char>,
)
    ensures
        call_result(
            name,
            schema,
            ExecutedView::Returned(Err(McpErrorView::ToolError(m))),
        ) == Ok::<CallToolResultView, McpErrorView>(CallToolResultView::of_text(m, true)),
        call_result(
            name,
            schema,
            ExecutedView::Returned(Err(McpErrorView::InvalidParams(m))),
        ) == Ok::<CallToolResultView, McpErrorView>(
            CallToolResultView::of_text("Invalid arguments: "@ + m, true),
        ),
{
}

/// What is to be done about a request.
#[derive(Debug)]
pub enum Dispatch {
    /// Answer it.
    Done(Result<Json, McpError>),
    /// Run a tool, and answer with what [`Server::finish_call`] makes of it.
    CallTool { tool: usize, arguments: Json },
    /// Answer that the task was created, and then run the tool as that task.
    /// What is to be warned of is for the log.
    StartTask { tool: usize, arguments: Json, task: Task, warning: Option<String> },
    /// Read a resource.
    ReadResource { resource: usize },
    /// Fill in a prompt.
    GetPrompt { prompt: usize, arguments: Vec<(String, String)> },
    /// Wait for a task to end.
    AwaitTask { task_id: String },
}

/// What a call of a tool comes to.
pub enum CallPlan {
    Refuse(McpErrorView),
    /// Run the tool at once.
    Run(int, JsonView),
    /// Run the tool as a task, with this lifetime asked for.
    AsTask(int, JsonView, Option<u64>),
}

/// What a call of a tool comes to. Whether it becomes a task is up to the
/// server, the tool and the caller, in this order: a server without tasks does
/// not look at what the caller says of them.
pub open spec fn call_plan(server: Server, params: Option<JsonView>) -> CallPlan {
    match crate::params::call_param(params) {
        Err(e) => CallPlan::Refuse(e),
        Ok(call) => {
            let i = crate::server::name_at(
                crate::server::tool_names(server.tools@),
                call.name,
                0,
            );
            if !(0 <= i < server.tools@.len()) {
                CallPlan::Refuse(McpErrorView::InvalidParams("Unknown tool: "@ + call.name))
            } else if server.tasks is None {
                CallPlan::Run(i, call.arguments)
            } else {
                match (call.task, server.tools@[i].task_support) {
                    (Some(_), TaskSupport::Forbidden) => CallPlan::Refuse(
                        McpErrorView::MethodNotFound(
                            "tool `"@ + call.name + "` cannot be invoked as a task"@,
                        ),
                    ),
                    (None, TaskSupport::Required) => CallPlan::Refuse(
                        McpErrorView::MethodNotFound(
                            "tool `"@ + call.name + "` must be invoked as a task"@,
                        ),
                    ),
                    (Some(ttl), _) => CallPlan::AsTask(i, call.arguments, ttl),
                    (None, _) => CallPlan::Run(i, call.arguments),
                }
            }
        },
    }
}

/// What `tools/call` does, up to the running of the tool.
pub open spec fn call_step(
    before: Server,
    after: Server,
    params: Option<JsonView>,
    now: Timestamp,
    r: Dispatch,
) -> bool {
    &&& after.same_but_tasks(&before)
    &&& match call_plan(before, params) {
        CallPlan::Refuse(e) => after == before && (r matches Dispatch::Done(Err(x)) && x@ == e),
        CallPlan::Run(i, a) => after == before && (r matches Dispatch::CallTool { tool, arguments }
            && tool == i && arguments@ == a),
        CallPlan::AsTask(i, a, ttl) => {
            let store = before.tasks->0;
            let limits = store.limits();
            let kept = crate::tasks::alive(store@, now);
            let owner = crate::server::context_owner(before.task_context);
            &&& after.tasks matches Some(s) && s.limits() == limits && if crate::tasks::running_in(
                kept,
            ) >= limits.max_concurrent {
                &&& s@ == kept
                &&& s.stopping() == store.stopping()
                &&& r matches Dispatch::Done(Err(x)) && x@ == crate::tasks::too_many(
                    crate::tasks::running_in(kept),
                    limits.max_concurrent,
                )
            } else {
                r matches Dispatch::StartTask { tool, arguments, task, warning } && tool == i && arguments@
                    == a && crate::tasks::is_task_id(task@.task_id) && crate::tasks::drawn_id(
                    task@.task_id,
                    now,
                    crate::tasks::optional_text(warning),
                ) && ({
                    let made = crate::tasks::new_record(limits, ttl, now, task@.task_id, owner);
                    task@ == made.task && s@ == crate::tasks::with_task(kept, made) && s.stopping()
                        == store.stopping().remove(task@.task_id)
                })
            }
        },
    }
}

/// What the end of a tool that ran as a task does: the task ends, and the client
/// is told of it where the task is still there.
pub open spec fn finish_step(
    before: Server,
    after: Server,
    task_id: Seq<char>,
    tool: int,
    executed: ExecutedView,
    now: Timestamp,
    r: Option<MessageView>,
) -> bool {
    &&& after.same_but_tasks(&before)
    &&& match (before.tasks, after.tasks) {
        (None, None) => r is None,
        (Some(store), Some(left)) => {
            let t = before.tools@[tool];
            let end = task_end(t.name@, crate::json::optional(t.output_schema), executed);
            let ended = crate::tasks::after_finish(
                crate::tasks::alive(store@, now),
                task_id,
                end.0,
                end.1,
                now,
            );
            &&& left.limits() == store.limits()
            &&& left.stopping() == store.stopping().remove(task_id)
            &&& left@ == crate::tasks::alive(ended, now)
            &&& match r {
                Some(m) => crate::tasks::lookup(left@, task_id) is Some && before.has_transport && m
                    == MessageView::Notification(
                    NotificationView {
                        method: "notifications/tasks/status"@,
                        params: Some(crate::tasks::lookup(left@, task_id)->0.task.json()),
                    },
                ),
                None => crate::tasks::lookup(left@, task_id) is None || !before.has_transport,
            }
        },
        _ => false,
    }
}

/// What failing a task does that nobody could be found to run.
pub open spec fn abort_step(
    before: Server,
    after: Server,
    task_id: Seq<char>,
    why: Seq<char>,
    now: Timestamp,
    e: McpErrorView,
) -> bool {
    let words = "failed to spawn task worker: "@ + why;
    &&& after.same_but_tasks(&before)
    &&& e == McpErrorView::Internal(words)
    &&& match (before.tasks, after.tasks) {
        (None, None) => true,
        (Some(store), Some(left)) => {
            &&& left.limits() == store.limits()
            &&& left.stopping() == store.stopping().remove(task_id)
            &&& left@ == crate::tasks::after_finish(
                crate::tasks::alive(store@, now),
                task_id,
                TaskStatus::Failed,
                OutcomeView::Error(JsonRpcErrorView { code: -32603, message: words, data: None }),
                now,
            )
        },
        _ => false,
    }
}

/// The owner of the tasks that a request creates.
pub fn owner_of(context: &TaskContext) -> (r: Option<String>)
    ensures
        crate::tasks::optional_text(r) == crate::server::context_owner(*context),
{
    match context {
        TaskContext::Owner(o) => Some(o.clone()),
        _ => None,
    }
}

impl Server {
    /// Nothing but the tasks is different.
    pub open spec fn same_but_tasks(&self, other: &Server) -> bool {
        self.offers_as(other) && self.session_as(other) && self.broker == other.broker
    }

    /// Decides about a call of a tool. A call that becomes a task is one by the
    /// time this returns.
    pub fn handle_call_tool(&mut self, params: &Option<Json>, now: Timestamp) -> (r: Dispatch)
        requires
            old(self).wf(),
        ensures
            final(self).wf(),
            call_step(*old(self), *final(self), crate::json::optional(*params), now, r),
    {
        let call = match read_call(params) {
            Ok(call) => call,
            Err(e) => {
                return Dispatch::Done(Err(e));
            },
        };
        let i = find_tool(&self.tools, call.name.as_str());
        if i == self.tools.len() {
            return Dispatch::Done(
                Err(McpError::InvalidParams(join("Unknown tool: ", call.name.as_str()))),
            );
        }
        if self.tasks.is_none() {
            return Dispatch::CallTool { tool: i, arguments: call.arguments };
        }
        let support = self.tools[i].task_support;
        let ttl: Option<u64> = match &call.task {
            None => {
                if support == TaskSupport::Required {
                    return Dispatch::Done(
                        Err(
                            McpError::MethodNotFound(
                                join3("tool `", call.name.as_str(), "` must be invoked as a task"),
                            ),
                        ),
                    );
                }
                return Dispatch::CallTool { tool: i, arguments: call.arguments };
            },
            Some(t) => t.ttl,
        };
        if support == TaskSupport::Forbidden {
            return Dispatch::Done(
                Err(
                    McpError::MethodNotFound(
                        join3("tool `", call.name.as_str(), "` cannot be invoked as a task"),
                    ),
                ),
            );
        }
        let owner = owner_of(&self.task_context);
        match &mut self.tasks {
            Some(store) => match store.create_noting(ttl, now, owner) {
                Ok((task, warning)) => Dispatch::StartTask {
                    tool: i,
                    arguments: call.arguments,
                    task,
                    warning,
                },
                Err(e) => Dispatch::Done(Err(e)),
            },
            None => Dispatch::Done(Err(McpError::Internal("tasks are not enabled".to_owned()))),
        }
    }

    /// The answer to a call of a tool that ran.
    pub fn finish_call(&self, tool: usize, executed: Executed) -> (r: Result<Json, McpError>)
        requires
            tool < self.tools@.len(),
        ensures
            crate::types::outcome_view(r) == call_answer(
                self.tools@[tool as int].name@,
                crate::json::optional(self.tools@[tool as int].output_schema),
                executed@,
            ),
    {
        match self.tools[tool].settle(executed) {
            Ok(result) => Ok(result.to_json()),
            Err(e) => Err(e),
        }
    }

    /// Ends the task that ran a tool, and tells the client of it where the task
    /// is still there.
    pub fn finish_task(&mut self, task_id: &str, tool: usize, executed: Executed, now: Timestamp) -> (r:
        Option<JsonRpcMessage>)
        requires
            old(self).wf(),
            tool < old(self).tools@.len(),
        ensures
            final(self).wf(),
            finish_step(
                *old(self),
                *final(self),
                task_id@,
                tool as int,
                executed@,
                now,
                crate::session::sent(r),
            ),
    {
        let (status, outcome) = self.tools[tool].settle_task(executed);
        match &mut self.tasks {
            None => None,
            Some(store) => {
                store.finish(task_id, status, outcome, now);
                match store.get(task_id, now) {
                    Ok(task) => if self.has_transport {
                        Some(
                            JsonRpcMessage::notification(
                                "notifications/tasks/status",
                                Some(task.to_json()),
                            ),
                        )
                    } else {
                        None
                    },
                    Err(_) => None,
                }
            },
        }
    }

    /// Fails a task that nobody could be found to run.
    pub fn abort_task(&mut self, task_id: &str, why: &str, now: Timestamp) -> (r: McpError)
        requires
            old(self).wf(),
        ensures
            final(self).wf(),
            abort_step(*old(self), *final(self), task_id@, why@, now, r@),
    {
        let message = join("failed to spawn task worker: ", why);
        if let Some(store) = &mut self.tasks {
            store.finish(
                task_id,
                TaskStatus::Failed,
                TaskOutcome::Error(JsonRpcError::internal_error(message.as_str())),
                now,
            );
        }
        McpError::Internal(message)
    }
}

/// The answer that tells a client of the task it created.
pub fn task_created(task: Task) -> (r: Json)
    ensures
        r@ == JsonView::Object(seq![("task"@, task@.json())]),
{
    let result = CreateTaskResult { task, meta: None };
    let r = result.to_json();
    assert(seq![("task"@, task@.json())] + crate::json::maybe("_meta"@, None) =~= seq![
        ("task"@, task@.json()),
    ]);
    r
}

} // verus!
