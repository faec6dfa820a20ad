use serde_json::Value;
use sml_mcps::ask::ElicitResult;
use sml_mcps::broker::into_result;
use sml_mcps::calendar::Timestamp;
use sml_mcps::calls::{task_created, Dispatch, Executed};
use sml_mcps::env::{PendingRequest, ToolEnv};
use sml_mcps::json::{Json, Number};
use sml_mcps::log::LogLevel;
use sml_mcps::protocol::{CallToolResult, TaskSupport, ToolInfo, PROTOCOL_VERSION};
use sml_mcps::server::{Server, ServerConfig};
use sml_mcps::session::{Handling, Pump};
use sml_mcps::tasks::{TaskConfig, TaskStatus, RELATED_TASK};
use sml_mcps::types::{
    JsonRpcMessage, JsonRpcRequest, JsonRpcResponse, McpError, RequestId,
};
use std::collections::{HashSet, VecDeque};

fn json(text: &str) -> Json {
    let whole = format!("{{\"jsonrpc\":\"2.0\",\"id\":1,\"result\":{text}}}");
    match JsonRpcMessage::parse(&whole).unwrap() {
        JsonRpcMessage::Response(r) => r.result.unwrap(),
        _ => unreachable!(),
    }
}

fn value(json: &Json) -> Value {
    let message = JsonRpcMessage::response(RequestId::Number(1), json.copy());
    let whole: Value = serde_json::from_str(&message.to_text()).unwrap();
    whole["result"].clone()
}

fn tool(name: &str, task_support: TaskSupport) -> ToolInfo {
    ToolInfo {
        name: name.to_string(),
        title: None,
        description: None,
        input_schema: json("{\"type\":\"object\"}"),
        output_schema: None,
        annotations: None,
        icons: Vec::new(),
        task_support,
        meta: None,
    }
}

/// A tool that runs as a task.
struct Worker {
    task_id: String,
    tool: usize,
    env: ToolEnv,
    asked: Option<PendingRequest>,
    answer: Option<JsonRpcResponse>,
}

struct Session {
    server: Server,
    released: bool,
    workers: Vec<Worker>,
    inbox: VecDeque<JsonRpcMessage>,
    outbox: VecDeque<JsonRpcMessage>,
    blocked: Option<(RequestId, String)>,
    time: i64,
    counter: i64,
}

impl Session {
    fn new(config: ServerConfig) -> Session {
        Session {
            server: Server::new(config),
            released: false,
            workers: Vec::new(),
            inbox: VecDeque::new(),
            outbox: VecDeque::new(),
            blocked: None,
            time: 1_700_000_000,
            counter: 0,
        }
    }

    fn now(&self) -> Timestamp {
        Timestamp::from_secs(self.time)
    }

    /// Runs a tool as far as it gets.
    fn run(&mut self, worker: &mut Worker) -> Option<Executed> {
        let name = self.server.tools[worker.tool].name.clone();
        let now = self.now();
        let cancelled = worker.env.is_cancelled(self.server.tasks.as_ref().unwrap());
        let done = |s: &str| Some(Executed::Returned(Ok(CallToolResult::text(s))));
        match name.as_str() {
            "slow" => {
                if cancelled {
                    done("stopped early")
                } else if self.released {
                    done("finished")
                } else {
                    None
                }
            }
            "panics" => Some(Executed::Panicked("tool exploded".to_string())),
            "task_only" => {
                assert!(worker.env.is_task());
                done("ran as task")
            }
            "tracing" => {
                let mut result = CallToolResult::text("done");
                result.meta = Some(json("{\"com.example/trace\":\"keep-me\"}"));
                Some(Executed::Returned(Ok(result)))
            }
            "fails" => Some(Executed::Returned(Err(McpError::ToolError(
                "upstream exploded".to_string(),
            )))),
            "elicits" => {
                let sent = worker.env.send_request(
                    &mut self.server.broker,
                    "elicitation/create",
                    json("{}"),
                );
                match sent {
                    Ok(_) => done("unexpectedly succeeded"),
                    Err(e) => done(&format!("refused: {}", e.to_string())),
                }
            }
            "chatty" => {
                self.outbox.extend(worker.env.log(LogLevel::Info, "working on it"));
                self.outbox.extend(worker.env.send_progress(
                    "tok",
                    Number::Decimal("0.5".to_string()),
                    Some(Number::Decimal("1.0".to_string())),
                ));
                done("done")
            }
            "asks" => {
                if worker.asked.is_none() {
                    let ask = match worker.env.elicit_form(
                        "your name?",
                        json("{\"type\":\"object\",\"properties\":{}}"),
                    ) {
                        Ok(ask) => ask,
                        Err(e) => return Some(Executed::Returned(Err(e))),
                    };
                    match worker.env.send_request(&mut self.server.broker, &ask.method, ask.params) {
                        Err(e) => return Some(Executed::Returned(Err(e))),
                        Ok(pending) => {
                            assert!(pending.delegated);
                            self.outbox
                                .push_back(JsonRpcMessage::parse(&pending.message.to_text()).unwrap());
                            let tasks = self.server.tasks.as_mut().unwrap();
                            assert!(worker
                                .env
                                .set_task_status(tasks, TaskStatus::InputRequired, now)
                                .unwrap());
                            worker.asked = Some(pending);
                        }
                    }
                }
                if cancelled {
                    return Some(Executed::Returned(Err(McpError::Internal(
                        "abandoned".to_string(),
                    ))));
                }
                let answer = worker.answer.take()?;
                let tasks = self.server.tasks.as_mut().unwrap();
                assert!(worker.env.set_task_status(tasks, TaskStatus::Working, now).unwrap());
                let result = ElicitResult::from_json(&into_result(answer).unwrap()).unwrap();
                let name = match result.accepted_content() {
                    Some(content) => match content.get("name") {
                        Some(Json::Text(s)) => s.clone(),
                        _ => "<none>".to_string(),
                    },
                    None => "<none>".to_string(),
                };
                done(&format!("hello {name}"))
            }
            other => panic!("no tool {other}"),
        }
    }

    fn run_workers(&mut self) {
        let workers: Vec<Worker> = self.workers.drain(..).collect();
        for mut worker in workers {
            match self.run(&mut worker) {
                Some(executed) => {
                    let now = self.now();
                    let told =
                        self.server.finish_task(&worker.task_id, worker.tool, executed, now);
                    self.outbox.extend(told);
                }
                None => self.workers.push(worker),
            }
        }
    }

    fn start(&mut self, tool: usize, task_id: &str) {
        let env = self.server.task_env(task_id);
        self.workers.push(Worker {
            task_id: task_id.to_string(),
            tool,
            env,
            asked: None,
            answer: None,
        });
    }

    fn dispatch(&mut self, method: &str, params: &str) -> Result<Value, McpError> {
        let request = JsonRpcRequest {
            id: RequestId::Number(1),
            method: method.to_string(),
            params: Some(json(params)),
        };
        let now = self.now();
        let outcome = match self.server.dispatch_request(&request, now) {
            Dispatch::Done(outcome) => outcome,
            Dispatch::CallTool { tool, arguments } => {
                let executed = match self.server.tools[tool].name.as_str() {
                    "panics" => Executed::Panicked("tool exploded".to_string()),
                    _ => {
                        let amount = match arguments.get("amount") {
                            Some(Json::Number(Number::Unsigned(n))) => *n as i64,
                            _ => 1,
                        };
                        let text = format!("Counter is now: {}", self.counter + amount);
                        Executed::Returned(Ok(CallToolResult::text(&text)))
                    }
                };
                self.server.finish_call(tool, executed)
            }
            Dispatch::StartTask { tool, task, .. } => {
                self.start(tool, &task.task_id);
                Ok(task_created(task))
            }
            Dispatch::AwaitTask { task_id } => {
                let mut tries = 0;
                loop {
                    self.run_workers();
                    if let Some(outcome) = self.server.check_task(&task_id, now) {
                        break outcome;
                    }
                    tries += 1;
                    assert!(tries < 100, "the task never ends");
                }
            }
            _ => unreachable!(),
        };
        outcome.map(|j| value(&j))
    }

    /// Polls until the task has ended.
    fn await_terminal(&mut self, task_id: &str) -> Value {
        for _ in 0..10 {
            self.run_workers();
            let task = self
                .dispatch("tasks/get", &format!("{{\"taskId\":\"{task_id}\"}}"))
                .expect("tasks/get should succeed");
            if matches!(task["status"].as_str().unwrap(), "completed" | "failed" | "cancelled") {
                return task;
            }
        }
        panic!("task {task_id} never reached a terminal status");
    }

    fn call_task(&mut self, name: &str) -> String {
        let created = self
            .dispatch("tools/call", &format!("{{\"name\":\"{name}\",\"task\":{{}}}}"))
            .unwrap();
        created["task"]["taskId"].as_str().unwrap().to_string()
    }

    fn task_result(&mut self, id: &str) -> Result<Value, McpError> {
        self.dispatch("tasks/result", &format!("{{\"taskId\":\"{id}\"}}"))
    }

    /// Hands an answer to the tool that waits for it.
    fn hand_over(&mut self, answer: JsonRpcResponse) {
        for worker in self.workers.iter_mut() {
            if let Some(pending) = &worker.asked {
                if pending.id == answer.id {
                    worker.answer = Some(answer);
                    return;
                }
            }
        }
        panic!("nobody waits for {answer:?}");
    }

    /// One turn of the server: a message in, or a look at the task that is
    /// waited for.
    fn turn(&mut self) {
        let now = self.now();
        if let Some((id, task_id)) = self.blocked.take() {
            if let Some(outcome) = self.server.check_task(&task_id, now) {
                self.outbox.push_back(JsonRpcMessage::answer(id, outcome));
            } else {
                self.blocked = Some((id, task_id));
                let read = match self.inbox.pop_front() {
                    Some(m) => Ok(m),
                    None => Err(McpError::Timeout("nothing".to_string())),
                };
                match self.server.pump(read, now) {
                    Pump::Again => {}
                    Pump::Write(m) => self.outbox.push_back(m),
                    Pump::HandOver(answer) => self.hand_over(answer),
                    Pump::WaitOnTask | Pump::Fail(_) => panic!("unexpected end"),
                }
            }
        } else if let Some(m) = match self.server.broker.next_deferred() {
            Some(m) => Some(m),
            None => self.inbox.pop_front(),
        } {
            match self.server.handle_message(m, now) {
                Handling::Nothing => {}
                Handling::HandOver(answer) => self.hand_over(answer),
                Handling::Request(id, dispatch) => match dispatch {
                    Dispatch::Done(outcome) => {
                        self.outbox.push_back(JsonRpcMessage::answer(id, outcome))
                    }
                    Dispatch::StartTask { tool, task, .. } => {
                        let task_id = task.task_id.clone();
                        let outcome = Ok(task_created(task));
                        self.outbox.push_back(JsonRpcMessage::answer(id, outcome));
                        self.start(tool, &task_id);
                    }
                    Dispatch::AwaitTask { task_id } => self.blocked = Some((id, task_id)),
                    _ => unreachable!(),
                },
            }
        }
        self.run_workers();
    }

    fn send(&mut self, id: i64, method: &str, params: &str) {
        self.inbox.push_back(JsonRpcMessage::request(
            RequestId::Number(id),
            method,
            Some(json(params)),
        ));
    }

    fn read(&mut self) -> JsonRpcMessage {
        for _ in 0..100 {
            if let Some(m) = self.outbox.pop_front() {
                return m;
            }
            self.turn();
        }
        panic!("the server says nothing");
    }

    /// Reads until a response to `id` arrives; what else arrives is handed
    /// back.
    fn read_until_response(&mut self, id: i64) -> (JsonRpcResponse, Vec<JsonRpcMessage>) {
        let mut seen = Vec::new();
        for _ in 0..100 {
            match self.read() {
                JsonRpcMessage::Response(r) if r.id == RequestId::Number(id) => return (r, seen),
                JsonRpcMessage::Notification(n) if n.method == "notifications/tasks/status" => {}
                other => seen.push(other),
            }
        }
        panic!("no response to request {id}");
    }

    fn expect_response(&mut self, id: i64) -> JsonRpcResponse {
        let (response, seen) = self.read_until_response(id);
        assert!(seen.is_empty(), "unexpected {seen:?}");
        response
    }

    fn answer(&mut self, id: RequestId, result: &str) {
        self.inbox.push_back(JsonRpcMessage::response(id, json(result)));
    }
}

fn result_of(response: &JsonRpcResponse) -> Value {
    value(response.result.as_ref().unwrap())
}

fn plain_server() -> Session {
    Session::new(ServerConfig::default())
}

fn task_server() -> Session {
    let mut s = plain_server();
    s.server.enable_tasks(TaskConfig::default());
    s
}

fn offer(s: &mut Session, name: &str, support: TaskSupport) {
    s.server.add_tool(tool(name, support)).unwrap();
}

#[test]
fn test_a_panicking_task_worker_fails_the_task_instead_of_wedging_it() {
    let mut s = task_server();
    offer(&mut s, "panics", TaskSupport::Optional);
    let id = s.call_task("panics");
    let task = s.await_terminal(&id);
    assert_eq!(task["status"], "failed");
    assert!(task["statusMessage"].as_str().unwrap().contains("tool exploded"), "{task}");

    let error = s.task_result(&id).unwrap_err().to_jsonrpc_error();
    assert_eq!(error.code, -32603);
    assert!(error.message.contains("panicked"), "{}", error.message);
}

#[test]
fn test_a_panicking_tool_is_an_internal_error_not_a_crash() {
    let mut s = plain_server();
    offer(&mut s, "panics", TaskSupport::Optional);
    offer(&mut s, "increment", TaskSupport::Forbidden);
    let err = s.dispatch("tools/call", "{\"name\":\"panics\"}").unwrap_err();
    assert_eq!(err.to_jsonrpc_error().code, -32603);
    assert!(err.to_string().contains("panicked"), "{}", err.to_string());
    let ok = s.dispatch("tools/call", "{\"name\":\"increment\"}").unwrap();
    assert_eq!(ok["content"][0]["text"], "Counter is now: 1");
}

#[test]
fn test_tasks_capability_only_declared_when_enabled() {
    let mut plain = plain_server();
    let result = plain.dispatch("initialize", "{}").unwrap();
    assert!(result["capabilities"]["tasks"].is_null());

    let mut enabled = task_server();
    let result = enabled.dispatch("initialize", "{}").unwrap();
    let tasks = &result["capabilities"]["tasks"];
    assert!(!tasks.is_null());
    assert!(!tasks["list"].is_null());
    assert!(!tasks["cancel"].is_null());
    assert!(!tasks["requests"]["tools"]["call"].is_null());
}

#[test]
fn test_task_methods_are_method_not_found_when_disabled() {
    let mut s = plain_server();
    for method in ["tasks/get", "tasks/result", "tasks/list", "tasks/cancel"] {
        let err = s.dispatch(method, "{\"taskId\":\"x\"}").unwrap_err();
        assert_eq!(err.to_jsonrpc_error().code, -32601, "{method}");
    }
}

#[test]
fn test_task_augmentation_ignored_when_tasks_disabled() {
    let mut s = plain_server();
    offer(&mut s, "increment", TaskSupport::Forbidden);
    let result = s
        .dispatch(
            "tools/call",
            "{\"name\":\"increment\",\"arguments\":{\"amount\":2},\"task\":{\"ttl\":60000}}",
        )
        .unwrap();
    assert!(result.get("task").is_none());
    assert!(result["content"][0]["text"].as_str().unwrap().contains('2'));
}

#[test]
fn test_task_augmented_call_returns_create_task_result() {
    let mut s = task_server();
    offer(&mut s, "slow", TaskSupport::Optional);
    let result = s
        .dispatch("tools/call", "{\"name\":\"slow\",\"task\":{\"ttl\":60000}}")
        .unwrap();
    assert_eq!(result["task"]["status"], "working");
    let id = result["task"]["taskId"].as_str().unwrap().to_string();
    assert_eq!(result["task"]["ttl"], 60000);
    assert!(result["task"]["createdAt"].is_string());
    assert!(result["task"]["lastUpdatedAt"].is_string());
    assert!(result.get("content").is_none());

    let polled = s.dispatch("tasks/get", &format!("{{\"taskId\":\"{id}\"}}")).unwrap();
    assert_eq!(polled["taskId"], id.as_str());

    s.released = true;
    let terminal = s.await_terminal(&id);
    assert_eq!(terminal["status"], "completed");
}

#[test]
fn test_task_result_returns_the_underlying_result() {
    let mut s = task_server();
    offer(&mut s, "slow", TaskSupport::Optional);
    let id = s.call_task("slow");
    s.released = true;
    s.await_terminal(&id);
    let result = s.task_result(&id).unwrap();
    assert_eq!(result["content"][0]["text"], "finished");
    assert_eq!(result["_meta"]["io.modelcontextprotocol/related-task"]["taskId"], id.as_str());
}

#[test]
fn test_task_result_adds_related_task_without_destroying_tool_meta() {
    let mut s = task_server();
    offer(&mut s, "tracing", TaskSupport::Optional);
    let id = s.call_task("tracing");
    s.await_terminal(&id);
    let result = s.task_result(&id).unwrap();
    assert_eq!(result["_meta"]["com.example/trace"], "keep-me", "{result}");
    assert_eq!(result["_meta"][RELATED_TASK]["taskId"], id.as_str());
}

#[test]
fn test_task_result_errors_name_their_task_too() {
    let mut s = task_server();
    offer(&mut s, "panics", TaskSupport::Optional);
    let id = s.call_task("panics");
    s.await_terminal(&id);
    let error = s.task_result(&id).unwrap_err().to_jsonrpc_error();
    assert_eq!(
        value(&error.data.expect("error data"))[RELATED_TASK]["taskId"],
        id.as_str()
    );
}

#[test]
fn test_task_cancel_moves_to_cancelled_and_stops_the_tool() {
    let mut s = task_server();
    offer(&mut s, "slow", TaskSupport::Optional);
    let id = s.call_task("slow");
    let cancelled = s.dispatch("tasks/cancel", &format!("{{\"taskId\":\"{id}\"}}")).unwrap();
    assert_eq!(cancelled["status"], "cancelled");
    let polled = s.dispatch("tasks/get", &format!("{{\"taskId\":\"{id}\"}}")).unwrap();
    assert_eq!(polled["status"], "cancelled");
    s.run_workers();
    assert!(s.workers.is_empty(), "the tool should have stopped");
    let polled = s.dispatch("tasks/get", &format!("{{\"taskId\":\"{id}\"}}")).unwrap();
    assert_eq!(polled["status"], "cancelled");
}

#[test]
fn test_cancelling_a_terminal_task_is_invalid_params() {
    let mut s = task_server();
    offer(&mut s, "slow", TaskSupport::Optional);
    let id = s.call_task("slow");
    s.released = true;
    s.await_terminal(&id);
    let err = s.dispatch("tasks/cancel", &format!("{{\"taskId\":\"{id}\"}}")).unwrap_err();
    assert_eq!(err.to_jsonrpc_error().code, -32602);
}

#[test]
fn test_unknown_task_ids_are_invalid_params() {
    let mut s = task_server();
    for method in ["tasks/get", "tasks/result", "tasks/cancel"] {
        let err = s.dispatch(method, "{\"taskId\":\"nonexistent\"}").unwrap_err();
        assert_eq!(err.to_jsonrpc_error().code, -32602, "{method}");
    }
}

#[test]
fn test_tasks_list_paginates() {
    let mut s = Session::new(ServerConfig { page_size: 2, ..Default::default() });
    s.server.enable_tasks(TaskConfig::default());
    offer(&mut s, "slow", TaskSupport::Optional);
    let mut ids = Vec::new();
    for _ in 0..3 {
        ids.push(s.call_task("slow"));
    }
    let page = s.dispatch("tasks/list", "{}").unwrap();
    assert_eq!(page["tasks"].as_array().unwrap().len(), 2);
    assert!(page["nextCursor"].is_string());
    let next = s
        .dispatch("tasks/list", &format!("{{\"cursor\":{}}}", page["nextCursor"]))
        .unwrap();
    assert_eq!(next["tasks"].as_array().unwrap().len(), 1);
    assert!(next["nextCursor"].is_null());
    s.released = true;
    for id in &ids {
        s.await_terminal(id);
    }
}

#[test]
fn test_forbidden_tool_rejects_task_augmentation() {
    let mut s = task_server();
    offer(&mut s, "increment", TaskSupport::Forbidden);
    let err = s.dispatch("tools/call", "{\"name\":\"increment\",\"task\":{}}").unwrap_err();
    assert_eq!(err.to_jsonrpc_error().code, -32601);
    assert!(err.to_string().contains("cannot be invoked as a task"));
}

#[test]
fn test_required_tool_rejects_a_plain_call() {
    let mut s = task_server();
    offer(&mut s, "task_only", TaskSupport::Required);
    let err = s.dispatch("tools/call", "{\"name\":\"task_only\"}").unwrap_err();
    assert_eq!(err.to_jsonrpc_error().code, -32601);
    assert!(err.to_string().contains("must be invoked as a task"));
}

#[test]
fn test_required_tool_runs_when_augmented() {
    let mut s = task_server();
    offer(&mut s, "task_only", TaskSupport::Required);
    let id = s.call_task("task_only");
    s.await_terminal(&id);
    let result = s.task_result(&id).unwrap();
    assert_eq!(result["content"][0]["text"], "ran as task");
}

#[test]
fn test_task_support_appears_in_tools_list() {
    let mut s = task_server();
    offer(&mut s, "task_only", TaskSupport::Required);
    offer(&mut s, "increment", TaskSupport::Forbidden);
    let result = s.dispatch("tools/list", "{}").unwrap();
    let tools = result["tools"].as_array().unwrap();
    let task_only = tools.iter().find(|t| t["name"] == "task_only").unwrap();
    assert_eq!(task_only["execution"]["taskSupport"], "required");
    let increment = tools.iter().find(|t| t["name"] == "increment").unwrap();
    assert!(increment.get("execution").is_none());
}

#[test]
fn test_failing_tool_in_a_task_reaches_failed() {
    let mut s = task_server();
    offer(&mut s, "fails", TaskSupport::Optional);
    let id = s.call_task("fails");
    let terminal = s.await_terminal(&id);
    assert_eq!(terminal["status"], "failed");
    let result = s.task_result(&id).unwrap();
    assert_eq!(result["isError"], true);
    assert!(result["content"][0]["text"].as_str().unwrap().contains("upstream exploded"));
}

#[test]
fn test_task_worker_cannot_make_server_initiated_requests_without_a_pump() {
    let mut s = task_server();
    offer(&mut s, "elicits", TaskSupport::Optional);
    let id = s.call_task("elicits");
    s.await_terminal(&id);
    let result = s.task_result(&id).unwrap();
    let text = result["content"][0]["text"].as_str().unwrap();
    assert!(text.starts_with("refused:"), "{text}");
    assert!(text.contains("nothing is reading the transport"), "{text}");
}

#[test]
fn test_task_ids_are_unpredictable() {
    let mut s = task_server();
    offer(&mut s, "slow", TaskSupport::Optional);
    let mut ids = HashSet::new();
    for _ in 0..5 {
        let id = s.call_task("slow");
        assert_eq!(id.len(), 32, "task ids carry 128 bits of entropy");
        ids.insert(id);
    }
    assert_eq!(ids.len(), 5);
}

#[test]
fn test_an_invalid_cursor_is_invalid_params_on_every_list_operation() {
    let mut s = task_server();
    offer(&mut s, "increment", TaskSupport::Forbidden);
    for method in [
        "tools/list",
        "resources/list",
        "resources/templates/list",
        "prompts/list",
        "tasks/list",
    ] {
        let error = s.dispatch(method, "{\"cursor\":\"!!!not-a-cursor!!!\"}").unwrap_err();
        assert_eq!(error.to_jsonrpc_error().code, -32602, "{method}");
    }
}

#[test]
fn test_a_cursor_past_the_end_of_tasks_list_is_invalid_params() {
    let mut s = task_server();
    let past_the_end = "offset-99";
    let error = s
        .dispatch("tasks/list", &format!("{{\"cursor\":\"{past_the_end}\"}}"))
        .unwrap_err();
    assert_eq!(error.to_jsonrpc_error().code, -32602);
}

#[test]
fn test_type_mismatched_params_are_invalid_params_not_a_parse_error() {
    let mut s = task_server();
    offer(&mut s, "increment", TaskSupport::Forbidden);
    let cases: [(&str, &str); 6] = [
        ("tools/list", "{\"cursor\":12345}"),
        ("resources/list", "{\"cursor\":12345}"),
        ("prompts/list", "{\"cursor\":12345}"),
        ("tasks/list", "{\"cursor\":12345}"),
        ("tools/call", "{\"name\":42}"),
        ("resources/read", "{\"uri\":[]}"),
    ];
    for (method, params) in cases {
        let error = s.dispatch(method, params).unwrap_err();
        assert_eq!(error.to_jsonrpc_error().code, -32602, "{method}");
    }
}

/// A server with tasks, behind a transport that can be read while a task is
/// waited for.
fn task_server_on_a_socket() -> Session {
    let mut s = task_server();
    s.server.attach(true, true);
    offer(&mut s, "asks", TaskSupport::Optional);
    offer(&mut s, "chatty", TaskSupport::Optional);
    s
}

fn initialize_with_elicitation(s: &mut Session) {
    s.send(
        1,
        "initialize",
        &format!(
            "{{\"protocolVersion\":\"{PROTOCOL_VERSION}\",\"capabilities\":{{\"elicitation\":{{\"form\":{{}}}}}},\"clientInfo\":{{\"name\":\"test\",\"version\":\"1.0\"}}}}"
        ),
    );
    s.expect_response(1);
}

/// Starts a task, and reads what it asks.
fn task_blocked_on_input(s: &mut Session) -> (String, JsonRpcRequest) {
    initialize_with_elicitation(s);
    s.send(2, "tools/call", "{\"name\":\"asks\",\"task\":{}}");
    let created = s.expect_response(2);
    let id = result_of(&created)["task"]["taskId"].as_str().unwrap().to_string();
    loop {
        match s.read() {
            JsonRpcMessage::Request(r) if r.method == "elicitation/create" => return (id, r),
            JsonRpcMessage::Notification(n) if n.method == "notifications/tasks/status" => {}
            other => panic!("expected an elicitation, got {other:?}"),
        }
    }
}

fn related_task_of(params: &Option<Json>) -> Option<String> {
    let params = value(params.as_ref()?);
    Some(params.get("_meta")?.get(RELATED_TASK)?.get("taskId")?.as_str()?.to_string())
}

#[test]
fn test_a_task_can_elicit_and_reaches_input_required() {
    let mut s = task_server_on_a_socket();
    let (id, elicitation) = task_blocked_on_input(&mut s);
    s.send(3, "tasks/get", &format!("{{\"taskId\":\"{id}\"}}"));
    let status = s.expect_response(3);
    assert_eq!(
        result_of(&status)["status"],
        "input_required",
        "a task blocked on elicitation should say so"
    );
    s.answer(elicitation.id, "{\"action\":\"accept\",\"content\":{\"name\":\"octocat\"}}");
    s.send(4, "tasks/result", &format!("{{\"taskId\":\"{id}\"}}"));
    let result = s.expect_response(4);
    assert_eq!(result_of(&result)["content"][0]["text"], "hello octocat");
}

fn asked_while_waiting(reply: &str) -> Value {
    let mut s = task_server_on_a_socket();
    initialize_with_elicitation(&mut s);
    s.send(2, "tools/call", "{\"name\":\"asks\",\"task\":{}}");
    let (created, seen) = s.read_until_response(2);
    assert!(seen.is_empty());
    let id = result_of(&created)["task"]["taskId"].as_str().unwrap().to_string();
    s.send(3, "tasks/result", &format!("{{\"taskId\":\"{id}\"}}"));
    loop {
        match s.read() {
            JsonRpcMessage::Response(r) => {
                assert_eq!(r.id, RequestId::Number(3));
                return result_of(&r);
            }
            JsonRpcMessage::Request(r) if r.method == "elicitation/create" => {
                s.answer(r.id, reply)
            }
            JsonRpcMessage::Notification(n) if n.method == "notifications/tasks/status" => {}
            other => panic!("unexpected {other:?}"),
        }
    }
}

#[test]
fn test_tasks_result_pumps_so_an_eliciting_task_can_finish() {
    let result =
        asked_while_waiting("{\"action\":\"accept\",\"content\":{\"name\":\"nobody\"}}");
    assert_eq!(result["content"][0]["text"], "hello nobody");
}

#[test]
fn test_a_declined_elicitation_still_finishes_the_task() {
    let result = asked_while_waiting("{\"action\":\"decline\"}");
    assert_eq!(result["content"][0]["text"], "hello <none>");
}

#[test]
fn test_a_task_elicitation_carries_related_task_meta() {
    let mut s = task_server_on_a_socket();
    let (id, elicitation) = task_blocked_on_input(&mut s);
    assert_eq!(
        related_task_of(&elicitation.params).as_deref(),
        Some(id.as_str()),
        "elicitation params: {:?}",
        elicitation.params
    );
}

#[test]
fn test_task_notifications_carry_related_task_meta_except_status() {
    let mut s = task_server_on_a_socket();
    initialize_with_elicitation(&mut s);
    s.send(2, "tools/call", "{\"name\":\"chatty\",\"task\":{}}");
    let mut logs = 0;
    let mut progress = 0;
    let mut status = 0;
    for _ in 0..20 {
        match s.read() {
            JsonRpcMessage::Response(_) => {}
            JsonRpcMessage::Request(r) => panic!("unexpected request {r:?}"),
            JsonRpcMessage::Notification(n) => {
                let related = related_task_of(&n.params);
                match n.method.as_str() {
                    "notifications/tasks/status" => {
                        assert_eq!(related, None, "status params: {:?}", n.params);
                        status += 1;
                        break;
                    }
                    "notifications/message" => {
                        assert!(related.is_some(), "log params: {:?}", n.params);
                        logs += 1;
                    }
                    "notifications/progress" => {
                        assert!(related.is_some(), "progress params: {:?}", n.params);
                        progress += 1;
                    }
                    other => panic!("unexpected notification {other}"),
                }
            }
        }
    }
    assert_eq!((logs, progress, status), (1, 1, 1));
}

#[test]
fn test_a_worker_never_speaks_before_its_task_is_announced() {
    for _ in 0..5 {
        let mut s = task_server_on_a_socket();
        initialize_with_elicitation(&mut s);
        s.send(2, "tools/call", "{\"name\":\"asks\",\"task\":{}}");
        match s.read() {
            JsonRpcMessage::Response(r) => assert_eq!(r.id, RequestId::Number(2)),
            other => panic!("the task must be announced first, got {other:?}"),
        }
    }
}

#[test]
fn test_tasks_cancel_is_answered_while_tasks_result_blocks() {
    let mut s = task_server_on_a_socket();
    let (id, _) = task_blocked_on_input(&mut s);
    s.send(3, "tasks/result", &format!("{{\"taskId\":\"{id}\"}}"));
    s.send(4, "tasks/cancel", &format!("{{\"taskId\":\"{id}\"}}"));
    let (cancelled, _) = s.read_until_response(4);
    assert_eq!(result_of(&cancelled)["status"], "cancelled");
    let (result, _) = s.read_until_response(3);
    assert!(result.error.is_some(), "{result:?}");
}

#[test]
fn test_tasks_get_and_ping_are_answered_while_tasks_result_blocks() {
    let mut s = task_server_on_a_socket();
    let (id, elicitation) = task_blocked_on_input(&mut s);
    s.send(3, "tasks/result", &format!("{{\"taskId\":\"{id}\"}}"));
    s.send(4, "tasks/get", &format!("{{\"taskId\":\"{id}\"}}"));
    s.send(5, "ping", "{}");
    let (polled, _) = s.read_until_response(4);
    assert_eq!(result_of(&polled)["status"], "input_required");
    let (pong, _) = s.read_until_response(5);
    assert!(pong.result.is_some());
    s.answer(elicitation.id, "{\"action\":\"accept\",\"content\":{\"name\":\"octocat\"}}");
    let (result, _) = s.read_until_response(3);
    assert_eq!(result_of(&result)["content"][0]["text"], "hello octocat");
}

#[test]
fn test_a_second_tasks_result_is_deferred_not_answered_re_entrantly() {
    let mut s = task_server_on_a_socket();
    let (id, elicitation) = task_blocked_on_input(&mut s);
    s.send(3, "tasks/result", &format!("{{\"taskId\":\"{id}\"}}"));
    s.send(4, "tasks/result", &format!("{{\"taskId\":\"{id}\"}}"));
    s.answer(elicitation.id, "{\"action\":\"accept\",\"content\":{\"name\":\"twice\"}}");
    let (first, _) = s.read_until_response(3);
    assert_eq!(result_of(&first)["content"][0]["text"], "hello twice");
    let (second, _) = s.read_until_response(4);
    assert_eq!(result_of(&second)["content"][0]["text"], "hello twice");
}

#[test]
fn a_task_that_cannot_be_run_fails() {
    let mut s = task_server();
    offer(&mut s, "slow", TaskSupport::Optional);
    let id = s.call_task("slow");
    let now = s.now();
    let e = s.server.abort_task(&id, "no threads", now);
    assert_eq!(e, McpError::Internal("failed to spawn task worker: no threads".to_string()));
    let task = s.await_terminal(&id);
    assert_eq!(task["status"], "failed");
}

#[test]
fn the_pump_tells_the_ends_of_a_session_apart() {
    let mut s = task_server_on_a_socket();
    let now = s.now();
    assert!(matches!(
        s.server.pump(Err(McpError::Timeout("x".to_string())), now),
        Pump::Again
    ));
    assert!(matches!(s.server.pump(Err(McpError::TransportClosed), now), Pump::WaitOnTask));
    assert!(matches!(
        s.server.pump(Err(McpError::Io("x".to_string())), now),
        Pump::Fail(McpError::Io(_))
    ));
    match s.server.pump(Err(McpError::InvalidMessage("x".to_string())), now) {
        Pump::Write(JsonRpcMessage::Response(r)) => {
            assert_eq!(r.id, RequestId::Null);
            assert_eq!(r.error.unwrap().code, -32600);
        }
        other => panic!("{other:?}"),
    }
}

#[test]
fn tasks_are_seen_by_who_created_them_only() {
    let mut s = task_server();
    offer(&mut s, "slow", TaskSupport::Optional);
    s.server.task_context = sml_mcps::server::TaskContext::Owner("alice".to_string());
    let id = s.call_task("slow");
    let listed = s.dispatch("tasks/list", "{}").unwrap();
    assert_eq!(listed["tasks"].as_array().unwrap().len(), 1);
    s.server.task_context = sml_mcps::server::TaskContext::Owner("bob".to_string());
    let listed = s.dispatch("tasks/list", "{}").unwrap();
    assert_eq!(listed["tasks"].as_array().unwrap().len(), 0);
    for method in ["tasks/get", "tasks/result", "tasks/cancel"] {
        let err = s.dispatch(method, &format!("{{\"taskId\":\"{id}\"}}")).unwrap_err();
        assert_eq!(
            err,
            McpError::InvalidParams(format!("Failed to retrieve task: Task not found: {id}")),
            "{method}"
        );
    }
}

#[test]
fn looking_at_a_task_drops_nothing() {
    let mut s = task_server();
    offer(&mut s, "slow", TaskSupport::Optional);
    let id = s.call_task("slow");
    assert!(s.server.peek_task(&id).is_none());
    s.released = true;
    s.run_workers();
    s.time += 1_000_000;
    match s.server.peek_task(&id) {
        Some(Ok(result)) => assert_eq!(value(&result)["content"][0]["text"], "finished"),
        other => panic!("{other:?}"),
    }
    let now = s.now();
    assert!(matches!(
        s.server.check_task(&id, now),
        Some(Err(McpError::InvalidParams(_)))
    ));
    assert!(matches!(s.server.peek_task(&id), Some(Err(McpError::InvalidParams(_)))));
}
