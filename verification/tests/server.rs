use serde_json::Value;
use sml_mcps::calendar::{Span, Timestamp};
use sml_mcps::calls::{Dispatch, Executed};
use sml_mcps::capabilities::{ClientCapabilities, ElicitationMode};
use sml_mcps::env::{RequestMode, ToolEnv};
use sml_mcps::json::{Json, Number};
use sml_mcps::log::{LogLevel, StderrLogging};
use sml_mcps::params::read_call;
use sml_mcps::params::read_cursor;
use sml_mcps::protocol::{
    content_text, is_supported_protocol_version, CallToolResult, PromptArgument, ResourceTemplate,
    PROTOCOL_VERSION, SUPPORTED_PROTOCOL_VERSIONS,
};
use sml_mcps::provider::{PromptDef, Resource, Tool};
use sml_mcps::server::{Server, ServerConfig};
use sml_mcps::session::{after_read, is_malformed, Handling, LoopStep};
use sml_mcps::transport::Transport;
use sml_mcps::types::{
    JsonRpcError, JsonRpcMessage, JsonRpcRequest, JsonRpcResponse, McpError, RequestId,
};
use std::cell::RefCell;

fn json(text: &str) -> Json {
    let whole = format!("{{\"jsonrpc\":\"2.0\",\"id\":1,\"result\":{text}}}");
    match JsonRpcMessage::parse(&whole).unwrap() {
        JsonRpcMessage::Response(r) => r.result.unwrap(),
        _ => unreachable!(),
    }
}

fn value(json: &Json) -> Value {
    let message = JsonRpcMessage::response(RequestId::Number(1), json.copy());
    let whole: Value = serde_json::from_str(&message.to_text()).unwrap();
    whole["result"].clone()
}

fn now() -> Timestamp {
    Timestamp::from_secs(1_700_000_000)
}

struct TestContext {
    counter: i64,
}

struct Env {
    env: ToolEnv,
    sent: RefCell<Vec<JsonRpcMessage>>,
}

impl Env {
    fn send(&self, message: Option<JsonRpcMessage>) {
        if let Some(m) = message {
            self.sent.borrow_mut().push(m);
        }
    }
}

struct IncrementTool;

impl Tool<TestContext, Env> for IncrementTool {
    fn name(&self) -> &str {
        "increment"
    }
    fn description(&self) -> &str {
        "Increment the counter"
    }
    fn schema(&self) -> Json {
        json("{\"type\":\"object\",\"properties\":{\"amount\":{\"type\":\"integer\"}}}")
    }
    fn execute(&self, args: Json, ctx: &mut TestContext, _env: &Env) -> Result<CallToolResult, McpError> {
        let amount = match args.get("amount") {
            Some(Json::Number(Number::Unsigned(n))) => *n as i64,
            _ => 1,
        };
        ctx.counter += amount;
        Ok(CallToolResult::text(&format!("Counter is now: {}", ctx.counter)))
    }
}

struct NotifyTool;

impl Tool<TestContext, Env> for NotifyTool {
    fn name(&self) -> &str {
        "notify"
    }
    fn description(&self) -> &str {
        "Send a notification"
    }
    fn schema(&self) -> Json {
        json("{\"type\":\"object\"}")
    }
    fn execute(&self, _args: Json, _ctx: &mut TestContext, env: &Env) -> Result<CallToolResult, McpError> {
        env.send(env.env.log(LogLevel::Info, "test notification"));
        env.send(env.env.send_progress(
            "token",
            Number::Decimal("0.5".to_string()),
            Some(Number::Decimal("1.0".to_string())),
        ));
        Ok(CallToolResult::text("done"))
    }
}

struct FailingTool;

impl Tool<TestContext, Env> for FailingTool {
    fn name(&self) -> &str {
        "fail"
    }
    fn description(&self) -> &str {
        "Always fails"
    }
    fn schema(&self) -> Json {
        json("{\"type\":\"object\"}")
    }
    fn execute(&self, _args: Json, _ctx: &mut TestContext, _env: &Env) -> Result<CallToolResult, McpError> {
        Err(McpError::ToolError("intentional failure".to_string()))
    }
}

struct NumberedTool(String);

impl Tool<TestContext, Env> for NumberedTool {
    fn name(&self) -> &str {
        &self.0
    }
    fn description(&self) -> &str {
        "A numbered tool"
    }
    fn schema(&self) -> Json {
        json("{\"type\":\"object\"}")
    }
    fn execute(&self, _args: Json, _ctx: &mut TestContext, _env: &Env) -> Result<CallToolResult, McpError> {
        Ok(CallToolResult::text(&self.0))
    }
}

const COUNT_SCHEMA: &str =
    "{\"type\":\"object\",\"properties\":{\"count\":{\"type\":\"integer\"}},\"required\":[\"count\"]}";

struct StructuredTool;

impl Tool<TestContext, Env> for StructuredTool {
    fn name(&self) -> &str {
        "structured"
    }
    fn description(&self) -> &str {
        "Returns structured data"
    }
    fn title(&self) -> Option<String> {
        Some("Structured Thing".to_string())
    }
    fn schema(&self) -> Json {
        json("{\"type\":\"object\"}")
    }
    fn output_schema(&self) -> Option<Json> {
        Some(json(COUNT_SCHEMA))
    }
    fn icons(&self) -> Vec<Json> {
        vec![json("{\"src\":\"https://example.com/i.png\"}")]
    }
    fn execute(&self, _args: Json, _ctx: &mut TestContext, _env: &Env) -> Result<CallToolResult, McpError> {
        Ok(CallToolResult::structured(json("{\"count\":3}")))
    }
}

struct BrokenSchemaTool;

impl Tool<TestContext, Env> for BrokenSchemaTool {
    fn name(&self) -> &str {
        "broken"
    }
    fn description(&self) -> &str {
        "Declares a schema it does not honor"
    }
    fn schema(&self) -> Json {
        json("{\"type\":\"object\"}")
    }
    fn output_schema(&self) -> Option<Json> {
        Some(json(COUNT_SCHEMA))
    }
    fn execute(&self, _args: Json, _ctx: &mut TestContext, _env: &Env) -> Result<CallToolResult, McpError> {
        Ok(CallToolResult::text("just text"))
    }
}

struct BadInputTool;

impl Tool<TestContext, Env> for BadInputTool {
    fn name(&self) -> &str {
        "bad_input"
    }
    fn description(&self) -> &str {
        "Rejects its arguments"
    }
    fn schema(&self) -> Json {
        json("{\"type\":\"object\"}")
    }
    fn output_schema(&self) -> Option<Json> {
        Some(json("{\"type\":\"object\",\"required\":[\"x\"]}"))
    }
    fn execute(&self, _args: Json, _ctx: &mut TestContext, _env: &Env) -> Result<CallToolResult, McpError> {
        Err(McpError::InvalidParams("date must be in the future".to_string()))
    }
}

struct TestResource {
    uri: String,
    data: String,
}

fn resource(uri: &str, data: &str) -> TestResource {
    TestResource { uri: uri.to_string(), data: data.to_string() }
}

impl Resource for TestResource {
    fn uri(&self) -> String {
        self.uri.clone()
    }
    fn name(&self) -> String {
        "test-resource".to_string()
    }
    fn description(&self) -> String {
        "A test resource".to_string()
    }
    fn mime_type(&self) -> String {
        "text/plain".to_string()
    }
    fn content(&self) -> Vec<Json> {
        vec![json(&format!(
            "{{\"uri\":\"{}\",\"text\":\"{}\",\"mimeType\":\"text/plain\"}}",
            self.uri, self.data
        ))]
    }
}

struct TestPrompt;

impl PromptDef for TestPrompt {
    fn name(&self) -> &str {
        "test-prompt"
    }
    fn description(&self) -> Option<&str> {
        Some("A test prompt")
    }
    fn arguments(&self) -> Vec<PromptArgument> {
        vec![PromptArgument {
            name: "name".to_string(),
            description: Some("Your name".to_string()),
            required: true,
        }]
    }
    fn get_messages(&self, args: &Vec<(String, String)>) -> Result<Vec<Json>, McpError> {
        let name = match args.iter().find(|a| a.0 == "name") {
            Some(a) => a.1.clone(),
            None => "world".to_string(),
        };
        let content = content_text(&format!("Hello, {}!", name));
        Ok(vec![Json::Object(vec![
            ("role".to_string(), Json::Text("user".to_string())),
            ("content".to_string(), content),
        ])])
    }
}

/// A server with what it offers.
struct Host {
    server: Server,
    tools: Vec<Box<dyn Tool<TestContext, Env>>>,
    resources: Vec<Box<dyn Resource>>,
    prompts: Vec<Box<dyn PromptDef>>,
    sent: Vec<JsonRpcMessage>,
}

impl Host {
    fn new(config: ServerConfig) -> Host {
        Host {
            server: Server::new(config),
            tools: Vec::new(),
            resources: Vec::new(),
            prompts: Vec::new(),
            sent: Vec::new(),
        }
    }

    fn add_tool<T: Tool<TestContext, Env> + 'static>(&mut self, tool: T) -> Result<(), McpError> {
        self.server.add_tool(tool.as_protocol_tool())?;
        self.tools.push(Box::new(tool));
        Ok(())
    }

    fn add_resource<R: Resource + 'static>(&mut self, resource: R) -> Result<(), McpError> {
        self.server.add_resource(resource.as_protocol_resource())?;
        self.resources.push(Box::new(resource));
        Ok(())
    }

    fn add_prompt<P: PromptDef + 'static>(&mut self, prompt: P) -> Result<(), McpError> {
        self.server.add_prompt(prompt.as_protocol_prompt())?;
        self.prompts.push(Box::new(prompt));
        Ok(())
    }

    fn carry_out(&mut self, dispatch: Dispatch, ctx: &mut TestContext) -> Result<Json, McpError> {
        match dispatch {
            Dispatch::Done(outcome) => outcome,
            Dispatch::CallTool { tool, arguments } => {
                let env = Env { env: self.server.tool_env(), sent: RefCell::new(Vec::new()) };
                let ran = self.tools[tool].execute(arguments, ctx, &env);
                self.sent.append(&mut env.sent.borrow_mut());
                self.server.finish_call(tool, Executed::Returned(ran))
            }
            Dispatch::ReadResource { resource } => {
                Ok(self.server.finish_read(self.resources[resource].content()))
            }
            Dispatch::GetPrompt { prompt, arguments } => {
                let messages = self.prompts[prompt].get_messages(&arguments);
                self.server.finish_prompt(prompt, messages)
            }
            Dispatch::StartTask { .. } | Dispatch::AwaitTask { .. } => unreachable!(),
        }
    }

    fn dispatch(&mut self, method: &str, params: Option<&str>, ctx: &mut TestContext) -> Result<Json, McpError> {
        let request = request(1, method, params);
        let dispatch = self.server.dispatch_request(&request, now());
        self.carry_out(dispatch, ctx)
    }

    fn ask(&mut self, method: &str, params: Option<&str>) -> Result<Value, McpError> {
        let mut ctx = TestContext { counter: 0 };
        self.dispatch(method, params, &mut ctx).map(|j| value(&j))
    }

    fn handle_message(&mut self, message: JsonRpcMessage, ctx: &mut TestContext) -> Option<JsonRpcMessage> {
        match self.server.handle_message(message, now()) {
            Handling::Request(id, dispatch) => {
                let outcome = self.carry_out(dispatch, ctx);
                Some(JsonRpcMessage::answer(id, outcome))
            }
            Handling::HandOver(_) | Handling::Nothing => None,
        }
    }

    fn process_one<T: Transport>(&mut self, transport: &mut T, ctx: &mut TestContext) -> Result<(), McpError> {
        self.server.attach(false, false);
        let message = transport.read()?;
        let answer = self.handle_message(message, ctx);
        for m in self.sent.drain(..) {
            transport.write(&m)?;
        }
        if let Some(answer) = answer {
            transport.write(&answer)?;
        }
        Ok(())
    }

    fn start<T: Transport>(&mut self, transport: &mut T, ctx: &mut TestContext) -> Result<(), McpError> {
        let honors = transport.set_read_timeout(None).unwrap_or(false);
        self.server.attach(honors, false);
        loop {
            let step = match self.server.broker.next_deferred() {
                Some(message) => LoopStep::Handle(message),
                None => after_read(transport.read()),
            };
            match step {
                LoopStep::Handle(message) => {
                    let answer = self.handle_message(message, ctx);
                    for m in self.sent.drain(..) {
                        transport.write(&m)?;
                    }
                    if let Some(answer) = answer {
                        transport.write(&answer)?;
                    }
                }
                LoopStep::Write(m) => transport.write(&m)?,
                LoopStep::Again => {}
                LoopStep::Stop => return Ok(()),
                LoopStep::Fail(e) => return Err(e),
            }
        }
    }
}

struct MockTransport {
    messages: Vec<JsonRpcMessage>,
    responses: Vec<JsonRpcMessage>,
}

impl MockTransport {
    fn new(messages: Vec<JsonRpcMessage>) -> MockTransport {
        MockTransport { messages, responses: Vec::new() }
    }
}

impl Transport for MockTransport {
    fn read(&mut self) -> Result<JsonRpcMessage, McpError> {
        if self.messages.is_empty() {
            Err(McpError::TransportClosed)
        } else {
            Ok(self.messages.remove(0))
        }
    }
    fn write(&mut self, message: &JsonRpcMessage) -> Result<(), McpError> {
        self.responses.push(JsonRpcMessage::parse(&message.to_text())?);
        Ok(())
    }
    fn close(&mut self) -> Result<(), McpError> {
        Ok(())
    }
}

fn request(id: i64, method: &str, params: Option<&str>) -> JsonRpcRequest {
    JsonRpcRequest {
        id: RequestId::Number(id),
        method: method.to_string(),
        params: params.map(json),
    }
}

fn make_request(id: i64, method: &str, params: Option<&str>) -> JsonRpcMessage {
    JsonRpcMessage::request(RequestId::Number(id), method, params.map(json))
}

fn make_notification(method: &str, params: Option<&str>) -> JsonRpcMessage {
    JsonRpcMessage::notification(method, params.map(json))
}

fn plain() -> Host {
    Host::new(ServerConfig::default())
}

#[test]
fn test_add_tool() {
    let mut host = plain();
    host.add_tool(IncrementTool).unwrap();
    assert!(host.server.tools.iter().any(|t| t.name == "increment"));
}

#[test]
fn test_duplicate_tool_error() {
    let mut host = plain();
    host.add_tool(IncrementTool).unwrap();
    assert!(host.add_tool(IncrementTool).is_err());
}

#[test]
fn test_add_resource() {
    let mut host = plain();
    host.add_resource(resource("test://data", "hello")).unwrap();
    assert!(host.server.resources.iter().any(|r| r.key == "test://data"));
}

#[test]
fn test_duplicate_resource_error() {
    let mut host = plain();
    host.add_resource(resource("test://data", "hello")).unwrap();
    assert!(host.add_resource(resource("test://data", "world")).is_err());
}

#[test]
fn test_add_prompt() {
    let mut host = plain();
    host.add_prompt(TestPrompt).unwrap();
    assert!(host.server.prompts.iter().any(|p| p.name == "test-prompt"));
}

#[test]
fn test_duplicate_prompt_error() {
    let mut host = plain();
    host.add_prompt(TestPrompt).unwrap();
    assert!(host.add_prompt(TestPrompt).is_err());
}

#[test]
fn duplicates_are_named() {
    let mut host = plain();
    host.add_tool(IncrementTool).unwrap();
    match host.add_tool(IncrementTool) {
        Err(McpError::Internal(m)) => assert_eq!(m, "Duplicate tool: increment"),
        other => panic!("{other:?}"),
    }
}

#[test]
fn test_server_config_default() {
    let config = ServerConfig::default();
    assert_eq!(config.name, "sml_mcps");
    assert!(config.instructions.is_none());
}

#[test]
fn a_copied_configuration_says_the_same() {
    let config = ServerConfig {
        name: "srv".to_string(),
        title: Some("T".to_string()),
        icons: vec![json("{\"src\":\"x\"}")],
        page_size: 7,
        ..Default::default()
    };
    let copied = config.copy();
    assert_eq!(copied.name, "srv");
    assert_eq!(copied.title.as_deref(), Some("T"));
    assert_eq!(copied.icons, config.icons);
    assert_eq!(copied.page_size, 7);
    assert_eq!(copied.supported_versions, config.supported_versions);
    assert_eq!(copied.max_message_bytes, 8_388_608);
}

#[test]
fn test_log_level_as_str() {
    assert_eq!(LogLevel::Debug.as_str(), "debug");
    assert_eq!(LogLevel::Info.as_str(), "info");
    assert_eq!(LogLevel::Notice.as_str(), "notice");
    assert_eq!(LogLevel::Warning.as_str(), "warning");
    assert_eq!(LogLevel::Error.as_str(), "error");
    assert_eq!(LogLevel::Critical.as_str(), "critical");
    assert_eq!(LogLevel::Alert.as_str(), "alert");
    assert_eq!(LogLevel::Emergency.as_str(), "emergency");
}

#[test]
fn test_log_level_covers_all_rfc5424_severities() {
    assert_eq!(LogLevel::ALL.len(), 8);
    let names: Vec<&str> = LogLevel::ALL.iter().map(|l| l.as_str()).collect();
    assert_eq!(
        names,
        ["debug", "info", "notice", "warning", "error", "critical", "alert", "emergency"]
    );
}

#[test]
fn test_log_level_ordering_is_by_severity() {
    for pair in LogLevel::ALL.windows(2) {
        assert!(pair[0] < pair[1], "{:?} should be < {:?}", pair[0], pair[1]);
        assert!(pair[1].at_least(pair[0]));
        assert!(!pair[0].at_least(pair[1]));
    }
    assert!(LogLevel::Error > LogLevel::Debug);
    assert!(LogLevel::Emergency > LogLevel::Warning);
}

#[test]
fn test_log_level_round_trips_through_wire_names() {
    for level in LogLevel::ALL {
        assert_eq!(LogLevel::from_wire(level.as_str()), Some(level));
        assert_eq!(level.to_string(), level.as_str());
    }
}

#[test]
fn test_log_level_from_wire_is_case_insensitive() {
    assert_eq!(LogLevel::from_wire("ERROR"), Some(LogLevel::Error));
    assert_eq!(LogLevel::from_wire("Warning"), Some(LogLevel::Warning));
    assert_eq!(LogLevel::from_wire("bogus"), None);
    assert_eq!(LogLevel::from_wire(""), None);
    assert!("nonsense".parse::<LogLevel>().is_err());
    assert_eq!("debug".parse::<LogLevel>().unwrap(), LogLevel::Debug);
}

#[test]
fn test_logging_capability_is_declared() {
    let mut host = plain();
    let result = host.ask("initialize", None).unwrap();
    assert!(!result["capabilities"]["logging"].is_null());
}

#[test]
fn test_set_level_updates_threshold() {
    let mut host = plain();
    assert_eq!(host.server.log_level, LogLevel::Info);
    let result = host.ask("logging/setLevel", Some("{\"level\":\"error\"}")).unwrap();
    assert_eq!(result, serde_json::from_str::<Value>("{}").unwrap());
    assert_eq!(host.server.log_level, LogLevel::Error);
}

#[test]
fn test_set_level_rejects_unknown_level() {
    let mut host = plain();
    let err = host.ask("logging/setLevel", Some("{\"level\":\"verbose\"}")).unwrap_err();
    assert_eq!(err.to_jsonrpc_error().code, -32602);
    assert_eq!(
        err.to_jsonrpc_error().message,
        "Invalid params: Unknown log level `verbose`; expected one of: debug, info, notice, warning, error, critical, alert, emergency"
    );
    assert_eq!(host.server.log_level, LogLevel::Info);
}

#[test]
fn test_set_level_rejects_missing_params() {
    let mut host = plain();
    assert!(matches!(
        host.ask("logging/setLevel", None),
        Err(McpError::InvalidParams(_))
    ));
}

fn log_env(has_transport: bool, log_level: LogLevel, stderr_logging: StderrLogging) -> ToolEnv {
    ToolEnv {
        has_transport,
        resources: Vec::new(),
        log_level,
        stderr_logging,
        logger: "test-logger".to_string(),
        client_capabilities: ClientCapabilities::default(),
        mode: RequestMode::Direct,
        request_timeout: None,
        task_id: None,
    }
}

fn params_of(message: &JsonRpcMessage) -> Value {
    let whole: Value = serde_json::from_str(&message.to_text()).unwrap();
    whole["params"].clone()
}

#[test]
fn test_log_respects_threshold() {
    let env = log_env(true, LogLevel::Warning, StderrLogging::Never);
    let mut sent = Vec::new();
    sent.extend(env.log(LogLevel::Debug, "quiet"));
    sent.extend(env.log(LogLevel::Info, "also quiet"));
    sent.extend(env.log(LogLevel::Warning, "loud"));
    sent.extend(env.log(LogLevel::Error, "louder"));
    assert_eq!(sent.len(), 2);
    for m in &sent {
        let JsonRpcMessage::Notification(n) = m else {
            panic!("expected notification");
        };
        assert_eq!(n.method, "notifications/message");
    }
}

#[test]
fn test_log_emits_spec_shaped_notification() {
    let env = log_env(true, LogLevel::Debug, StderrLogging::Never);
    let sent = env.log(LogLevel::Error, "boom").unwrap();
    let params = params_of(&sent);
    assert_eq!(params["level"], "error");
    assert_eq!(params["logger"], "test-logger");
    assert_eq!(params["data"], "boom");
}

#[test]
fn test_log_data_carries_structured_payload_and_logger() {
    let env = log_env(true, LogLevel::Debug, StderrLogging::Never);
    let data = json("{\"error\":\"Connection failed\",\"port\":5432}");
    let sent = env.log_data(LogLevel::Critical, Some("database"), &data).unwrap();
    let params = params_of(&sent);
    assert_eq!(params["level"], "critical");
    assert_eq!(params["logger"], "database");
    assert_eq!(params["data"]["error"], "Connection failed");
    assert_eq!(params["data"]["port"], 5432);
}

#[test]
fn test_log_never_fails_the_tool() {
    let env = log_env(false, LogLevel::Debug, StderrLogging::Fallback);
    assert!(env.log(LogLevel::Error, "no transport").is_none());
    let text = Json::Text("no transport".to_string());
    assert_eq!(
        env.log_to_stderr(LogLevel::Error, None, &text, false).as_deref(),
        Some("[test-logger] error: no transport")
    );

    let env = log_env(true, LogLevel::Debug, StderrLogging::Fallback);
    assert!(env.log(LogLevel::Error, "write fails").is_some());
    let text = Json::Text("write fails".to_string());
    assert_eq!(
        env.log_to_stderr(LogLevel::Error, None, &text, false).as_deref(),
        Some("[test-logger] error: write fails")
    );
    assert_eq!(env.log_to_stderr(LogLevel::Error, None, &text, true), None);
}

#[test]
fn structured_records_are_written_to_stderr_as_json() {
    let env = log_env(true, LogLevel::Debug, StderrLogging::Always);
    let data = json("{\"b\":[1,2],\"a\":null}");
    assert_eq!(
        env.log_to_stderr(LogLevel::Info, Some("db"), &data, true).as_deref(),
        Some("[db] info: {\"b\":[1,2],\"a\":null}")
    );
}

#[test]
fn test_log_enabled_matches_delivery() {
    let env = log_env(true, LogLevel::Warning, StderrLogging::Never);
    assert_eq!(env.log_level(), LogLevel::Warning);
    assert!(!env.log_enabled(LogLevel::Debug));
    assert!(!env.log_enabled(LogLevel::Info));
    assert!(!env.log_enabled(LogLevel::Notice));
    assert!(env.log_enabled(LogLevel::Warning));
    assert!(env.log_enabled(LogLevel::Emergency));

    let mut sent = 0;
    for level in LogLevel::ALL {
        if env.log(level, "x").is_some() {
            sent += 1;
        }
    }
    let expected = LogLevel::ALL.iter().filter(|l| env.log_enabled(**l)).count();
    assert_eq!(sent, expected);
}

#[test]
fn test_stderr_logging_never_still_delivers_to_client() {
    let env = log_env(true, LogLevel::Debug, StderrLogging::Never);
    assert!(env.log(LogLevel::Info, "delivered").is_some());
    let text = Json::Text("delivered".to_string());
    assert!(env.log_to_stderr(LogLevel::Info, None, &text, false).is_none());
}

#[test]
fn test_server_default_log_level_is_configurable() {
    let server = Server::new(ServerConfig {
        default_log_level: LogLevel::Error,
        ..Default::default()
    });
    assert_eq!(server.log_level, LogLevel::Error);
}

#[test]
fn test_stderr_logging_default_is_fallback() {
    assert_eq!(StderrLogging::default(), StderrLogging::Fallback);
    assert_eq!(ServerConfig::default().stderr_logging, StderrLogging::Fallback);
    assert_eq!(ServerConfig::default().default_log_level, LogLevel::Info);
}

#[test]
fn test_tool_call_without_transport_does_not_panic() {
    let mut host = plain();
    host.add_tool(NotifyTool).unwrap();
    let result = host.ask("tools/call", Some("{\"name\":\"notify\"}")).unwrap();
    assert_eq!(result["content"][0]["text"], "done");
    assert!(host.sent.is_empty());
}

#[test]
fn test_handle_initialize() {
    let mut host = Host::new(ServerConfig {
        name: "test-server".to_string(),
        version: "1.0.0".to_string(),
        instructions: Some("test instructions".to_string()),
        ..Default::default()
    });
    host.add_tool(IncrementTool).unwrap();
    let value = host
        .ask(
            "initialize",
            Some("{\"protocolVersion\":\"2025-03-26\",\"capabilities\":{},\"clientInfo\":{\"name\":\"test\",\"version\":\"1.0\"}}"),
        )
        .unwrap();
    assert_eq!(value["serverInfo"]["name"], "test-server");
    assert_eq!(value["serverInfo"]["version"], "1.0.0");
    assert_eq!(value["instructions"], "test instructions");
    assert!(host.server.initialized);
}

#[test]
fn test_handle_initialize_no_params() {
    assert!(plain().ask("initialize", None).is_ok());
}

#[test]
fn test_handle_ping() {
    assert!(plain().ask("ping", None).is_ok());
}

#[test]
fn test_handle_tools_list() {
    let mut host = plain();
    host.add_tool(IncrementTool).unwrap();
    let result = host.ask("tools/list", None).unwrap();
    let tools = result["tools"].as_array().unwrap();
    assert_eq!(tools.len(), 1);
    assert_eq!(tools[0]["name"], "increment");
}

#[test]
fn test_handle_tools_call() {
    let mut host = plain();
    host.add_tool(IncrementTool).unwrap();
    let mut ctx = TestContext { counter: 0 };
    let result = host
        .dispatch(
            "tools/call",
            Some("{\"name\":\"increment\",\"arguments\":{\"amount\":5}}"),
            &mut ctx,
        )
        .unwrap();
    assert_eq!(ctx.counter, 5);
    assert!(value(&result)["content"][0]["text"].as_str().unwrap().contains("5"));
}

#[test]
fn test_handle_tools_call_no_params() {
    let mut host = plain();
    host.add_tool(IncrementTool).unwrap();
    assert!(host.ask("tools/call", None).is_err());
}

#[test]
fn test_handle_tools_call_unknown_tool() {
    let result = plain().ask("tools/call", Some("{\"name\":\"nonexistent\"}"));
    assert!(matches!(result, Err(McpError::InvalidParams(_))));
    assert_eq!(result.unwrap_err().to_jsonrpc_error().code, -32602);
}

#[test]
fn test_handle_tools_call_tool_failure() {
    let mut host = plain();
    host.add_tool(FailingTool).unwrap();
    let result = host.ask("tools/call", Some("{\"name\":\"fail\"}")).unwrap();
    assert_eq!(result["isError"], true);
    assert!(result["content"][0]["text"]
        .as_str()
        .unwrap()
        .contains("intentional failure"));
}

#[test]
fn test_handle_resources_list() {
    let mut host = plain();
    host.add_resource(resource("test://data", "hello")).unwrap();
    let result = host.ask("resources/list", None).unwrap();
    let resources = result["resources"].as_array().unwrap();
    assert_eq!(resources.len(), 1);
    assert_eq!(resources[0]["uri"], "test://data");
}

#[test]
fn test_handle_resources_read() {
    let mut host = plain();
    host.add_resource(resource("test://data", "hello world")).unwrap();
    let result = host.ask("resources/read", Some("{\"uri\":\"test://data\"}")).unwrap();
    let contents = result["contents"].as_array().unwrap();
    assert_eq!(contents[0]["text"], "hello world");
}

#[test]
fn test_handle_resources_read_not_found() {
    let result = plain().ask("resources/read", Some("{\"uri\":\"nonexistent://uri\"}"));
    assert!(matches!(result, Err(McpError::ResourceNotFound(_))));
}

#[test]
fn test_handle_resources_read_no_params() {
    let result = plain().ask("resources/read", None);
    assert!(matches!(result, Err(McpError::InvalidParams(_))));
}

#[test]
fn test_handle_prompts_list() {
    let mut host = plain();
    host.add_prompt(TestPrompt).unwrap();
    let result = host.ask("prompts/list", None).unwrap();
    let prompts = result["prompts"].as_array().unwrap();
    assert_eq!(prompts.len(), 1);
    assert_eq!(prompts[0]["name"], "test-prompt");
    assert_eq!(prompts[0]["arguments"][0]["required"], true);
}

#[test]
fn test_handle_prompts_get() {
    let mut host = plain();
    host.add_prompt(TestPrompt).unwrap();
    let result = host
        .ask(
            "prompts/get",
            Some("{\"name\":\"test-prompt\",\"arguments\":{\"name\":\"Ada\"}}"),
        )
        .unwrap();
    let messages = result["messages"].as_array().unwrap();
    assert_eq!(messages.len(), 1);
    assert!(messages[0]["content"]["text"].as_str().unwrap().contains("Ada"));
    assert_eq!(result["description"], "A test prompt");
}

#[test]
fn test_handle_prompts_get_not_found() {
    let result = plain().ask("prompts/get", Some("{\"name\":\"nonexistent\",\"arguments\":{}}"));
    assert!(matches!(result, Err(McpError::PromptNotFound(_))));
}

#[test]
fn test_handle_prompts_get_no_params() {
    let result = plain().ask("prompts/get", None);
    assert!(matches!(result, Err(McpError::InvalidParams(_))));
}

#[test]
fn test_handle_unknown_method() {
    let result = plain().ask("unknown/method", None);
    assert!(matches!(result, Err(McpError::MethodNotFound(_))));
}

#[test]
fn test_handle_notification() {
    let mut host = plain();
    let mut ctx = TestContext { counter: 0 };
    assert!(host
        .handle_message(make_notification("notifications/initialized", None), &mut ctx)
        .is_none());
    assert!(host
        .handle_message(
            make_notification("notifications/cancelled", Some("{\"requestId\":1}")),
            &mut ctx
        )
        .is_none());
    assert!(host
        .handle_message(make_notification("unknown/notification", None), &mut ctx)
        .is_none());
}

#[test]
fn test_handle_message_request() {
    let mut host = plain();
    let mut ctx = TestContext { counter: 0 };
    match host.handle_message(make_request(1, "ping", None), &mut ctx) {
        Some(JsonRpcMessage::Response(r)) => assert!(r.result.is_some()),
        other => panic!("Expected response, got {other:?}"),
    }
}

#[test]
fn test_handle_message_notification() {
    let mut host = plain();
    let mut ctx = TestContext { counter: 0 };
    let message = make_notification("notifications/initialized", None);
    assert!(host.handle_message(message, &mut ctx).is_none());
}

#[test]
fn test_handle_message_response() {
    let mut host = plain();
    let mut ctx = TestContext { counter: 0 };
    let message = JsonRpcMessage::Response(JsonRpcResponse {
        id: RequestId::Number(1),
        result: Some(json("{}")),
        error: None,
    });
    assert!(host.handle_message(message, &mut ctx).is_none());
}

#[test]
fn test_handle_request_error_response() {
    let mut host = plain();
    let mut ctx = TestContext { counter: 0 };
    match host.handle_message(make_request(99, "unknown", None), &mut ctx) {
        Some(JsonRpcMessage::Response(r)) => {
            assert!(r.error.is_some());
            assert_eq!(r.id, RequestId::Number(99));
        }
        other => panic!("Expected response, got {other:?}"),
    }
}

#[test]
fn test_process_one() {
    let mut host = plain();
    host.add_tool(IncrementTool).unwrap();
    let mut transport = MockTransport::new(vec![make_request(
        1,
        "tools/call",
        Some("{\"name\":\"increment\",\"arguments\":{\"amount\":10}}"),
    )]);
    let mut ctx = TestContext { counter: 0 };
    host.process_one(&mut transport, &mut ctx).unwrap();
    assert_eq!(ctx.counter, 10);
    assert_eq!(transport.responses.len(), 1);
}

#[test]
fn test_start_exits_on_transport_closed() {
    let mut host = plain();
    let mut transport = MockTransport::new(vec![]);
    let mut ctx = TestContext { counter: 0 };
    assert!(host.start(&mut transport, &mut ctx).is_ok());
}

#[test]
fn test_start_processes_messages() {
    let mut host = plain();
    host.add_tool(IncrementTool).unwrap();
    let mut transport = MockTransport::new(vec![
        make_request(
            1,
            "initialize",
            Some("{\"protocolVersion\":\"2025-03-26\",\"capabilities\":{},\"clientInfo\":{\"name\":\"test\",\"version\":\"1.0\"}}"),
        ),
        make_request(
            2,
            "tools/call",
            Some("{\"name\":\"increment\",\"arguments\":{\"amount\":7}}"),
        ),
    ]);
    let mut ctx = TestContext { counter: 0 };
    assert!(host.start(&mut transport, &mut ctx).is_ok());
    assert_eq!(ctx.counter, 7);
    assert_eq!(transport.responses.len(), 2);
}

fn env_with_resources(uris: &[&str]) -> ToolEnv {
    let mut env = log_env(true, LogLevel::Info, StderrLogging::Never);
    env.resources = uris.iter().map(|u| u.to_string()).collect();
    env
}

#[test]
fn test_tool_env_list_resources() {
    let env = env_with_resources(&["test://a", "test://b"]);
    let uris = env.list_resources();
    assert_eq!(uris.len(), 2);
    assert!(uris.contains(&"test://a".to_string()));
    assert!(uris.contains(&"test://b".to_string()));
}

#[test]
fn test_tool_env_get_resource() {
    let mut host = plain();
    host.add_resource(resource("test://data", "hello")).unwrap();
    let env = host.server.tool_env();
    let found = env.get_resource("test://data");
    assert!(found.is_some());
    assert_eq!(host.resources[found.unwrap()].name(), "test-resource");
    assert!(env.get_resource("nonexistent").is_none());
}

#[test]
fn test_tool_with_notifications() {
    let mut host = plain();
    host.add_tool(NotifyTool).unwrap();
    let mut transport =
        MockTransport::new(vec![make_request(1, "tools/call", Some("{\"name\":\"notify\"}"))]);
    let mut ctx = TestContext { counter: 0 };
    host.process_one(&mut transport, &mut ctx).unwrap();
    assert!(transport.responses.len() >= 2);
    let progress = params_of(&transport.responses[1]);
    assert_eq!(progress["progressToken"], "token");
    assert_eq!(progress["progress"].as_f64(), Some(0.5));
    assert_eq!(progress["total"].as_f64(), Some(1.0));
}

#[test]
fn test_resource_as_protocol_resource() {
    let proto = resource("test://uri", "data").as_protocol_resource();
    assert_eq!(proto.uri, "test://uri");
    assert_eq!(proto.name, "test-resource");
    assert_eq!(proto.description, Some("A test resource".to_string()));
    assert_eq!(proto.mime_type, Some("text/plain".to_string()));
}

#[test]
fn test_prompt_as_protocol_prompt() {
    let proto = TestPrompt.as_protocol_prompt();
    assert_eq!(proto.name, "test-prompt");
    assert_eq!(proto.description, Some("A test prompt".to_string()));
    assert_eq!(proto.arguments.len(), 1);
    assert_eq!(proto.arguments[0].name, "name");
}

#[test]
fn test_capabilities_reflect_registered_items() {
    let mut empty = plain();
    let result = empty.ask("initialize", None).unwrap();
    assert!(result["capabilities"]["tools"].is_null());
    assert!(result["capabilities"]["resources"].is_null());
    assert!(result["capabilities"]["prompts"].is_null());

    let mut full = plain();
    full.add_tool(IncrementTool).unwrap();
    full.add_resource(resource("test://x", "x")).unwrap();
    full.add_prompt(TestPrompt).unwrap();
    let result = full.ask("initialize", None).unwrap();
    assert!(!result["capabilities"]["tools"].is_null());
    assert!(!result["capabilities"]["resources"].is_null());
    assert!(!result["capabilities"]["prompts"].is_null());
}

#[test]
fn test_pagination_tools_list() {
    let mut host = Host::new(ServerConfig { page_size: 3, ..Default::default() });
    for i in 0..10 {
        host.add_tool(NumberedTool(format!("tool_{:03}", i))).unwrap();
    }
    let result = host.ask("tools/list", None).unwrap();
    let tools = result["tools"].as_array().unwrap();
    assert_eq!(tools.len(), 3);
    assert_eq!(tools[0]["name"], "tool_000");
    assert_eq!(tools[2]["name"], "tool_002");
    let cursor = result["nextCursor"].as_str().unwrap();

    let result2 = host
        .ask("tools/list", Some(&format!("{{\"cursor\":\"{cursor}\"}}")))
        .unwrap();
    let tools2 = result2["tools"].as_array().unwrap();
    assert_eq!(tools2.len(), 3);
    assert_eq!(tools2[0]["name"], "tool_003");
    assert_eq!(tools2[2]["name"], "tool_005");
    let cursor2 = result2["nextCursor"].as_str().unwrap();

    let result3 = host
        .ask("tools/list", Some(&format!("{{\"cursor\":\"{cursor2}\"}}")))
        .unwrap();
    let tools3 = result3["tools"].as_array().unwrap();
    assert_eq!(tools3.len(), 3);
    assert_eq!(tools3[0]["name"], "tool_006");
    let cursor3 = result3["nextCursor"].as_str().unwrap();

    let result4 = host
        .ask("tools/list", Some(&format!("{{\"cursor\":\"{cursor3}\"}}")))
        .unwrap();
    let tools4 = result4["tools"].as_array().unwrap();
    assert_eq!(tools4.len(), 1);
    assert_eq!(tools4[0]["name"], "tool_009");
    assert!(result4["nextCursor"].is_null());
}

fn call(host: &mut Host, name: &str) -> Result<Value, McpError> {
    host.ask("tools/call", Some(&format!("{{\"name\":\"{name}\"}}")))
}

#[test]
fn test_structured_tool_result_carries_structured_content() {
    let mut host = plain();
    host.add_tool(StructuredTool).unwrap();
    let result = call(&mut host, "structured").unwrap();
    assert_eq!(result["structuredContent"]["count"], 3);
    assert!(result["content"][0]["text"].as_str().unwrap().contains("3"));
}

#[test]
fn test_output_schema_violation_is_an_internal_error() {
    let mut host = plain();
    host.add_tool(BrokenSchemaTool).unwrap();
    let err = call(&mut host, "broken").unwrap_err();
    assert!(matches!(err, McpError::Internal(_)));
    assert!(err.to_string().contains("outputSchema"), "{}", err.to_string());
}

#[test]
fn test_output_schema_not_enforced_on_error_results() {
    let mut host = plain();
    host.add_tool(BadInputTool).unwrap();
    let result = call(&mut host, "bad_input").unwrap();
    assert_eq!(result["isError"], true);
    assert!(result["content"][0]["text"]
        .as_str()
        .unwrap()
        .contains("date must be in the future"));
}

#[test]
fn test_invalid_params_from_tool_becomes_execution_error() {
    let mut host = plain();
    host.add_tool(BadInputTool).unwrap();
    let result = call(&mut host, "bad_input").unwrap();
    assert_eq!(result["isError"], true);
}

#[test]
fn test_tools_list_exposes_title_output_schema_and_icons() {
    let mut host = plain();
    host.add_tool(StructuredTool).unwrap();
    let result = host.ask("tools/list", None).unwrap();
    let tool = &result["tools"][0];
    assert_eq!(tool["name"], "structured");
    assert_eq!(tool["title"], "Structured Thing");
    assert_eq!(tool["outputSchema"]["required"][0], "count");
    assert_eq!(tool["icons"][0]["src"], "https://example.com/i.png");
    assert!(tool.get("execution").is_none());
}

#[test]
fn test_tools_list_omits_optional_fields_for_plain_tools() {
    let mut host = plain();
    host.add_tool(IncrementTool).unwrap();
    let result = host.ask("tools/list", None).unwrap();
    let tool = &result["tools"][0];
    for absent in ["title", "outputSchema", "icons", "execution", "_meta"] {
        assert!(tool.get(absent).is_none(), "{absent} should be omitted");
    }
}

#[test]
fn test_initialize_reports_configured_server_identity() {
    let mut host = Host::new(ServerConfig {
        name: "srv".to_string(),
        version: "2.0.0".to_string(),
        title: Some("My Server".to_string()),
        description: Some("Does things".to_string()),
        website_url: Some("https://example.com".to_string()),
        icons: vec![json("{\"src\":\"https://example.com/s.png\"}")],
        ..Default::default()
    });
    let result = host.ask("initialize", None).unwrap();
    let info = &result["serverInfo"];
    assert_eq!(info["name"], "srv");
    assert_eq!(info["title"], "My Server");
    assert_eq!(info["description"], "Does things");
    assert_eq!(info["websiteUrl"], "https://example.com");
    assert_eq!(info["icons"][0]["src"], "https://example.com/s.png");
}

fn template(uri: &str, name: &str) -> ResourceTemplate {
    ResourceTemplate {
        uri_template: uri.to_string(),
        name: name.to_string(),
        title: None,
        description: None,
        mime_type: None,
    }
}

#[test]
fn test_resource_templates_list() {
    let mut host = plain();
    host.server.add_resource_template(template("file:///{path}", "Project Files")).unwrap();
    host.server.add_resource_template(template("db:///{table}", "Tables")).unwrap();
    let result = host.ask("resources/templates/list", None).unwrap();
    let templates = result["resourceTemplates"].as_array().unwrap();
    assert_eq!(templates.len(), 2);
    assert_eq!(templates[0]["uriTemplate"], "db:///{table}");
    assert_eq!(templates[1]["uriTemplate"], "file:///{path}");
}

#[test]
fn test_resource_templates_list_empty_by_default() {
    let result = plain().ask("resources/templates/list", None).unwrap();
    assert_eq!(result["resourceTemplates"].as_array().unwrap().len(), 0);
}

#[test]
fn test_duplicate_resource_template_error() {
    let mut host = plain();
    host.server.add_resource_template(template("file:///{path}", "A")).unwrap();
    assert!(host.server.add_resource_template(template("file:///{path}", "B")).is_err());
}

#[test]
fn test_templates_alone_declare_the_resources_capability() {
    let mut host = plain();
    host.server.add_resource_template(template("file:///{path}", "A")).unwrap();
    let result = host.ask("initialize", None).unwrap();
    assert!(!result["capabilities"]["resources"].is_null());
}

#[test]
fn test_resource_templates_paginate() {
    let mut host = Host::new(ServerConfig { page_size: 2, ..Default::default() });
    for i in 0..5 {
        host.server.add_resource_template(template(&format!("x:///{:02}", i), "t")).unwrap();
    }
    let result = host.ask("resources/templates/list", None).unwrap();
    assert_eq!(result["resourceTemplates"].as_array().unwrap().len(), 2);
    assert!(result["nextCursor"].is_string());
}

#[test]
fn test_batch_messages_are_rejected() {
    let batch = r#"[{"jsonrpc":"2.0","id":1,"method":"ping"},
                        {"jsonrpc":"2.0","id":2,"method":"ping"}]"#;
    let err = JsonRpcMessage::parse(batch).unwrap_err();
    assert!(matches!(err, McpError::InvalidMessage(_)));
    assert_eq!(err.to_jsonrpc_error().code, -32600);
    assert!(err.to_string().to_lowercase().contains("batch"), "{}", err.to_string());
}

#[test]
fn test_batch_rejection_tolerates_leading_whitespace() {
    let err = JsonRpcMessage::parse("   \n\t[{\"jsonrpc\":\"2.0\"}]").unwrap_err();
    assert!(matches!(err, McpError::InvalidMessage(_)));
}

#[test]
fn test_single_messages_still_parse() {
    let request = JsonRpcMessage::parse(r#"{"jsonrpc":"2.0","id":1,"method":"ping"}"#).unwrap();
    assert!(matches!(request, JsonRpcMessage::Request(_)));

    let notification =
        JsonRpcMessage::parse(r#"{"jsonrpc":"2.0","method":"notifications/initialized"}"#).unwrap();
    assert!(matches!(notification, JsonRpcMessage::Notification(_)));

    let response = JsonRpcMessage::parse(r#"{"jsonrpc":"2.0","id":1,"result":{}}"#).unwrap();
    assert!(matches!(response, JsonRpcMessage::Response(_)));
}

#[test]
fn test_params_structs_tolerate_unknown_fields() {
    let with_extras = json(
        "{\"name\":\"increment\",\"arguments\":{},\"_meta\":{\"io.modelcontextprotocol/progressToken\":1},\"task\":{\"ttl\":60000},\"somethingFromTheFuture\":true}",
    );
    assert!(read_call(&Some(with_extras)).is_ok());
    let list = json("{\"cursor\":\"abc\",\"_meta\":{},\"future\":1}");
    assert!(read_cursor(&Some(list)).is_ok());
}

#[test]
fn messages_are_read_back_from_what_is_written() {
    let request = JsonRpcMessage::request(
        RequestId::String("a\"b\n".to_string()),
        "tools/call",
        Some(json("{\"z\":[1,-2,true,null,\"\\u00e9\\n\"],\"a\":{\"k\":18446744073709551615}}")),
    );
    let text = request.to_text();
    assert!(!text.contains('\n'));
    assert!(text.starts_with("{\"jsonrpc\":\"2.0\",\"id\":\"a\\\"b\\n\",\"method\":\"tools/call\",\"params\":{\"z\""));
    assert_eq!(JsonRpcMessage::parse(&text).unwrap(), request);
    assert_eq!(JsonRpcMessage::parse(&format!("{text}\n")).unwrap(), request);

    let failed = JsonRpcMessage::error(
        RequestId::Number(-7),
        JsonRpcError { code: -32000, message: "no".to_string(), data: Some(json("[1]")) },
    );
    assert_eq!(
        failed.to_text(),
        "{\"jsonrpc\":\"2.0\",\"id\":-7,\"error\":{\"code\":-32000,\"message\":\"no\",\"data\":[1]}}"
    );
    assert_eq!(JsonRpcMessage::parse(&failed.to_text()).unwrap(), failed);
}

#[test]
fn null_parameters_are_no_parameters() {
    let m = JsonRpcMessage::request(RequestId::Number(1), "ping", Some(Json::Null));
    match JsonRpcMessage::parse(&m.to_text()).unwrap() {
        JsonRpcMessage::Request(r) => assert_eq!(r.params, None),
        other => panic!("{other:?}"),
    }
}

#[test]
fn messages_that_are_none_are_told_apart() {
    let words = |text: &str| match JsonRpcMessage::parse(text).unwrap_err() {
        McpError::InvalidMessage(w) => w,
        other => panic!("{other:?}"),
    };
    assert_eq!(words("3"), "a message must be a JSON object");
    assert_eq!(words("{\"id\":1,\"method\":\"x\"}"), "`jsonrpc` must be \"2.0\"");
    assert_eq!(words("{\"jsonrpc\":\"2.0\",\"method\":3}"), "`method` must be a string");
    assert_eq!(
        words("{\"jsonrpc\":\"2.0\",\"id\":null,\"method\":\"x\"}"),
        "a request id must not be null"
    );
    assert_eq!(
        words("{\"jsonrpc\":\"2.0\",\"id\":1.5,\"method\":\"x\"}"),
        "a request id must be a string or an integer"
    );
    assert_eq!(words("{\"jsonrpc\":\"2.0\"}"), "a message needs a `method` or an `id`");
    assert_eq!(
        words("{\"jsonrpc\":\"2.0\",\"id\":[],\"result\":1}"),
        "a response id must be a string, an integer or null"
    );
    assert_eq!(
        words("{\"jsonrpc\":\"2.0\",\"id\":1}"),
        "a response needs a `result` or an `error`"
    );
    assert_eq!(
        words("{\"jsonrpc\":\"2.0\",\"id\":1,\"error\":{\"code\":1}}"),
        "an error needs a `code` and a `message`"
    );
    assert!(matches!(JsonRpcMessage::parse("{not json"), Err(McpError::Json(_))));
}

#[test]
fn test_the_default_request_timeout_is_two_minutes() {
    assert_eq!(ServerConfig::default().request_timeout, Some(Span::from_secs(120)));
}

#[test]
fn test_client_capabilities_recorded_at_initialize() {
    let mut host = plain();
    assert!(!host.server.client_capabilities.supports_sampling());
    host.ask(
        "initialize",
        Some("{\"protocolVersion\":\"2025-11-25\",\"capabilities\":{\"sampling\":{\"tools\":{}},\"elicitation\":{\"form\":{},\"url\":{}}},\"clientInfo\":{\"name\":\"test\",\"version\":\"1.0\"}}"),
    )
    .unwrap();
    assert!(host.server.client_capabilities.supports_sampling());
    assert!(host.server.client_capabilities.supports_sampling_tools());
    assert!(host.server.client_capabilities.supports_elicitation(ElicitationMode::Url));
    assert!(host.server.client_capabilities.supports_elicitation(ElicitationMode::Form));
}

#[test]
fn test_uninitialized_server_declares_no_client_capabilities() {
    let server = Server::new(ServerConfig::default());
    assert!(!server.client_capabilities.supports_sampling());
    assert!(!server.client_capabilities.supports_sampling_tools());
    assert!(!server.client_capabilities.supports_elicitation(ElicitationMode::Form));
}

fn initialize_with(host: &mut Host, version: &str) -> Value {
    host.ask(
        "initialize",
        Some(&format!(
            "{{\"protocolVersion\":\"{version}\",\"capabilities\":{{}},\"clientInfo\":{{\"name\":\"test\",\"version\":\"1.0\"}}}}"
        )),
    )
    .unwrap()
}

#[test]
fn test_protocol_version_is_2025_11_25() {
    assert_eq!(PROTOCOL_VERSION, "2025-11-25");
    assert_eq!(SUPPORTED_PROTOCOL_VERSIONS[0], PROTOCOL_VERSION);
    assert!(is_supported_protocol_version("2025-11-25"));
    assert!(is_supported_protocol_version("2025-06-18"));
    assert!(is_supported_protocol_version("2025-03-26"));
    assert!(!is_supported_protocol_version("2024-11-05"));
    assert!(!is_supported_protocol_version(""));
}

#[test]
fn test_supported_version_is_echoed_back() {
    let mut host = plain();
    for version in SUPPORTED_PROTOCOL_VERSIONS {
        let result = initialize_with(&mut host, version);
        assert_eq!(result["protocolVersion"], version);
    }
}

#[test]
fn test_unsupported_version_negotiates_down_to_the_latest() {
    let mut host = plain();
    for version in ["2024-11-05", "1.0.0", "", "not-a-version"] {
        let result = initialize_with(&mut host, version);
        assert_eq!(result["protocolVersion"], PROTOCOL_VERSION, "for {version:?}");
    }
}

#[test]
fn test_supported_versions_are_configurable() {
    let mut host = Host::new(ServerConfig {
        supported_versions: vec!["2025-11-25".to_string()],
        ..Default::default()
    });
    assert_eq!(initialize_with(&mut host, "2025-11-25")["protocolVersion"], "2025-11-25");
    assert_eq!(initialize_with(&mut host, "2025-03-26")["protocolVersion"], "2025-11-25");
}

#[test]
fn test_initialize_without_params_still_negotiates() {
    let result = plain().ask("initialize", None).unwrap();
    assert_eq!(result["protocolVersion"], PROTOCOL_VERSION);
}

#[test]
fn test_malformed_initialize_is_invalid_params_not_a_parse_error() {
    let err = plain().ask("initialize", Some("{\"protocolVersion\":42}")).unwrap_err();
    assert_eq!(err.to_jsonrpc_error().code, -32602);
}

#[test]
fn test_roots_capability_is_recorded_at_initialize() {
    let mut host = plain();
    assert!(!host.server.client_capabilities.supports_roots());
    host.ask(
        "initialize",
        Some("{\"protocolVersion\":\"2025-11-25\",\"capabilities\":{\"roots\":{\"listChanged\":true}},\"clientInfo\":{\"name\":\"test\",\"version\":\"1.0\"}}"),
    )
    .unwrap();
    assert!(host.server.client_capabilities.supports_roots());
}

#[test]
fn test_null_request_id_serializes_as_json_null() {
    let message = JsonRpcMessage::error(RequestId::Null, JsonRpcError::parse_error("bad"));
    let json = message.to_text();
    assert!(json.contains("\"id\":null"), "{json}");
}

#[test]
fn unreadable_messages_are_answered_and_the_session_goes_on() {
    match after_read(JsonRpcMessage::parse("{not json")) {
        LoopStep::Write(m) => {
            let whole: Value = serde_json::from_str(&m.to_text()).unwrap();
            assert_eq!(whole["error"]["code"], -32700);
            assert!(whole["id"].is_null());
        }
        other => panic!("{other:?}"),
    }
    match after_read(JsonRpcMessage::parse("[{\"jsonrpc\":\"2.0\",\"id\":1,\"method\":\"ping\"}]")) {
        LoopStep::Write(m) => {
            let whole: Value = serde_json::from_str(&m.to_text()).unwrap();
            assert_eq!(whole["error"]["code"], -32600);
            assert!(whole["error"]["message"].as_str().unwrap().contains("batching"));
        }
        other => panic!("{other:?}"),
    }
    assert!(matches!(after_read(Err(McpError::TransportClosed)), LoopStep::Stop));
    assert!(matches!(
        after_read(Err(McpError::Timeout("x".to_string()))),
        LoopStep::Again
    ));
    assert!(matches!(
        after_read(Err(McpError::Io("broken pipe".to_string()))),
        LoopStep::Fail(McpError::Io(_))
    ));
    assert!(is_malformed(&McpError::Json("x".to_string())));
    assert!(!is_malformed(&McpError::TransportClosed));
}

#[test]
fn every_error_has_its_code() {
    let code = |e: McpError| e.to_jsonrpc_error().code;
    assert_eq!(code(McpError::Json("x".to_string())), -32700);
    assert_eq!(code(McpError::InvalidMessage("x".to_string())), -32600);
    assert_eq!(code(McpError::MethodNotFound("x".to_string())), -32601);
    assert_eq!(code(McpError::InvalidParams("x".to_string())), -32602);
    assert_eq!(code(McpError::ResourceNotFound("x".to_string())), -32002);
    assert_eq!(code(McpError::PromptNotFound("x".to_string())), -32602);
    assert_eq!(code(McpError::Internal("x".to_string())), -32603);
    assert_eq!(code(McpError::ToolError("x".to_string())), -32603);
    assert_eq!(code(McpError::Timeout("x".to_string())), -32603);
    assert_eq!(code(McpError::TransportClosed), -32603);
    let own = JsonRpcError { code: 7, message: "m".to_string(), data: None };
    assert_eq!(code(McpError::Passthrough(own)), 7);
}
