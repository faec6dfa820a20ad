use serde_json::Value;
use sml_mcps::calendar::Timestamp;
use sml_mcps::calls::{task_created, Dispatch, Executed};
use sml_mcps::json::Json;
use sml_mcps::log::LogLevel;
use sml_mcps::protocol::{CallToolResult, TaskSupport, ToolInfo};
use sml_mcps::server::{Server, ServerConfig, TaskContext};
use sml_mcps::session::Handling;
use sml_mcps::tasks::TaskConfig;
use sml_mcps::transport::http::{
    handler_panicked, path_of, processed, require_audience, unreadable_body, Authorization, Claims,
    HttpServer, HttpTransport, Processed, ProtectedResource, Session, Verdict,
};
use sml_mcps::transport::http1::body::{BodyPoll, BodyStart};
use sml_mcps::transport::http1::connection::{conclude, Connection, Limits, Next};
use sml_mcps::transport::http1::head::Head;
use sml_mcps::transport::http1::response::Response;
use sml_mcps::transport::origin::OriginPolicy;
use sml_mcps::transport::Transport;
use sml_mcps::types::{JsonRpcMessage, McpError, RequestId};

fn json(text: &str) -> Json {
    let whole = format!("{{\"jsonrpc\":\"2.0\",\"id\":1,\"result\":{text}}}");
    match JsonRpcMessage::parse(&whole).unwrap() {
        JsonRpcMessage::Response(r) => r.result.unwrap(),
        _ => unreachable!(),
    }
}

fn now() -> Timestamp {
    Timestamp::from_secs(1_700_000_000)
}

const PING: &str = r#"{"jsonrpc":"2.0","id":1,"method":"ping"}"#;

const RESOURCE: &str = "https://mcp.example.com/mcp";

fn tool(name: &str, task_support: TaskSupport) -> ToolInfo {
    ToolInfo {
        name: name.to_string(),
        title: None,
        description: None,
        input_schema: json("{\"type\":\"object\"}"),
        output_schema: None,
        annotations: None,
        icons: Vec::new(),
        task_support,
        meta: None,
    }
}

/// An HTTP server without its sockets.
struct Host {
    rules: HttpServer,
    session: Session,
    tools: Vec<(&'static str, TaskSupport)>,
    tasks: bool,
    /// Who each token belongs to, where tokens are asked for.
    tokens: Option<Vec<(&'static str, Claims)>>,
    calls: usize,
}

struct Answer {
    status: u16,
    headers: Vec<(String, String)>,
    body: String,
}

impl Answer {
    fn header(&self, name: &str) -> Option<&str> {
        self.headers
            .iter()
            .find(|h| h.0.to_lowercase() == name.to_lowercase())
            .map(|h| h.1.as_str())
    }
    fn json(&self) -> Value {
        serde_json::from_str(&self.body).unwrap()
    }
}

impl Host {
    fn new(rules: HttpServer) -> Host {
        Host {
            rules,
            session: Session::default(),
            tools: vec![
                ("echo", TaskSupport::Forbidden),
                ("panic", TaskSupport::Forbidden),
                ("level", TaskSupport::Forbidden),
                ("notify", TaskSupport::Forbidden),
                ("slow", TaskSupport::Optional),
                ("work", TaskSupport::Optional),
                ("whoami", TaskSupport::Forbidden),
            ],
            tasks: true,
            tokens: None,
            calls: 0,
        }
    }

    fn fresh_server(&self) -> Server {
        let mut server = Server::new(ServerConfig::default());
        for (name, support) in &self.tools {
            server.add_tool(tool(name, *support)).unwrap();
        }
        if self.tasks {
            server.enable_tasks(TaskConfig::default());
        }
        server
    }

    fn run(&mut self, server: &Server, tool: usize, arguments: &Json, out: &mut Vec<JsonRpcMessage>) -> Executed {
        self.calls += 1;
        let env = server.tool_env();
        let text = match server.tools[tool].name.as_str() {
            "panic" => return Executed::Panicked("http tool exploded".to_string()),
            "level" => env.log_level().as_str().to_string(),
            "notify" => {
                out.extend(env.log(LogLevel::Info, "notification from tool"));
                "done with notification".to_string()
            }
            "slow" | "work" => "finished".to_string(),
            "whoami" => match &server.task_context {
                TaskContext::Owner(o) => format!("User: {}", o.split('\u{1}').next().unwrap()),
                _ => "User: nobody".to_string(),
            },
            _ => match arguments.get("message") {
                Some(Json::Text(s)) => format!("Echo: {s}"),
                _ => "Echo: ".to_string(),
            },
        };
        Executed::Returned(Ok(CallToolResult::text(&text)))
    }

    fn process(&mut self, body: String, context: TaskContext) -> Result<Processed, McpError> {
        let mut server = self.fresh_server();
        server.task_context = context;
        self.session.restore(&mut server);
        let mut transport = HttpTransport::new(body);
        server.attach(false, false);
        let message = match transport.read() {
            Ok(m) => m,
            Err(e) => {
                self.session.absorb(&mut server);
                return Err(e);
            }
        };
        if let Handling::Request(id, dispatch) = server.handle_message(message, now()) {
            let mut out = Vec::new();
            let outcome = match dispatch {
                Dispatch::Done(outcome) => outcome,
                Dispatch::CallTool { tool, arguments } => {
                    let executed = self.run(&server, tool, &arguments, &mut out);
                    server.finish_call(tool, executed)
                }
                Dispatch::StartTask { tool, arguments, task, .. } => {
                    let executed = self.run(&server, tool, &arguments, &mut out);
                    let id = task.task_id.clone();
                    let _ = server.finish_task(&id, tool, executed, now());
                    Ok(task_created(task))
                }
                Dispatch::AwaitTask { .. } => unreachable!(),
                _ => unreachable!(),
            };
            for m in out {
                transport.write(&m)?;
            }
            transport.write(&JsonRpcMessage::answer(id, outcome))?;
        }
        self.session.absorb(&mut server);
        Ok(processed(&mut transport))
    }

    fn verdict(&self, head: &Head) -> Verdict {
        let header = match head.header("Authorization") {
            None => return Verdict::Missing,
            Some(h) => h,
        };
        let (scheme, token) = header.split_once(' ').unwrap();
        if !scheme.eq_ignore_ascii_case("bearer") {
            return Verdict::Invalid("not a bearer token".to_string());
        }
        for (known, claims) in self.tokens.as_ref().unwrap() {
            if *known == token {
                return Verdict::Valid(Claims {
                    user_id: claims.user_id.clone(),
                    tenant_id: claims.tenant_id.clone(),
                    scopes: claims.scopes.clone(),
                });
            }
        }
        Verdict::Invalid("InvalidToken".to_string())
    }

    fn handle(&mut self, head: &Head, connection: &mut Connection, body: &mut sml_mcps::transport::http1::body::Body) -> Response {
        if let Some(rejection) = self.rules.precheck(head) {
            return rejection;
        }
        let context = if self.tokens.is_some() {
            match self.rules.authorize(self.verdict(head)) {
                Authorization::Reject(r) => return r,
                Authorization::Proceed(context) => context,
            }
        } else {
            TaskContext::Anonymous
        };
        let text = match body.start(Limits::default().max_body_bytes) {
            BodyStart::Done(Ok(s)) => s,
            BodyStart::Done(Err(_)) => return unreadable_body(),
            BodyStart::Read(_) => match body.poll(&mut connection.input, connection.ending) {
                BodyPoll::Ready(Ok(s)) => s,
                _ => return unreadable_body(),
            },
        };
        let outcome = self.process(text, context);
        self.rules.finish(outcome)
    }

    fn request(&mut self, method: &str, path: &str, body: &str, headers: &[(&str, &str)]) -> Answer {
        let extra: String = headers.iter().map(|(k, v)| format!("{k}: {v}\r\n")).collect();
        let raw = format!(
            "{method} {path} HTTP/1.1\r\nHost: here\r\nContent-Type: application/json\r\nContent-Length: {}\r\n{extra}Connection: close\r\n\r\n{body}",
            body.len()
        );
        let mut connection = Connection::new();
        connection.received(&raw.into_bytes());
        let (head, mut body) = match connection.next_request(&Limits::default()) {
            Next::Serve(head, body) => (head, body),
            other => panic!("{other:?}"),
        };
        let response = self.handle(&head, &mut connection, &mut body);
        let sent = conclude(&head, body.finished, response);
        assert!(!sent.reuse);
        let text = String::from_utf8(sent.bytes).unwrap();
        let (front, body) = text.split_once("\r\n\r\n").unwrap();
        let mut lines = front.split("\r\n");
        let status = lines.next().unwrap().split(' ').nth(1).unwrap().parse().unwrap();
        let headers = lines
            .map(|l| {
                let (k, v) = l.split_once(": ").unwrap();
                (k.to_string(), v.to_string())
            })
            .collect();
        Answer { status, headers, body: body.to_string() }
    }

    fn post(&mut self, path: &str, body: &str) -> Answer {
        self.request("POST", path, body, &[])
    }

    fn post_from(&mut self, origin: &str) -> Answer {
        self.request("POST", "/mcp", PING, &[("Origin", origin)])
    }

    fn post_as(&mut self, body: &str, token: &str) -> Answer {
        let header = format!("Bearer {token}");
        self.request("POST", "/mcp", body, &[("Authorization", &header)])
    }
}

fn open_server(policy: OriginPolicy) -> Host {
    Host::new(HttpServer::new(ServerConfig::default()).origin_policy(policy))
}

fn metadata() -> ProtectedResource {
    ProtectedResource {
        metadata_path: "/.well-known/oauth-protected-resource/mcp".to_string(),
        metadata_url: "https://mcp.example.com/.well-known/oauth-protected-resource/mcp".to_string(),
        document: format!(
            "{{\"resource\":\"{RESOURCE}\",\"authorization_servers\":[\"https://auth.example.com\"],\"scopes_supported\":[\"files:read\",\"files:write\"],\"bearer_methods_supported\":[\"header\"]}}"
        ),
        scopes_supported: vec!["files:read".to_string(), "files:write".to_string()],
    }
}

fn claims(user: &str, tenant: &str, scopes: &[&str]) -> Claims {
    Claims {
        user_id: user.to_string(),
        tenant_id: tenant.to_string(),
        scopes: scopes.iter().map(|s| s.to_string()).collect(),
    }
}

fn protected_server() -> Host {
    let mut host =
        Host::new(HttpServer::new(ServerConfig::default()).protected_resource(metadata()));
    host.tokens = Some(vec![
        ("t-alice", claims("alice", "tenant-a", &["files:read"])),
        ("t-mallory", claims("mallory", "tenant-b", &[])),
        ("t-writer", claims("alice", "tenant-a", &["files:read", "files:write"])),
    ]);
    host
}

#[test]
fn test_http_transport_roundtrip() {
    let mut transport = HttpTransport::new(PING.to_string());
    match transport.read().unwrap() {
        JsonRpcMessage::Request(r) => assert_eq!(r.method, "ping"),
        _ => panic!("Expected request"),
    }
    transport
        .write(&JsonRpcMessage::response(RequestId::Number(1), json("{}")))
        .unwrap();
    let body = transport.take_response().unwrap();
    assert!(body.contains("\"result\":{}"));
}

#[test]
fn test_http_transport_sse_multiple_messages() {
    let request = r#"{"jsonrpc":"2.0","id":1,"method":"test"}"#;
    let mut transport = HttpTransport::new(request.to_string());
    let notification = JsonRpcMessage::notification(
        "notifications/message",
        Some(json("{\"level\":\"info\",\"data\":\"hello\"}")),
    );
    transport.write(&notification).unwrap();
    let response = JsonRpcMessage::response(RequestId::Number(1), json("{\"result\":\"done\"}"));
    transport.write(&response).unwrap();
    assert!(transport.has_notifications());
    let sse = transport.take_sse_response();
    assert!(sse.contains("data: "));
    assert!(sse.contains("notifications/message"));
    assert!(sse.contains("\"result\":\"done\""));
    assert_eq!(
        sse,
        format!("data: {}\n\ndata: {}\n\n", notification.to_text(), response.to_text())
    );
}

#[test]
fn a_request_is_read_once() {
    let mut transport = HttpTransport::new(PING.to_string());
    assert!(transport.read().is_ok());
    assert!(matches!(transport.read(), Err(McpError::TransportClosed)));
}

#[test]
fn test_a_notification_is_202_with_no_body() {
    let mut host = open_server(OriginPolicy::Loopback);
    let a = host.post("/mcp", r#"{"jsonrpc":"2.0","method":"notifications/initialized"}"#);
    assert_eq!(a.status, 202);
    assert!(a.body.is_empty(), "202 must have no body, got {:?}", a.body);
}

#[test]
fn test_a_client_response_is_202_with_no_body() {
    let mut host = open_server(OriginPolicy::Loopback);
    let a = host.post("/mcp", r#"{"jsonrpc":"2.0","id":7,"result":{}}"#);
    assert_eq!(a.status, 202);
    assert!(a.body.is_empty(), "202 must have no body, got {:?}", a.body);
}

#[test]
fn test_an_unparseable_body_is_400_parse_error() {
    let a = open_server(OriginPolicy::Loopback).post("/mcp", "{not json");
    assert_eq!(a.status, 400);
    assert_eq!(a.json()["error"]["code"], -32700);
}

#[test]
fn test_a_batch_body_is_400_invalid_request() {
    let a = open_server(OriginPolicy::Loopback)
        .post("/mcp", r#"[{"jsonrpc":"2.0","id":1,"method":"ping"}]"#);
    assert_eq!(a.status, 400);
    assert_eq!(a.json()["error"]["code"], -32600);
    assert!(a.json()["error"]["message"].as_str().unwrap().contains("batching"), "{}", a.body);
}

#[test]
fn test_the_endpoint_is_a_path_not_a_request_target() {
    let mut host = open_server(OriginPolicy::Loopback);
    for target in ["/mcp?sessionId=abc", "/mcp?", "/mcp#frag"] {
        let a = host.post(target, PING);
        assert_eq!(a.status, 200, "{target} should reach the endpoint: {}", a.body);
    }
    assert_eq!(path_of("/a?b#c"), "/a");
    assert_eq!(path_of("/a#b?c"), "/a");
}

#[test]
fn test_a_panicking_tool_does_not_kill_the_accept_loop() {
    let mut host = open_server(OriginPolicy::Loopback);
    let a = host.post(
        "/mcp",
        r#"{"jsonrpc":"2.0","id":1,"method":"tools/call","params":{"name":"panic"}}"#,
    );
    assert_eq!(a.status, 200);
    assert_eq!(a.json()["error"]["code"], -32603, "{}", a.body);
    assert!(a.json()["error"]["message"].as_str().unwrap().contains("panicked"), "{}", a.body);
    assert_eq!(host.post("/mcp", PING).status, 200);
}

#[test]
fn a_handler_that_panicked_is_a_500() {
    let rules = HttpServer::new(ServerConfig::default());
    let e = handler_panicked("setup exploded");
    assert_eq!(e, McpError::Internal("request handler panicked: setup exploded".to_string()));
    let response = rules.finish(Err(e));
    assert_eq!(response.status(), 500);
    let parsed: Value = serde_json::from_slice(response.body()).unwrap();
    assert_eq!(parsed["error"]["code"], -32603);
}

#[test]
fn test_set_level_survives_the_request_that_set_it() {
    let mut host = open_server(OriginPolicy::Loopback);
    let call = r#"{"jsonrpc":"2.0","id":1,"method":"tools/call","params":{"name":"level"}}"#;
    let before = host.post("/mcp", call);
    assert_eq!(before.json()["result"]["content"][0]["text"], "info");
    let set = host.post(
        "/mcp",
        r#"{"jsonrpc":"2.0","id":2,"method":"logging/setLevel","params":{"level":"error"}}"#,
    );
    assert_eq!(set.status, 200);
    let after = host.post("/mcp", call);
    assert_eq!(after.json()["result"]["content"][0]["text"], "error");
}

#[test]
fn test_client_capabilities_survive_the_initialize_request() {
    let mut host = open_server(OriginPolicy::Loopback);
    let init = r#"{"jsonrpc":"2.0","id":1,"method":"initialize","params":{"protocolVersion":"2025-11-25","capabilities":{"elicitation":{"form":{}}},"clientInfo":{"name":"t","version":"1"}}}"#;
    let a = host.post("/mcp", init);
    assert_eq!(a.status, 200);
    assert_eq!(a.json()["result"]["protocolVersion"], "2025-11-25");
    let a = host.post("/mcp", init);
    assert_eq!(a.json()["result"]["protocolVersion"], "2025-11-25");
    assert_eq!(host.session.negotiated_version.as_deref(), Some("2025-11-25"));
}

#[test]
fn test_a_task_is_still_there_on_the_next_request() {
    let mut host = open_server(OriginPolicy::Loopback);
    let a = host.post(
        "/mcp",
        r#"{"jsonrpc":"2.0","id":1,"method":"tools/call","params":{"name":"slow","task":{}}}"#,
    );
    assert_eq!(a.status, 200);
    let id = a.json()["result"]["task"]["taskId"].as_str().expect("a task id").to_string();
    let a = host.post(
        "/mcp",
        &format!(
            r#"{{"jsonrpc":"2.0","id":2,"method":"tasks/result","params":{{"taskId":"{id}"}}}}"#
        ),
    );
    assert_eq!(a.status, 200);
    assert_eq!(a.json()["result"]["content"][0]["text"], "finished", "{}", a.body);
}

#[test]
fn test_an_unauthenticated_http_server_does_not_declare_tasks_list() {
    let mut host = open_server(OriginPolicy::Loopback);
    let init = r#"{"jsonrpc":"2.0","id":1,"method":"initialize","params":{"protocolVersion":"2025-11-25","capabilities":{},"clientInfo":{"name":"t","version":"1"}}}"#;
    let a = host.post("/mcp", init);
    let tasks = a.json()["result"]["capabilities"]["tasks"].clone();
    assert!(!tasks.is_null(), "{}", a.body);
    assert!(tasks["list"].is_null(), "{}", a.body);
    assert!(!tasks["cancel"].is_null(), "{}", a.body);
    let a = host.post("/mcp", r#"{"jsonrpc":"2.0","id":2,"method":"tasks/list"}"#);
    assert_eq!(a.json()["error"]["code"], -32601, "{}", a.body);
}

#[test]
fn test_request_bodies_are_only_logged_at_debug() {
    let quiet = HttpServer::new(ServerConfig::default());
    assert!(!quiet.logs_bodies());
    let verbose = HttpServer::new(ServerConfig {
        default_log_level: LogLevel::Debug,
        ..Default::default()
    });
    assert!(verbose.logs_bodies());
}

#[test]
fn test_origin_absent_is_allowed() {
    assert_eq!(open_server(OriginPolicy::Loopback).post("/mcp", PING).status, 200);
}

#[test]
fn test_origin_loopback_allowed() {
    let mut host = open_server(OriginPolicy::Loopback);
    for origin in [
        "http://localhost",
        "http://localhost:5173",
        "http://127.0.0.1:8080",
        "https://[::1]:3000",
    ] {
        let a = host.post_from(origin);
        assert_eq!(a.status, 200, "origin {origin} should be allowed: {}", a.body);
    }
}

#[test]
fn test_origin_remote_rejected_with_403() {
    let a = open_server(OriginPolicy::Loopback).post_from("https://evil.example.com");
    assert_eq!(a.status, 403);
    assert_eq!(a.header("content-type"), Some("application/json"));
    let parsed = a.json();
    assert_eq!(parsed["jsonrpc"], "2.0");
    assert!(parsed.get("id").is_none());
    assert_eq!(parsed["error"]["code"], -32600);
    assert!(parsed["error"]["message"].as_str().unwrap().contains("evil.example.com"));
}

#[test]
fn test_origin_lookalike_hostname_rejected() {
    let mut host = open_server(OriginPolicy::Loopback);
    for origin in [
        "http://localhost.evil.example.com",
        "http://notlocalhost",
        "http://192.168.1.10:3000",
        "null",
    ] {
        assert_eq!(host.post_from(origin).status, 403, "origin {origin} should be rejected");
    }
}

#[test]
fn test_origin_allowlist_policy() {
    let mut host = open_server(OriginPolicy::allowlist(&["https://app.example.com"]));
    assert_eq!(host.post_from("https://app.example.com").status, 200);
    assert_eq!(host.post_from("http://localhost:3000").status, 403);
}

#[test]
fn test_origin_any_policy_allows_everything() {
    assert_eq!(
        open_server(OriginPolicy::Any).post_from("https://evil.example.com").status,
        200
    );
}

#[test]
fn test_origin_checked_before_body_is_read() {
    let mut host = open_server(OriginPolicy::Loopback);
    let call = r#"{"jsonrpc":"2.0","id":1,"method":"tools/call","params":{"name":"echo","arguments":{"message":"pwned"}}}"#;
    let a = host.request("POST", "/mcp", call, &[("Origin", "https://evil.example.com")]);
    assert_eq!(a.status, 403);
    assert!(!a.body.contains("pwned"));
    assert_eq!(host.calls, 0);
}

#[test]
fn test_non_post_methods_rejected_with_405() {
    let mut host = open_server(OriginPolicy::Loopback);
    for method in ["GET", "DELETE", "PUT"] {
        let a = host.request(method, "/mcp", "", &[]);
        assert_eq!(a.status, 405, "{method} should be rejected");
    }
}

#[test]
fn test_protocol_version_header_accepted_when_supported() {
    let mut host = open_server(OriginPolicy::Loopback);
    for version in ["2025-11-25", "2025-06-18", "2025-03-26"] {
        let a = host.request("POST", "/mcp", PING, &[("MCP-Protocol-Version", version)]);
        assert_eq!(a.status, 200, "{version} should be accepted");
    }
}

#[test]
fn test_absent_protocol_version_header_is_allowed() {
    assert_eq!(open_server(OriginPolicy::Loopback).post("/mcp", PING).status, 200);
}

#[test]
fn test_unsupported_protocol_version_header_is_400() {
    let mut host = open_server(OriginPolicy::Loopback);
    for version in ["2024-11-05", "2026-07-28", "garbage"] {
        let a = host.request("POST", "/mcp", PING, &[("MCP-Protocol-Version", version)]);
        assert_eq!(a.status, 400, "{version} should be rejected");
        let parsed = a.json();
        let message = parsed["error"]["message"].as_str().unwrap();
        assert!(message.contains(version), "{message}");
        assert!(message.contains("2025-11-25"), "{message}");
    }
}

#[test]
fn test_error_bodies_are_jsonrpc() {
    let a = open_server(OriginPolicy::Loopback).post("/nope", PING);
    assert_eq!(a.status, 404);
    assert_eq!(a.header("content-type"), Some("application/json"));
    assert_eq!(a.json()["error"]["message"], "Not Found");
}

#[test]
fn test_http_server_ping() {
    let a = open_server(OriginPolicy::Loopback).post("/mcp", PING);
    assert_eq!(a.status, 200);
    assert_eq!(a.header("content-type"), Some("application/json"));
    assert!(a.json()["result"].is_object());
}

#[test]
fn test_http_server_tool_call_sse_response() {
    let a = open_server(OriginPolicy::Loopback).post(
        "/mcp",
        r#"{"jsonrpc":"2.0","id":1,"method":"tools/call","params":{"name":"notify"}}"#,
    );
    assert_eq!(a.status, 200);
    assert_eq!(a.header("content-type"), Some("text/event-stream"));
    assert!(a.body.contains("notifications/message"));
    assert!(a.body.contains("done with notification"));
}

#[test]
fn test_http_server_custom_endpoint() {
    let mut host = Host::new(HttpServer::new(ServerConfig::default()).endpoint("/custom/path"));
    assert_eq!(host.post("/custom/path", PING).status, 200);
    assert_eq!(host.post("/mcp", PING).status, 404);
}

#[test]
fn test_http_server_auth_missing_header() {
    let a = protected_server().post("/mcp", PING);
    assert_eq!(a.status, 401);
    assert!(a.body.contains("Missing Authorization"));
}

#[test]
fn test_http_server_auth_invalid_token() {
    let a = protected_server().post_as(PING, "invalid-token");
    assert_eq!(a.status, 401);
}

#[test]
fn test_serve_with_auth_refuses_an_unbound_validator() {
    let error = require_audience(false).unwrap_err();
    assert!(error.to_string().contains("aud"), "{}", error.to_string());
    assert!(require_audience(true).is_ok());
}

#[test]
fn test_missing_scopes_are_403_with_an_insufficient_scope_challenge() {
    let mut host = protected_server();
    host.rules = HttpServer::new(ServerConfig::default())
        .protected_resource(metadata())
        .require_scopes(vec!["files:write".to_string()]);
    let a = host.post_as(PING, "t-alice");
    assert_eq!(a.status, 403);
    let challenge = a.header("www-authenticate").expect("403 must say what would have been enough");
    assert!(challenge.contains("error=\"insufficient_scope\""), "{challenge}");
    assert!(challenge.contains("scope=\"files:write\""), "{challenge}");
    assert_eq!(host.post_as(PING, "t-writer").status, 200);
}

#[test]
fn test_a_lowercase_bearer_scheme_is_accepted() {
    let a = protected_server().request("POST", "/mcp", PING, &[("Authorization", "bearer t-alice")]);
    assert_eq!(a.status, 200);
}

#[test]
fn test_tasks_are_bound_to_the_authorization_context() {
    let mut host = protected_server();
    let call = r#"{"jsonrpc":"2.0","id":1,"method":"tools/call","params":{"name":"work","task":{}}}"#;
    let a = host.post_as(call, "t-alice");
    let id = a.json()["result"]["task"]["taskId"].as_str().expect("a task id").to_string();

    let get =
        format!(r#"{{"jsonrpc":"2.0","id":2,"method":"tasks/get","params":{{"taskId":"{id}"}}}}"#);
    assert_eq!(host.post_as(&get, "t-mallory").json()["error"]["code"], -32602);
    let cancel = format!(
        r#"{{"jsonrpc":"2.0","id":3,"method":"tasks/cancel","params":{{"taskId":"{id}"}}}}"#
    );
    assert_eq!(host.post_as(&cancel, "t-mallory").json()["error"]["code"], -32602);
    let list = r#"{"jsonrpc":"2.0","id":4,"method":"tasks/list"}"#;
    let a = host.post_as(list, "t-mallory");
    assert_eq!(a.json()["result"]["tasks"].as_array().unwrap().len(), 0, "{}", a.body);

    assert_eq!(host.post_as(&get, "t-alice").json()["result"]["taskId"], id.as_str());
    let a = host.post_as(list, "t-alice");
    assert_eq!(a.json()["result"]["tasks"].as_array().unwrap().len(), 1, "{}", a.body);
}

#[test]
fn test_an_authenticated_server_does_declare_tasks_list() {
    let init = r#"{"jsonrpc":"2.0","id":1,"method":"initialize","params":{"protocolVersion":"2025-11-25","capabilities":{},"clientInfo":{"name":"t","version":"1"}}}"#;
    let a = protected_server().post_as(init, "t-alice");
    assert!(!a.json()["result"]["capabilities"]["tasks"]["list"].is_null(), "{}", a.body);
}

#[test]
fn test_protected_resource_metadata_is_served_unauthenticated() {
    let a = protected_server().request(
        "GET",
        "/.well-known/oauth-protected-resource/mcp",
        "",
        &[],
    );
    assert_eq!(a.status, 200);
    assert_eq!(a.header("content-type"), Some("application/json"));
    let parsed = a.json();
    assert_eq!(parsed["resource"], RESOURCE);
    assert_eq!(parsed["authorization_servers"][0], "https://auth.example.com");
    assert_eq!(parsed["scopes_supported"][0], "files:read");
    assert_eq!(parsed["bearer_methods_supported"][0], "header");
}

#[test]
fn test_unauthorized_response_carries_the_discovery_challenge() {
    let a = protected_server().post("/mcp", PING);
    assert_eq!(a.status, 401);
    let challenge =
        a.header("www-authenticate").expect("401 must carry a WWW-Authenticate challenge");
    assert!(challenge.contains(
        "resource_metadata=\"https://mcp.example.com/.well-known/oauth-protected-resource/mcp\""
    ));
    assert!(challenge.contains("scope=\"files:read files:write\""));
}

#[test]
fn test_token_for_this_resource_is_accepted() {
    let a = protected_server().post_as(
        r#"{"jsonrpc":"2.0","id":1,"method":"tools/call","params":{"name":"whoami"}}"#,
        "t-alice",
    );
    assert_eq!(a.status, 200);
    assert!(a.body.contains("User: alice"));
}

#[test]
fn test_metadata_endpoint_rejects_non_get() {
    let a = protected_server().post("/.well-known/oauth-protected-resource/mcp", "");
    assert_eq!(a.status, 405);
}

#[test]
fn test_no_metadata_means_no_challenge() {
    let mut host = protected_server();
    host.rules = HttpServer::new(ServerConfig::default());
    let a = host.request("GET", "/.well-known/oauth-protected-resource", "", &[]);
    assert_eq!(a.status, 404, "nothing is published at the well-known path");
    let a = host.post("/mcp", PING);
    assert_eq!(a.status, 401);
    assert!(a.header("www-authenticate").is_none());
}

#[test]
fn a_challenge_that_cannot_be_sent_is_left_out() {
    for url in ["https://mcp.ex\u{e4}mple.com/m", "https://mcp.example.com/\r\nX-Evil: 1"] {
        let mut host = protected_server();
        let mut metadata = metadata();
        metadata.metadata_url = url.to_string();
        host.rules = HttpServer::new(ServerConfig::default())
            .protected_resource(metadata)
            .require_scopes(vec!["files:write".to_string()]);
        let a = host.post("/mcp", PING);
        assert_eq!(a.status, 401);
        assert!(a.header("www-authenticate").is_none());
        let a = host.post_as(PING, "t-alice");
        assert_eq!(a.status, 403);
        assert!(a.header("www-authenticate").is_none());
        assert!(a.header("x-evil").is_none());
    }
}
