use serde_json::Value;
use sml_mcps::ask::{read_roots, Ask, ElicitAction, ElicitParams, ElicitResult};
use sml_mcps::broker::{Delivery, RequestBroker};
use sml_mcps::calendar::Span;
use sml_mcps::capabilities::ClientCapabilities;
use sml_mcps::env::{await_response, deadline_from, route, RequestMode, Routed, ToolEnv, Wait};
use sml_mcps::json::Json;
use sml_mcps::round_trip::{Act, Report, RoundTrip};
use sml_mcps::sampling::{
    CreateMessageParams, CreateMessageResult, SamplingContent, SamplingMessage, SamplingRole,
    SamplingTool, ToolChoice,
};
use sml_mcps::server::{Server, ServerConfig};
use sml_mcps::tasks::TaskStatus;
use sml_mcps::transport::Transport;
use sml_mcps::types::{
    JsonRpcError, JsonRpcMessage, JsonRpcRequest, JsonRpcResponse, McpError, RequestId,
};
use std::collections::VecDeque;

fn json(text: &str) -> Json {
    let whole = format!("{{\"jsonrpc\":\"2.0\",\"id\":1,\"result\":{text}}}");
    match JsonRpcMessage::parse(&whole).unwrap() {
        JsonRpcMessage::Response(r) => r.result.unwrap(),
        _ => unreachable!(),
    }
}

fn value(json: &Json) -> Value {
    let message = JsonRpcMessage::response(RequestId::Number(1), json.copy());
    let whole: Value = serde_json::from_str(&message.to_text()).unwrap();
    whole["result"].clone()
}

fn copy(message: &JsonRpcMessage) -> JsonRpcMessage {
    JsonRpcMessage::parse(&message.to_text()).unwrap()
}

/// A clock that moves only when told to.
struct Clock {
    nanos: u64,
}

impl Clock {
    fn now(&self) -> Span {
        Span { secs: self.nanos / 1_000_000_000, nanos: (self.nanos % 1_000_000_000) as u32 }
    }
    fn pass(&mut self, t: Span) {
        self.nanos += t.secs * 1_000_000_000 + t.nanos as u64;
    }
}

/// What a client does on a read.
enum Step {
    /// Say nothing until the deadline runs out.
    Silence,
    /// Answer the `n`th request.
    Answer(usize, Json),
    /// Answer the last request with an error.
    Refuse(JsonRpcError),
    /// Answer the last request.
    Reply(Json),
    /// Send something else.
    Send(JsonRpcMessage),
    /// Hang up.
    Close,
}

struct Client {
    steps: VecDeque<Step>,
    written: Vec<JsonRpcMessage>,
    timeout: Option<Span>,
    seen: Vec<Option<Span>>,
    honors_timeouts: bool,
    clock: Clock,
}

impl Client {
    fn new(steps: Vec<Step>) -> Client {
        Client {
            steps: steps.into(),
            written: Vec::new(),
            timeout: None,
            seen: Vec::new(),
            honors_timeouts: true,
            clock: Clock { nanos: 0 },
        }
    }

    fn requests(&self) -> Vec<&JsonRpcRequest> {
        self.written
            .iter()
            .filter_map(|m| match m {
                JsonRpcMessage::Request(r) => Some(r),
                _ => None,
            })
            .collect()
    }

    fn params(&self, index: usize) -> Value {
        value(self.requests()[index].params.as_ref().unwrap())
    }
}

fn answer(id: RequestId, result: Json) -> JsonRpcMessage {
    JsonRpcMessage::Response(JsonRpcResponse { id, result: Some(result), error: None })
}

impl Transport for Client {
    fn read(&mut self) -> Result<JsonRpcMessage, McpError> {
        match self.steps.pop_front() {
            Some(Step::Silence) | None => match self.timeout {
                Some(t) => {
                    self.clock.pass(t);
                    Err(McpError::Timeout("no message".to_string()))
                }
                None => Err(McpError::TransportClosed),
            },
            Some(Step::Answer(index, result)) => {
                let id = self.requests()[index].id.copy();
                Ok(answer(id, result))
            }
            Some(Step::Reply(result)) => {
                let id = self.requests().last().unwrap().id.copy();
                Ok(answer(id, result))
            }
            Some(Step::Refuse(error)) => {
                let id = self.requests().last().unwrap().id.copy();
                Ok(JsonRpcMessage::error(id, error))
            }
            Some(Step::Send(m)) => Ok(m),
            Some(Step::Close) => Err(McpError::TransportClosed),
        }
    }
    fn write(&mut self, message: &JsonRpcMessage) -> Result<(), McpError> {
        self.written.push(copy(message));
        Ok(())
    }
    fn close(&mut self) -> Result<(), McpError> {
        Ok(())
    }
    fn set_read_timeout(&mut self, timeout: Option<Span>) -> Result<bool, McpError> {
        self.seen.push(timeout);
        if self.honors_timeouts {
            self.timeout = timeout;
        }
        Ok(self.honors_timeouts)
    }
}

/// A server with the transport that its client is behind.
struct Fixture {
    server: Server,
    client: Client,
}

fn fixture(capabilities: &str, steps: Vec<Step>) -> Fixture {
    let mut server = Server::new(ServerConfig::default());
    server.attach(true, false);
    server.client_capabilities = ClientCapabilities::from_json(&json(capabilities)).unwrap();
    Fixture { server, client: Client::new(steps) }
}

fn eliciting(steps: Vec<Step>) -> Fixture {
    fixture("{\"elicitation\":{\"form\":{}}}", steps)
}

impl Fixture {
    fn request(&mut self, method: &str, params: Json, timeout: Option<Span>) -> Result<Json, McpError> {
        let env = self.server.tool_env();
        round_trip(&env, &mut self.server.broker, &mut self.client, method, params, timeout)
    }

    fn ask(&mut self, ask: Result<Ask, McpError>) -> Result<Json, McpError> {
        let ask = ask?;
        let timeout = self.server.config.request_timeout;
        self.request(&ask.method, ask.params, timeout)
    }

    fn elicit_form(&mut self, message: &str, schema: &str) -> Result<ElicitResult, McpError> {
        let ask = self.server.tool_env().elicit_form(message, json(schema));
        let answer = self.ask(ask)?;
        ElicitResult::from_json(&answer)
    }

    fn elicit_url(&mut self, message: &str, url: &str, id: &str) -> Result<ElicitResult, McpError> {
        let ask = self.server.tool_env().elicit_url(message, url, id);
        let answer = self.ask(ask)?;
        ElicitResult::from_json(&answer)
    }

    fn create_message(&mut self, params: &CreateMessageParams) -> Result<CreateMessageResult, McpError> {
        let ask = self.server.tool_env().create_message(params);
        let answer = self.ask(ask)?;
        CreateMessageResult::from_json(&answer)
    }
}

fn round_trip(
    env: &ToolEnv,
    broker: &mut RequestBroker,
    client: &mut Client,
    method: &str,
    params: Json,
    timeout: Option<Span>,
) -> Result<Json, McpError> {
    let start = client.clock.now();
    let mut round = RoundTrip::begin(env, broker, method, params, timeout, start)?;
    let mut report = match client.write(&round.pending.message) {
        Ok(()) => Report::Done,
        Err(e) => Report::Failed(e),
    };
    loop {
        let (next, act) = round.next(env, broker, report, false, client.clock.now());
        round = next;
        report = Report::Done;
        match act {
            Act::Read(left) => {
                report = match client.set_read_timeout(left).and_then(|_| client.read()) {
                    Ok(m) => Report::Message(m),
                    Err(e) => Report::Failed(e),
                }
            }
            Act::ClearDeadline => {
                let _ = client.set_read_timeout(None);
            }
            Act::Tell(m) => {
                let _ = client.write(&m);
            }
            Act::Return(outcome) => return outcome,
            Act::HandOver(_) => {}
            Act::SetStatus(_) | Act::Look(_) => unreachable!(),
        }
    }
}

#[test]
fn test_a_silent_client_times_out_instead_of_stalling_the_tool() {
    let mut f = eliciting(vec![Step::Silence]);
    let result = f.request("elicitation/create", json("{}"), Some(Span::from_millis(50)));
    assert!(matches!(result, Err(McpError::Timeout(_))), "{result:?}");
    assert!(f.client.clock.nanos < 5_000_000_000);
}

#[test]
fn a_silent_client_sees_the_request_and_then_that_it_is_off() {
    let mut f = eliciting(vec![Step::Silence]);
    let limit = Span::from_millis(250);
    let result = f.request("elicitation/create", json("{}"), Some(limit));
    assert!(matches!(result, Err(McpError::Timeout(_))), "{result:?}");
    assert_eq!(f.client.written.len(), 2);
    assert!(matches!(&f.client.written[0], JsonRpcMessage::Request(_)));
    assert!(matches!(
        &f.client.written[1],
        JsonRpcMessage::Notification(n) if n.method == "notifications/cancelled"
    ));
    assert_eq!(f.client.seen, vec![Some(limit), None]);
}

#[test]
fn only_a_wait_that_ran_out_is_given_up() {
    let mut broker = RequestBroker::new();
    let mut server = Server::new(ServerConfig::default());
    server.attach(true, false);
    let env = server.tool_env();
    let pending = env
        .send_request_with_timeout(&mut broker, "x", json("{}"), Some(Span::from_millis(30)))
        .unwrap();
    assert!(env.after_wait(&mut broker, &pending, &Ok(Json::Null)).is_none());
    let closed = Err(McpError::TransportClosed);
    assert!(env.after_wait(&mut broker, &pending, &closed).is_none());
    let out = Err(McpError::Timeout("late".to_string()));
    match env.after_wait(&mut broker, &pending, &out) {
        Some(JsonRpcMessage::Notification(n)) => {
            assert_eq!(n.method, "notifications/cancelled");
            let params = value(n.params.as_ref().unwrap());
            assert_eq!(params["requestId"], "sml-1");
            assert_eq!(params["reason"], "no response within 30ms");
        }
        other => panic!("{other:?}"),
    }
    let late = JsonRpcResponse { id: pending.id, result: Some(Json::Null), error: None };
    assert!(matches!(broker.deliver(late), Delivery::Dropped));
}

#[test]
fn a_request_that_cannot_be_sent_ends_at_once() {
    let mut broker = RequestBroker::new();
    let mut server = Server::new(ServerConfig::default());
    server.attach(true, false);
    let env = server.tool_env();
    let zero = Span { secs: 0, nanos: 0 };
    let round = RoundTrip::begin(&env, &mut broker, "x", json("{}"), None, zero).unwrap();
    let failed = Report::Failed(McpError::TransportClosed);
    let (_, act) = round.next(&env, &mut broker, failed, false, zero);
    assert!(matches!(act, Act::Return(Err(McpError::TransportClosed))), "{act:?}");
}

/// A request of a task worker, with the acts that it came to.
fn delegated(reports: Vec<(Report, bool, u64)>) -> (Vec<Act>, RequestBroker) {
    let mut server = Server::new(ServerConfig::default());
    server.attach(true, true);
    let mut env = server.tool_env();
    env.mode = RequestMode::Delegated;
    let mut broker = RequestBroker::new();
    let zero = Span { secs: 0, nanos: 0 };
    let limit = Some(Span::from_millis(150));
    let mut round = RoundTrip::begin(&env, &mut broker, "x", json("{}"), limit, zero).unwrap();
    let mut acts = Vec::new();
    for (report, cancelled, millis) in reports {
        let now = Span::from_millis(millis);
        let (next, act) = round.next(&env, &mut broker, report, cancelled, now);
        round = next;
        acts.push(act);
    }
    (acts, broker)
}

#[test]
fn a_task_waits_for_the_client_and_then_works_again() {
    let id = || RequestId::String("sml-1".to_string());
    let reply = JsonRpcResponse { id: id(), result: Some(json("7")), error: None };
    let (acts, _) = delegated(vec![
        (Report::Done, false, 0),
        (Report::Done, false, 0),
        (Report::Done, false, 100),
        (Report::Handed(reply), false, 120),
        (Report::Done, false, 120),
    ]);
    assert!(matches!(acts[0], Act::SetStatus(TaskStatus::InputRequired)));
    assert!(matches!(acts[1], Act::Look(t) if t == Span::from_millis(100)));
    assert!(matches!(acts[2], Act::Look(t) if t == Span::from_millis(50)));
    assert!(matches!(acts[3], Act::SetStatus(TaskStatus::Working)));
    assert!(matches!(&acts[4], Act::Return(Ok(j)) if value(j) == 7));

    let (acts, mut broker) = delegated(vec![
        (Report::Done, false, 0),
        (Report::Done, false, 150),
        (Report::Done, false, 150),
        (Report::Done, false, 150),
    ]);
    assert!(matches!(acts[1], Act::SetStatus(TaskStatus::Working)));
    assert!(matches!(&acts[2], Act::Tell(JsonRpcMessage::Notification(_))));
    assert!(matches!(&acts[3], Act::Return(Err(McpError::Timeout(_)))));
    let late = JsonRpcResponse { id: id(), result: None, error: None };
    assert!(matches!(broker.deliver(late), Delivery::Dropped));

    let (acts, _) = delegated(vec![
        (Report::Done, false, 0),
        (Report::Done, true, 1),
        (Report::Done, true, 1),
    ]);
    assert!(matches!(acts[1], Act::SetStatus(TaskStatus::Working)));
    assert!(matches!(&acts[2], Act::Return(Err(McpError::Internal(m)))
        if m == "`String(\"sml-1\")` abandoned: the task was cancelled"));

    let (acts, _) = delegated(vec![
        (Report::Done, false, 0),
        (Report::Gone, false, 1),
        (Report::Done, false, 1),
    ]);
    assert!(matches!(&acts[2], Act::Return(Err(McpError::Internal(m)))
        if m == "the response to String(\"sml-1\") can no longer be delivered"));
}

#[test]
fn a_late_answer_reaches_no_worker_that_asks_later() {
    let mut broker = RequestBroker::new();
    let a = broker.next_request_id();
    broker.register_waiter(&a);
    broker.abandon(&a);
    let b = broker.next_request_id();
    broker.register_waiter(&b);
    let of = |id: &RequestId, n: &str| JsonRpcResponse {
        id: id.copy(),
        result: Some(json(n)),
        error: None,
    };
    assert!(matches!(broker.deliver(of(&a, "1")), Delivery::Dropped));
    match broker.deliver(of(&b, "2")) {
        Delivery::HandedOver(r) => assert_eq!(value(r.result.as_ref().unwrap()), 2),
        other => panic!("{other:?}"),
    }
}

#[test]
fn test_a_timeout_tells_the_client_to_stop() {
    let mut f = eliciting(vec![Step::Silence]);
    let _ = f.request("elicitation/create", json("{}"), Some(Span::from_millis(30)));
    let id = value(&f.client.requests()[0].id.to_json());
    let cancelled = f
        .client
        .written
        .iter()
        .find_map(|m| match m {
            JsonRpcMessage::Notification(n) if n.method == "notifications/cancelled" => {
                n.params.as_ref()
            }
            _ => None,
        })
        .expect("a cancellation should follow the timeout");
    let params = value(cancelled);
    assert_eq!(params["requestId"], id);
    assert!(params["reason"].as_str().unwrap().contains("30ms"));
}

#[test]
fn test_a_client_that_hangs_up_is_a_close_not_a_timeout() {
    let mut f = eliciting(vec![Step::Close]);
    let result = f.request("elicitation/create", json("{}"), Some(Span::from_secs(30)));
    assert!(matches!(result, Err(McpError::TransportClosed)), "{result:?}");
}

#[test]
fn test_a_timeout_leaves_the_transport_blocking_again() {
    let mut f = eliciting(vec![Step::Silence]);
    let _ = f.request("elicitation/create", json("{}"), Some(Span::from_millis(20)));
    assert_eq!(f.client.timeout, None);
}

#[test]
fn test_a_successful_request_also_clears_the_deadline() {
    let mut f = eliciting(vec![Step::Answer(0, json("{\"action\":\"decline\"}"))]);
    f.request("elicitation/create", json("{}"), Some(Span::from_secs(30))).unwrap();
    assert_eq!(f.client.timeout, None);
}

#[test]
fn test_a_late_answer_is_not_mistaken_for_the_next_one() {
    let mut f = eliciting(vec![
        Step::Silence,
        Step::Answer(0, json("{\"action\":\"accept\",\"content\":{\"n\":1}}")),
        Step::Answer(1, json("{\"action\":\"accept\",\"content\":{\"n\":2}}")),
    ]);
    assert!(matches!(
        f.request("elicitation/create", json("{}"), Some(Span::from_millis(20))),
        Err(McpError::Timeout(_))
    ));
    let second = f
        .request("elicitation/create", json("{}"), Some(Span::from_secs(30)))
        .unwrap();
    assert_eq!(value(&second)["content"]["n"], 2, "got the abandoned answer");
}

#[test]
fn test_no_timeout_means_no_deadline_on_the_transport() {
    let mut f = eliciting(vec![Step::Answer(0, json("{\"action\":\"cancel\"}"))]);
    f.request("elicitation/create", json("{}"), None).unwrap();
    assert!(
        f.client.seen.iter().all(|t| t.is_none()),
        "an untimed request must not arm a deadline"
    );
}

#[test]
fn test_the_budget_shrinks_across_unrelated_messages() {
    let mut f = eliciting(vec![
        Step::Answer(0, json("{\"not\":\"ours\"}")),
        Step::Silence,
    ]);
    let _ = f.request("elicitation/create", json("{}"), Some(Span::from_millis(60)));
    let budgets: Vec<Span> = f.client.seen.iter().filter_map(|t| *t).collect();
    assert!(!budgets.is_empty(), "a deadline should have been armed");
    for budget in &budgets {
        assert!(
            budget.secs == 0 && budget.nanos <= 60_000_000,
            "budget {budget:?} exceeds what was asked for"
        );
    }
}

#[test]
fn messages_for_others_do_not_move_the_deadline() {
    let mut broker = RequestBroker::new();
    let id = RequestId::String("sml-1".to_string());
    let start = Span::from_millis(5);
    let deadline = deadline_from(start, Some(Span::from_millis(100)));
    assert_eq!(deadline, Some(Span::from_millis(105)));
    let ping = JsonRpcMessage::request(RequestId::Number(9), "ping", None);
    assert!(matches!(route(&mut broker, &id, ping), Routed::Elsewhere));
    match await_response(&mut broker, &id, Span::from_millis(65), deadline) {
        Wait::Read(Some(left)) => assert_eq!(left, Span::from_millis(40)),
        other => panic!("{other:?}"),
    }
    match await_response(&mut broker, &id, Span::from_millis(105), deadline) {
        Wait::Done(Err(McpError::Timeout(m))) => {
            assert_eq!(m, "no response to request String(\"sml-1\")")
        }
        other => panic!("{other:?}"),
    }
    assert!(broker.next_deferred().is_some());
}

#[test]
fn test_a_transport_without_deadline_support_still_reports_a_timeout() {
    let mut f = eliciting(vec![Step::Answer(0, json("{\"ok\":true}"))]);
    f.client.honors_timeouts = false;
    let result = f.request("elicitation/create", json("{}"), Some(Span::from_secs(0)));
    assert!(matches!(result, Err(McpError::Timeout(_))), "{result:?}");
}

#[test]
fn test_elicit_uses_the_configured_timeout() {
    let mut f = eliciting(vec![Step::Silence]);
    f.server.config.request_timeout = Some(Span::from_millis(40));
    let result = f.elicit_form("pick one", "{\"type\":\"object\",\"properties\":{}}");
    assert!(matches!(result, Err(McpError::Timeout(_))), "{result:?}");
    assert!(
        f.client
            .seen
            .iter()
            .any(|t| matches!(t, Some(d) if d.secs == 0 && d.nanos <= 40_000_000)),
        "elicit should inherit the configured timeout"
    );
}

#[test]
fn test_elicit_form_round_trip() {
    let mut f = eliciting(vec![Step::Reply(json(
        "{\"action\":\"accept\",\"content\":{\"name\":\"octocat\"}}",
    ))]);
    let result = f
        .elicit_form(
            "Please provide your GitHub username",
            "{\"type\":\"object\",\"properties\":{\"name\":{\"type\":\"string\"}},\"required\":[\"name\"]}",
        )
        .unwrap();
    assert!(result.accepted());
    assert_eq!(value(result.accepted_content().unwrap())["name"], "octocat");

    let requests = f.client.requests();
    assert_eq!(requests.len(), 1);
    assert_eq!(requests[0].method, "elicitation/create");
    let params = f.client.params(0);
    assert_eq!(params["mode"], "form");
    assert_eq!(params["requestedSchema"]["required"][0], "name");
}

#[test]
fn test_elicit_url_round_trip() {
    let mut f = fixture(
        "{\"elicitation\":{\"url\":{}}}",
        vec![Step::Reply(json("{\"action\":\"accept\"}"))],
    );
    let result = f
        .elicit_url(
            "Please provide your API key to continue.",
            "https://mcp.example.com/ui/set_api_key",
            "550e8400-e29b-41d4-a716-446655440000",
        )
        .unwrap();
    assert!(result.accepted());
    assert!(result.accepted_content().is_none());
    let params = f.client.params(0);
    assert_eq!(params["mode"], "url");
    assert_eq!(params["elicitationId"], "550e8400-e29b-41d4-a716-446655440000");
}

#[test]
fn test_elicit_refuses_mode_the_client_did_not_declare() {
    let mut f = eliciting(vec![Step::Reply(json("{\"action\":\"accept\"}"))]);
    let err = f.elicit_url("m", "https://example.com/x", "id-1").unwrap_err();
    assert!(err.to_string().contains("Url"), "{}", err.to_string());
    assert!(f.client.requests().is_empty());
}

#[test]
fn test_elicit_refuses_when_no_elicitation_capability() {
    let mut f = fixture("{}", vec![]);
    assert!(f.elicit_form("m", "{}").is_err());
    assert!(f.client.requests().is_empty());
}

#[test]
fn test_elicit_validates_before_sending() {
    let mut f = fixture("{\"elicitation\":{\"form\":{},\"url\":{}}}", vec![]);
    let mut bad = ElicitParams::url("m", "not-a-url", "id");
    bad.url = Some("not-a-url".to_string());
    let ask = f.server.tool_env().elicit(&bad);
    assert!(matches!(f.ask(ask), Err(McpError::InvalidParams(_))));
    assert!(f.client.requests().is_empty());
}

#[test]
fn test_elicit_surfaces_client_errors() {
    let mut f = eliciting(vec![Step::Refuse(JsonRpcError::invalid_params("unsupported mode"))]);
    let err = f.elicit_form("m", "{}").unwrap_err();
    assert!(err.to_string().contains("unsupported mode"), "{}", err.to_string());
}

#[test]
fn test_round_trip_defers_client_messages_it_reads() {
    let mut f = eliciting(vec![
        Step::Send(JsonRpcMessage::notification("notifications/cancelled", None)),
        Step::Send(JsonRpcMessage::request(RequestId::Number(99), "ping", None)),
        Step::Reply(json("{\"action\":\"decline\"}")),
    ]);
    let result = f.elicit_form("m", "{}").unwrap();
    assert_eq!(result.action, ElicitAction::Decline);

    let first = f.server.broker.next_deferred().unwrap();
    let second = f.server.broker.next_deferred().unwrap();
    assert!(
        matches!(first, JsonRpcMessage::Notification(ref n) if n.method == "notifications/cancelled")
    );
    assert!(matches!(second, JsonRpcMessage::Request(ref r) if r.method == "ping"));
    assert!(f.server.broker.next_deferred().is_none());
}

#[test]
fn test_round_trip_parks_responses_for_other_requests() {
    let mut f = eliciting(vec![
        Step::Send(answer(RequestId::String("sml-999".to_string()), json("{\"action\":\"accept\"}"))),
        Step::Reply(json("{\"action\":\"cancel\"}")),
    ]);
    let result = f.elicit_form("m", "{}").unwrap();
    assert_eq!(result.action, ElicitAction::Cancel);
    assert!(f
        .server
        .broker
        .take_parked(&RequestId::String("sml-999".to_string()))
        .is_some());
}

#[test]
fn test_round_trip_uses_prefixed_string_ids() {
    let mut f = eliciting(vec![Step::Reply(json("{\"action\":\"accept\"}"))]);
    f.elicit_form("m", "{}").unwrap();
    let RequestId::String(id) = &f.client.requests()[0].id else {
        panic!("expected a string id");
    };
    assert!(id.starts_with("sml-"), "{id}");
}

#[test]
fn test_round_trip_fails_cleanly_without_a_transport() {
    let mut f = eliciting(vec![]);
    f.server.has_transport = false;
    let err = f.elicit_form("m", "{}").unwrap_err();
    assert!(err.to_string().contains("transport"), "{}", err.to_string());
}

#[test]
fn test_round_trip_fails_cleanly_when_the_transport_closes() {
    let mut f = eliciting(vec![Step::Close]);
    assert!(matches!(f.elicit_form("m", "{}"), Err(McpError::TransportClosed)));
}

#[test]
fn test_elicitation_complete_notification() {
    let f = fixture("{\"elicitation\":{\"url\":{}}}", vec![]);
    let sent = f
        .server
        .tool_env()
        .notify_elicitation_complete("550e8400-e29b-41d4-a716-446655440000")
        .unwrap();
    let JsonRpcMessage::Notification(n) = &sent else {
        panic!("expected notification");
    };
    assert_eq!(n.method, "notifications/elicitation/complete");
    assert_eq!(
        value(n.params.as_ref().unwrap())["elicitationId"],
        "550e8400-e29b-41d4-a716-446655440000"
    );
}

#[test]
fn answers_to_a_request_for_input_are_told_apart() {
    let read = |text: &str| ElicitResult::from_json(&json(text));
    assert_eq!(read("{\"action\":\"accept\"}").unwrap().action, ElicitAction::Accept);
    assert_eq!(read("{\"action\":\"cancel\"}").unwrap().action, ElicitAction::Cancel);
    let declined = read("{\"action\":\"decline\",\"content\":{\"a\":1}}").unwrap();
    assert!(!declined.accepted());
    assert!(declined.accepted_content().is_none());
    assert!(matches!(read("{\"action\":\"maybe\"}"), Err(McpError::Json(_))));
}

fn hi() -> CreateMessageParams {
    CreateMessageParams::new(vec![SamplingMessage::user(SamplingContent::text("hi"))], 100)
}

#[test]
fn test_sampling_round_trip() {
    let mut f = fixture(
        "{\"sampling\":{}}",
        vec![Step::Reply(json(
            "{\"role\":\"assistant\",\"content\":{\"type\":\"text\",\"text\":\"The capital of France is Paris.\"},\"model\":\"some-model\",\"stopReason\":\"endTurn\"}",
        ))],
    );
    let result = f
        .create_message(&CreateMessageParams::new(
            vec![SamplingMessage::user(SamplingContent::text(
                "What is the capital of France?",
            ))],
            100,
        ))
        .unwrap();
    assert_eq!(result.text(), "The capital of France is Paris.");
    assert!(!result.wants_tools());
    assert_eq!(result.stop_reason.as_deref(), Some("endTurn"));
    assert_eq!(f.client.requests()[0].method, "sampling/createMessage");
    let params = f.client.params(0);
    assert_eq!(params["maxTokens"], 100);
    assert_eq!(params["messages"][0]["role"], "user");
    assert_eq!(params["messages"][0]["content"]["text"], "What is the capital of France?");
}

#[test]
fn test_sampling_with_tools_round_trip() {
    let mut f = fixture(
        "{\"sampling\":{\"tools\":{}}}",
        vec![Step::Reply(json(
            "{\"role\":\"assistant\",\"content\":[{\"type\":\"tool_use\",\"id\":\"call_abc123\",\"name\":\"get_weather\",\"input\":{\"city\":\"Paris\"}}],\"model\":\"some-model\",\"stopReason\":\"toolUse\"}",
        ))],
    );
    let params = CreateMessageParams::new(
        vec![SamplingMessage::user(SamplingContent::text("weather?"))],
        1000,
    )
    .with_tools(vec![SamplingTool::new("get_weather", json("{\"type\":\"object\"}"))])
    .with_tool_choice(ToolChoice::Auto);
    let result = f.create_message(&params).unwrap();
    assert!(result.wants_tools());
    assert_eq!(result.tool_uses()[0].1, "get_weather");
    assert_eq!(value(&result.tool_uses()[0].2)["city"], "Paris");

    let sent = f.client.params(0);
    assert_eq!(sent["tools"][0]["name"], "get_weather");
    assert_eq!(sent["toolChoice"]["mode"], "auto");
}

#[test]
fn test_sampling_refuses_tools_without_the_capability() {
    let mut f = fixture("{\"sampling\":{}}", vec![]);
    let params = hi().with_tools(vec![SamplingTool::new("t", json("{}"))]);
    let err = f.create_message(&params).unwrap_err();
    assert!(err.to_string().contains("sampling.tools"), "{}", err.to_string());
    assert!(f.client.requests().is_empty());
}

#[test]
fn test_sampling_refuses_without_the_sampling_capability() {
    let mut f = fixture("{}", vec![]);
    let err = f.create_message(&hi()).unwrap_err();
    assert!(err.to_string().contains("sampling"), "{}", err.to_string());
    assert!(f.client.requests().is_empty());
}

#[test]
fn test_sampling_refuses_include_context_without_the_capability() {
    let mut f = fixture("{\"sampling\":{}}", vec![]);
    let mut params = hi();
    params.include_context = Some("thisServer".to_string());
    let err = f.create_message(&params).unwrap_err();
    assert!(err.to_string().contains("includeContext"), "{}", err.to_string());
    assert!(f.client.requests().is_empty());

    let mut f = fixture(
        "{\"sampling\":{}}",
        vec![Step::Reply(json(
            "{\"role\":\"assistant\",\"content\":{\"type\":\"text\",\"text\":\"ok\"},\"model\":\"m\"}",
        ))],
    );
    let mut params = hi();
    params.include_context = Some("none".to_string());
    assert!(f.create_message(&params).is_ok());
}

fn use_of(id: &str) -> SamplingContent {
    SamplingContent::ToolUse { id: id.to_string(), name: "t".to_string(), input: json("{}") }
}

fn result_of(id: &str) -> SamplingContent {
    SamplingContent::ToolResult {
        tool_use_id: id.to_string(),
        content: Vec::new(),
        is_error: false,
    }
}

#[test]
fn test_sampling_validates_the_tool_loop_before_sending() {
    let mut f = fixture("{\"sampling\":{\"tools\":{}}}", vec![]);
    let params =
        CreateMessageParams::new(vec![SamplingMessage::assistant(vec![use_of("a")])], 100);
    assert!(matches!(
        f.create_message(&params),
        Err(McpError::InvalidParams(_))
    ));
    assert!(f.client.requests().is_empty());
}

#[test]
fn a_tool_use_is_answered_in_the_next_message_and_nowhere_else() {
    let conversation = |reply: Vec<SamplingContent>| {
        CreateMessageParams::new(
            vec![
                SamplingMessage::assistant(vec![use_of("a"), use_of("b")]),
                SamplingMessage { role: SamplingRole::User, content: reply },
            ],
            10,
        )
        .validate()
    };
    assert_eq!(conversation(vec![result_of("b"), result_of("a")]), Ok(()));
    assert!(conversation(vec![result_of("a")]).is_err());
    assert!(conversation(vec![result_of("a"), result_of("b"), SamplingContent::text("x")]).is_err());
    assert!(conversation(vec![]).is_err());
}

#[test]
fn pieces_of_a_message_are_written_for_the_client() {
    let failed = SamplingContent::ToolResult {
        tool_use_id: "a".to_string(),
        content: vec![json("{\"type\":\"text\",\"text\":\"no\"}")],
        is_error: true,
    };
    let message = SamplingMessage { role: SamplingRole::User, content: vec![failed, result_of("b")] };
    let wire = value(&message.to_json());
    assert_eq!(wire["role"], "user");
    assert_eq!(wire["content"][0]["type"], "tool_result");
    assert_eq!(wire["content"][0]["toolUseId"], "a");
    assert_eq!(wire["content"][0]["isError"], true);
    assert_eq!(wire["content"][0]["content"][0]["text"], "no");
    assert!(wire["content"][1].get("isError").is_none());
    let turn = value(&SamplingMessage::assistant(vec![use_of("x")]).to_json());
    assert_eq!(turn["content"]["type"], "tool_use");
    assert_eq!(turn["content"]["id"], "x");
    assert!(matches!(
        CreateMessageResult::from_json(&json("{\"role\":\"assistant\"}")),
        Err(McpError::Json(_))
    ));
}

#[test]
fn test_list_roots_round_trip() {
    let mut f = fixture(
        "{\"roots\":{\"listChanged\":true}}",
        vec![Step::Reply(json(
            "{\"roots\":[{\"uri\":\"file:///home/user/project\",\"name\":\"My Project\"},{\"uri\":\"file:///tmp\"}]}",
        ))],
    );
    let ask = f.server.tool_env().list_roots();
    let reply = f.ask(ask).unwrap();
    let roots = read_roots(&reply).unwrap();
    assert_eq!(roots.len(), 2);
    assert_eq!(roots[0].uri, "file:///home/user/project");
    assert_eq!(roots[0].name.as_deref(), Some("My Project"));
    assert!(roots[1].name.is_none());
    assert_eq!(f.client.requests()[0].method, "roots/list");
    assert!(matches!(read_roots(&json("{\"roots\":[{}]}")), Err(McpError::Json(_))));
}

#[test]
fn test_list_roots_refuses_without_the_capability() {
    let mut f = fixture("{}", vec![]);
    let ask = f.server.tool_env().list_roots();
    let err = f.ask(ask).unwrap_err();
    assert!(err.to_string().contains("roots"), "{}", err.to_string());
    assert!(f.client.requests().is_empty());
}
