use sml_mcps::broker::{Delivery, RequestBroker};
use sml_mcps::calendar::{iso8601, Timestamp};
use sml_mcps::capabilities::ClientCapabilities;
use sml_mcps::env::{RequestMode, ToolEnv};
use sml_mcps::json::{Json, Number};
use sml_mcps::log::{LogLevel, StderrLogging};
use sml_mcps::pagination::{paginate, PageState};
use sml_mcps::sampling::CreateMessageParams;
use sml_mcps::schema::validate_structured_output;
use sml_mcps::tasks::{TaskConfig, TaskStore};
use sml_mcps::transport::http::{Authorization, Claims, HttpServer, Verdict};
use sml_mcps::transport::http1::body::{BodyError, BodyReader, Poll, Stage};
use sml_mcps::transport::http1::connection::{Connection, Limits, Next};
use sml_mcps::transport::http1::wire::Ending;
use sml_mcps::server::{ServerConfig, TaskContext};
use sml_mcps::types::{JsonRpcMessage, JsonRpcResponse, McpError, RequestId};

fn json(text: &str) -> Json {
    let whole = format!("{{\"jsonrpc\":\"2.0\",\"id\":1,\"result\":{text}}}");
    match JsonRpcMessage::parse(&whole).unwrap() {
        JsonRpcMessage::Response(r) => r.result.unwrap(),
        _ => unreachable!(),
    }
}

#[test]
fn later_moments_have_later_stamps() {
    let moments: [i64; 8] = [
        0,
        59,
        60,
        86_399,
        86_400,
        951_782_400,
        4_102_444_800,
        253_402_300_799,
    ];
    for pair in moments.windows(2) {
        let a = iso8601(Timestamp::from_secs(pair[0]));
        let b = iso8601(Timestamp::from_secs(pair[1]));
        assert!(a < b, "{a} should sort before {b}");
    }
    assert_eq!(iso8601(Timestamp::from_secs(253_402_300_799)), "9999-12-31T23:59:59Z");
    // From the year 10000 on, stamps are longer and sort no more.
    assert!(iso8601(Timestamp::from_secs(253_402_300_800)) < "9999".to_string());
}

#[test]
fn tasks_are_listed_in_one_order() {
    let mut store = TaskStore::new(TaskConfig::default());
    for i in 0..6 {
        store.create(None, Timestamp::from_secs(1000 + i % 2)).unwrap();
    }
    let ids = |store: &mut TaskStore| -> Vec<String> {
        store.list(Timestamp::from_secs(1002)).into_iter().map(|t| t.task_id).collect()
    };
    let first = ids(&mut store);
    assert_eq!(first.len(), 6);
    assert_eq!(ids(&mut store), first);
}

#[test]
fn pages_cover_a_list_once() {
    let mut seen = Vec::new();
    let mut cursor: Option<String> = None;
    loop {
        let state = PageState::from_cursor(cursor.as_deref(), 3).unwrap();
        let (from, to, next) = paginate(10, &state);
        seen.extend(from..to);
        match next {
            Some(c) => cursor = Some(c),
            None => break,
        }
    }
    assert_eq!(seen, (0..10).collect::<Vec<usize>>());
    assert_eq!(
        PageState::from_cursor(Some("offset-x"), 3).unwrap_err(),
        McpError::InvalidParams("Invalid cursor: offset-x".to_string())
    );
}

fn answer(id: &str) -> JsonRpcResponse {
    JsonRpcResponse {
        id: RequestId::String(id.to_string()),
        result: Some(json("{}")),
        error: None,
    }
}

#[test]
fn answers_find_who_asked_or_nobody() {
    let mut broker = RequestBroker::new();
    let a = broker.next_request_id();
    let b = broker.next_request_id();
    assert_ne!(a, b);
    assert_eq!(a, RequestId::String("sml-1".to_string()));
    assert_eq!(b, RequestId::String("sml-2".to_string()));

    broker.abandon(&a);
    assert!(matches!(broker.deliver(answer("sml-1")), Delivery::Dropped));
    assert!(broker.take_parked(&a).is_none());

    broker.register_waiter(&b);
    assert!(matches!(broker.deliver(answer("sml-2")), Delivery::HandedOver(_)));
    assert!(matches!(broker.deliver(answer("sml-2")), Delivery::Parked));
    assert!(broker.take_parked(&b).is_some());
    assert!(broker.take_parked(&b).is_none());
}

#[test]
fn no_record_is_lost_by_falling_back() {
    for level in LogLevel::ALL {
        for delivered in [false, true] {
            let written = StderrLogging::Fallback.writes_stderr(delivered);
            assert_ne!(delivered, written, "{level:?}");
        }
    }
    assert!(!StderrLogging::Never.writes_stderr(false));
    assert!(StderrLogging::Always.writes_stderr(true));
}

#[test]
fn different_clients_own_different_tasks() {
    let rules = HttpServer::new(ServerConfig::default());
    let owner = |user: &str, tenant: &str| {
        let claims = Claims {
            user_id: user.to_string(),
            tenant_id: tenant.to_string(),
            scopes: Vec::new(),
        };
        match rules.authorize(Verdict::Valid(claims)) {
            Authorization::Proceed(TaskContext::Owner(o)) => o,
            other => panic!("{other:?}"),
        }
    };
    assert_ne!(owner("ab", "c"), owner("a", "bc"));
    assert_ne!(owner("a", "x"), owner("a", "y"));
    assert_eq!(owner("a", "x"), "a\u{1}x");
}

fn read_chunks(wire: &str, limit: usize) -> Result<Vec<u8>, BodyError> {
    let mut reader = BodyReader { stage: Stage::Size, collected: Vec::new(), limit };
    match reader.poll(&wire.as_bytes().to_vec(), 0, Ending::Open) {
        Poll::Done(next) => {
            assert_eq!(&wire[next..], "GET");
            Ok(reader.collected)
        }
        Poll::Fail(e) => Err(e),
        Poll::More(_) => panic!("not enough"),
    }
}

#[test]
fn chunks_are_put_together_up_to_the_ceiling() {
    let wire = "3\r\nabc\r\n2;x=y\r\nde\r\n0\r\n\r\nGET";
    assert_eq!(read_chunks(wire, 5), Ok(b"abcde".to_vec()));
    assert_eq!(read_chunks(wire, 4), Err(BodyError::TooLarge));
}

#[test]
fn a_head_means_the_same_in_pieces() {
    let raw = b"POST /mcp HTTP/1.1\r\nHost: x\r\nContent-Length: 2\r\n\r\n{}".to_vec();
    for cut in 0..raw.len() - 2 {
        let mut connection = Connection::new();
        connection.received(&raw[..cut].to_vec());
        let early = matches!(connection.next_request(&Limits::default()), Next::Receive);
        assert!(early, "nothing is known after {cut} bytes");
        connection.received(&raw[cut..].to_vec());
        match connection.next_request(&Limits::default()) {
            Next::Serve(head, _) => assert_eq!(head.target, "/mcp"),
            other => panic!("{other:?}"),
        }
        assert_eq!(connection.input, b"{}".to_vec());
    }
}

#[test]
fn nothing_is_asked_of_a_client_that_declared_nothing() {
    let env = ToolEnv {
        has_transport: true,
        resources: Vec::new(),
        log_level: LogLevel::Info,
        stderr_logging: StderrLogging::Never,
        logger: "x".to_string(),
        client_capabilities: ClientCapabilities::default(),
        mode: RequestMode::Direct,
        request_timeout: None,
        task_id: None,
    };
    assert!(env.elicit_form("m", json("{}")).is_err());
    assert!(env.elicit_url("m", "https://example.com/x", "i").is_err());
    assert!(env.list_roots().is_err());
    assert!(env.create_message(&CreateMessageParams::new(Vec::new(), 1)).is_err());
}

#[test]
fn output_is_held_to_its_schema() {
    let schema = json(
        "{\"type\":\"object\",\"required\":[\"count\"],\"properties\":{\"count\":{\"type\":\"integer\"},\"tags\":{\"type\":[\"array\",\"null\"],\"items\":{\"type\":\"string\"}}}}",
    );
    let why = |content: &str| validate_structured_output(&schema, &Some(json(content)));
    assert_eq!(why("{\"count\":3}"), None);
    assert_eq!(why("{\"count\":-3,\"tags\":null,\"more\":1}"), None);
    assert_eq!(why("{\"count\":3.0,\"tags\":[\"a\"]}"), None);
    assert_eq!(
        why("[]").as_deref(),
        Some("structuredContent that is not of the declared type")
    );
    assert_eq!(
        why("{}").as_deref(),
        Some("structuredContent without the required property `count`")
    );
    assert_eq!(
        why("{\"count\":\"3\"}").as_deref(),
        Some("structuredContent.count that is not of the declared type")
    );
    assert_eq!(
        why("{\"count\":3.5}").as_deref(),
        Some("structuredContent.count that is not of the declared type")
    );
    assert_eq!(
        why("{\"count\":1,\"tags\":[\"a\",2]}").as_deref(),
        Some("structuredContent.tags[1] that is not of the declared type")
    );
    assert_eq!(
        validate_structured_output(&schema, &None).as_deref(),
        Some("no structuredContent")
    );
}

#[test]
fn a_number_that_is_not_finite_is_written_as_null() {
    for (text, expected) in [("NaN", "null"), ("inf", "null"), ("[1]", "null"), ("2.50", "2.5")] {
        let params = Json::Object(vec![(
            "n".to_string(),
            Json::Number(Number::Decimal(text.to_string())),
        )]);
        assert_eq!(
            JsonRpcMessage::notification("x", Some(params)).to_text(),
            format!("{{\"jsonrpc\":\"2.0\",\"method\":\"x\",\"params\":{{\"n\":{expected}}}}}")
        );
    }
}
