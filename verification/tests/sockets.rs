use sml_mcps::calendar::Span;
use sml_mcps::json::Json;
use sml_mcps::socket::{
    beside, claimed, join_path, lock_path_for, new_pid_temp_name, no_directory, owned_by,
    parent_of, pid_temp_name, pid_temp_name_from, socket_path_from, LockOutcome,
};
use sml_mcps::transport::line::{frame, LineReader};
use sml_mcps::transport::listener::{connectable, tcp_name, unix_name, Address, Ip};
use sml_mcps::transport::socket_stream::{after_shutdown, read_deadline, ShutdownOutcome};
use sml_mcps::transport::stdio::{poll_millis, poll_outcome, Readiness, StdioTransport};
use sml_mcps::types::{JsonRpcMessage, McpError, RequestId};

fn path(
    runtime: Option<&str>,
    home: Option<&str>,
    temp: &str,
    uid: u32,
    app: &str,
    file: &str,
) -> String {
    let bytes = |s: Option<&str>| s.map(|s| s.as_bytes().to_vec());
    let p = socket_path_from(
        &bytes(runtime),
        &bytes(home),
        &temp.as_bytes().to_vec(),
        uid,
        app,
        file,
    );
    String::from_utf8(p).unwrap()
}

#[test]
fn a_runtime_directory_is_used_when_the_system_provides_one() {
    assert_eq!(
        path(Some("/run/user/501"), Some("/home/x"), "/tmp", 501, "my-mcp", "server.sock"),
        "/run/user/501/my-mcp/server.sock"
    );
}

#[test]
fn without_one_the_socket_lives_under_the_home_directory() {
    assert_eq!(
        path(None, Some("/home/x"), "/tmp", 501, "my-mcp", "server.sock"),
        "/home/x/.local/state/my-mcp/server.sock"
    );
}

#[test]
fn an_empty_variable_counts_as_unset() {
    assert_eq!(
        path(Some(""), Some("/home/x"), "/tmp", 501, "my-mcp", "server.sock"),
        "/home/x/.local/state/my-mcp/server.sock"
    );
    assert_eq!(
        path(Some(""), Some(""), "/tmp", 501, "my-mcp", "server.sock"),
        "/tmp/my-mcp-501/server.sock"
    );
}

#[test]
fn with_neither_the_fallback_is_per_user() {
    let alice = path(None, None, "/tmp", 501, "my-mcp", "server.sock");
    let bob = path(None, None, "/tmp", 502, "my-mcp", "server.sock");
    assert_eq!(alice, "/tmp/my-mcp-501/server.sock");
    assert_ne!(alice, bob);
}

#[test]
fn the_socket_is_always_in_a_directory_of_its_own() {
    for (runtime, home) in [
        (Some("/run/user/501"), Some("/home/x")),
        (None, Some("/home/x")),
        (None, None),
    ] {
        let p = path(runtime, home, "/tmp", 501, "my-mcp", "server.sock");
        let parent = parent_of(&p.as_bytes().to_vec()).unwrap();
        let parent = String::from_utf8(parent).unwrap();
        assert_ne!(parent, "/tmp", "{p}");
        assert!(parent.contains("my-mcp"), "{p}");
        assert!(p.ends_with("server.sock"), "{p}");
    }
}

fn joined(base: &str, part: &str) -> String {
    let p = join_path(&base.as_bytes().to_vec(), &part.as_bytes().to_vec());
    String::from_utf8(p).unwrap()
}

#[test]
fn paths_are_joined_with_one_slash() {
    assert_eq!(joined("/a", "b"), "/a/b");
    assert_eq!(joined("/a/", "b"), "/a/b");
    assert_eq!(joined("", "b"), "b");
    assert_eq!(joined("/a", "/b"), "/b");
}

fn lock_of(p: &str) -> String {
    String::from_utf8(lock_path_for(&p.as_bytes().to_vec())).unwrap()
}

#[test]
fn the_lock_has_the_sockets_name_with_another_extension() {
    assert_eq!(lock_of("/run/my/server.sock"), "/run/my/server.lock");
    assert_eq!(lock_of("/run/my/server"), "/run/my/server.lock");
    assert_eq!(lock_of("server.a.sock"), "server.a.lock");
    assert_eq!(lock_of("/run/.hidden"), "/run/.hidden.lock");
    assert_eq!(lock_of("/run/my/server.sock/"), "/run/my/server.lock");
    assert_eq!(lock_of("/"), "/");
    assert_eq!(lock_of(".."), "..");
}

fn parent(p: &str) -> Option<String> {
    parent_of(&p.as_bytes().to_vec()).map(|b| String::from_utf8(b).unwrap())
}

#[test]
fn a_socket_path_with_no_directory_is_not_an_error() {
    assert_eq!(parent("server.sock"), None);
    assert_eq!(parent("/server.sock").as_deref(), Some("/"));
    assert_eq!(parent("/run//my/./server.sock").as_deref(), Some("/run//my"));
    assert_eq!(parent("run/server.sock/").as_deref(), Some("run"));
    assert_eq!(parent("/"), None);
    let e = no_directory("/x", "denied");
    assert_eq!(
        e,
        McpError::Internal("failed to create socket directory /x: denied".to_string())
    );
}

#[test]
fn files_are_put_beside_each_other() {
    let b = |p: &str| String::from_utf8(beside(&p.as_bytes().to_vec(), "x")).unwrap();
    assert_eq!(b("/run/daemon.pid"), "/run/x");
    assert_eq!(b("daemon.pid"), "./x");
}

#[test]
fn a_path_that_is_not_there_answers_nothing() {
    assert_eq!(owned_by(501, None, None), None);
    assert_eq!(owned_by(501, Some(501), None), None);
}

#[test]
fn a_file_belonging_to_another_account_is_not_ours() {
    assert_eq!(owned_by(501, Some(0), Some(0)), Some(false));
    assert_eq!(owned_by(501, Some(0), Some(501)), Some(false));
    assert_eq!(owned_by(501, Some(501), Some(0)), Some(false));
    assert_eq!(owned_by(501, Some(501), Some(501)), Some(true));
}

#[test]
fn a_lock_that_fails_is_not_a_lock_that_is_held() {
    assert_eq!(claimed(LockOutcome::Taken, "/l"), Ok(true));
    assert_eq!(claimed(LockOutcome::Held, "/l"), Ok(false));
    assert_eq!(
        claimed(LockOutcome::Failed("no locks".to_string()), "/l"),
        Err(McpError::Internal("could not lock /l: no locks".to_string()))
    );
    assert_eq!(
        claimed(LockOutcome::CannotOpen("denied".to_string()), "/l"),
        Err(McpError::Internal(
            "could not open /l to claim the socket path: denied".to_string()
        ))
    );
}

#[test]
fn names_of_unfinished_pid_files_do_not_repeat() {
    assert_eq!(
        pid_temp_name(&vec![0, 1, 255, 16]),
        ".sml-mcps-pid-0001ff10"
    );
    let bytes = [0, 1, 2, 3, 4, 5, 6, 7, 8, 9, 10, 11, 12, 13, 14, 255];
    assert_eq!(
        pid_temp_name_from(Ok(bytes)).as_deref(),
        Ok(".sml-mcps-pid-000102030405060708090a0b0c0d0eff")
    );
    assert_eq!(pid_temp_name_from(Err("none".to_string())), Err("none".to_string()));
    let a = new_pid_temp_name().unwrap();
    let b = new_pid_temp_name().unwrap();
    assert_eq!(a.len(), ".sml-mcps-pid-".len() + 32);
    assert_ne!(a, b);
}

#[test]
fn test_an_unspecified_bind_address_is_woken_on_loopback() {
    let v4 = connectable(Address { ip: Ip::V4(0), port: 4321 });
    assert_eq!(v4, Address { ip: Ip::V4(0x7f00_0001), port: 4321 });
    let v6 = connectable(Address { ip: Ip::V6(0), port: 4321 });
    assert_eq!(v6, Address { ip: Ip::V6(1), port: 4321 });
    let named = Address { ip: Ip::V4(0xc0a8_0101), port: 80 };
    assert_eq!(connectable(named), named);
}

#[test]
fn test_a_tcp_listener_describes_its_address() {
    assert_eq!(tcp_name("127.0.0.1:4321"), "tcp://127.0.0.1:4321");
    assert_eq!(unix_name("/run/x.sock"), "unix:/run/x.sock");
}

#[test]
fn test_stdio_transport_new() {
    let transport = StdioTransport::new();
    assert!(transport.reader.held().is_empty());
}

#[test]
fn test_stdio_transport_default() {
    let transport = StdioTransport::default();
    assert!(transport.reader.held().is_empty());
}

#[test]
fn test_stdio_transport_close() {
    let mut transport = StdioTransport::new();
    assert!(transport.close().is_ok());
}

#[test]
fn test_read_timeout_is_supported_on_unix() {
    let mut transport = StdioTransport::new();
    assert!(transport.set_read_timeout(Some(Span::from_millis(10))).unwrap());
    assert_eq!(transport.read_timeout, Some(Span::from_millis(10)));
    assert!(transport.set_read_timeout(None).unwrap());
    assert!(transport.close_write().is_ok());
}

#[test]
fn a_system_that_cannot_end_a_wait_says_so() {
    let mut transport = StdioTransport::on(false);
    assert!(!transport.set_read_timeout(Some(Span::from_millis(10))).unwrap());
    assert_eq!(transport.read_timeout, Some(Span::from_millis(10)));
    assert!(StdioTransport::on(true).set_read_timeout(None).unwrap());
}

#[test]
fn test_message_roundtrip() {
    let message = JsonRpcMessage::request(RequestId::Number(1), "test", None);
    let bytes = frame(&message);
    assert_eq!(bytes, b"{\"jsonrpc\":\"2.0\",\"id\":1,\"method\":\"test\"}\n".to_vec());
    let mut reader = LineReader::new();
    let fed = reader.feed(&bytes);
    assert_eq!(fed.consumed, bytes.len());
    assert_eq!(fed.message.unwrap().unwrap(), message);
}

#[test]
fn test_the_message_ceiling_is_pushed_down_to_the_reader() {
    let mut transport = StdioTransport::new();
    transport.set_max_message_bytes(64);
    let too_big = JsonRpcMessage::request(
        RequestId::Number(1),
        "tools/call",
        Some(Json::Object(vec![
            ("name".to_string(), Json::Text("echo".to_string())),
            ("text".to_string(), Json::Text("x".repeat(512))),
        ])),
    );
    let fits = JsonRpcMessage::request(RequestId::Number(2), "ping", None);
    let mut wire = frame(&too_big);
    wire.extend_from_slice(&frame(&fits));

    let fed = transport.reader.feed(&wire);
    match fed.message {
        Some(Err(McpError::InvalidMessage(m))) => {
            assert_eq!(m, "message exceeds the 64 byte limit")
        }
        other => panic!("a message over the ceiling is refused, not absorbed: {other:?}"),
    }
    let fed = transport.reader.feed(&wire[fed.consumed..].to_vec());
    assert_eq!(fed.message.unwrap().unwrap(), fits);
}

#[test]
fn a_new_ceiling_leaves_a_line_that_is_being_skipped_skipped() {
    let mut transport = StdioTransport::new();
    transport.set_max_message_bytes(16);
    assert!(transport.reader.feed(&vec![b'x'; 64]).message.is_none());
    transport.set_max_message_bytes(4096);
    let rest = b"{\"jsonrpc\":\"2.0\",\"method\":\"x\"}\n".to_vec();
    assert!(matches!(
        transport.reader.feed(&rest).message,
        Some(Err(McpError::InvalidMessage(_)))
    ));
    assert!(matches!(transport.reader.feed(&rest).message, Some(Ok(_))));
}

#[test]
fn test_poll_readable_rounds_a_sub_millisecond_budget_up() {
    assert_eq!(poll_millis(Span { secs: 0, nanos: 1 }), 1);
    assert_eq!(poll_millis(Span { secs: 0, nanos: 0 }), 0);
    assert_eq!(poll_millis(Span { secs: 1, nanos: 999_999 }), 1000);
    assert_eq!(poll_millis(Span::from_millis(1500)), 1500);
    assert_eq!(poll_millis(Span { secs: 2_147_483, nanos: 647_000_000 }), i32::MAX);
    assert_eq!(poll_millis(Span { secs: u64::MAX, nanos: 0 }), i32::MAX);
}

#[test]
fn test_poll_readable_times_out_on_an_idle_pipe() {
    assert_eq!(poll_outcome(0, false), Readiness::TimedOut);
    assert_eq!(poll_outcome(1, false), Readiness::Readable);
    assert_eq!(poll_outcome(-1, true), Readiness::Readable);
    assert_eq!(poll_outcome(-1, false), Readiness::Failed);
}

#[test]
fn a_deadline_that_passed_is_not_forever() {
    let now = Span::from_millis(500);
    assert_eq!(read_deadline(now, None), None);
    assert_eq!(
        read_deadline(now, Some(Span::from_millis(800))),
        Some(Span::from_millis(300))
    );
    assert_eq!(
        read_deadline(now, Some(Span::from_millis(100))),
        Some(Span { secs: 0, nanos: 1 })
    );
}

#[test]
fn test_closing_twice_is_not_an_error() {
    assert!(after_shutdown(ShutdownOutcome::Done).is_ok());
    assert!(after_shutdown(ShutdownOutcome::NotConnected).is_ok());
    assert_eq!(
        after_shutdown(ShutdownOutcome::Failed("broken".to_string())),
        Err(McpError::Io("broken".to_string()))
    );
}
