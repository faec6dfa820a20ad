use sml_mcps::calendar::Span;
use sml_mcps::json::Json;
use sml_mcps::transport::line::{
    after_failure, Arming, LineReader, ReadFailure, MAX_MESSAGE_BYTES,
};
use sml_mcps::types::{JsonRpcMessage, McpError, RequestId};

/// Feeds chunks to a reader until one message is complete.
fn read_message(
    reader: &mut LineReader,
    chunks: &mut Vec<Vec<u8>>,
) -> Result<JsonRpcMessage, McpError> {
    loop {
        let available = if chunks.is_empty() {
            Vec::new()
        } else {
            chunks.remove(0)
        };
        let fed = reader.feed(&available);
        if fed.consumed < available.len() {
            chunks.insert(0, available[fed.consumed..].to_vec());
        }
        if let Some(message) = fed.message {
            return message;
        }
    }
}

fn chunk(s: &str) -> Vec<u8> {
    s.as_bytes().to_vec()
}

fn ping(id: i64) -> JsonRpcMessage {
    JsonRpcMessage::request(RequestId::Number(id), "ping", None)
}

fn request_line(id: i64) -> String {
    format!("{}\n", ping(id).to_text())
}

#[test]
fn the_cap_is_not_overshot_by_a_chunk_that_carries_the_newline() {
    let mut reader = LineReader::with_limit(50);
    let mut chunks = vec![
        chunk(&"x".repeat(40)),
        chunk(&format!("{}\n", "y".repeat(40))),
    ];
    let error = read_message(&mut reader, &mut chunks).unwrap_err();
    assert!(
        matches!(&error, McpError::InvalidMessage(m) if m.contains("50 byte limit")),
        "80 bytes must not sneak past a 50 byte cap: {error:?}"
    );
    assert!(reader.held().is_empty());
}

#[test]
fn the_cap_can_be_changed_on_a_reader_already_in_use() {
    let line = request_line(3);
    let mut reader = LineReader::with_limit(8);
    reader.set_limit(line.len());

    assert!(read_message(&mut reader, &mut vec![chunk(&line)]).is_ok());
}

#[test]
fn a_message_that_has_begun_keeps_the_cap_it_began_with() {
    let line = request_line(3);
    let mut reader = LineReader::with_limit(line.len());
    assert!(reader.feed(&chunk(&line[..10])).message.is_none());
    reader.set_limit(4);
    assert_eq!(reader.limit(), line.len());
    assert!(read_message(&mut reader, &mut vec![chunk(&line[10..])]).is_ok());
    assert_eq!(reader.limit(), 4);
    assert!(read_message(&mut reader, &mut vec![chunk(&line)]).is_err());
}

#[test]
fn a_zero_cap_is_clamped_rather_than_refusing_everything() {
    let line = request_line(4);
    let mut reader = LineReader::with_limit(0);

    assert!(matches!(
        read_message(&mut reader, &mut vec![chunk(&line)]),
        Err(McpError::InvalidMessage(_))
    ));
    assert_eq!(reader.limit(), 1);
}

#[test]
fn an_oversized_message_is_refused_without_growing_the_buffer() {
    let filler = "x".repeat(64);
    let mut reader = LineReader::with_limit(100);
    let mut chunks = vec![
        chunk(&filler),
        chunk(&filler),
        chunk(&filler),
        chunk("still going"),
        chunk("\n"),
        chunk(&request_line(7)),
    ];

    let error = read_message(&mut reader, &mut chunks).unwrap_err();
    assert!(
        matches!(&error, McpError::InvalidMessage(m) if m.contains("100 byte limit")),
        "{error:?}"
    );
    assert!(
        reader.held().is_empty(),
        "the oversized bytes must not be retained"
    );

    let recovered = read_message(&mut reader, &mut chunks).unwrap();
    let JsonRpcMessage::Request(request) = recovered else {
        panic!("expected a request");
    };
    assert_eq!(request.id, RequestId::Number(7));
}

#[test]
fn a_message_at_the_limit_is_still_accepted() {
    let line = request_line(1);
    let mut reader = LineReader::with_limit(line.len());
    assert!(read_message(&mut reader, &mut vec![chunk(&line)]).is_ok());
    let mut reader = LineReader::with_limit(line.len() - 1);
    assert!(read_message(&mut reader, &mut vec![chunk(&line)]).is_err());
}

#[test]
fn reads_a_whole_message() {
    let mut reader = LineReader::new();
    let message = read_message(&mut reader, &mut vec![chunk(&request_line(1))]).unwrap();
    assert_eq!(message, ping(1));
    assert_eq!(reader.limit(), MAX_MESSAGE_BYTES);
}

#[test]
fn reassembles_a_message_split_across_chunks() {
    let line = request_line(7);
    for cut in 1..line.len() {
        let (head, tail) = line.split_at(cut);
        let mut reader = LineReader::new();
        let mut chunks = vec![chunk(head), chunk(tail)];
        assert_eq!(read_message(&mut reader, &mut chunks).unwrap(), ping(7));
    }
}

#[test]
fn separates_messages_delivered_in_one_chunk() {
    let both = format!("{}{}", request_line(1), request_line(2));
    let mut reader = LineReader::new();
    let mut chunks = vec![chunk(&both)];

    assert_eq!(read_message(&mut reader, &mut chunks).unwrap(), ping(1));
    assert_eq!(read_message(&mut reader, &mut chunks).unwrap(), ping(2));
}

#[test]
fn end_of_stream_is_a_clean_close() {
    let mut reader = LineReader::new();
    assert!(matches!(
        read_message(&mut reader, &mut vec![]),
        Err(McpError::TransportClosed)
    ));
}

#[test]
fn a_timeout_keeps_the_bytes_it_already_read() {
    let line = request_line(42);
    let (head, tail) = line.split_at(10);
    let mut reader = LineReader::new();
    assert!(reader.feed(&chunk(head)).message.is_none());

    let soon = Some(Span::from_millis(30));
    let failure = after_failure(ReadFailure::Expired, soon);
    assert!(matches!(failure, Some(McpError::Timeout(m)) if m == "no message within 30ms"));

    assert_eq!(
        read_message(&mut reader, &mut vec![chunk(tail)]).unwrap(),
        ping(42)
    );
}

#[test]
fn a_zero_budget_expires_without_reading() {
    let mut reader = LineReader::new();
    let now = Span::from_secs(9);
    let zero = Some(Span::from_secs(0));
    assert!(matches!(
        reader.before_read(zero, Some(now), now),
        Err(McpError::Timeout(_))
    ));
}

#[test]
fn the_deadline_covers_the_message_not_each_chunk() {
    let mut reader = LineReader::new();
    let budget = Some(Span::from_millis(60));
    let deadline = Some(Span::from_millis(1060));
    let line = request_line(1);
    assert_eq!(
        reader
            .before_read(budget, deadline, Span::from_millis(1000))
            .unwrap(),
        Arming::Apply
    );
    assert!(reader.feed(&chunk(&line[..2])).message.is_none());
    assert!(reader
        .before_read(budget, deadline, Span::from_millis(1040))
        .is_ok());
    assert!(reader.feed(&chunk(&line[2..4])).message.is_none());
    assert!(matches!(
        reader.before_read(budget, deadline, Span::from_millis(1080)),
        Err(McpError::Timeout(_))
    ));
}

#[test]
fn a_deadline_is_cleared_once_and_only_where_one_was_set() {
    let mut reader = LineReader::new();
    let now = Span::from_secs(1);
    assert_eq!(reader.before_read(None, None, now).unwrap(), Arming::Leave);
    let later = Some(Span::from_secs(2));
    assert_eq!(
        reader.before_read(later, later, now).unwrap(),
        Arming::Apply
    );
    assert_eq!(reader.before_read(None, None, now).unwrap(), Arming::Clear);
    assert_eq!(reader.before_read(None, None, now).unwrap(), Arming::Leave);
}

#[test]
fn failed_reads_mean_different_things() {
    assert!(after_failure(ReadFailure::Interrupted, None).is_none());
    assert!(matches!(
        after_failure(ReadFailure::Disconnected, None),
        Some(McpError::TransportClosed)
    ));
    assert!(matches!(
        after_failure(ReadFailure::Expired, None),
        Some(McpError::Timeout(m)) if m == "no message"
    ));
    assert!(matches!(
        after_failure(ReadFailure::Other("disk".to_string()), None),
        Some(McpError::Io(m)) if m == "disk"
    ));
}

#[test]
fn survives_a_multibyte_character_split_across_chunks() {
    let message = JsonRpcMessage::request(
        RequestId::Number(1),
        "ping",
        Some(Json::Object(vec![(
            "text".to_string(),
            Json::Text("café".to_string()),
        )])),
    );
    let line = format!("{}\n", message.to_text());
    let split = line.find('é').unwrap() + 1;

    let mut reader = LineReader::new();
    let mut chunks = vec![
        line.as_bytes()[..split].to_vec(),
        line.as_bytes()[split..].to_vec(),
    ];
    assert_eq!(read_message(&mut reader, &mut chunks).unwrap(), message);
}

#[test]
fn rejects_a_line_that_is_not_utf8() {
    let mut reader = LineReader::new();
    let error = read_message(&mut reader, &mut vec![vec![0xff, 0xfe, b'\n']]).unwrap_err();
    assert!(
        matches!(&error, McpError::InvalidMessage(m) if m.starts_with("message is not UTF-8: invalid")),
        "{error:?}"
    );
}

#[test]
fn expires_when_nothing_arrives() {
    let mut reader = LineReader::new();
    let budget = Some(Span::from_millis(60));
    let deadline = Some(Span::from_millis(60));
    assert_eq!(
        reader
            .before_read(budget, deadline, Span::from_millis(0))
            .unwrap(),
        Arming::Apply
    );
    match after_failure(ReadFailure::Expired, budget) {
        Some(McpError::Timeout(m)) => assert_eq!(m, "no message within 60ms"),
        other => panic!("{other:?}"),
    }
    assert!(matches!(
        reader.before_read(budget, deadline, Span::from_millis(60)),
        Err(McpError::Timeout(_))
    ));
}

#[test]
fn a_stream_is_read_line_by_line_however_it_is_cut() {
    let mut wire = chunk(&request_line(1));
    wire.extend_from_slice(&[0xff, b'\n']);
    wire.extend_from_slice(&[b'x'; 200]);
    wire.push(b'\n');
    wire.extend_from_slice(b"\n");
    wire.extend_from_slice(&chunk(&request_line(2)));
    wire.extend_from_slice(b"{\"jsonrpc\"");
    for size in 1..wire.len() + 1 {
        let mut reader = LineReader::new();
        reader.set_limit(100);
        let mut chunks: Vec<Vec<u8>> = wire.chunks(size).map(|c| c.to_vec()).collect();
        let mut next = || read_message(&mut reader, &mut chunks);
        assert_eq!(next().unwrap(), ping(1));
        assert!(matches!(next(), Err(McpError::InvalidMessage(m)) if m.starts_with("message is not UTF-8")));
        assert!(matches!(next(), Err(McpError::InvalidMessage(m)) if m == "message exceeds the 100 byte limit"));
        assert!(next().is_err());
        assert_eq!(next().unwrap(), ping(2));
        assert!(matches!(next(), Err(McpError::TransportClosed)));
        assert!(matches!(next(), Err(McpError::TransportClosed)));
    }
}
