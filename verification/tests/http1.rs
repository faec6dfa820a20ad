use sml_mcps::calendar::Span;
use sml_mcps::transport::http1::body::{
    parse_chunk_size, Body, BodyError, BodyPoll, BodyReader, BodyStart, Poll, Stage,
};
use sml_mcps::transport::http1::connection::{
    claim_slot, conclude, continue_line, handler_failed, linger, receive, release_slot, Arrival,
    Connection, Limits, Next, Reception,
};
use sml_mcps::transport::http1::head::{has_token, Head};
use sml_mcps::transport::http1::response::{reason_phrase, render, Method, Response, Version};
use sml_mcps::transport::http1::wire::{read_line, Ending, Line};

/// One request as a handler sees it, its body still on the wire.
struct Exchange<'a> {
    head: &'a Head,
    body: &'a mut Body,
    link: &'a mut Link,
}

/// A connection whose bytes arrive in pieces, and what was sent back.
struct Link {
    connection: Connection,
    pieces: Vec<Vec<u8>>,
    sent: Vec<u8>,
}

impl Link {
    fn receive(&mut self) {
        if self.pieces.is_empty() {
            self.connection.ended(Ending::Closed);
        } else {
            let piece = self.pieces.remove(0);
            self.connection.received(&piece);
        }
    }
}

impl Exchange<'_> {
    fn read_body(&mut self, limit: usize) -> Result<String, BodyError> {
        match self.body.start(limit) {
            BodyStart::Done(result) => return result,
            BodyStart::Read(true) => self.link.sent.extend(continue_line()),
            BodyStart::Read(false) => {}
        }
        loop {
            let ending = self.link.connection.ending;
            match self.body.poll(&mut self.link.connection.input, ending) {
                BodyPoll::Ready(result) => return result,
                BodyPoll::More => self.link.receive(),
            }
        }
    }
}

/// Drives one connection's worth of bytes, arriving `size` at a time, through
/// the server and returns what came back. A handler that returns nothing
/// stands for one that failed.
fn drive_in_pieces<H>(request: &[u8], size: usize, limits: Limits, handle: H) -> String
where
    H: Fn(&mut Exchange) -> Option<Response>,
{
    let mut link = Link {
        connection: Connection::new(),
        pieces: request.chunks(size).map(|c| c.to_vec()).collect(),
        sent: Vec::new(),
    };
    loop {
        match link.connection.next_request(&limits) {
            Next::Receive => link.receive(),
            Next::Hangup => break,
            Next::Reject(bytes) => {
                link.sent.extend(bytes);
                break;
            }
            Next::Serve(head, mut body) => {
                let response = handle(&mut Exchange {
                    head: &head,
                    body: &mut body,
                    link: &mut link,
                })
                .unwrap_or_else(handler_failed);
                if body.start_drain(limits.max_body_bytes) {
                    loop {
                        let ending = link.connection.ending;
                        match body.poll(&mut link.connection.input, ending) {
                            BodyPoll::Ready(_) => break,
                            BodyPoll::More => link.receive(),
                        }
                    }
                }
                let end = conclude(&head, body.finished, response);
                link.sent.extend(end.bytes);
                if !end.reuse {
                    break;
                }
            }
        }
    }
    String::from_utf8_lossy(&link.sent).into_owned()
}

fn drive<H>(request: &[u8], limits: Limits, handle: H) -> String
where
    H: Fn(&mut Exchange) -> Option<Response>,
{
    let whole = drive_in_pieces(request, usize::MAX, limits, &handle);
    // However the bytes arrive, the answer is the same.
    for size in [1, 2, 3, 7, 64] {
        assert_eq!(drive_in_pieces(request, size, limits, &handle), whole);
    }
    whole
}

fn echo_body(limit: usize) -> impl Fn(&mut Exchange) -> Option<Response> {
    move |request: &mut Exchange| {
        Some(match request.read_body(limit) {
            Ok(body) => Response::new(200).with_body("text/plain", body.into_bytes()),
            Err(BodyError::TooLarge) => Response::new(413)
                .with_body("text/plain", b"too large".to_vec())
                .closing(),
            Err(_) => Response::new(400).with_body("text/plain", b"bad body".to_vec()),
        })
    }
}

fn post(body: &str) -> Vec<u8> {
    format!(
        "POST /mcp HTTP/1.1\r\nHost: x\r\nContent-Length: {}\r\n\r\n{}",
        body.len(),
        body
    )
    .into_bytes()
}

#[test]
fn a_request_is_read_and_answered() {
    let answer = drive(&post("hello"), Limits::default(), echo_body(1024));
    assert!(answer.starts_with("HTTP/1.1 200 OK\r\n"), "{answer}");
    assert!(answer.ends_with("\r\n\r\nhello"), "{answer}");
    assert!(answer.contains("Content-Length: 5\r\n"), "{answer}");
}

#[test]
fn an_absurd_content_length_is_refused_without_being_believed() {
    let request = b"POST /mcp HTTP/1.1\r\nHost: x\r\nContent-Length: 200000000000000000\r\n\r\n";
    let answer = drive(request, Limits::default(), echo_body(1024));

    assert!(answer.starts_with("HTTP/1.1 413 "), "{answer}");
    assert!(
        answer.contains("Connection: close"),
        "an oversized body ends the connection: {answer}"
    );
}

#[test]
fn a_body_that_never_arrives_is_not_waited_for_after_the_answer() {
    let request = b"POST /mcp HTTP/1.1\r\nHost: x\r\nContent-Length: 100000000\r\n\r\n";
    let answer = drive(request, Limits::default(), echo_body(1024));

    assert!(answer.starts_with("HTTP/1.1 413 "), "{answer}");
    assert!(answer.contains("Connection: close"), "{answer}");
}

#[test]
fn a_declared_body_that_stops_early_is_incomplete_not_infinite() {
    let request = b"POST /mcp HTTP/1.1\r\nHost: x\r\nContent-Length: 64\r\n\r\nshort";
    let answer = drive(request, Limits::default(), echo_body(1024));
    assert!(answer.starts_with("HTTP/1.1 400 "), "{answer}");
}

#[test]
fn two_requests_share_one_connection() {
    let mut wire = post("one");
    wire.extend_from_slice(&post("two"));
    let answer = drive(&wire, Limits::default(), echo_body(1024));

    assert_eq!(answer.matches("HTTP/1.1 200 OK").count(), 2, "{answer}");
    assert!(answer.contains("\r\n\r\none"), "{answer}");
    assert!(answer.ends_with("two"), "{answer}");
}

#[test]
fn an_unread_body_does_not_desynchronise_the_next_request() {
    let mut wire = post(r#"{"ignored":true}"#);
    wire.extend_from_slice(&post("second"));

    let answer = drive(&wire, Limits::default(), |request: &mut Exchange| {
        if request.head.target == "/mcp" && request.head.header("content-length") == Some("16") {
            Some(Response::new(403).with_body("text/plain", b"no".to_vec()))
        } else {
            echo_body(1024)(request)
        }
    });

    assert!(answer.starts_with("HTTP/1.1 403 "), "{answer}");
    assert!(
        answer.contains("HTTP/1.1 200 OK"),
        "the connection stayed framed: {answer}"
    );
    assert!(answer.ends_with("second"), "{answer}");
}

#[test]
fn a_chunked_body_is_decoded() {
    let request = b"POST /mcp HTTP/1.1\r\nHost: x\r\nTransfer-Encoding: chunked\r\n\r\n\
                    5\r\nhello\r\n6\r\n world\r\n0\r\n\r\n";
    let answer = drive(request, Limits::default(), echo_body(1024));
    assert!(answer.starts_with("HTTP/1.1 200 OK"), "{answer}");
    assert!(answer.ends_with("hello world"), "{answer}");
}

#[test]
fn a_chunked_body_over_the_ceiling_stops_at_the_ceiling() {
    let chunk = "x".repeat(4096);
    let request = format!(
        "POST /mcp HTTP/1.1\r\nHost: x\r\nTransfer-Encoding: chunked\r\n\r\n{:x}\r\n{}\r\n0\r\n\r\n",
        chunk.len(),
        chunk
    );
    let answer = drive(request.as_bytes(), Limits::default(), echo_body(1024));
    assert!(answer.starts_with("HTTP/1.1 413 "), "{answer}");
    assert!(answer.contains("Connection: close"), "{answer}");
}

#[test]
fn a_head_bigger_than_its_budget_is_refused() {
    let padding = "x".repeat(4096);
    let request = format!("POST /mcp HTTP/1.1\r\nHost: x\r\nBig: {padding}\r\n\r\n");
    let limits = Limits {
        max_head_bytes: 512,
        ..Default::default()
    };
    let answer = drive(request.as_bytes(), limits, echo_body(1024));
    assert!(answer.starts_with("HTTP/1.1 431 "), "{answer}");
}

#[test]
fn too_many_headers_is_refused() {
    let mut request = String::from("POST /mcp HTTP/1.1\r\nHost: x\r\n");
    for n in 0..64 {
        request.push_str(&format!("X-{n}: v\r\n"));
    }
    request.push_str("\r\n");

    let limits = Limits {
        max_headers: 8,
        ..Default::default()
    };
    let answer = drive(request.as_bytes(), limits, echo_body(1024));
    assert!(answer.starts_with("HTTP/1.1 431 "), "{answer}");
}

#[test]
fn content_length_and_transfer_encoding_together_are_refused() {
    let request = b"POST /mcp HTTP/1.1\r\nHost: x\r\nContent-Length: 6\r\n\
                    Transfer-Encoding: chunked\r\n\r\n0\r\n\r\n";
    let answer = drive(request, Limits::default(), echo_body(1024));
    assert!(answer.starts_with("HTTP/1.1 400 "), "{answer}");
    assert!(answer.contains("Connection: close"), "{answer}");
}

#[test]
fn conflicting_content_lengths_are_refused() {
    let request = b"POST /mcp HTTP/1.1\r\nHost: x\r\nContent-Length: 6\r\n\
                    Content-Length: 7\r\n\r\nabcdef";
    let answer = drive(request, Limits::default(), echo_body(1024));
    assert!(answer.starts_with("HTTP/1.1 400 "), "{answer}");
}

#[test]
fn an_unreadable_content_length_is_refused() {
    let request = b"POST /mcp HTTP/1.1\r\nHost: x\r\nContent-Length: twelve\r\n\r\n";
    let answer = drive(request, Limits::default(), echo_body(1024));
    assert!(answer.starts_with("HTTP/1.1 400 "), "{answer}");
}

#[test]
fn a_folded_header_is_refused() {
    let request = b"POST /mcp HTTP/1.1\r\nHost: x\r\nX-Thing: one\r\n  two\r\n\r\n";
    let answer = drive(request, Limits::default(), echo_body(1024));
    assert!(answer.starts_with("HTTP/1.1 400 "), "{answer}");
}

#[test]
fn an_unknown_transfer_encoding_is_not_implemented() {
    let request = b"POST /mcp HTTP/1.1\r\nHost: x\r\nTransfer-Encoding: gzip\r\n\r\n";
    let answer = drive(request, Limits::default(), echo_body(1024));
    assert!(answer.starts_with("HTTP/1.1 501 "), "{answer}");
}

#[test]
fn an_expectation_we_cannot_meet_is_refused() {
    let request = b"POST /mcp HTTP/1.1\r\nHost: x\r\nExpect: the-moon\r\n\r\n";
    let answer = drive(request, Limits::default(), echo_body(1024));
    assert!(answer.starts_with("HTTP/1.1 417 "), "{answer}");
}

#[test]
fn continue_is_sent_only_for_a_body_that_will_be_accepted() {
    let request = b"POST /mcp HTTP/1.1\r\nHost: x\r\nExpect: 100-continue\r\n\
                    Content-Length: 5\r\n\r\nhello";
    let answer = drive(request, Limits::default(), echo_body(1024));
    assert!(
        answer.starts_with("HTTP/1.1 100 Continue\r\n\r\n"),
        "{answer}"
    );
    assert!(answer.contains("HTTP/1.1 200 OK"), "{answer}");
    assert!(answer.ends_with("hello"), "{answer}");
}

#[test]
fn continue_is_not_sent_for_a_body_that_is_already_refused() {
    let request = b"POST /mcp HTTP/1.1\r\nHost: x\r\nExpect: 100-continue\r\n\
                    Content-Length: 900000\r\n\r\n";
    let answer = drive(request, Limits::default(), echo_body(1024));
    assert!(!answer.contains("100 Continue"), "{answer}");
    assert!(answer.starts_with("HTTP/1.1 413 "), "{answer}");
}

#[test]
fn a_request_line_with_extra_spaces_is_refused() {
    let request = b"POST  /mcp HTTP/1.1\r\nHost: x\r\n\r\n";
    let answer = drive(request, Limits::default(), echo_body(1024));
    assert!(answer.starts_with("HTTP/1.1 400 "), "{answer}");
}

#[test]
fn an_unsupported_http_version_is_refused() {
    let request = b"POST /mcp HTTP/2.0\r\nHost: x\r\n\r\n";
    let answer = drive(request, Limits::default(), echo_body(1024));
    assert!(answer.starts_with("HTTP/1.1 505 "), "{answer}");
}

#[test]
fn http_10_closes_unless_it_asks_not_to() {
    let request = b"POST /mcp HTTP/1.0\r\nHost: x\r\nContent-Length: 2\r\n\r\nhi";
    let answer = drive(request, Limits::default(), echo_body(1024));
    assert!(answer.starts_with("HTTP/1.0 200 OK"), "{answer}");
    assert!(answer.contains("Connection: close"), "{answer}");
}

#[test]
fn an_http_10_peer_that_asks_for_it_is_kept() {
    let one =
        b"POST /mcp HTTP/1.0\r\nHost: x\r\nConnection: keep-alive\r\nContent-Length: 2\r\n\r\nhi";
    let answer = drive(one, Limits::default(), echo_body(1024));
    assert!(answer.starts_with("HTTP/1.0 200 OK"), "{answer}");
    assert!(answer.contains("Connection: keep-alive"), "{answer}");

    let mut two = one.to_vec();
    two.extend_from_slice(b"POST /mcp HTTP/1.0\r\nHost: x\r\nContent-Length: 3\r\n\r\nbye");
    let answer = drive(&two, Limits::default(), echo_body(1024));
    assert!(answer.ends_with("bye"), "the second request is served: {answer}");
    assert!(answer.contains("Connection: close"), "{answer}");
}

#[test]
fn a_head_request_carries_headers_and_no_body() {
    let request = b"HEAD /mcp HTTP/1.1\r\nHost: x\r\n\r\n";
    let answer = drive(request, Limits::default(), |_: &mut Exchange| {
        Some(Response::new(200).with_body("text/plain", b"hello".to_vec()))
    });
    assert!(answer.contains("Content-Length: 5\r\n"), "{answer}");
    assert!(answer.ends_with("\r\n\r\n"), "no body on a HEAD: {answer}");
}

#[test]
fn a_204_carries_no_length_and_no_body() {
    let request = b"DELETE /mcp HTTP/1.1\r\nHost: x\r\n\r\n";
    let answer = drive(request, Limits::default(), |_: &mut Exchange| {
        Some(Response::new(204))
    });
    assert!(answer.starts_with("HTTP/1.1 204 No Content"), "{answer}");
    assert!(!answer.contains("Content-Length"), "{answer}");
}

#[test]
fn a_header_value_cannot_forge_a_response() {
    let request = b"POST /mcp HTTP/1.1\r\nHost: x\r\n\r\n";
    let answer = drive(request, Limits::default(), |_: &mut Exchange| {
        Some(
            Response::new(200)
                .with_header("X-Ok", "fine")
                .with_header("X-Evil", "a\r\nX-Injected: yes"),
        )
    });
    assert!(answer.contains("X-Ok: fine"), "{answer}");
    assert!(!answer.contains("X-Injected"), "{answer}");
}

#[test]
fn a_handler_that_panics_still_produces_a_response() {
    let answer = drive(&post("hi"), Limits::default(), |_: &mut Exchange| None);
    assert!(answer.starts_with("HTTP/1.1 500 "), "{answer}");
    assert!(answer.contains("Connection: close"), "{answer}");
    assert!(answer.ends_with("Internal Server Error\n"), "{answer}");
}

#[test]
fn a_leading_blank_line_is_ignored() {
    let mut wire = b"\r\n".to_vec();
    wire.extend_from_slice(&post("hi"));
    let answer = drive(&wire, Limits::default(), echo_body(1024));
    assert!(answer.starts_with("HTTP/1.1 200 OK"), "{answer}");
}

#[test]
fn a_connection_that_says_nothing_is_not_an_error() {
    let answer = drive(b"", Limits::default(), echo_body(1024));
    assert_eq!(answer, "", "a peer that opens and leaves gets no answer");
}

#[test]
fn the_connection_ceiling_admits_exactly_its_size() {
    let live = claim_slot(0, 2).expect("room for one");
    let live = claim_slot(live, 2).expect("room for two");
    assert!(claim_slot(live, 2).is_none(), "and no more than two");

    let live = release_slot(live);
    assert!(
        claim_slot(live, 2).is_some(),
        "a finished connection gives its slot back"
    );
    assert_eq!(release_slot(1), 0);
    assert_eq!(release_slot(0), 0);
}

#[test]
fn chunk_sizes_are_read_as_hex_and_nothing_else() {
    assert_eq!(parse_chunk_size("1a"), Some(26));
    assert_eq!(parse_chunk_size("0"), Some(0));
    assert_eq!(parse_chunk_size("10;name=value"), Some(16));
    assert_eq!(parse_chunk_size(""), None);
    assert_eq!(parse_chunk_size("-1"), None);
    assert_eq!(parse_chunk_size("ffffffffffffffffff"), None);
}

#[test]
fn connection_tokens_are_matched_one_at_a_time() {
    assert!(has_token("keep-alive, Upgrade", "upgrade"));
    assert!(has_token("close", "close"));
    assert!(!has_token("keep-alive", "close"));
    assert!(!has_token("closely", "close"));
}

#[test]
fn chunk_sizes_may_be_padded_and_have_sixteen_digits_at_most() {
    assert_eq!(parse_chunk_size("FF \t;x"), Some(255));
    assert_eq!(parse_chunk_size("0000000000000001"), Some(1));
    assert_eq!(parse_chunk_size("00000000000000001"), None);
    assert_eq!(parse_chunk_size(" 1"), None);
    assert_eq!(parse_chunk_size("g"), None);
}

#[test]
fn tokens_are_trimmed_and_compared_in_any_case() {
    assert!(has_token("a ,\tCLOSE\u{a0}, b", "close"));
    assert!(!has_token("", "close"));
    assert!(has_token("", ""));
}

#[test]
fn a_length_is_digits_and_nothing_else() {
    for length in ["+2", "+", "-2", "0x2", "2 2", ""] {
        let request = format!("POST /mcp HTTP/1.1\r\nContent-Length: {length}\r\n\r\nhi");
        let answer = drive(request.as_bytes(), Limits::default(), echo_body(1024));
        assert!(answer.starts_with("HTTP/1.1 400 "), "{length:?}: {answer}");
        assert!(
            answer.ends_with("Bad Request: an unreadable `Content-Length`\n"),
            "{length:?}: {answer}"
        );
    }
}

#[test]
fn a_repeated_length_of_the_same_value_is_legal() {
    let request = b"POST /mcp HTTP/1.1\r\nContent-Length: 2\r\ncontent-length: 2\r\n\r\nhi";
    let answer = drive(request, Limits::default(), echo_body(1024));
    assert!(answer.starts_with("HTTP/1.1 200 OK"), "{answer}");
}

#[test]
fn two_transfer_encodings_are_refused() {
    let request =
        b"POST /mcp HTTP/1.1\r\nTransfer-Encoding: chunked\r\nTransfer-Encoding: chunked\r\n\r\n";
    let answer = drive(request, Limits::default(), echo_body(1024));
    assert!(
        answer.ends_with("Bad Request: more than one `Transfer-Encoding`\n"),
        "{answer}"
    );
}

#[test]
fn a_head_that_is_not_text_is_refused() {
    let answer = drive(b"PO\x01ST / HTTP/1.1\r\n\r\n", Limits::default(), echo_body(8));
    assert!(
        answer.ends_with("Bad Request: a request line that is not text\n"),
        "{answer}"
    );
    let answer = drive(
        b"POST / HTTP/1.1\r\nA: \xff\r\n\r\n",
        Limits::default(),
        echo_body(8),
    );
    assert!(
        answer.ends_with("Bad Request: a header field that is not text\n"),
        "{answer}"
    );
    for (line, why) in [
        ("no colon", "a header field with no `:`"),
        ("a b: c", "a header field name that is not a token"),
        (": c", "a header field name that is not a token"),
    ] {
        let answer = drive(
            format!("POST / HTTP/1.1\r\n{line}\r\n\r\n").as_bytes(),
            Limits::default(),
            echo_body(8),
        );
        assert!(
            answer.ends_with(&format!("Bad Request: {why}\n")),
            "{answer}"
        );
    }
}

#[test]
fn a_peer_that_leaves_in_the_middle_of_a_line_hung_up() {
    let answer = drive(b"POST / HT", Limits::default(), echo_body(8));
    assert_eq!(answer, "");
    let bytes = b"GET /".to_vec();
    assert!(matches!(read_line(&bytes, 0, Ending::Closed, 100), Line::Eof));
    assert!(matches!(read_line(&bytes, 0, Ending::Closed, 5), Line::TooLong));
    let mut reader = BodyReader { stage: Stage::Size, collected: Vec::new(), limit: 9 };
    assert!(matches!(
        reader.poll(&b"3".to_vec(), 0, Ending::Closed),
        Poll::Fail(BodyError::Incomplete)
    ));
}

#[test]
fn a_read_that_fails_in_the_middle_of_a_head_is_a_hangup() {
    let mut connection = Connection::new();
    connection.received(&b"POST / HT".to_vec());
    connection.ended(Ending::Failed);
    assert!(matches!(
        connection.next_request(&Limits::default()),
        Next::Hangup
    ));
}

#[test]
fn a_body_that_is_not_utf8_is_malformed_and_the_connection_stays_framed() {
    let mut wire = b"POST / HTTP/1.1\r\nContent-Length: 2\r\n\r\n\xff\xfe".to_vec();
    wire.extend_from_slice(&post("next"));
    let answer = drive(&wire, Limits::default(), echo_body(64));
    assert!(answer.starts_with("HTTP/1.1 400 "), "{answer}");
    assert!(answer.ends_with("next"), "{answer}");
}

#[test]
fn chunks_that_are_framed_wrongly_are_malformed() {
    for (body, good) in [
        ("3\r\nabc\r\n0\r\n\r\n", true),
        ("3\r\nabc\r\n0\r\nTrailer: x\r\n\r\n", true),
        ("3\nabc\n0\n\n", true),
        ("3\r\nabcX\r\n0\r\n\r\n", false),
        ("x\r\n", false),
        ("3\r\nab", false),
        ("", false),
    ] {
        let request =
            format!("POST / HTTP/1.1\r\nTransfer-Encoding: chunked\r\n\r\n{body}").into_bytes();
        let answer = drive(&request, Limits::default(), echo_body(64));
        if good {
            assert!(answer.ends_with("\r\n\r\nabc"), "{body:?}: {answer}");
        } else {
            assert!(answer.ends_with("bad body"), "{body:?}: {answer}");
            assert!(answer.contains("Connection: close"), "{answer}");
        }
    }
}

#[test]
fn no_more_trailers_are_read_than_allowed() {
    let request = |n: usize| {
        format!(
            "POST / HTTP/1.1\r\nTransfer-Encoding: chunked\r\n\r\n0\r\n{}\r\n",
            "T: v\r\n".repeat(n)
        )
        .into_bytes()
    };
    assert!(drive(&request(16), Limits::default(), echo_body(8)).starts_with("HTTP/1.1 200"));
    assert!(drive(&request(17), Limits::default(), echo_body(8)).starts_with("HTTP/1.1 400"));
}

#[test]
fn a_body_is_read_once() {
    let answer = drive(&post("hi"), Limits::default(), |request: &mut Exchange| {
        assert_eq!(request.read_body(8), Ok("hi".to_string()));
        assert_eq!(request.read_body(8), Err(BodyError::Malformed));
        Some(Response::new(202))
    });
    assert!(answer.starts_with("HTTP/1.1 202 Accepted\r\n"), "{answer}");
    assert!(answer.contains("Connection: keep-alive\r\n"), "{answer}");
}

#[test]
fn a_response_is_rendered_to_the_byte() {
    let response = Response::new(404)
        .with_header("X-A", "b")
        .with_body("text/plain", b"no\n".to_vec());
    assert_eq!(
        String::from_utf8(render(&Method::Get, Version::Http11, &response, true)).unwrap(),
        "HTTP/1.1 404 Not Found\r\nX-A: b\r\nContent-Type: text/plain\r\n\
         Content-Length: 3\r\nConnection: keep-alive\r\n\r\nno\n"
    );
    let response = Response::new(299).closing();
    assert_eq!(
        String::from_utf8(render(&Method::Post, Version::Http10, &response, false)).unwrap(),
        "HTTP/1.0 299 Status\r\nContent-Length: 0\r\nConnection: close\r\n\r\n"
    );
}

#[test]
fn methods_are_named_as_they_were_sent() {
    for name in ["GET", "HEAD", "POST", "DELETE", "PATCH", "get"] {
        assert_eq!(Method::parse(name).name(), name);
    }
}

#[test]
fn statuses_have_their_words() {
    assert_eq!(reason_phrase(413), "Payload Too Large");
    assert_eq!(reason_phrase(503), "Service Unavailable");
    assert_eq!(reason_phrase(418), "Status");
}

#[test]
fn arrivals_are_served_while_there_is_room() {
    assert_eq!(receive(Arrival::Peer, 0, 1, false), Reception::Serve(1));
    assert_eq!(receive(Arrival::Peer, 1, 1, false), Reception::Refuse);
    assert_eq!(receive(Arrival::Peer, 1, 1, true), Reception::Close);
    assert_eq!(receive(Arrival::Interrupted, 9, 1, false), Reception::Next);
    assert_eq!(receive(Arrival::Failed, 0, 1, false), Reception::Pause);
}

#[test]
fn a_closing_connection_discards_a_bounded_amount() {
    assert_eq!(linger(10, 4), 6);
    assert_eq!(linger(10, 10), 0);
    assert_eq!(linger(10, 4096), 0);
}

#[test]
fn the_limits_are_what_they_are() {
    let limits = Limits::default();
    assert_eq!(limits.max_connections, 512);
    assert_eq!(limits.max_head_bytes, 32 * 1024);
    assert_eq!(limits.max_headers, 100);
    assert_eq!(limits.max_body_bytes, 8 * 1024 * 1024);
    assert_eq!(limits.read_timeout, Span::from_secs(30));
    assert_eq!(limits.idle_timeout, Span::from_secs(120));
    assert_eq!(limits.write_timeout, Span::from_secs(30));
}
