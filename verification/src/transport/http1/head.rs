//! Request heads: everything a request says before its body.

use super::response::{
    bad_request, is_token, status_only, too_long, Method, MethodView, Response, ResponseView,
    Version,
};
use super::wire::{read_line, Ending, Line, LineView};
use crate::text::{
    chars_between, chars_of, find_char, parse_number, same_chars_ignoring_case, same_text,
    same_text_ignoring_case, split_chars, text_of, trimmed, trimmed_blanks,
};
use vstd::prelude::*;
use vstd::string::*;

verus! {

/// How the body is framed.
#[derive(Debug, Clone, Copy, PartialEq, Eq, Structural)]
pub enum Framing {
    /// No body at all.
    Empty,
    /// This many bytes: a number the peer chose.
    Length(usize),
    Chunked,
}

/// Everything a request says before its body.
#[derive(Debug)]
pub struct Head {
    pub method: Method,
    pub target: String,
    pub version: Version,
    pub headers: Vec<(String, String)>,
    pub framing: Framing,
    pub expects_continue: bool,
    pub wants_close: bool,
}

/// What a [`Head`] is.
pub struct HeadView {
    pub method: MethodView,
    pub target: Seq<char>,
    pub version: Version,
    pub headers: Seq<(Seq<char>, Seq<char>)>,
    pub framing: Framing,
    pub expects_continue: bool,
    pub wants_close: bool,
}

impl View for Head {
    type V = HeadView;

    open spec fn view(&self) -> HeadView {
        HeadView {
            method: self.method@,
            target: self.target@,
            version: self.version,
            headers: crate::text::pairs(self.headers@),
            framing: self.framing,
            expects_continue: self.expects_continue,
            wants_close: self.wants_close,
        }
    }
}

/// The position of the first field with this name, in any case, or the number
/// of fields.
pub open spec fn header_at(
    headers: Seq<(Seq<char>, Seq<char>)>,
    name: Seq<char>,
    from: int,
) -> int
    decreases headers.len() - from,
{
    if from >= headers.len() {
        headers.len() as int
    } else if crate::text::same_ignoring_case(headers[from].0, name) {
        from
    } else {
        header_at(headers, name, from + 1)
    }
}

/// The value of the first field with this name, in any case.
pub open spec fn header_value(
    headers: Seq<(Seq<char>, Seq<char>)>,
    name: Seq<char>,
) -> Option<Seq<char>> {
    let i = header_at(headers, name, 0);
    if 0 <= i < headers.len() {
        Some(headers[i].1)
    } else {
        None
    }
}

/// Whether a list with commas holds this token, in any case.
pub open spec fn token_in(value: Seq<char>, token: Seq<char>) -> bool {
    exists|k: int|
        0 <= k < crate::text::split(value, ',').len() && crate::text::same_ignoring_case(
            crate::text::trim(#[trigger] crate::text::split(value, ',')[k]),
            token,
        )
}

/// The method, target and version that a request line names: three words with
/// one space between them.
pub open spec fn request_line(line: Seq<char>) -> Result<
    (MethodView, Seq<char>, Version),
    ResponseView,
> {
    let words = crate::text::split(line, ' ');
    if words.len() != 3 || words[1].len() == 0 || !super::response::token_ok(words[0]) {
        Err(super::response::refused("a malformed request line"@))
    } else if words[2] == "HTTP/1.1"@ {
        Ok((super::response::method_of(words[0]), words[1], Version::Http11))
    } else if words[2] == "HTTP/1.0"@ {
        Ok((super::response::method_of(words[0]), words[1], Version::Http10))
    } else {
        Err(super::response::bare(505, "HTTP Version Not Supported"@).last())
    }
}

/// The name and value that a header line gives.
pub open spec fn header_field(line: Seq<char>) -> Result<(Seq<char>, Seq<char>), ResponseView> {
    let colon = crate::text::find(line, ':');
    if line.len() > 0 && crate::text::is_blank(line[0]) {
        Err(super::response::refused("obsolete header line folding"@))
    } else if colon >= line.len() {
        Err(super::response::refused("a header field with no `:`"@))
    } else if !super::response::token_ok(line.take(colon)) {
        Err(super::response::refused("a header field name that is not a token"@))
    } else {
        Ok((line.take(colon), crate::text::trim_blanks(line.skip(colon + 1))))
    }
}

/// A length in decimal: digits and nothing else, which every reader reads
/// alike.
pub open spec fn length_of(s: Seq<char>) -> Option<int> {
    crate::text::parsed_number(s, 10, usize::MAX as int)
}

/// The transfer encoding and the content length that the fields from `from`
/// on give, beside those already seen. Two encodings, or two lengths that
/// differ, are refused where the second stands.
pub open spec fn framing_fields(
    headers: Seq<(Seq<char>, Seq<char>)>,
    from: int,
    encoding: Option<Seq<char>>,
    length: Option<Seq<char>>,
) -> Result<(Option<Seq<char>>, Option<Seq<char>>), ResponseView>
    decreases headers.len() - from,
{
    if from >= headers.len() {
        Ok((encoding, length))
    } else {
        let (name, value) = headers[from];
        if crate::text::same_ignoring_case(name, "transfer-encoding"@) {
            if encoding is Some {
                Err(super::response::refused("more than one `Transfer-Encoding`"@))
            } else {
                framing_fields(headers, from + 1, Some(value), length)
            }
        } else if crate::text::same_ignoring_case(name, "content-length"@) {
            if length is Some && length->0 != value {
                Err(super::response::refused("conflicting `Content-Length` headers"@))
            } else {
                framing_fields(headers, from + 1, encoding, Some(value))
            }
        } else {
            framing_fields(headers, from + 1, encoding, length)
        }
    }
}

/// How the body is framed, every shape that two readers could read differently
/// refused.
pub open spec fn framing(headers: Seq<(Seq<char>, Seq<char>)>) -> Result<Framing, ResponseView> {
    match framing_fields(headers, 0, None, None) {
        Err(r) => Err(r),
        Ok((Some(_), Some(_))) => Err(
            super::response::refused("both `Transfer-Encoding` and `Content-Length`"@),
        ),
        Ok((Some(encoding), None)) => if crate::text::same_ignoring_case(encoding, "chunked"@) {
            Ok(Framing::Chunked)
        } else {
            Err(super::response::bare(501, "Not Implemented"@).last())
        },
        Ok((None, Some(length))) => match length_of(length) {
            None => Err(super::response::refused("an unreadable `Content-Length`"@)),
            Some(n) => if n == 0 {
                Ok(Framing::Empty)
            } else {
                Ok(Framing::Length(n as usize))
            },
        },
        Ok((None, None)) => Ok(Framing::Empty),
    }
}

/// Whether the peer asked for the connection to end.
pub open spec fn close_asked(version: Version, headers: Seq<(Seq<char>, Seq<char>)>) -> bool {
    let connection = match header_value(headers, "connection"@) {
        Some(v) => v,
        None => ""@,
    };
    match version {
        Version::Http11 => token_in(connection, "close"@),
        Version::Http10 => !token_in(connection, "keep-alive"@),
    }
}

/// Whether the peer waits to be told to send its body.
pub open spec fn continue_asked(version: Version, headers: Seq<(Seq<char>, Seq<char>)>) -> Result<
    bool,
    ResponseView,
> {
    match header_value(headers, "expect"@) {
        None => Ok(false),
        Some(v) => if crate::text::same_ignoring_case(v, "100-continue"@) {
            Ok(version is Http11)
        } else {
            Err(super::response::bare(417, "Expectation Failed"@).last())
        },
    }
}

/// The head that a request line and its header fields make.
pub open spec fn head_of(
    method: MethodView,
    target: Seq<char>,
    version: Version,
    headers: Seq<(Seq<char>, Seq<char>)>,
) -> Result<HeadView, ResponseView> {
    match framing(headers) {
        Err(r) => Err(r),
        Ok(framing) => match continue_asked(version, headers) {
            Err(r) => Err(r),
            Ok(expects_continue) => Ok(
                HeadView {
                    method,
                    target,
                    version,
                    headers,
                    framing,
                    expects_continue,
                    wants_close: close_asked(version, headers),
                },
            ),
        },
    }
}

/// What the first line that is not empty is.
pub enum FirstLine {
    More,
    Hangup,
    Reject(ResponseView),
    /// The line, where the next one starts, and what is left of the budget.
    Line(Seq<char>, int, int),
}

/// The first line that is not empty, from `at` on.
pub open spec fn first_line(bytes: Seq<u8>, at: int, ending: Ending, budget: int) -> FirstLine
    decreases budget,
{
    match super::wire::line_at(bytes, at, ending, budget) {
        LineView::More => FirstLine::More,
        LineView::Failed => FirstLine::Hangup,
        LineView::Eof => FirstLine::Hangup,
        LineView::TooLong => FirstLine::Reject(super::response::head_too_long()),
        LineView::Invalid => FirstLine::Reject(
            super::response::refused("a request line that is not text"@),
        ),
        LineView::Text(line, next) => if line.len() > 0 {
            FirstLine::Line(line, next, budget - (next - at))
        } else if at < next && next - at <= budget {
            first_line(bytes, next, ending, budget - (next - at))
        } else {
            FirstLine::Hangup
        },
    }
}

/// What the header fields of a request are.
pub enum Fields {
    More,
    Hangup,
    Reject(ResponseView),
    /// The fields, and where the body starts.
    All(Seq<(Seq<char>, Seq<char>)>, int),
}

/// The header fields from `at` on, beside those already read, up to the line
/// that is empty.
pub open spec fn header_block(
    bytes: Seq<u8>,
    at: int,
    ending: Ending,
    budget: int,
    max: int,
    read: Seq<(Seq<char>, Seq<char>)>,
) -> Fields
    decreases budget,
{
    match super::wire::line_at(bytes, at, ending, budget) {
        LineView::More => Fields::More,
        LineView::Failed => Fields::Hangup,
        LineView::Eof => Fields::Hangup,
        LineView::TooLong => Fields::Reject(super::response::head_too_long()),
        LineView::Invalid => Fields::Reject(
            super::response::refused("a header field that is not text"@),
        ),
        LineView::Text(line, next) => if line.len() == 0 {
            Fields::All(read, next)
        } else if read.len() == max {
            Fields::Reject(super::response::head_too_long())
        } else {
            match header_field(line) {
                Err(r) => Fields::Reject(r),
                Ok(field) => if at < next && next - at <= budget {
                    header_block(
                        bytes,
                        next,
                        ending,
                        budget - (next - at),
                        max,
                        read.push(field),
                    )
                } else {
                    Fields::Hangup
                },
            }
        },
    }
}

/// What a connection's bytes say of the next request.
pub enum HeadStep {
    /// Not enough to tell.
    More,
    /// The peer left before it had said anything whole.
    Hangup,
    /// What to answer in place of serving a request.
    Reject(ResponseView),
    /// The head, and where the body starts.
    Ready(HeadView, int),
}

/// The next request's head, in the bytes from `at` on.
pub open spec fn next_head(
    bytes: Seq<u8>,
    at: int,
    ending: Ending,
    max_bytes: int,
    max_headers: int,
) -> HeadStep {
    match first_line(bytes, at, ending, max_bytes) {
        FirstLine::More => HeadStep::More,
        FirstLine::Hangup => HeadStep::Hangup,
        FirstLine::Reject(r) => HeadStep::Reject(r),
        FirstLine::Line(line, next, budget) => match request_line(line) {
            Err(r) => HeadStep::Reject(r),
            Ok((method, target, version)) => match header_block(
                bytes,
                next,
                ending,
                budget,
                max_headers,
                Seq::empty(),
            ) {
                Fields::More => HeadStep::More,
                Fields::Hangup => HeadStep::Hangup,
                Fields::Reject(r) => HeadStep::Reject(r),
                Fields::All(headers, body) => match head_of(method, target, version, headers) {
                    Err(r) => HeadStep::Reject(r),
                    Ok(head) => HeadStep::Ready(head, body),
                },
            },
        },
    }
}

impl Head {
    /// A header's value, its name matched in any case.
    pub fn header(&self, name: &str) -> (r: Option<&str>)
        ensures
            match r {
                Some(v) => header_value(self@.headers, name@) == Some(v@),
                None => header_value(self@.headers, name@) is None,
            },
    {
        header_of(&self.headers, name)
    }
}

/// A header's value, its name matched in any case.
pub fn header_of<'a>(headers: &'a Vec<(String, String)>, name: &str) -> (r: Option<&'a str>)
    ensures
        match r {
            Some(v) => header_value(crate::text::pairs(headers@), name@) == Some(v@),
            None => header_value(crate::text::pairs(headers@), name@) is None,
        },
{
    let ghost all = crate::text::pairs(headers@);
    let mut i: usize = 0;
    while i < headers.len()
        invariant
            i <= headers@.len(),
            all == crate::text::pairs(headers@),
            header_at(all, name@, 0) == header_at(all, name@, i as int),
        decreases headers@.len() - i,
    {
        assert(all[i as int] == (headers@[i as int].0@, headers@[i as int].1@));
        if same_text_ignoring_case(headers[i].0.as_str(), name) {
            return Some(headers[i].1.as_str());
        }
        i = i + 1;
    }
    None
}

/// Whether a list with commas holds this token, in any case.
pub fn has_token(value: &str, token: &str) -> (r: bool)
    ensures
        r == token_in(value@, token@),
{
    let parts = split_chars(&chars_of(value), ',');
    let ghost pieces = crate::text::split(value@, ',');
    let wanted = chars_of(token);
    let mut i: usize = 0;
    while i < parts.len()
        invariant
            i <= parts@.len(),
            wanted@ == token@,
            pieces == crate::text::split(value@, ','),
            crate::text::views(parts@) == pieces,
            forall|k: int|
                0 <= k < i ==> !crate::text::same_ignoring_case(
                    crate::text::trim(#[trigger] pieces[k]),
                    token@,
                ),
        decreases parts@.len() - i,
    {
        assert(pieces[i as int] == parts@[i as int]@);
        if same_chars_ignoring_case(&trimmed(&parts[i]), &wanted) {
            return true;
        }
        i = i + 1;
    }
    assert(pieces.len() == parts@.len());
    false
}

/// Reads a request line.
pub fn parse_request_line(line: &str) -> (r: Result<(Method, String, Version), Response>)
    ensures
        match r {
            Ok((method, target, version)) => request_line(line@) == Ok::<_, ResponseView>(
                (method@, target@, version),
            ),
            Err(response) => request_line(line@) == Err::<(MethodView, Seq<char>, Version), _>(
                response@,
            ) && response@.tidy(),
        },
{
    let words = split_chars(&chars_of(line), ' ');
    let ghost pieces = crate::text::split(line@, ' ');
    assert(crate::text::views(words@) == pieces);
    assert(words@.len() == pieces.len());
    if words.len() != 3 {
        return Err(bad_request("a malformed request line"));
    }
    assert(pieces[0] == words@[0]@ && pieces[1] == words@[1]@ && pieces[2] == words@[2]@);
    let method = text_of(&words[0]);
    if words[1].len() == 0 || !is_token(method.as_str()) {
        return Err(bad_request("a malformed request line"));
    }
    let version = text_of(&words[2]);
    if same_text(version.as_str(), "HTTP/1.1") {
        Ok((Method::parse(method.as_str()), text_of(&words[1]), Version::Http11))
    } else if same_text(version.as_str(), "HTTP/1.0") {
        Ok((Method::parse(method.as_str()), text_of(&words[1]), Version::Http10))
    } else {
        Err(status_only(505, "HTTP Version Not Supported").closing())
    }
}

/// Reads a header line.
fn parse_header_line(line: &str) -> (r: Result<(String, String), Response>)
    ensures
        match r {
            Ok((name, value)) => header_field(line@) == Ok::<_, ResponseView>((name@, value@)),
            Err(response) => header_field(line@) == Err::<(Seq<char>, Seq<char>), _>(response@)
                && response@.tidy(),
        },
{
    let s = chars_of(line);
    if s.len() > 0 && (s[0] == ' ' || s[0] == '\t') {
        return Err(bad_request("obsolete header line folding"));
    }
    let colon = find_char(&s, ':', 0);
    if colon == s.len() {
        return Err(bad_request("a header field with no `:`"));
    }
    let name_chars = chars_between(&s, 0, colon);
    assert(name_chars@ =~= s@.take(colon as int));
    let name = text_of(&name_chars);
    if !is_token(name.as_str()) {
        return Err(bad_request("a header field name that is not a token"));
    }
    let value = chars_between(&s, colon + 1, s.len());
    assert(value@ =~= s@.skip(colon as int + 1));
    Ok((name, text_of(&trimmed_blanks(&value))))
}

/// Reads a content length.
fn parse_length(value: &str) -> (r: Option<usize>)
    ensures
        match r {
            Some(n) => length_of(value@) == Some(n as int),
            None => length_of(value@) is None,
        },
{
    match parse_number(&chars_of(value), 10, usize::MAX as u64) {
        Some(n) => Some(n as usize),
        None => None,
    }
}

/// The view of an optional text slice.
pub open spec fn optional_str(s: Option<&str>) -> Option<Seq<char>> {
    match s {
        Some(s) => Some(s@),
        None => None,
    }
}

/// Decides how the body is framed.
pub fn framing_of(headers: &Vec<(String, String)>) -> (r: Result<Framing, Response>)
    ensures
        match r {
            Ok(f) => framing(crate::text::pairs(headers@)) == Ok::<_, ResponseView>(f),
            Err(response) => framing(crate::text::pairs(headers@)) == Err::<Framing, _>(response@)
                && response@.tidy(),
        },
{
    let ghost all = crate::text::pairs(headers@);
    let mut encoding: Option<&str> = None;
    let mut length: Option<&str> = None;
    let mut i: usize = 0;
    while i < headers.len()
        invariant
            i <= headers@.len(),
            all == crate::text::pairs(headers@),
            framing_fields(all, 0, None, None) == framing_fields(
                all,
                i as int,
                optional_str(encoding),
                optional_str(length),
            ),
        decreases headers@.len() - i,
    {
        assert(all[i as int] == (headers@[i as int].0@, headers@[i as int].1@));
        let name = headers[i].0.as_str();
        let value = headers[i].1.as_str();
        if same_text_ignoring_case(name, "transfer-encoding") {
            if encoding.is_some() {
                return Err(bad_request("more than one `Transfer-Encoding`"));
            }
            encoding = Some(value);
        } else if same_text_ignoring_case(name, "content-length") {
            if let Some(first) = length {
                if !same_text(first, value) {
                    return Err(bad_request("conflicting `Content-Length` headers"));
                }
            }
            length = Some(value);
        }
        i = i + 1;
    }
    match (encoding, length) {
        (Some(_), Some(_)) => Err(
            bad_request("both `Transfer-Encoding` and `Content-Length`"),
        ),
        (Some(encoding), None) => if same_text_ignoring_case(encoding, "chunked") {
            Ok(Framing::Chunked)
        } else {
            Err(status_only(501, "Not Implemented").closing())
        },
        (None, Some(length)) => match parse_length(length) {
            None => Err(bad_request("an unreadable `Content-Length`")),
            Some(n) => if n == 0 {
                Ok(Framing::Empty)
            } else {
                Ok(Framing::Length(n))
            },
        },
        (None, None) => Ok(Framing::Empty),
    }
}

/// What a connection's bytes say of the next request.
#[derive(Debug)]
pub enum HeadRead {
    More,
    Hangup,
    Reject(Response),
    Ready(Head, usize),
}

impl View for HeadRead {
    type V = HeadStep;

    open spec fn view(&self) -> HeadStep {
        match *self {
            HeadRead::More => HeadStep::More,
            HeadRead::Hangup => HeadStep::Hangup,
            HeadRead::Reject(r) => HeadStep::Reject(r@),
            HeadRead::Ready(h, at) => HeadStep::Ready(h@, at as int),
        }
    }
}

/// Puts a head together.
fn build_head(method: Method, target: String, version: Version, headers: Vec<(String, String)>) -> (r:
    Result<Head, Response>)
    ensures
        match r {
            Ok(h) => head_of(method@, target@, version, crate::text::pairs(headers@)) == Ok::<_, ResponseView>(
                h@,
            ),
            Err(response) => head_of(method@, target@, version, crate::text::pairs(headers@)) == Err::<
                HeadView,
                _,
            >(response@) && response@.tidy(),
        },
{
    let framing = match framing_of(&headers) {
        Ok(f) => f,
        Err(r) => {
            return Err(r);
        },
    };
    let expects_continue = match header_of(&headers, "expect") {
        None => false,
        Some(v) => {
            if !same_text_ignoring_case(v, "100-continue") {
                return Err(status_only(417, "Expectation Failed").closing());
            }
            version == Version::Http11
        },
    };
    let connection = match header_of(&headers, "connection") {
        Some(v) => v,
        None => "",
    };
    let wants_close = match version {
        Version::Http11 => has_token(connection, "close"),
        Version::Http10 => !has_token(connection, "keep-alive"),
    };
    Ok(Head { method, target, version, headers, framing, expects_continue, wants_close })
}

/// Reads the next request's head.
pub fn read_head(
    bytes: &Vec<u8>,
    at: usize,
    ending: Ending,
    max_bytes: usize,
    max_headers: usize,
) -> (r: HeadRead)
    requires
        at <= bytes@.len(),
    ensures
        r@ == next_head(bytes@, at as int, ending, max_bytes as int, max_headers as int),
        r matches HeadRead::Reject(response) ==> response@.tidy(),
        r matches HeadRead::Ready(_, next) ==> at < next <= bytes@.len() && next - at <= max_bytes,
{
    let mut budget: usize = max_bytes;
    let mut pos: usize = at;
    let ghost first = first_line(bytes@, at as int, ending, max_bytes as int);
    let mut line = String::new();
    let mut found = false;
    while !found
        invariant
            at <= pos <= bytes@.len(),
            pos - at == max_bytes - budget,
            budget <= max_bytes,
            first == first_line(bytes@, at as int, ending, max_bytes as int),
            !found ==> first == first_line(bytes@, pos as int, ending, budget as int),
            found ==> first == FirstLine::Line(line@, pos as int, budget as int) && pos > at,
        decreases budget,
    {
        match read_line(bytes, pos, ending, budget) {
            Line::More => {
                return HeadRead::More;
            },
            Line::Failed | Line::Eof => {
                return HeadRead::Hangup;
            },
            Line::TooLong => {
                return HeadRead::Reject(too_long());
            },
            Line::Invalid => {
                return HeadRead::Reject(bad_request("a request line that is not text"));
            },
            Line::Text(text, next) => {
                budget = budget - (next - pos);
                pos = next;
                if !text.as_str().is_empty() {
                    line = text;
                    found = true;
                }
            },
        }
    }
    let (method, target, version) = match parse_request_line(line.as_str()) {
        Ok(parts) => parts,
        Err(r) => {
            return HeadRead::Reject(r);
        },
    };
    let ghost start = pos;
    let ghost allowance = budget;
    let mut headers: Vec<(String, String)> = Vec::new();
    assert(crate::text::pairs(headers@) =~= Seq::empty());
    let mut done = false;
    let ghost block = header_block(
        bytes@,
        start as int,
        ending,
        allowance as int,
        max_headers as int,
        Seq::empty(),
    );
    while !done
        invariant
            at < pos <= bytes@.len(),
            pos - at == max_bytes - budget,
            budget <= max_bytes,
            !done ==> block == header_block(
                bytes@,
                pos as int,
                ending,
                budget as int,
                max_headers as int,
                crate::text::pairs(headers@),
            ),
            done ==> block == Fields::All(crate::text::pairs(headers@), pos as int),
            first == first_line(bytes@, at as int, ending, max_bytes as int),
            first == FirstLine::Line(line@, start as int, allowance as int),
            request_line(line@) == Ok::<_, ResponseView>((method@, target@, version)),
            block == header_block(
                bytes@,
                start as int,
                ending,
                allowance as int,
                max_headers as int,
                Seq::empty(),
            ),
        decreases budget,
    {
        match read_line(bytes, pos, ending, budget) {
            Line::More => {
                return HeadRead::More;
            },
            Line::Failed | Line::Eof => {
                return HeadRead::Hangup;
            },
            Line::TooLong => {
                return HeadRead::Reject(too_long());
            },
            Line::Invalid => {
                return HeadRead::Reject(bad_request("a header field that is not text"));
            },
            Line::Text(text, next) => {
                if text.as_str().is_empty() {
                    done = true;
                } else {
                    if headers.len() == max_headers {
                        return HeadRead::Reject(too_long());
                    }
                    match parse_header_line(text.as_str()) {
                        Err(r) => {
                            return HeadRead::Reject(r);
                        },
                        Ok(field) => {
                            let ghost before = crate::text::pairs(headers@);
                            headers.push(field);
                            assert(crate::text::pairs(headers@) =~= before.push((field.0@, field.1@)));
                        },
                    }
                }
                budget = budget - (next - pos);
                pos = next;
            },
        }
    }
    match build_head(method, target, version, headers) {
        Ok(head) => HeadRead::Ready(head, pos),
        Err(r) => HeadRead::Reject(r),
    }
}

/// Where a line ends.
proof fn lemma_line_bounds(bytes: Seq<u8>, at: int, ending: Ending, budget: int)
    requires
        0 <= at <= bytes.len(),
    ensures
        super::wire::line_at(bytes, at, ending, budget) matches LineView::Text(_, next) ==> at < next
            <= bytes.len() && next - at <= budget,
{
    crate::bytes::lemma_byte_from(bytes, 10, at);
}

proof fn lemma_first_line_is_final(
    bytes: Seq<u8>,
    at: int,
    budget: int,
    more: Seq<u8>,
    ending: Ending,
)
    requires
        0 <= at <= bytes.len(),
        !(first_line(bytes, at, Ending::Open, budget) is More),
    ensures
        first_line(bytes + more, at, ending, budget) == first_line(
            bytes,
            at,
            Ending::Open,
            budget,
        ),
        first_line(bytes, at, Ending::Open, budget) matches FirstLine::Line(_, next, _) ==> at < next
            <= bytes.len(),
    decreases budget,
{
    super::wire::lemma_line_is_final(bytes, at, budget, more, ending);
    lemma_line_bounds(bytes, at, Ending::Open, budget);
    if let LineView::Text(line, next) = super::wire::line_at(bytes, at, Ending::Open, budget) {
        if line.len() == 0 {
            lemma_first_line_is_final(bytes, next, budget - (next - at), more, ending);
        }
    }
}

proof fn lemma_header_block_is_final(
    bytes: Seq<u8>,
    at: int,
    budget: int,
    max: int,
    read: Seq<(Seq<char>, Seq<char>)>,
    more: Seq<u8>,
    ending: Ending,
)
    requires
        0 <= at <= bytes.len(),
        !(header_block(bytes, at, Ending::Open, budget, max, read) is More),
    ensures
        header_block(bytes + more, at, ending, budget, max, read) == header_block(
            bytes,
            at,
            Ending::Open,
            budget,
            max,
            read,
        ),
    decreases budget,
{
    super::wire::lemma_line_is_final(bytes, at, budget, more, ending);
    lemma_line_bounds(bytes, at, Ending::Open, budget);
    if let LineView::Text(line, next) = super::wire::line_at(bytes, at, Ending::Open, budget) {
        if line.len() > 0 && read.len() != max {
            if let Ok(field) = header_field(line) {
                lemma_header_block_is_final(
                    bytes,
                    next,
                    budget - (next - at),
                    max,
                    read.push(field),
                    more,
                    ending,
                );
            }
        }
    }
}

/// A head means the same however its bytes arrive: once they say something,
/// nothing that arrives later changes it.
pub proof fn law_a_head_does_not_depend_on_how_it_arrives(
    bytes: Seq<u8>,
    at: int,
    max_bytes: int,
    max_headers: int,
    more: Seq<u8>,
    ending: Ending,
)
    requires
        0 <= at <= bytes.len(),
        !(next_head(bytes, at, Ending::Open, max_bytes, max_headers) is More),
    ensures
        next_head(bytes + more, at, ending, max_bytes, max_headers) == next_head(
            bytes,
            at,
            Ending::Open,
            max_bytes,
            max_headers,
        ),
{
    lemma_first_line_is_final(bytes, at, max_bytes, more, ending);
    if let FirstLine::Line(line, next, budget) = first_line(bytes, at, Ending::Open, max_bytes) {
        if request_line(line) is Ok {
            lemma_header_block_is_final(
                bytes,
                next,
                budget,
                max_headers,
                Seq::empty(),
                more,
                ending,
            );
        }
    }
}

proof fn lemma_header_block_count(
    bytes: Seq<u8>,
    at: int,
    ending: Ending,
    budget: int,
    max: int,
    read: Seq<(Seq<char>, Seq<char>)>,
)
    requires
        0 <= at <= bytes.len(),
        read.len() <= max,
        forall|k: int|
            0 <= k < read.len() ==> super::response::token_ok((#[trigger] read[k]).0),
    ensures
        header_block(bytes, at, ending, budget, max, read) matches Fields::All(fields, next)
            ==> fields.len() <= max && at < next <= bytes.len() && next - at <= budget && (forall|
            k: int,
        |
            0 <= k < fields.len() ==> super::response::token_ok((#[trigger] fields[k]).0)),
    decreases budget,
{
    lemma_line_bounds(bytes, at, ending, budget);
    if let LineView::Text(line, next) = super::wire::line_at(bytes, at, ending, budget) {
        if line.len() > 0 && read.len() != max {
            if let Ok(field) = header_field(line) {
                lemma_header_block_count(
                    bytes,
                    next,
                    ending,
                    budget - (next - at),
                    max,
                    read.push(field),
                );
            }
        }
    }
}

/// No head that is served has more header fields than allowed, and every
/// field's name is a token.
pub proof fn law_header_fields_are_bounded(
    bytes: Seq<u8>,
    at: int,
    ending: Ending,
    max_bytes: int,
    max_headers: int,
)
    requires
        0 <= at <= bytes.len(),
        0 <= max_headers,
    ensures
        next_head(bytes, at, ending, max_bytes, max_headers) matches HeadStep::Ready(head, _)
            ==> head.headers.len() <= max_headers && forall|k: int|
            0 <= k < head.headers.len() ==> super::response::token_ok(
                (#[trigger] head.headers[k]).0,
            ),
{
    if let FirstLine::Line(line, next, budget) = first_line(bytes, at, ending, max_bytes) {
        lemma_first_line_bounds(bytes, at, ending, max_bytes);
        lemma_header_block_count(bytes, next, ending, budget, max_headers, Seq::empty());
    }
}

proof fn lemma_first_line_bounds(bytes: Seq<u8>, at: int, ending: Ending, budget: int)
    requires
        0 <= at <= bytes.len(),
    ensures
        first_line(bytes, at, ending, budget) matches FirstLine::Line(_, next, _) ==> at < next
            <= bytes.len(),
    decreases budget,
{
    lemma_line_bounds(bytes, at, ending, budget);
    if let LineView::Text(line, next) = super::wire::line_at(bytes, at, ending, budget) {
        if line.len() == 0 {
            lemma_first_line_bounds(bytes, next, ending, budget - (next - at));
        }
    }
}

/// A field of this name is among those from `from` on.
pub open spec fn names_field(
    headers: Seq<(Seq<char>, Seq<char>)>,
    from: int,
    name: Seq<char>,
) -> bool {
    exists|k: int|
        from <= k < headers.len() && crate::text::same_ignoring_case(
            (#[trigger] headers[k]).0,
            name,
        )
}

proof fn lemma_framing_fields(
    headers: Seq<(Seq<char>, Seq<char>)>,
    from: int,
    encoding: Option<Seq<char>>,
    length: Option<Seq<char>>,
)
    requires
        0 <= from <= headers.len(),
    ensures
        framing_fields(headers, from, encoding, length) matches Ok((e, l)) ==> {
            &&& (encoding is Some || names_field(headers, from, "transfer-encoding"@)) ==> e is Some
            &&& length is Some ==> l == length
            &&& forall|k: int|
                from <= k < headers.len() && crate::text::same_ignoring_case(
                    (#[trigger] headers[k]).0,
                    "content-length"@,
                ) ==> l == Some(headers[k].1)
        },
    decreases headers.len() - from,
{
    reveal_strlit("transfer-encoding");
    reveal_strlit("content-length");
    if from < headers.len() {
        let (name, value) = headers[from];
        let te = crate::text::same_ignoring_case(name, "transfer-encoding"@);
        let cl = crate::text::same_ignoring_case(name, "content-length"@);
        assert(!(te && cl)) by {
            assert(crate::text::lower_all("transfer-encoding"@).len() == 17);
            assert(crate::text::lower_all("content-length"@).len() == 14);
        }
        let e2 = if te {
            Some(value)
        } else {
            encoding
        };
        let l2 = if cl {
            Some(value)
        } else {
            length
        };
        lemma_framing_fields(headers, from + 1, e2, l2);
        if names_field(headers, from, "transfer-encoding"@) && !te {
            let k = choose|k: int|
                from <= k < headers.len() && crate::text::same_ignoring_case(
                    (#[trigger] headers[k]).0,
                    "transfer-encoding"@,
                );
            assert(from + 1 <= k);
            assert(names_field(headers, from + 1, "transfer-encoding"@));
        }
    }
}

/// A request that frames its body in two ways is refused, whatever else it
/// says.
pub proof fn law_two_framings_are_refused(headers: Seq<(Seq<char>, Seq<char>)>)
    requires
        names_field(headers, 0, "transfer-encoding"@),
        names_field(headers, 0, "content-length"@),
    ensures
        framing(headers) is Err,
{
    lemma_framing_fields(headers, 0, None, None);
    let k = choose|k: int|
        0 <= k < headers.len() && crate::text::same_ignoring_case(
            (#[trigger] headers[k]).0,
            "content-length"@,
        );
    assert(framing_fields(headers, 0, None, None) matches Ok((e, l)) ==> l == Some(headers[k].1));
}

/// A request that gives two different lengths is refused.
pub proof fn law_two_lengths_are_refused(headers: Seq<(Seq<char>, Seq<char>)>, i: int, j: int)
    requires
        0 <= i < headers.len(),
        0 <= j < headers.len(),
        crate::text::same_ignoring_case(headers[i].0, "content-length"@),
        crate::text::same_ignoring_case(headers[j].0, "content-length"@),
        headers[i].1 != headers[j].1,
    ensures
        framing(headers) is Err,
{
    lemma_framing_fields(headers, 0, None, None);
}

} // verus!
