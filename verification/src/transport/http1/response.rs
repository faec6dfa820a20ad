//! Responses, and the bytes they are sent as.

use crate::bytes::{append_between, encode};
use crate::text::{chars_of, decimal_text, join, join3};
use vstd::prelude::*;
use vstd::string::*;
use vstd::utf8::*;

verus! {

/// The methods this server tells apart.
#[derive(Debug)]
pub enum Method {
    Get,
    Head,
    Post,
    Delete,
    /// Anything else, as it was sent.
    Other(String),
}

/// What a [`Method`] is.
pub enum MethodView {
    Get,
    Head,
    Post,
    Delete,
    Other(Seq<char>),
}

impl View for Method {
    type V = MethodView;

    open spec fn view(&self) -> MethodView {
        match *self {
            Method::Get => MethodView::Get,
            Method::Head => MethodView::Head,
            Method::Post => MethodView::Post,
            Method::Delete => MethodView::Delete,
            Method::Other(s) => MethodView::Other(s@),
        }
    }
}

/// The method that a token names.
pub open spec fn method_of(token: Seq<char>) -> MethodView {
    if token == "GET"@ {
        MethodView::Get
    } else if token == "HEAD"@ {
        MethodView::Head
    } else if token == "POST"@ {
        MethodView::Post
    } else if token == "DELETE"@ {
        MethodView::Delete
    } else {
        MethodView::Other(token)
    }
}

impl MethodView {
    /// The token for the method.
    pub open spec fn token(self) -> Seq<char> {
        match self {
            MethodView::Get => "GET"@,
            MethodView::Head => "HEAD"@,
            MethodView::Post => "POST"@,
            MethodView::Delete => "DELETE"@,
            MethodView::Other(s) => s,
        }
    }
}

impl Method {
    /// The method that a token names.
    pub fn parse(token: &str) -> (r: Method)
        ensures
            r@ == method_of(token@),
    {
        if crate::text::same_text(token, "GET") {
            Method::Get
        } else if crate::text::same_text(token, "HEAD") {
            Method::Head
        } else if crate::text::same_text(token, "POST") {
            Method::Post
        } else if crate::text::same_text(token, "DELETE") {
            Method::Delete
        } else {
            Method::Other(token.to_owned())
        }
    }

    /// The token for the method.
    pub fn name(&self) -> (r: String)
        ensures
            r@ == self@.token(),
    {
        match self {
            Method::Get => "GET".to_owned(),
            Method::Head => "HEAD".to_owned(),
            Method::Post => "POST".to_owned(),
            Method::Delete => "DELETE".to_owned(),
            Method::Other(s) => s.clone(),
        }
    }
}

/// Naming a method and reading its name gives the method back.
pub proof fn law_method_names_are_read_back(token: Seq<char>)
    ensures
        method_of(token).token() == token,
{
}

/// The revision of the protocol that a request names.
#[derive(Debug, Clone, Copy, PartialEq, Eq, Structural)]
pub enum Version {
    Http10,
    Http11,
}

impl Version {
    pub open spec fn name(self) -> Seq<char> {
        match self {
            Version::Http10 => "HTTP/1.0"@,
            Version::Http11 => "HTTP/1.1"@,
        }
    }
}

/// What may stand in a token.
pub open spec fn is_token_char(c: char) -> bool {
    ||| 'a' <= c && c <= 'z'
    ||| 'A' <= c && c <= 'Z'
    ||| '0' <= c && c <= '9'
    ||| c == '!' || c == '#' || c == '$' || c == '%' || c == '&' || c == '\'' || c == '*'
    ||| c == '+' || c == '-' || c == '.' || c == '^' || c == '_' || c == '`' || c == '|' || c == '~'
}

/// A token: what a method and the name of a header field are.
pub open spec fn token_ok(s: Seq<char>) -> bool {
    s.len() > 0 && forall|k: int| 0 <= k < s.len() ==> is_token_char(#[trigger] s[k])
}

/// What may stand in the value of a header field without ending it.
pub open spec fn value_ok(s: Seq<char>) -> bool {
    forall|k: int| 0 <= k < s.len() ==> (#[trigger] s[k]) == '\t' || s[k] >= ' '
}

/// Whether the text is a token.
pub fn is_token(text: &str) -> (r: bool)
    ensures
        r == token_ok(text@),
{
    let s = chars_of(text);
    let mut i: usize = 0;
    while i < s.len()
        invariant
            i <= s@.len(),
            s@ == text@,
            forall|k: int| 0 <= k < i ==> is_token_char(#[trigger] s@[k]),
        decreases s@.len() - i,
    {
        let c = s[i];
        if !(('a' <= c && c <= 'z') || ('A' <= c && c <= 'Z') || ('0' <= c && c <= '9') || c == '!'
            || c == '#' || c == '$' || c == '%' || c == '&' || c == '\'' || c == '*' || c == '+'
            || c == '-' || c == '.' || c == '^' || c == '_' || c == '`' || c == '|' || c == '~') {
            assert(!is_token_char(text@[i as int]));
            return false;
        }
        i = i + 1;
    }
    s.len() > 0
}

/// Whether the text can be the value of a header field.
pub fn is_field_value(text: &str) -> (r: bool)
    ensures
        r == value_ok(text@),
{
    let s = chars_of(text);
    let mut i: usize = 0;
    while i < s.len()
        invariant
            i <= s@.len(),
            s@ == text@,
            forall|k: int| 0 <= k < i ==> (#[trigger] s@[k]) == '\t' || s@[k] >= ' ',
        decreases s@.len() - i,
    {
        if !(s[i] == '\t' || s[i] >= ' ') {
            assert(!(text@[i as int] == '\t' || text@[i as int] >= ' '));
            return false;
        }
        i = i + 1;
    }
    true
}

/// A whole response.
#[derive(Debug)]
pub struct Response {
    status: u16,
    headers: Vec<(String, String)>,
    body: Vec<u8>,
    close: bool,
}

/// What a [`Response`] is.
pub struct ResponseView {
    pub status: u16,
    pub headers: Seq<(Seq<char>, Seq<char>)>,
    pub body: Seq<u8>,
    /// Whether the connection ends after it.
    pub close: bool,
}

impl View for Response {
    type V = ResponseView;

    closed spec fn view(&self) -> ResponseView {
        ResponseView {
            status: self.status,
            headers: crate::text::pairs(self.headers@),
            body: self.body@,
            close: self.close,
        }
    }
}

impl ResponseView {
    /// An empty response.
    pub open spec fn empty(status: u16) -> ResponseView {
        ResponseView { status, headers: Seq::empty(), body: Seq::empty(), close: false }
    }

    /// The response with a header field more. A field that could end before
    /// its line does is left out.
    pub open spec fn header(self, name: Seq<char>, value: Seq<char>) -> ResponseView {
        if token_ok(name) && value_ok(value) {
            ResponseView { headers: self.headers.push((name, value)), ..self }
        } else {
            self
        }
    }

    /// The response with a body.
    pub open spec fn with(self, content_type: Seq<char>, body: Seq<u8>) -> ResponseView {
        (ResponseView { body, ..self }).header("Content-Type"@, content_type)
    }

    /// The response as the last on its connection.
    pub open spec fn last(self) -> ResponseView {
        ResponseView { close: true, ..self }
    }

    /// Every header field keeps to its line.
    pub open spec fn tidy(self) -> bool {
        forall|k: int|
            0 <= k < self.headers.len() ==> token_ok((#[trigger] self.headers[k]).0) && value_ok(
                self.headers[k].1,
            )
    }
}

impl Response {
    pub fn new(status: u16) -> (r: Response)
        ensures
            r@ == ResponseView::empty(status),
            r@.tidy(),
    {
        let r = Response { status, headers: Vec::new(), body: Vec::new(), close: false };
        assert(r@.headers =~= Seq::empty());
        assert(r@.body =~= Seq::empty());
        r
    }

    pub fn with_body(self, content_type: &str, body: Vec<u8>) -> (r: Response)
        requires
            self@.tidy(),
        ensures
            r@ == self@.with(content_type@, body@),
            r@.tidy(),
    {
        let mut this = self;
        this.body = body;
        assert(this@.headers == self@.headers);
        this.with_header("Content-Type", content_type)
    }

    /// Adds a header field, unless its name is no token or its value could
    /// forge another.
    pub fn with_header(self, name: &str, value: &str) -> (r: Response)
        requires
            self@.tidy(),
        ensures
            r@ == self@.header(name@, value@),
            r@.tidy(),
    {
        let mut this = self;
        let ghost before = this@.headers;
        if is_field_value(value) && is_token(name) {
            this.headers.push((name.to_owned(), value.to_owned()));
            assert(this@.headers =~= before.push((name@, value@)));
        }
        this
    }

    /// Ends the connection after this response.
    pub fn closing(self) -> (r: Response)
        requires
            self@.tidy(),
        ensures
            r@ == self@.last(),
            r@.tidy(),
    {
        let mut this = self;
        this.close = true;
        assert(this@.headers == self@.headers);
        this
    }

    pub fn status(&self) -> (r: u16)
        ensures
            r == self@.status,
    {
        self.status
    }

    pub fn body(&self) -> (r: &Vec<u8>)
        ensures
            r@ == self@.body,
    {
        &self.body
    }

    pub fn headers(&self) -> (r: &Vec<(String, String)>)
        ensures
            crate::text::pairs(r@) == self@.headers,
    {
        &self.headers
    }

    /// Whether the connection ends after this response.
    pub fn closes(&self) -> (r: bool)
        ensures
            r == self@.close,
    {
        self.close
    }
}

/// A plain text response.
pub open spec fn plain(status: u16, words: Seq<char>) -> ResponseView {
    ResponseView::empty(status).with("text/plain"@, encode_utf8(words))
}

/// The refusal of a request that makes no sense.
pub open spec fn refused(why: Seq<char>) -> ResponseView {
    plain(400, "Bad Request: "@ + why + "\n"@).last()
}

/// The refusal of a head that is too long.
pub open spec fn head_too_long() -> ResponseView {
    plain(431, "Request Header Fields Too Large\n"@).last()
}

/// A response that says no more than its status.
pub open spec fn bare(status: u16, reason: Seq<char>) -> ResponseView {
    plain(status, reason + "\n"@)
}

pub fn bad_request(why: &str) -> (r: Response)
    ensures
        r@ == refused(why@),
        r@.tidy(),
{
    Response::new(400).with_body(
        "text/plain",
        encode(join3("Bad Request: ", why, "\n").as_str()),
    ).closing()
}

pub fn too_long() -> (r: Response)
    ensures
        r@ == head_too_long(),
        r@.tidy(),
{
    Response::new(431).with_body(
        "text/plain",
        encode("Request Header Fields Too Large\n"),
    ).closing()
}

pub fn status_only(status: u16, reason: &str) -> (r: Response)
    ensures
        r@ == bare(status, reason@),
        r@.tidy(),
{
    Response::new(status).with_body("text/plain", encode(join(reason, "\n").as_str()))
}

/// The words for a status.
pub open spec fn phrase(status: u16) -> Seq<char> {
    match status {
        200u16 => "OK"@,
        202u16 => "Accepted"@,
        204u16 => "No Content"@,
        400u16 => "Bad Request"@,
        401u16 => "Unauthorized"@,
        403u16 => "Forbidden"@,
        404u16 => "Not Found"@,
        405u16 => "Method Not Allowed"@,
        408u16 => "Request Timeout"@,
        413u16 => "Payload Too Large"@,
        417u16 => "Expectation Failed"@,
        431u16 => "Request Header Fields Too Large"@,
        500u16 => "Internal Server Error"@,
        501u16 => "Not Implemented"@,
        503u16 => "Service Unavailable"@,
        505u16 => "HTTP Version Not Supported"@,
        _ => "Status"@,
    }
}

/// The words for a status.
pub fn reason_phrase(status: u16) -> (r: &'static str)
    ensures
        r@ == phrase(status),
{
    match status {
        200 => "OK",
        202 => "Accepted",
        204 => "No Content",
        400 => "Bad Request",
        401 => "Unauthorized",
        403 => "Forbidden",
        404 => "Not Found",
        405 => "Method Not Allowed",
        408 => "Request Timeout",
        413 => "Payload Too Large",
        417 => "Expectation Failed",
        431 => "Request Header Fields Too Large",
        500 => "Internal Server Error",
        501 => "Not Implemented",
        503 => "Service Unavailable",
        505 => "HTTP Version Not Supported",
        _ => "Status",
    }
}

/// A status whose response has neither a body nor a length.
pub open spec fn is_bodiless(status: u16) -> bool {
    status == 204 || status == 304
}

/// One line of a head.
pub open spec fn header_line(name: Seq<char>, value: Seq<char>) -> Seq<char> {
    name + ": "@ + value + "\r\n"@
}

/// The lines of these header fields.
pub open spec fn header_lines(headers: Seq<(Seq<char>, Seq<char>)>) -> Seq<char>
    decreases headers.len(),
{
    if headers.len() == 0 {
        Seq::empty()
    } else {
        header_lines(headers.drop_last()) + header_line(headers.last().0, headers.last().1)
    }
}

/// The lines that end the head of every response.
pub open spec fn closing_lines(response: ResponseView, keep_alive: bool) -> Seq<char> {
    (if is_bodiless(response.status) {
        Seq::empty()
    } else {
        header_line("Content-Length"@, crate::text::decimal(response.body.len() as int))
    }) + header_line(
        "Connection"@,
        if keep_alive {
            "keep-alive"@
        } else {
            "close"@
        },
    ) + "\r\n"@
}

/// The first line of a response.
pub open spec fn status_line(version: Version, status: u16) -> Seq<char> {
    version.name() + " "@ + crate::text::decimal(status as int) + " "@ + phrase(status) + "\r\n"@
}

/// The head of a response.
pub open spec fn response_head(
    version: Version,
    response: ResponseView,
    keep_alive: bool,
) -> Seq<char> {
    status_line(version, response.status) + header_lines(response.headers) + closing_lines(
        response,
        keep_alive,
    )
}

/// The bytes of a response to a request with this method.
pub open spec fn rendered(
    method: MethodView,
    version: Version,
    response: ResponseView,
    keep_alive: bool,
) -> Seq<u8> {
    encode_utf8(response_head(version, response, keep_alive)) + if is_bodiless(response.status)
        || method is Head {
        Seq::empty()
    } else {
        response.body
    }
}

fn add_header_line(out: &mut String, name: &str, value: &str)
    ensures
        final(out)@ == old(out)@ + header_line(name@, value@),
{
    out.append(name);
    out.append(": ");
    out.append(value);
    out.append("\r\n");
    assert(out@ =~= old(out)@ + header_line(name@, value@));
}

/// The bytes of a response to a request with this method.
pub fn render(method: &Method, version: Version, response: &Response, keep_alive: bool) -> (r: Vec<
    u8,
>)
    ensures
        r@ == rendered(method@, version, response@, keep_alive),
{
    let bodiless = response.status == 204 || response.status == 304;
    let mut head = (match version {
        Version::Http10 => "HTTP/1.0",
        Version::Http11 => "HTTP/1.1",
    }).to_owned();
    head.append(" ");
    head.append(decimal_text(response.status as u64).as_str());
    head.append(" ");
    head.append(reason_phrase(response.status));
    head.append("\r\n");
    let ghost start = head@;
    let mut i: usize = 0;
    let ghost fields = crate::text::pairs(response.headers@);
    assert(fields.take(0) =~= Seq::empty());
    assert(start + Seq::<char>::empty() =~= start);
    while i < response.headers.len()
        invariant
            i <= response.headers@.len(),
            fields == crate::text::pairs(response.headers@),
            head@ == start + header_lines(fields.take(i as int)),
        decreases response.headers@.len() - i,
    {
        add_header_line(&mut head, response.headers[i].0.as_str(), response.headers[i].1.as_str());
        i = i + 1;
        proof {
            let done = fields.take(i as int);
            assert(done.drop_last() =~= fields.take(i as int - 1));
            assert(done.last() == fields[i as int - 1]);
            assert(head@ =~= start + header_lines(done));
        }
    }
    assert(fields.take(i as int) =~= fields);
    let ghost upper = head@;
    if !bodiless {
        add_header_line(
            &mut head,
            "Content-Length",
            decimal_text(response.body.len() as u64).as_str(),
        );
    }
    add_header_line(
        &mut head,
        "Connection",
        if keep_alive {
            "keep-alive"
        } else {
            "close"
        },
    );
    head.append("\r\n");
    assert(head@ =~= response_head(version, response@, keep_alive));
    let mut out = encode(head.as_str());
    let silent = match method {
        Method::Head => true,
        _ => bodiless,
    };
    if !silent {
        append_between(&mut out, &response.body, 0, response.body.len());
        assert(response.body@.subrange(0, response.body@.len() as int) =~= response.body@);
    }
    assert(out@ =~= rendered(method@, version, response@, keep_alive));
    out
}

/// How often a character occurs.
pub open spec fn occurrences(s: Seq<char>, c: char) -> nat
    decreases s.len(),
{
    if s.len() == 0 {
        0
    } else {
        occurrences(s.drop_last(), c) + if s.last() == c {
            1nat
        } else {
            0nat
        }
    }
}

proof fn lemma_occurrences_add(a: Seq<char>, b: Seq<char>, c: char)
    ensures
        occurrences(a + b, c) == occurrences(a, c) + occurrences(b, c),
    decreases b.len(),
{
    if b.len() == 0 {
        assert(a + b =~= a);
    } else {
        assert((a + b).drop_last() =~= a + b.drop_last());
        assert((a + b).last() == b.last());
        lemma_occurrences_add(a, b.drop_last(), c);
    }
}

proof fn lemma_occurrences_none(s: Seq<char>, c: char)
    requires
        forall|k: int| 0 <= k < s.len() ==> s[k] != c,
    ensures
        occurrences(s, c) == 0,
    decreases s.len(),
{
    if s.len() > 0 {
        lemma_occurrences_none(s.drop_last(), c);
    }
}

proof fn lemma_header_line_breaks_once(name: Seq<char>, value: Seq<char>)
    requires
        token_ok(name),
        value_ok(value),
    ensures
        occurrences(header_line(name, value), '\n') == 1,
{
    reveal_strlit(": ");
    reveal_strlit("\r\n");
    reveal_with_fuel(occurrences, 4);
    lemma_occurrences_none(name, '\n');
    lemma_occurrences_none(value, '\n');
    lemma_occurrences_none(": "@, '\n');
    lemma_occurrences_add(name, ": "@, '\n');
    lemma_occurrences_add(name + ": "@, value, '\n');
    lemma_occurrences_add(name + ": "@ + value, "\r\n"@, '\n');
    let end = "\r\n"@;
    assert(end.len() == 2 && end[0] == '\r' && end[1] == '\n');
    assert(end.drop_last().last() == '\r');
    assert(end.drop_last().drop_last().len() == 0);
}

/// The lines of tidy header fields are as many as the fields: no value ends its
/// line early and starts another.
pub proof fn law_header_values_cannot_forge_a_line(headers: Seq<(Seq<char>, Seq<char>)>)
    requires
        forall|k: int|
            0 <= k < headers.len() ==> token_ok((#[trigger] headers[k]).0) && value_ok(
                headers[k].1,
            ),
    ensures
        occurrences(header_lines(headers), '\n') == headers.len(),
    decreases headers.len(),
{
    if headers.len() > 0 {
        let front = headers.drop_last();
        assert(forall|k: int| 0 <= k < front.len() ==> front[k] == headers[k]);
        law_header_values_cannot_forge_a_line(front);
        let last = headers.last();
        assert(last == headers[headers.len() - 1]);
        lemma_header_line_breaks_once(last.0, last.1);
        lemma_occurrences_add(header_lines(front), header_line(last.0, last.1), '\n');
    }
}

/// Whatever fields are added to a response, every one that stays keeps to its
/// line.
pub proof fn law_responses_stay_tidy(
    response: ResponseView,
    name: Seq<char>,
    value: Seq<char>,
    content_type: Seq<char>,
    body: Seq<u8>,
)
    requires
        response.tidy(),
    ensures
        response.header(name, value).tidy(),
        response.with(content_type, body).tidy(),
        response.last().tidy(),
{
    assert(response.last().headers == response.headers);
    let with_body = ResponseView { body, ..response };
    assert(with_body.headers == response.headers);
    assert(with_body.tidy());
}

} // verus!
