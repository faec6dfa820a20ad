//! The Streamable HTTP transport: one message per request, the answer as JSON
//! or as a stream of events.

use crate::capabilities::ClientCapabilities;
use crate::json::{object, push_field, text, Json, JsonView, Number};
use crate::log::LogLevel;
use crate::server::{Server, ServerConfig, TaskContext};
use crate::tasks::TaskStore;
use crate::text::{chars_of, join, join3, join_all, same_text, text_between};
use crate::transport::http1::head::{Head, HeadView};
use crate::transport::http1::response::{Method, Response, ResponseView};
use crate::transport::origin::{contains_text, OriginPolicy};
use crate::transport::Transport;
use crate::types::{JsonRpcMessage, McpError, McpErrorView, MessageView, RequestId};
use vstd::prelude::*;
use vstd::string::*;
use vstd::utf8::*;

verus! {

/// The revision of the protocol that a client speaks which does not say.
pub const ASSUMED_PROTOCOL_VERSION: &'static str = "2025-03-26";

/// One request and everything that was said in answer to it.
#[derive(Debug)]
pub struct HttpTransport {
    request: Option<String>,
    messages: Vec<String>,
}

/// What an [`HttpTransport`] is.
pub struct HttpTransportView {
    /// The body of the request, until it is read.
    pub request: Option<Seq<char>>,
    /// What was written, in order.
    pub messages: Seq<Seq<char>>,
}

impl View for HttpTransport {
    type V = HttpTransportView;

    closed spec fn view(&self) -> HttpTransportView {
        HttpTransportView {
            request: match self.request {
                Some(s) => Some(s@),
                None => None,
            },
            messages: crate::text::texts(self.messages@),
        }
    }
}

impl HttpTransportView {
    /// What is read: the message in the request, once.
    pub open spec fn asked(self) -> Result<MessageView, McpErrorView> {
        match self.request {
            Some(body) => crate::types::message_in(body),
            None => Err(McpErrorView::TransportClosed),
        }
    }

    /// The transport after a message was written.
    pub open spec fn saying(self, m: MessageView) -> HttpTransportView {
        HttpTransportView {
            messages: self.messages.push(crate::types::message_text(m)),
            ..self
        }
    }
}

/// Messages as a stream of events.
pub open spec fn events(messages: Seq<Seq<char>>) -> Seq<char>
    decreases messages.len(),
{
    if messages.len() == 0 {
        Seq::empty()
    } else {
        events(messages.drop_last()) + ("data: "@ + messages.last() + "\n\n"@)
    }
}

impl HttpTransport {
    /// A transport for the body of a request.
    pub fn new(request_body: String) -> (r: HttpTransport)
        ensures
            r@ == (HttpTransportView {
                request: Some(request_body@),
                messages: Seq::empty(),
            }),
    {
        let r = HttpTransport { request: Some(request_body), messages: Vec::new() };
        assert(r@.messages =~= Seq::empty());
        r
    }

    /// Everything that was written, as a stream of events.
    pub fn take_sse_response(&mut self) -> (r: String)
        ensures
            r@ == events(old(self)@.messages),
            *final(self) == *old(self),
    {
        let mut out = String::new();
        let mut i: usize = 0;
        let ghost all = self@.messages;
        assert(all.take(0) =~= Seq::empty());
        assert(out@ =~= Seq::<char>::empty());
        while i < self.messages.len()
            invariant
                i <= self.messages@.len(),
                all == self@.messages,
                *self == *old(self),
                out@ == events(all.take(i as int)),
            decreases self.messages@.len() - i,
        {
            let ghost before = out@;
            out.append("data: ");
            out.append(self.messages[i].as_str());
            out.append("\n\n");
            proof {
                let next = all.take(i as int + 1);
                assert(next.drop_last() =~= all.take(i as int));
                assert(next.last() == self.messages@[i as int]@);
                assert(out@ =~= before + ("data: "@ + next.last() + "\n\n"@));
            }
            i = i + 1;
        }
        assert(all.take(i as int) =~= all);
        out
    }

    /// What was written last, if anything was.
    pub fn take_response(&mut self) -> (r: Option<String>)
        ensures
            *final(self) == *old(self),
            match r {
                Some(s) => old(self)@.messages.len() > 0 && s@ == old(self)@.messages.last(),
                None => old(self)@.messages.len() == 0,
            },
    {
        let n = self.messages.len();
        if n == 0 {
            None
        } else {
            assert(self@.messages.last() == self.messages@[n - 1]@);
            Some(self.messages[n - 1].clone())
        }
    }

    /// Whether anything was written beside the answer.
    pub fn has_notifications(&self) -> (r: bool)
        ensures
            r == (self@.messages.len() > 1),
    {
        self.messages.len() > 1
    }
}

impl Transport for HttpTransport {
    /// Reads the request; there is only one.
    fn read(&mut self) -> (r: Result<JsonRpcMessage, McpError>)
        ensures
            final(self)@ == (HttpTransportView { request: None, ..old(self)@ }),
            crate::types::agrees(r, old(self)@.asked()),
    {
        match self.request.take() {
            Some(body) => JsonRpcMessage::parse(body.as_str()),
            None => Err(McpError::TransportClosed),
        }
    }

    fn write(&mut self, message: &JsonRpcMessage) -> (r: Result<(), McpError>)
        ensures
            r is Ok,
            final(self)@ == old(self)@.saying(message@),
    {
        let ghost before = self@.messages;
        self.messages.push(message.to_text());
        assert(self@.messages =~= before.push(crate::types::message_text(message@)));
        Ok(())
    }

    fn close(&mut self) -> (r: Result<(), McpError>)
        ensures
            r is Ok,
            *final(self) == *old(self),
    {
        Ok(())
    }
}

/// What a request came to.
#[derive(Debug)]
pub enum Processed {
    /// A body, and what kind of body it is.
    Body(String, String),
    /// Nothing to be said.
    Accepted,
}

/// What messages come to: nothing, one as it is, or several as events.
pub open spec fn comes_to(m: Seq<Seq<char>>, r: Processed) -> bool {
    match r {
        Processed::Body(body, kind) => m.len() > 0 && if m.len() > 1 {
            body@ == events(m) && kind@ == "text/event-stream"@
        } else {
            body@ == m.last() && kind@ == "application/json"@
        },
        Processed::Accepted => m.len() == 0,
    }
}

/// What kind of body a stream of events is, or an answer.
pub fn processed(transport: &mut HttpTransport) -> (r: Processed)
    ensures
        *final(transport) == *old(transport),
        comes_to(old(transport)@.messages, r),
{
    if transport.has_notifications() {
        return Processed::Body(transport.take_sse_response(), "text/event-stream".to_owned());
    }
    match transport.take_response() {
        Some(body) => Processed::Body(body, "application/json".to_owned()),
        None => Processed::Accepted,
    }
}

/// The path of a request target: what comes before a query or a fragment.
pub open spec fn path_in(target: Seq<char>) -> Seq<char> {
    let q = crate::text::find(target, '?');
    let f = crate::text::find(target, '#');
    target.take(
        if q < f {
            q
        } else {
            f
        },
    )
}

/// The path of a request target.
pub fn path_of(target: &str) -> (r: String)
    ensures
        r@ == path_in(target@),
{
    let s = chars_of(target);
    let q = crate::text::find_char(&s, '?', 0);
    let f = crate::text::find_char(&s, '#', 0);
    let end: usize = if q < f {
        q
    } else {
        f
    };
    assert(s@.subrange(0, end as int) =~= s@.take(end as int));
    text_between(&s, 0, end)
}

/// The body of a refusal: an error of the protocol that answers no request in
/// particular.
pub open spec fn error_body(code: int, message: Seq<char>) -> JsonView {
    JsonView::Object(
        seq![
            ("jsonrpc"@, JsonView::Text("2.0"@)),
            (
                "error"@,
                JsonView::Object(
                    seq![
                        ("code"@, crate::types::integer(code as i64)),
                        ("message"@, JsonView::Text(message)),
                    ],
                ),
            ),
        ],
    )
}

/// A refusal.
pub open spec fn refusal(status: u16, code: int, message: Seq<char>) -> ResponseView {
    ResponseView::empty(status).with(
        "application/json"@,
        encode_utf8(crate::json::json_written(error_body(code, message))),
    )
}

/// A refusal.
pub fn error_response(status: u16, code: i64, message: &str) -> (r: Response)
    ensures
        r@ == refusal(status, code as int, message@),
        r@.tidy(),
{
    let mut inner: Vec<(String, Json)> = Vec::new();
    assert(crate::json::fields(inner@) =~= Seq::empty());
    push_field(&mut inner, "code", RequestId::Number(code).to_json());
    push_field(&mut inner, "message", text(message));
    assert(crate::json::fields(inner@) =~= seq![
        ("code"@, crate::types::integer(code)),
        ("message"@, JsonView::Text(message@)),
    ]);
    let mut v: Vec<(String, Json)> = Vec::new();
    assert(crate::json::fields(v@) =~= Seq::empty());
    push_field(&mut v, "jsonrpc", text("2.0"));
    push_field(&mut v, "error", object(inner));
    assert(crate::json::fields(v@) =~= error_body(code as int, message@)->Object_0);
    let body = crate::json::write(&object(v));
    Response::new(status).with_body("application/json", crate::bytes::encode(body.as_str()))
}

/// What is published about who may hand out tokens for the server.
#[derive(Debug)]
pub struct ProtectedResource {
    /// The path that the document is at.
    pub metadata_path: String,
    /// The address that the document is at.
    pub metadata_url: String,
    /// The document.
    pub document: String,
    /// The scopes that there are.
    pub scopes_supported: Vec<String>,
}

/// The rules of an HTTP server.
#[derive(Debug)]
pub struct HttpServer {
    pub config: ServerConfig,
    pub endpoint: String,
    pub origin_policy: OriginPolicy,
    pub protected_resource: Option<ProtectedResource>,
    pub required_scopes: Vec<String>,
}

/// What tells a client without a valid token where to get one.
pub open spec fn challenge_text(url: Seq<char>, scopes: Seq<Seq<char>>) -> Seq<char> {
    "Bearer resource_metadata=\""@ + url + "\""@ + if scopes.len() == 0 {
        Seq::empty()
    } else {
        ", scope=\""@ + crate::text::joined(scopes, " "@) + "\""@
    }
}

/// What tells a client which scopes its token lacks.
pub open spec fn scope_challenge_text(url: Seq<char>, scopes: Seq<Seq<char>>) -> Seq<char> {
    "Bearer error=\"insufficient_scope\", scope=\""@ + crate::text::joined(scopes, " "@)
        + "\", resource_metadata=\""@ + url
        + "\", error_description=\"the token does not carry the scopes this request needs\""@
}

/// Whether a text is ASCII.
pub open spec fn is_ascii(s: Seq<char>) -> bool {
    forall|k: int| 0 <= k < s.len() ==> (#[trigger] s[k]) <= '\u{7f}'
}

fn all_ascii(s: &str) -> (r: bool)
    ensures
        r == is_ascii(s@),
{
    let chars = chars_of(s);
    let mut i: usize = 0;
    while i < chars.len()
        invariant
            i <= chars@.len(),
            chars@ == s@,
            forall|k: int| 0 <= k < i ==> (#[trigger] chars@[k]) <= '\u{7f}',
        decreases chars@.len() - i,
    {
        if chars[i] > '\u{7f}' {
            assert(!(s@[i as int] <= '\u{7f}'));
            return false;
        }
        i = i + 1;
    }
    true
}

/// A response with a challenge. One that is not ASCII cannot stand in a header
/// field, and one that could end its line must not: both are left out.
pub open spec fn challenged(response: ResponseView, challenge: Seq<char>) -> ResponseView {
    if is_ascii(challenge) {
        response.header("WWW-Authenticate"@, challenge)
    } else {
        response
    }
}

fn with_challenge(response: Response, challenge: &str) -> (r: Response)
    requires
        response@.tidy(),
    ensures
        r@ == challenged(response@, challenge@),
        r@.tidy(),
{
    if all_ascii(challenge) {
        response.with_header("WWW-Authenticate", challenge)
    } else {
        response
    }
}

/// The revision that a request says it speaks.
pub open spec fn version_of(head: HeadView) -> Seq<char> {
    match crate::transport::http1::head::header_value(head.headers, "MCP-Protocol-Version"@) {
        Some(v) => v,
        None => ASSUMED_PROTOCOL_VERSION@,
    }
}

impl HttpServer {
    /// The answer to a request for the published document.
    pub open spec fn metadata_answer(self, head: HeadView) -> Option<ResponseView> {
        match self.protected_resource {
            None => None,
            Some(p) => if path_in(head.target) != p.metadata_path@ {
                None
            } else if head.method is Get {
                Some(
                    ResponseView::empty(200).with(
                        "application/json"@,
                        encode_utf8(p.document@),
                    ),
                )
            } else {
                Some(refusal(405, -32600, "Method Not Allowed"@))
            },
        }
    }

    /// The answer to a request that is not to be processed, by what it says
    /// before its body: where it goes, how, in which revision, and from where.
    pub open spec fn rejection(self, head: HeadView) -> Option<ResponseView> {
        let version = version_of(head);
        let origin = crate::transport::http1::head::header_value(head.headers, "Origin"@);
        let supported = crate::text::texts(self.config.supported_versions@);
        if self.metadata_answer(head) is Some {
            self.metadata_answer(head)
        } else if path_in(head.target) != self.endpoint@ {
            Some(refusal(404, -32600, "Not Found"@))
        } else if !(head.method is Post) {
            Some(refusal(405, -32600, "Method Not Allowed"@))
        } else if !supported.contains(version) {
            Some(
                refusal(
                    400,
                    -32600,
                    "Unsupported MCP-Protocol-Version `"@ + version
                        + "`; this server supports: "@ + crate::text::joined(supported, ", "@),
                ),
            )
        } else if origin is Some && !crate::transport::origin::allowed(
            self.origin_policy,
            origin->0,
        ) {
            Some(
                refusal(403, -32600, "Forbidden: disallowed Origin `"@ + origin->0 + "`"@),
            )
        } else {
            None
        }
    }

    /// Rules with everything as usual: one endpoint, and pages on this machine
    /// only.
    pub fn new(config: ServerConfig) -> (r: HttpServer)
        ensures
            r.config == config,
            r.endpoint@ == "/mcp"@,
            r.origin_policy is Loopback,
            r.protected_resource is None,
            r.required_scopes@.len() == 0,
    {
        HttpServer {
            config,
            endpoint: "/mcp".to_owned(),
            origin_policy: OriginPolicy::default(),
            protected_resource: None,
            required_scopes: Vec::new(),
        }
    }

    /// Moves the endpoint.
    pub fn endpoint(self, path: &str) -> (r: HttpServer)
        ensures
            r.endpoint@ == path@,
            r.config == self.config,
            r.origin_policy == self.origin_policy,
            r.protected_resource == self.protected_resource,
            r.required_scopes == self.required_scopes,
    {
        let mut this = self;
        this.endpoint = path.to_owned();
        this
    }

    /// Changes which pages may talk to the server.
    pub fn origin_policy(self, policy: OriginPolicy) -> (r: HttpServer)
        ensures
            r == (HttpServer { origin_policy: policy, ..self }),
    {
        let mut this = self;
        this.origin_policy = policy;
        this
    }

    /// Publishes who may hand out tokens.
    pub fn protected_resource(self, metadata: ProtectedResource) -> (r: HttpServer)
        ensures
            r == (HttpServer { protected_resource: Some(metadata), ..self }),
    {
        let mut this = self;
        this.protected_resource = Some(metadata);
        this
    }

    /// Asks every token for these scopes.
    pub fn require_scopes(self, scopes: Vec<String>) -> (r: HttpServer)
        ensures
            r == (HttpServer { required_scopes: scopes, ..self }),
    {
        let mut this = self;
        this.required_scopes = scopes;
        this
    }

    fn protected_resource_response(&self, head: &Head) -> (r: Option<Response>)
        ensures
            match r {
                Some(response) => self.metadata_answer(head@) == Some(response@)
                    && response@.tidy(),
                None => self.metadata_answer(head@) is None,
            },
    {
        match &self.protected_resource {
            None => None,
            Some(p) => {
                let path = path_of(head.target.as_str());
                if !same_text(path.as_str(), p.metadata_path.as_str()) {
                    return None;
                }
                match head.method {
                    Method::Get => Some(
                        Response::new(200).with_body(
                            "application/json",
                            crate::bytes::encode(p.document.as_str()),
                        ),
                    ),
                    _ => Some(error_response(405, -32600, "Method Not Allowed")),
                }
            },
        }
    }

    /// The answer to a request that is not to be processed, by what it says
    /// before its body.
    pub fn precheck(&self, head: &Head) -> (r: Option<Response>)
        ensures
            match r {
                Some(response) => self.rejection(head@) == Some(response@) && response@.tidy(),
                None => self.rejection(head@) is None,
            },
    {
        if let Some(response) = self.protected_resource_response(head) {
            return Some(response);
        }
        let path = path_of(head.target.as_str());
        if !same_text(path.as_str(), self.endpoint.as_str()) {
            return Some(error_response(404, -32600, "Not Found"));
        }
        match head.method {
            Method::Post => {},
            _ => {
                return Some(error_response(405, -32600, "Method Not Allowed"));
            },
        }
        let version = match head.header("MCP-Protocol-Version") {
            Some(v) => v,
            None => ASSUMED_PROTOCOL_VERSION,
        };
        let ghost supported = crate::text::texts(self.config.supported_versions@);
        let spoken = contains_text(&self.config.supported_versions, version);
        proof {
            if spoken {
                let k = choose|k: int|
                    0 <= k < self.config.supported_versions@.len() && (
                    #[trigger] self.config.supported_versions@[k])@ == version@;
                assert(supported[k] == version@);
            } else if supported.contains(version@) {
                let k = choose|k: int| 0 <= k < supported.len() && supported[k] == version@;
                assert(self.config.supported_versions@[k]@ == version@);
            }
        }
        if !spoken {
            let mut why = join3(
                "Unsupported MCP-Protocol-Version `",
                version,
                "`; this server supports: ",
            );
            why.append(join_all(&self.config.supported_versions, ", ").as_str());
            return Some(error_response(400, -32600, why.as_str()));
        }
        if let Some(origin) = head.header("Origin") {
            if !self.origin_policy.is_allowed(origin) {
                return Some(
                    error_response(
                        403,
                        -32600,
                        join3("Forbidden: disallowed Origin `", origin, "`").as_str(),
                    ),
                );
            }
        }
        None
    }

    /// What tells a client without a valid token where to get one, where that
    /// is published.
    pub fn challenge(&self) -> (r: Option<String>)
        ensures
            match (r, self.protected_resource) {
                (Some(c), Some(p)) => c@ == challenge_text(
                    p.metadata_url@,
                    crate::text::texts(p.scopes_supported@),
                ),
                (None, None) => true,
                _ => false,
            },
    {
        match &self.protected_resource {
            None => None,
            Some(p) => {
                let mut c = join3(
                    "Bearer resource_metadata=\"",
                    p.metadata_url.as_str(),
                    "\"",
                );
                let ghost front = c@;
                if p.scopes_supported.len() > 0 {
                    c.append(", scope=\"");
                    c.append(join_all(&p.scopes_supported, " ").as_str());
                    c.append("\"");
                }
                assert(c@ =~= challenge_text(
                    p.metadata_url@,
                    crate::text::texts(p.scopes_supported@),
                ));
                Some(c)
            },
        }
    }

    /// The response with a challenge, where there is one.
    pub open spec fn unauthorized_answer(self, message: Seq<char>) -> ResponseView {
        let plain = refusal(401, -32600, message);
        match self.protected_resource {
            Some(p) => challenged(
                plain,
                challenge_text(p.metadata_url@, crate::text::texts(p.scopes_supported@)),
            ),
            None => plain,
        }
    }

    /// The answer to a client without a valid token.
    pub fn unauthorized(&self, message: &str) -> (r: Response)
        ensures
            r@ == self.unauthorized_answer(message@),
            r@.tidy(),
    {
        let response = error_response(401, -32600, message);
        match self.challenge() {
            Some(c) => with_challenge(response, c.as_str()),
            None => response,
        }
    }

    /// The answer to a client whose token is valid and does not suffice.
    pub open spec fn forbidden_answer(self, missing: Seq<Seq<char>>) -> ResponseView {
        let plain = refusal(
            403,
            -32600,
            "Forbidden: missing scope(s): "@ + crate::text::joined(missing, " "@),
        );
        match self.protected_resource {
            Some(p) => challenged(
                plain,
                scope_challenge_text(
                    p.metadata_url@,
                    crate::text::texts(self.required_scopes@),
                ),
            ),
            None => plain,
        }
    }

    /// The answer to a client whose token is valid and does not suffice.
    pub fn forbidden(&self, missing: &Vec<String>) -> (r: Response)
        ensures
            r@ == self.forbidden_answer(crate::text::texts(missing@)),
            r@.tidy(),
    {
        let response = error_response(
            403,
            -32600,
            join("Forbidden: missing scope(s): ", join_all(missing, " ").as_str()).as_str(),
        );
        match &self.protected_resource {
            Some(p) => {
                let mut c = join3(
                    "Bearer error=\"insufficient_scope\", scope=\"",
                    join_all(&self.required_scopes, " ").as_str(),
                    "\", resource_metadata=\"",
                );
                c.append(p.metadata_url.as_str());
                c.append(
                    "\", error_description=\"the token does not carry the scopes this request needs\"",
                );
                with_challenge(response, c.as_str())
            },
            None => response,
        }
    }

    /// Whether the bodies of requests and answers may be written to the log.
    pub fn logs_bodies(&self) -> (r: bool)
        ensures
            r == (self.config.default_log_level == LogLevel::Debug),
    {
        self.config.default_log_level == LogLevel::Debug
    }
}

/// Who a token says its bearer is, and what it allows.
#[derive(Debug)]
pub struct Claims {
    pub user_id: String,
    pub tenant_id: String,
    pub scopes: Vec<String>,
}

/// The scopes among `required` that are not among `held`.
pub open spec fn lacking(required: Seq<Seq<char>>, held: Seq<Seq<char>>) -> Seq<Seq<char>> {
    required.filter(|s: Seq<char>| !held.contains(s))
}

/// What looking at the token came to.
#[derive(Debug)]
pub enum Verdict {
    /// There is none.
    Missing,
    /// It is not valid, in these words.
    Invalid(String),
    Valid(Claims),
}

/// What is done with a request that passed the other checks.
#[derive(Debug)]
pub enum Authorization {
    /// Process it, with the tasks of this owner.
    Proceed(TaskContext),
    Reject(Response),
}

fn missing_scopes(required: &Vec<String>, held: &Vec<String>) -> (r: Vec<String>)
    ensures
        crate::text::texts(r@) == lacking(
            crate::text::texts(required@),
            crate::text::texts(held@),
        ),
{
    let ghost want = crate::text::texts(required@);
    let ghost have = crate::text::texts(held@);
    let ghost lacks = |s: Seq<char>| !have.contains(s);
    let mut out: Vec<String> = Vec::new();
    let mut i: usize = 0;
    proof {
        reveal(Seq::filter);
        assert(want.take(0).filter(lacks) =~= Seq::<Seq<char>>::empty());
        assert(crate::text::texts(out@) =~= want.take(0).filter(lacks));
    }
    while i < required.len()
        invariant
            i <= required@.len(),
            want == crate::text::texts(required@),
            have == crate::text::texts(held@),
            lacks == (|s: Seq<char>| !have.contains(s)),
            crate::text::texts(out@) == want.take(i as int).filter(lacks),
        decreases required@.len() - i,
    {
        let ghost before = want.take(i as int).filter(lacks);
        let there = contains_text(held, required[i].as_str());
        proof {
            reveal(Seq::filter);
            let next = want.take(i as int + 1);
            assert(next.drop_last() =~= want.take(i as int));
            assert(next.last() == required@[i as int]@);
            if there {
                let k = choose|k: int|
                    0 <= k < held@.len() && (#[trigger] held@[k])@ == required@[i as int]@;
                assert(have[k] == required@[i as int]@);
            } else if have.contains(required@[i as int]@) {
                let k = choose|k: int| 0 <= k < have.len() && have[k] == required@[i as int]@;
                assert(held@[k]@ == required@[i as int]@);
            }
        }
        if !there {
            out.push(required[i].clone());
            assert(crate::text::texts(out@) =~= before.push(required@[i as int]@));
        }
        i = i + 1;
    }
    assert(want.take(i as int) =~= want);
    out
}

/// The refusal to start with a validator that takes anybody's tokens.
pub open spec fn unbound() -> McpErrorView {
    McpErrorView::Internal(
        "serve_with_auth needs a validator bound to an audience: MCP servers MUST reject tokens that do not name them in the `aud` claim. Use `.for_resource(&resource)` (preferred) or `.with_audience(..)`."@,
    )
}

/// Refuses to start with a validator that takes anybody's tokens.
pub fn require_audience(binds_audience: bool) -> (r: Result<(), McpError>)
    ensures
        match r {
            Ok(()) => binds_audience,
            Err(e) => !binds_audience && e@ == unbound(),
        },
{
    if binds_audience {
        Ok(())
    } else {
        Err(
            McpError::Internal(
                "serve_with_auth needs a validator bound to an audience: MCP servers MUST reject tokens that do not name them in the `aud` claim. Use `.for_resource(&resource)` (preferred) or `.with_audience(..)`.".to_owned(),
            ),
        )
    }
}

impl HttpServer {
    /// Decides about a request by its token: it has to be there, to be valid,
    /// and to suffice.
    pub fn authorize(&self, verdict: Verdict) -> (r: Authorization)
        ensures
            match verdict {
                Verdict::Missing => r matches Authorization::Reject(x) && x@
                    == self.unauthorized_answer("Unauthorized: Missing Authorization header"@)
                    && x@.tidy(),
                Verdict::Invalid(why) => r matches Authorization::Reject(x) && x@
                    == self.unauthorized_answer("Unauthorized: "@ + why@) && x@.tidy(),
                Verdict::Valid(claims) => {
                    let missing = lacking(
                        crate::text::texts(self.required_scopes@),
                        crate::text::texts(claims.scopes@),
                    );
                    if missing.len() > 0 {
                        r matches Authorization::Reject(x) && x@ == self.forbidden_answer(missing)
                            && x@.tidy()
                    } else {
                        r matches Authorization::Proceed(TaskContext::Owner(o)) && o@
                            == owner_text(claims.user_id@, claims.tenant_id@)
                    }
                },
            },
    {
        match verdict {
            Verdict::Missing => Authorization::Reject(
                self.unauthorized("Unauthorized: Missing Authorization header"),
            ),
            Verdict::Invalid(why) => Authorization::Reject(
                self.unauthorized(join("Unauthorized: ", why.as_str()).as_str()),
            ),
            Verdict::Valid(claims) => {
                let missing = missing_scopes(&self.required_scopes, &claims.scopes);
                assert(crate::text::texts(missing@).len() == missing@.len());
                if missing.len() > 0 {
                    return Authorization::Reject(self.forbidden(&missing));
                }
                Authorization::Proceed(
                    TaskContext::Owner(
                        join3(claims.user_id.as_str(), "\u{1}", claims.tenant_id.as_str()),
                    ),
                )
            },
        }
    }

    /// The response that a processed request is answered with.
    pub fn finish(&self, outcome: Result<Processed, McpError>) -> (r: Response)
        ensures
            r@.tidy(),
            match outcome {
                Ok(Processed::Body(body, kind)) => r@ == ResponseView::empty(200).with(
                    kind@,
                    encode_utf8(body@),
                ),
                Ok(Processed::Accepted) => r@ == ResponseView::empty(202),
                Err(e) => r@ == (match e@ {
                    McpErrorView::Json(_) => refusal(400, -32700, e@.words()),
                    McpErrorView::InvalidMessage(_) => refusal(400, -32600, e@.words()),
                    _ => refusal(500, -32603, e@.words()),
                }),
            },
    {
        match outcome {
            Ok(Processed::Body(body, kind)) => Response::new(200).with_body(
                kind.as_str(),
                crate::bytes::encode(body.as_str()),
            ),
            Ok(Processed::Accepted) => Response::new(202),
            Err(e) => {
                let words = e.to_string();
                match e {
                    McpError::Json(_) => error_response(400, -32700, words.as_str()),
                    McpError::InvalidMessage(_) => error_response(400, -32600, words.as_str()),
                    _ => error_response(500, -32603, words.as_str()),
                }
            },
        }
    }
}

/// A request with a body that could not be read.
pub fn unreadable_body() -> (r: Response)
    ensures
        r@ == refusal(400, -32700, "Bad Request: unreadable body"@),
        r@.tidy(),
{
    error_response(400, -32700, "Bad Request: unreadable body")
}

/// A request whose handling did not come to an end.
pub fn handler_panicked(why: &str) -> (r: McpError)
    ensures
        r@ == McpErrorView::Internal("request handler panicked: "@ + why@),
{
    McpError::Internal(join("request handler panicked: ", why))
}

/// What is known of the clients of a server from one request to the next.
#[derive(Debug)]
pub struct Session {
    pub log_level: Option<LogLevel>,
    pub client_capabilities: ClientCapabilities,
    pub negotiated_version: Option<String>,
    pub tasks: Option<TaskStore>,
}

impl Default for Session {
    fn default() -> (r: Self)
        ensures
            r.log_level is None,
            r.client_capabilities == crate::capabilities::no_capabilities(),
            r.negotiated_version is None,
            r.tasks is None,
    {
        Session {
            log_level: None,
            client_capabilities: ClientCapabilities::default(),
            negotiated_version: None,
            tasks: None,
        }
    }
}

/// What a new server knows, and what is left of what was known.
pub open spec fn restored(known: Session, server: Server, left: Session, after: Server) -> bool {
    &&& after.offers_as(&server)
    &&& after.broker == server.broker
    &&& after.initialized == server.initialized
    &&& after.log_level == (match known.log_level {
        Some(level) => level,
        None => server.log_level,
    })
    &&& after.client_capabilities == known.client_capabilities
    &&& match known.negotiated_version {
        Some(v) => after.negotiated_version matches Some(w) && w@ == v@,
        None => after.negotiated_version == server.negotiated_version,
    }
    &&& after.tasks == (match known.tasks {
        Some(store) => Some(store),
        None => server.tasks,
    })
    &&& left == (Session { tasks: None, ..known })
}

/// What is known after a request, and what is left of its server.
pub open spec fn absorbed(known: Session, server: Server, now_known: Session, left: Server) -> bool {
    &&& left == (Server { tasks: None, ..server })
    &&& now_known.log_level == Some(server.log_level)
    &&& now_known.client_capabilities == server.client_capabilities
    &&& match server.negotiated_version {
        Some(v) => now_known.negotiated_version matches Some(w) && w@ == v@,
        None => now_known.negotiated_version == known.negotiated_version,
    }
    &&& now_known.tasks == server.tasks
}

impl Session {
    /// The tasks are in order.
    pub open spec fn wf(&self) -> bool {
        self.tasks matches Some(store) ==> store.wf()
    }

    /// Gives a new server what is known already. Tasks that are there already
    /// take the place of the server's own.
    pub fn restore(&mut self, server: &mut Server)
        requires
            old(self).wf(),
            old(server).wf(),
        ensures
            final(self).wf(),
            final(server).wf(),
            restored(*old(self), *old(server), *final(self), *final(server)),
    {
        if let Some(level) = self.log_level {
            server.log_level = level;
        }
        server.client_capabilities = self.client_capabilities;
        if let Some(v) = &self.negotiated_version {
            server.negotiated_version = Some(v.clone());
        }
        match self.tasks.take() {
            Some(store) => {
                server.tasks = Some(store);
            },
            None => {},
        }
    }

    /// Takes back what is known after a request.
    pub fn absorb(&mut self, server: &mut Server)
        requires
            old(self).wf(),
            old(server).wf(),
        ensures
            final(self).wf(),
            final(server).wf(),
            absorbed(*old(self), *old(server), *final(self), *final(server)),
    {
        self.log_level = Some(server.log_level);
        self.client_capabilities = server.client_capabilities;
        if let Some(v) = &server.negotiated_version {
            self.negotiated_version = Some(v.clone());
        }
        self.tasks = server.tasks.take();
    }
}

/// The owner of what a client creates.
pub open spec fn owner_text(user_id: Seq<char>, tenant_id: Seq<char>) -> Seq<char> {
    user_id + "\u{1}"@ + tenant_id
}

/// Clients that differ in who they are, or in whom they belong to, own
/// different tasks, so long as no user is named with the separator.
pub proof fn law_different_clients_own_different_tasks(
    user_a: Seq<char>,
    tenant_a: Seq<char>,
    user_b: Seq<char>,
    tenant_b: Seq<char>,
)
    requires
        !user_a.contains('\u{1}'),
        !user_b.contains('\u{1}'),
        user_a != user_b || tenant_a != tenant_b,
    ensures
        owner_text(user_a, tenant_a) != owner_text(user_b, tenant_b),
{
    reveal_strlit("\u{1}");
    let a = owner_text(user_a, tenant_a);
    let b = owner_text(user_b, tenant_b);
    if a == b {
        let i = user_a.len() as int;
        let j = user_b.len() as int;
        assert(a[i] == '\u{1}');
        assert(b[j] == '\u{1}');
        if i < j {
            assert(b[i] == user_b[i]);
            assert(user_b.contains(user_b[i]));
        } else if j < i {
            assert(a[j] == user_a[j]);
            assert(user_a.contains(user_a[j]));
        }
        assert(a.take(i) =~= user_a);
        assert(b.take(i) =~= user_b);
        assert(a.skip(i + 1) =~= tenant_a);
        assert(b.skip(i + 1) =~= tenant_b);
    }
}

/// A page that is not allowed never reaches a tool: its request is refused by
/// what it says before its body. So is every request that goes elsewhere, or
/// is made otherwise than by `POST`.
pub proof fn law_what_is_processed_was_allowed(server: HttpServer, head: HeadView)
    requires
        server.rejection(head) is None,
    ensures
        path_in(head.target) == server.endpoint@,
        head.method is Post,
        crate::transport::http1::head::header_value(head.headers, "Origin"@) matches Some(o)
            ==> crate::transport::origin::allowed(server.origin_policy, o),
        crate::text::texts(server.config.supported_versions@).contains(version_of(head)),
{
}

} // verus!
