//! Messages and errors of JSON-RPC, as the protocol uses them.

use crate::json::{
    copy_of, object, push_field, push_maybe, text, Json, JsonView, Number, NumberView,
};
use crate::text::{chars_of, join, same_text, trimmed};
use vstd::prelude::*;
use vstd::string::*;

verus! {

/// The error of a response.
#[derive(Debug, PartialEq)]
pub struct JsonRpcError {
    pub code: i64,
    pub message: String,
    pub data: Option<Json>,
}

/// What a [`JsonRpcError`] is.
pub struct JsonRpcErrorView {
    pub code: int,
    pub message: Seq<char>,
    pub data: Option<JsonView>,
}

impl View for JsonRpcError {
    type V = JsonRpcErrorView;

    open spec fn view(&self) -> JsonRpcErrorView {
        JsonRpcErrorView { code: self.code as int, message: self.message@, data: crate::json::optional(self.data) }
    }
}

/// Everything that can go wrong.
#[derive(Debug, PartialEq)]
pub enum McpError {
    /// The text was not JSON.
    Json(String),
    /// JSON, or bytes, that are not a message of the protocol.
    InvalidMessage(String),
    /// Parameters the method cannot use.
    InvalidParams(String),
    MethodNotFound(String),
    ResourceNotFound(String),
    PromptNotFound(String),
    /// A tool that ran and reported failure.
    ToolError(String),
    /// Nothing arrived in time.
    Timeout(String),
    /// The peer is gone.
    TransportClosed,
    /// Reading or writing failed.
    Io(String),
    /// A fault of the server's own.
    Internal(String),
    /// An error to be answered exactly as it stands.
    Passthrough(JsonRpcError),
}

/// What an [`McpError`] is.
pub enum McpErrorView {
    Json(Seq<char>),
    InvalidMessage(Seq<char>),
    InvalidParams(Seq<char>),
    MethodNotFound(Seq<char>),
    ResourceNotFound(Seq<char>),
    PromptNotFound(Seq<char>),
    ToolError(Seq<char>),
    Timeout(Seq<char>),
    TransportClosed,
    Io(Seq<char>),
    Internal(Seq<char>),
    Passthrough(JsonRpcErrorView),
}

impl View for McpError {
    type V = McpErrorView;

    open spec fn view(&self) -> McpErrorView {
        match *self {
            McpError::Json(m) => McpErrorView::Json(m@),
            McpError::InvalidMessage(m) => McpErrorView::InvalidMessage(m@),
            McpError::InvalidParams(m) => McpErrorView::InvalidParams(m@),
            McpError::MethodNotFound(m) => McpErrorView::MethodNotFound(m@),
            McpError::ResourceNotFound(m) => McpErrorView::ResourceNotFound(m@),
            McpError::PromptNotFound(m) => McpErrorView::PromptNotFound(m@),
            McpError::ToolError(m) => McpErrorView::ToolError(m@),
            McpError::Timeout(m) => McpErrorView::Timeout(m@),
            McpError::TransportClosed => McpErrorView::TransportClosed,
            McpError::Io(m) => McpErrorView::Io(m@),
            McpError::Internal(m) => McpErrorView::Internal(m@),
            McpError::Passthrough(e) => McpErrorView::Passthrough(e@),
        }
    }
}

impl McpErrorView {
    /// The error in words.
    pub open spec fn words(self) -> Seq<char> {
        match self {
            McpErrorView::Json(m) => "JSON error: "@ + m,
            McpErrorView::InvalidMessage(m) => "Invalid message: "@ + m,
            McpErrorView::InvalidParams(m) => "Invalid params: "@ + m,
            McpErrorView::MethodNotFound(m) => "Method not found: "@ + m,
            McpErrorView::ResourceNotFound(m) => "Resource not found: "@ + m,
            McpErrorView::PromptNotFound(m) => "Prompt not found: "@ + m,
            McpErrorView::ToolError(m) => "Tool error: "@ + m,
            McpErrorView::Timeout(m) => "Timeout: "@ + m,
            McpErrorView::TransportClosed => "Transport closed"@,
            McpErrorView::Io(m) => "I/O error: "@ + m,
            McpErrorView::Internal(m) => "Internal error: "@ + m,
            McpErrorView::Passthrough(e) => e.message,
        }
    }

    /// The JSON-RPC code of the error.
    pub open spec fn code(self) -> int {
        match self {
            McpErrorView::Json(_) => -32700,
            McpErrorView::InvalidMessage(_) => -32600,
            McpErrorView::MethodNotFound(_) => -32601,
            McpErrorView::InvalidParams(_) => -32602,
            McpErrorView::PromptNotFound(_) => -32602,
            McpErrorView::ResourceNotFound(_) => -32002,
            McpErrorView::Passthrough(e) => e.code,
            _ => -32603,
        }
    }

    /// The error as a response carries it.
    pub open spec fn on_the_wire(self) -> JsonRpcErrorView {
        match self {
            McpErrorView::Passthrough(e) => e,
            _ => JsonRpcErrorView { code: self.code(), message: self.words(), data: None },
        }
    }
}

impl JsonRpcError {
    pub fn new(code: i64, message: &str) -> (r: JsonRpcError)
        ensures
            r@ == (JsonRpcErrorView { code: code as int, message: message@, data: None }),
    {
        JsonRpcError { code, message: message.to_owned(), data: None }
    }

    pub fn parse_error(message: &str) -> (r: JsonRpcError)
        ensures
            r@ == (JsonRpcErrorView { code: -32700, message: message@, data: None }),
    {
        JsonRpcError::new(-32700, message)
    }

    pub fn invalid_params(message: &str) -> (r: JsonRpcError)
        ensures
            r@ == (JsonRpcErrorView { code: -32602, message: message@, data: None }),
    {
        JsonRpcError::new(-32602, message)
    }

    pub fn internal_error(message: &str) -> (r: JsonRpcError)
        ensures
            r@ == (JsonRpcErrorView { code: -32603, message: message@, data: None }),
    {
        JsonRpcError::new(-32603, message)
    }

    /// An equal error.
    pub fn copy(&self) -> (r: JsonRpcError)
        ensures
            r@ == self@,
    {
        JsonRpcError {
            code: self.code,
            message: self.message.clone(),
            data: match &self.data {
                Some(d) => Some(d.copy()),
                None => None,
            },
        }
    }
}

impl McpError {
    /// The error in words.
    pub fn to_string(&self) -> (r: String)
        ensures
            r@ == self@.words(),
    {
        match self {
            McpError::Json(m) => join("JSON error: ", m.as_str()),
            McpError::InvalidMessage(m) => join("Invalid message: ", m.as_str()),
            McpError::InvalidParams(m) => join("Invalid params: ", m.as_str()),
            McpError::MethodNotFound(m) => join("Method not found: ", m.as_str()),
            McpError::ResourceNotFound(m) => join("Resource not found: ", m.as_str()),
            McpError::PromptNotFound(m) => join("Prompt not found: ", m.as_str()),
            McpError::ToolError(m) => join("Tool error: ", m.as_str()),
            McpError::Timeout(m) => join("Timeout: ", m.as_str()),
            McpError::TransportClosed => "Transport closed".to_owned(),
            McpError::Io(m) => join("I/O error: ", m.as_str()),
            McpError::Internal(m) => join("Internal error: ", m.as_str()),
            McpError::Passthrough(e) => e.message.clone(),
        }
    }

    /// The error as a response carries it.
    pub fn to_jsonrpc_error(&self) -> (r: JsonRpcError)
        ensures
            r@ == self@.on_the_wire(),
    {
        match self {
            McpError::Passthrough(e) => e.copy(),
            McpError::Json(_) => JsonRpcError::new(-32700, self.to_string().as_str()),
            McpError::InvalidMessage(_) => JsonRpcError::new(-32600, self.to_string().as_str()),
            McpError::MethodNotFound(_) => JsonRpcError::new(-32601, self.to_string().as_str()),
            McpError::InvalidParams(_) => JsonRpcError::new(-32602, self.to_string().as_str()),
            McpError::PromptNotFound(_) => JsonRpcError::new(-32602, self.to_string().as_str()),
            McpError::ResourceNotFound(_) => JsonRpcError::new(-32002, self.to_string().as_str()),
            _ => JsonRpcError::new(-32603, self.to_string().as_str()),
        }
    }
}

/// What ties a response to its request.
#[derive(Debug, PartialEq)]
pub enum RequestId {
    Number(i64),
    String(String),
    /// Only in a response to a request whose id could not be read.
    Null,
}

/// What a [`RequestId`] is.
pub enum RequestIdView {
    Number(i64),
    String(Seq<char>),
    Null,
}

impl View for RequestId {
    type V = RequestIdView;

    open spec fn view(&self) -> RequestIdView {
        match *self {
            RequestId::Number(n) => RequestIdView::Number(n),
            RequestId::String(s) => RequestIdView::String(s@),
            RequestId::Null => RequestIdView::Null,
        }
    }
}

/// A whole number as JSON.
pub open spec fn integer(n: i64) -> JsonView {
    if n >= 0 {
        JsonView::Number(NumberView::Unsigned(n as u64))
    } else {
        JsonView::Number(NumberView::Negative(n))
    }
}

impl RequestIdView {
    /// The id as JSON.
    pub open spec fn json(self) -> JsonView {
        match self {
            RequestIdView::Number(n) => integer(n),
            RequestIdView::String(s) => JsonView::Text(s),
            RequestIdView::Null => JsonView::Null,
        }
    }
}

/// The id that a JSON value is, where it is one.
pub open spec fn id_of(j: JsonView) -> Option<RequestIdView> {
    match j {
        JsonView::Text(s) => Some(RequestIdView::String(s)),
        JsonView::Number(NumberView::Unsigned(n)) => if n <= i64::MAX {
            Some(RequestIdView::Number(n as i64))
        } else {
            None
        },
        JsonView::Number(NumberView::Negative(n)) => Some(RequestIdView::Number(n)),
        JsonView::Null => Some(RequestIdView::Null),
        _ => None,
    }
}

/// A request, which is owed a response.
#[derive(Debug, PartialEq)]
pub struct JsonRpcRequest {
    pub id: RequestId,
    pub method: String,
    pub params: Option<Json>,
}

/// A message that is owed nothing.
#[derive(Debug, PartialEq)]
pub struct JsonRpcNotification {
    pub method: String,
    pub params: Option<Json>,
}

/// The answer to a request.
#[derive(Debug, PartialEq)]
pub struct JsonRpcResponse {
    pub id: RequestId,
    pub result: Option<Json>,
    pub error: Option<JsonRpcError>,
}

#[derive(Debug, PartialEq)]
pub enum JsonRpcMessage {
    Request(JsonRpcRequest),
    Notification(JsonRpcNotification),
    Response(JsonRpcResponse),
}

/// What a [`JsonRpcRequest`] is.
pub struct RequestView {
    pub id: RequestIdView,
    pub method: Seq<char>,
    pub params: Option<JsonView>,
}

/// What a [`JsonRpcNotification`] is.
pub struct NotificationView {
    pub method: Seq<char>,
    pub params: Option<JsonView>,
}

/// What a [`JsonRpcResponse`] is.
pub struct ResponseView {
    pub id: RequestIdView,
    pub result: Option<JsonView>,
    pub error: Option<JsonRpcErrorView>,
}

/// What a [`JsonRpcMessage`] is.
pub enum MessageView {
    Request(RequestView),
    Notification(NotificationView),
    Response(ResponseView),
}

/// The view of an optional error.
pub open spec fn optional_error(e: Option<JsonRpcError>) -> Option<JsonRpcErrorView> {
    match e {
        Some(e) => Some(e@),
        None => None,
    }
}

impl View for JsonRpcRequest {
    type V = RequestView;

    open spec fn view(&self) -> RequestView {
        RequestView { id: self.id@, method: self.method@, params: crate::json::optional(self.params) }
    }
}

impl View for JsonRpcNotification {
    type V = NotificationView;

    open spec fn view(&self) -> NotificationView {
        NotificationView { method: self.method@, params: crate::json::optional(self.params) }
    }
}

impl View for JsonRpcResponse {
    type V = ResponseView;

    open spec fn view(&self) -> ResponseView {
        ResponseView {
            id: self.id@,
            result: crate::json::optional(self.result),
            error: optional_error(self.error),
        }
    }
}

impl View for JsonRpcMessage {
    type V = MessageView;

    open spec fn view(&self) -> MessageView {
        match *self {
            JsonRpcMessage::Request(m) => MessageView::Request(m@),
            JsonRpcMessage::Notification(m) => MessageView::Notification(m@),
            JsonRpcMessage::Response(m) => MessageView::Response(m@),
        }
    }
}

/// A field that is present and not null.
pub open spec fn given(j: JsonView, key: Seq<char>) -> Option<JsonView> {
    match j.get(key) {
        Some(JsonView::Null) => None,
        other => other,
    }
}

/// The error object of a response, where the value is one.
pub open spec fn error_of(j: JsonView) -> Option<JsonRpcErrorView> {
    match (j.get("code"@), j.get("message"@)) {
        (Some(code), Some(JsonView::Text(message))) => match id_of(code) {
            Some(RequestIdView::Number(n)) => Some(
                JsonRpcErrorView { code: n as int, message, data: given(j, "data"@) },
            ),
            _ => None,
        },
        _ => None,
    }
}

/// A message that is not one, in the server's words.
pub open spec fn invalid(why: Seq<char>) -> Result<MessageView, McpErrorView> {
    Err(McpErrorView::InvalidMessage(why))
}

/// The request or notification that an object with a `method` is.
pub open spec fn call_of(j: JsonView) -> Result<MessageView, McpErrorView> {
    match j.get("method"@) {
        Some(JsonView::Text(method)) => match j.get("id"@) {
            None => Ok(
                MessageView::Notification(
                    NotificationView { method, params: given(j, "params"@) },
                ),
            ),
            Some(JsonView::Null) => invalid("a request id must not be null"@),
            Some(id) => match id_of(id) {
                Some(id) => Ok(
                    MessageView::Request(RequestView { id, method, params: given(j, "params"@) }),
                ),
                None => invalid("a request id must be a string or an integer"@),
            },
        },
        _ => invalid("`method` must be a string"@),
    }
}

/// The response that an object without a `method` is.
pub open spec fn answer_of(j: JsonView) -> Result<MessageView, McpErrorView> {
    match j.get("id"@) {
        None => invalid("a message needs a `method` or an `id`"@),
        Some(id) => match id_of(id) {
            None => invalid("a response id must be a string, an integer or null"@),
            Some(id) => match (j.get("result"@), given(j, "error"@)) {
                (None, None) => invalid("a response needs a `result` or an `error`"@),
                (result, None) => Ok(
                    MessageView::Response(ResponseView { id, result, error: None }),
                ),
                (result, Some(e)) => match error_of(e) {
                    None => invalid("an error needs a `code` and a `message`"@),
                    Some(e) => Ok(
                        MessageView::Response(ResponseView { id, result, error: Some(e) }),
                    ),
                },
            },
        },
    }
}

/// The message that a JSON value is, or why it is none. Keys it does not know
/// are ignored.
pub open spec fn message_of(j: JsonView) -> Result<MessageView, McpErrorView> {
    match j {
        JsonView::List(_) => invalid("JSON-RPC batching is not supported"@),
        JsonView::Object(_) => if j.get("jsonrpc"@) != Some(JsonView::Text("2.0"@)) {
            invalid("`jsonrpc` must be \"2.0\""@)
        } else if j.get("method"@) is Some {
            call_of(j)
        } else {
            answer_of(j)
        },
        _ => invalid("a message must be a JSON object"@),
    }
}

/// The message that a text is, or why it is none. A list is a batch, whatever
/// is in it, and a batch is not supported.
pub open spec fn message_in(text: Seq<char>) -> Result<MessageView, McpErrorView> {
    let trimmed = crate::text::trim(text);
    if trimmed.len() > 0 && trimmed[0] == '[' {
        invalid("JSON-RPC batching is not supported"@)
    } else {
        match crate::json::json_read(text) {
            Ok(j) => message_of(j),
            Err(why) => Err(McpErrorView::Json(why)),
        }
    }
}

/// An invalid message.
fn refuse(why: &str) -> (r: Result<JsonRpcMessage, McpError>)
    ensures
        r matches Err(e) && e@ == McpErrorView::InvalidMessage(why@),
{
    Err(McpError::InvalidMessage(why.to_owned()))
}

/// Whether a result is the expected one.
pub open spec fn agrees(
    r: Result<JsonRpcMessage, McpError>,
    expected: Result<MessageView, McpErrorView>,
) -> bool {
    match r {
        Ok(m) => expected == Ok::<MessageView, McpErrorView>(m@),
        Err(e) => expected == Err::<MessageView, McpErrorView>(e@),
    }
}

/// A copy of a field that is present and not null.
pub fn given_field(j: &Json, key: &str) -> (r: Option<Json>)
    ensures
        crate::json::optional(r) == given(j@, key@),
{
    match j.get(key) {
        Some(Json::Null) => None,
        Some(v) => Some(v.copy()),
        None => None,
    }
}

impl RequestId {
    /// The id that a JSON value is, where it is one.
    pub fn from_json(j: &Json) -> (r: Option<RequestId>)
        ensures
            match r {
                Some(id) => id_of(j@) == Some(id@),
                None => id_of(j@) is None,
            },
    {
        match j {
            Json::Text(s) => Some(RequestId::String(s.clone())),
            Json::Number(Number::Unsigned(n)) => if *n <= i64::MAX as u64 {
                Some(RequestId::Number(*n as i64))
            } else {
                None
            },
            Json::Number(Number::Negative(n)) => Some(RequestId::Number(*n)),
            Json::Null => Some(RequestId::Null),
            _ => None,
        }
    }

    /// The id as JSON.
    pub fn to_json(&self) -> (r: Json)
        ensures
            r@ == self@.json(),
    {
        match self {
            RequestId::Number(n) => if *n >= 0 {
                Json::Number(Number::Unsigned(*n as u64))
            } else {
                Json::Number(Number::Negative(*n))
            },
            RequestId::String(s) => Json::Text(s.clone()),
            RequestId::Null => Json::Null,
        }
    }

    /// An equal id.
    pub fn copy(&self) -> (r: RequestId)
        ensures
            r@ == self@,
    {
        match self {
            RequestId::Number(n) => RequestId::Number(*n),
            RequestId::String(s) => RequestId::String(s.clone()),
            RequestId::Null => RequestId::Null,
        }
    }

    /// Whether two ids are the same.
    pub fn same(&self, other: &RequestId) -> (r: bool)
        ensures
            r == (self@ == other@),
    {
        match (self, other) {
            (RequestId::Number(a), RequestId::Number(b)) => *a == *b,
            (RequestId::String(a), RequestId::String(b)) => same_text(a.as_str(), b.as_str()),
            (RequestId::Null, RequestId::Null) => true,
            _ => false,
        }
    }
}

/// The error object of a response, where the value is one.
fn error_from_json(j: &Json) -> (r: Option<JsonRpcError>)
    ensures
        match r {
            Some(e) => error_of(j@) == Some(e@),
            None => error_of(j@) is None,
        },
{
    match (j.get("code"), j.get("message")) {
        (Some(code), Some(Json::Text(message))) => match RequestId::from_json(code) {
            Some(RequestId::Number(n)) => Some(
                JsonRpcError { code: n, message: message.clone(), data: given_field(j, "data") },
            ),
            _ => None,
        },
        _ => None,
    }
}

fn call_from_json(j: &Json) -> (r: Result<JsonRpcMessage, McpError>)
    ensures
        agrees(r, call_of(j@)),
{
    match j.get("method") {
        Some(Json::Text(method)) => match j.get("id") {
            None => Ok(
                JsonRpcMessage::Notification(
                    JsonRpcNotification {
                        method: method.clone(),
                        params: given_field(j, "params"),
                    },
                ),
            ),
            Some(Json::Null) => refuse("a request id must not be null"),
            Some(id) => match RequestId::from_json(id) {
                Some(id) => Ok(
                    JsonRpcMessage::Request(
                        JsonRpcRequest {
                            id,
                            method: method.clone(),
                            params: given_field(j, "params"),
                        },
                    ),
                ),
                None => refuse("a request id must be a string or an integer"),
            },
        },
        _ => refuse("`method` must be a string"),
    }
}

fn answer_from_json(j: &Json) -> (r: Result<JsonRpcMessage, McpError>)
    ensures
        agrees(r, answer_of(j@)),
{
    let id = match j.get("id") {
        None => {
            return refuse("a message needs a `method` or an `id`");
        },
        Some(id) => match RequestId::from_json(id) {
            None => {
                return refuse("a response id must be a string, an integer or null");
            },
            Some(id) => id,
        },
    };
    let result = match j.get("result") {
        Some(v) => Some(v.copy()),
        None => None,
    };
    match given_field(j, "error") {
        None => {
            if result.is_none() {
                return refuse("a response needs a `result` or an `error`");
            }
            Ok(JsonRpcMessage::Response(JsonRpcResponse { id, result, error: None }))
        },
        Some(e) => match error_from_json(&e) {
            None => refuse("an error needs a `code` and a `message`"),
            Some(error) => Ok(
                JsonRpcMessage::Response(JsonRpcResponse { id, result, error: Some(error) }),
            ),
        },
    }
}

impl JsonRpcMessage {
    /// The message that a JSON value is, or why it is none.
    pub fn from_json(j: &Json) -> (r: Result<JsonRpcMessage, McpError>)
        ensures
            agrees(r, message_of(j@)),
    {
        match j {
            Json::List(_) => refuse("JSON-RPC batching is not supported"),
            Json::Object(_) => {
                let versioned = match j.get("jsonrpc") {
                    Some(Json::Text(v)) => same_text(v.as_str(), "2.0"),
                    _ => false,
                };
                if !versioned {
                    refuse("`jsonrpc` must be \"2.0\"")
                } else if j.get("method").is_some() {
                    call_from_json(j)
                } else {
                    answer_from_json(j)
                }
            },
            _ => refuse("a message must be a JSON object"),
        }
    }

    /// Reads a message.
    pub fn parse(text: &str) -> (r: Result<JsonRpcMessage, McpError>)
        ensures
            agrees(r, message_in(text@)),
    {
        let front = trimmed(&chars_of(text));
        if front.len() > 0 && front[0] == '[' {
            return refuse("JSON-RPC batching is not supported");
        }
        match crate::json::parse(text) {
            Ok(j) => JsonRpcMessage::from_json(&j),
            Err(why) => Err(McpError::Json(why)),
        }
    }
}

/// An error on the wire.
pub open spec fn error_json(e: JsonRpcErrorView) -> JsonView {
    JsonView::Object(
        seq![("code"@, integer(e.code as i64)), ("message"@, JsonView::Text(e.message))]
            + crate::json::maybe("data"@, e.data),
    )
}

/// An optional error on the wire.
pub open spec fn optional_error_json(e: Option<JsonRpcErrorView>) -> Option<JsonView> {
    match e {
        Some(e) => Some(error_json(e)),
        None => None,
    }
}

/// A message on the wire.
pub open spec fn message_json(m: MessageView) -> JsonView {
    JsonView::Object(
        seq![("jsonrpc"@, JsonView::Text("2.0"@))] + match m {
            MessageView::Request(r) => seq![
                ("id"@, r.id.json()),
                ("method"@, JsonView::Text(r.method)),
            ] + crate::json::maybe("params"@, r.params),
            MessageView::Notification(n) => seq![("method"@, JsonView::Text(n.method))]
                + crate::json::maybe("params"@, n.params),
            MessageView::Response(r) => seq![("id"@, r.id.json())] + crate::json::maybe(
                "result"@,
                r.result,
            ) + crate::json::maybe("error"@, optional_error_json(r.error)),
        },
    )
}

/// A message as it is written.
pub open spec fn message_text(m: MessageView) -> Seq<char> {
    crate::json::json_written(message_json(m))
}

/// A text without line breaks.
pub open spec fn one_line(s: Seq<char>) -> bool {
    !s.contains('\n')
}

impl JsonRpcError {
    /// The error on the wire.
    pub fn to_json(&self) -> (r: Json)
        ensures
            r@ == error_json(self@),
    {
        let mut v: Vec<(String, Json)> = Vec::new();
        assert(crate::json::fields(v@) =~= Seq::empty());
        push_field(&mut v, "code", RequestId::Number(self.code).to_json());
        push_field(&mut v, "message", text(self.message.as_str()));
        push_maybe(&mut v, "data", copy_of(&self.data));
        assert(crate::json::fields(v@) =~= error_json(self@)->Object_0);
        object(v)
    }
}

/// A text that starts with a brace is no batch.
proof fn lemma_no_batch(s: Seq<char>)
    requires
        s.len() > 0,
        s[0] == '{',
    ensures
        crate::text::trim(s).len() > 0,
        crate::text::trim(s)[0] == '{',
    decreases s.len(),
{
    if s.len() > 1 {
        lemma_no_batch(s.drop_last());
    }
}

impl JsonRpcMessage {
    /// The message on the wire.
    pub fn to_json(&self) -> (r: Json)
        ensures
            r@ == message_json(self@),
    {
        let mut v: Vec<(String, Json)> = Vec::new();
        assert(crate::json::fields(v@) =~= Seq::empty());
        push_field(&mut v, "jsonrpc", text("2.0"));
        match self {
            JsonRpcMessage::Request(r) => {
                push_field(&mut v, "id", r.id.to_json());
                push_field(&mut v, "method", text(r.method.as_str()));
                push_maybe(&mut v, "params", copy_of(&r.params));
            },
            JsonRpcMessage::Notification(n) => {
                push_field(&mut v, "method", text(n.method.as_str()));
                push_maybe(&mut v, "params", copy_of(&n.params));
            },
            JsonRpcMessage::Response(r) => {
                push_field(&mut v, "id", r.id.to_json());
                push_maybe(&mut v, "result", copy_of(&r.result));
                let error = match &r.error {
                    Some(e) => Some(e.to_json()),
                    None => None,
                };
                push_maybe(&mut v, "error", error);
            },
        }
        assert(crate::json::fields(v@) =~= message_json(self@)->Object_0);
        object(v)
    }

    /// The message as it is written: a JSON object on one line. A message
    /// whose values are plain is read back from it, with or without a line
    /// break after it.
    pub fn to_text(&self) -> (r: String)
        ensures
            r@ == message_text(self@),
            one_line(r@),
            crate::json::plain(message_json(self@), 127) ==> message_in(r@) == message_of(
                message_json(self@),
            ) && message_in(r@.push('\n')) == message_of(message_json(self@)),
    {
        let r = crate::json::write(&self.to_json());
        proof {
            lemma_no_batch(r@);
            lemma_no_batch(r@.push('\n'));
        }
        r
    }

    /// A request.
    pub fn request(id: RequestId, method: &str, params: Option<Json>) -> (r: JsonRpcMessage)
        ensures
            r@ == MessageView::Request(
                RequestView { id: id@, method: method@, params: crate::json::optional(params) },
            ),
    {
        JsonRpcMessage::Request(JsonRpcRequest { id, method: method.to_owned(), params })
    }

    /// A notification.
    pub fn notification(method: &str, params: Option<Json>) -> (r: JsonRpcMessage)
        ensures
            r@ == MessageView::Notification(
                NotificationView { method: method@, params: crate::json::optional(params) },
            ),
    {
        JsonRpcMessage::Notification(JsonRpcNotification { method: method.to_owned(), params })
    }

    /// A response with a result.
    pub fn response(id: RequestId, result: Json) -> (r: JsonRpcMessage)
        ensures
            r@ == answer(id@, Ok(result@)),
    {
        JsonRpcMessage::Response(JsonRpcResponse { id, result: Some(result), error: None })
    }

    /// A response with an error.
    pub fn error(id: RequestId, error: JsonRpcError) -> (r: JsonRpcMessage)
        ensures
            r@ == MessageView::Response(
                ResponseView { id: id@, result: None, error: Some(error@) },
            ),
    {
        JsonRpcMessage::Response(JsonRpcResponse { id, result: None, error: Some(error) })
    }

    /// The response to a request, however it was settled.
    pub fn answer(id: RequestId, outcome: Result<Json, McpError>) -> (r: JsonRpcMessage)
        ensures
            r@ == answer(id@, outcome_view(outcome)),
    {
        match outcome {
            Ok(result) => JsonRpcMessage::response(id, result),
            Err(e) => JsonRpcMessage::error(id, e.to_jsonrpc_error()),
        }
    }
}

/// The view of a result.
pub open spec fn outcome_view(r: Result<Json, McpError>) -> Result<JsonView, McpErrorView> {
    match r {
        Ok(j) => Ok(j@),
        Err(e) => Err(e@),
    }
}

/// The response to a request, however it was settled.
pub open spec fn answer(id: RequestIdView, outcome: Result<JsonView, McpErrorView>) -> MessageView {
    MessageView::Response(
        match outcome {
            Ok(j) => ResponseView { id, result: Some(j), error: None },
            Err(e) => ResponseView { id, result: None, error: Some(e.on_the_wire()) },
        },
    )
}

/// Values that are read back as they were written: no key comes twice, no
/// number has a fraction, nothing is null where null means nothing, and the
/// nesting is not too deep.
pub open spec fn clear(v: Option<JsonView>, depth: nat) -> bool {
    v matches Some(v) ==> !(v is Null) && crate::json::plain(v, depth)
}

/// A message that means something to who reads it, with clear values.
pub open spec fn sound(m: MessageView) -> bool {
    match m {
        MessageView::Request(r) => !(r.id is Null) && clear(r.params, 126),
        MessageView::Notification(n) => clear(n.params, 126),
        MessageView::Response(r) => {
            &&& r.result is Some || r.error is Some
            &&& r.result matches Some(v) ==> crate::json::plain(v, 126)
            &&& r.error matches Some(e) ==> i64::MIN <= e.code <= i64::MAX && clear(e.data, 125)
        },
    }
}

/// A sound message on the wire is read as that message, and its values are
/// plain, so it is read as that message from its text too.
pub proof fn law_messages_are_read_back(m: MessageView)
    requires
        sound(m),
    ensures
        message_of(message_json(m)) == Ok::<MessageView, McpErrorView>(m),
        crate::json::plain(message_json(m), 127),
{
    reveal_strlit("jsonrpc");
    reveal_strlit("id");
    reveal_strlit("method");
    reveal_strlit("params");
    reveal_strlit("result");
    reveal_strlit("error");
    reveal_strlit("code");
    reveal_strlit("message");
    reveal_strlit("data");
    reveal_with_fuel(crate::json::field_at, 6);
    assert("jsonrpc"@.len() == 7 && "message"@.len() == 7 && "id"@.len() == 2);
    assert("method"@.len() == 6 && "params"@.len() == 6 && "result"@.len() == 6);
    assert("error"@.len() == 5 && "code"@.len() == 4 && "data"@.len() == 4);
    assert("method"@[0] == 'm' && "params"@[0] == 'p' && "result"@[0] == 'r');
    assert("code"@[0] == 'c' && "data"@[0] == 'd');
    let j = message_json(m);
    let f = j->Object_0;
    assert(f[0] == ("jsonrpc"@, JsonView::Text("2.0"@)));
    match m {
        MessageView::Request(r) => {
            assert(f[1] == ("id"@, r.id.json()));
            assert(f[2] == ("method"@, JsonView::Text(r.method)));
            assert(r.params matches Some(p) ==> f.len() == 4 && f[3] == ("params"@, p));
            assert(r.params is None ==> f.len() == 3);
            assert(j.get("params"@) == r.params);
            assert(id_of(r.id.json()) == Some(r.id));
            assert(j.get("jsonrpc"@) == Some(JsonView::Text("2.0"@)));
            assert(j.get("method"@) == Some(JsonView::Text(r.method)));
            assert(j.get("id"@) == Some(r.id.json()));
            assert(given(j, "params"@) == r.params);
            assert(call_of(j) == Ok::<MessageView, McpErrorView>(m));
            assert(crate::json::plain(f[1].1, 126));
            assert(crate::json::plain(f[2].1, 126));
        },
        MessageView::Notification(n) => {
            assert(f[1] == ("method"@, JsonView::Text(n.method)));
            assert(n.params matches Some(p) ==> f.len() == 3 && f[2] == ("params"@, p));
            assert(n.params is None ==> f.len() == 2);
            assert(j.get("params"@) == n.params);
        },
        MessageView::Response(r) => {
            assert(f[1] == ("id"@, r.id.json()));
            assert(id_of(r.id.json()) == Some(r.id));
            if let Some(v) = r.result {
                assert(f[2] == ("result"@, v));
            }
            if let Some(e) = r.error {
                let x = error_json(e);
                let g = x->Object_0;
                assert(f[f.len() - 1] == ("error"@, x));
                assert(g[0] == ("code"@, integer(e.code as i64)));
                assert(g[1] == ("message"@, JsonView::Text(e.message)));
                assert(e.data matches Some(d) ==> g.len() == 3 && g[2] == ("data"@, d));
                assert(e.data is None ==> g.len() == 2);
                assert(x.get("data"@) == e.data);
                assert(error_of(x) == Some(e));
                assert(crate::json::plain(g[0].1, 125));
                assert(crate::json::plain(g[1].1, 125));
                assert(forall|i: int| 0 <= i < g.len() ==> crate::json::plain(
                    (#[trigger] g[i]).1,
                    125,
                ));
                assert(crate::json::plain(x, 126));
            }
            assert(j.get("result"@) == r.result);
            assert(j.get("method"@) is None);
        },
    }
    assert(crate::json::plain(f[0].1, 126));
    assert(crate::json::plain(f[1].1, 126));
    assert(forall|i: int| 0 <= i < f.len() ==> crate::json::plain((#[trigger] f[i]).1, 126));
    assert(forall|i: int, k: int|
        0 <= i < k < f.len() ==> (#[trigger] f[i]).0 != (#[trigger] f[k]).0);
}

} // verus!
