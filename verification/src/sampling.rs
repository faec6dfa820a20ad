//! Asking the client's model for a completion.

use crate::ask::Ask;
use crate::capabilities::ClientCapabilities;
use crate::env::ToolEnv;
use crate::json::{
    copy_all, copy_of, list, object, push_field, push_maybe, text, text_if, Json, JsonView, Number,
};
use crate::protocol::content_text;
use crate::text::same_text;
use crate::types::{McpError, McpErrorView};
use vstd::prelude::*;
use vstd::string::*;

verus! {

/// A piece of a message to or from the model.
#[derive(Debug)]
pub enum SamplingContent {
    Text(String),
    /// The model wants a tool to run.
    ToolUse { id: String, name: String, input: Json },
    /// What running it came to.
    ToolResult { tool_use_id: String, content: Vec<Json>, is_error: bool },
    /// Anything else, as it is on the wire.
    Other(Json),
}

/// What a [`SamplingContent`] is.
pub enum ContentView {
    Text(Seq<char>),
    ToolUse { id: Seq<char>, name: Seq<char>, input: JsonView },
    ToolResult { tool_use_id: Seq<char>, content: Seq<JsonView>, is_error: bool },
    Other(JsonView),
}

impl View for SamplingContent {
    type V = ContentView;

    open spec fn view(&self) -> ContentView {
        match *self {
            SamplingContent::Text(s) => ContentView::Text(s@),
            SamplingContent::ToolUse { id, name, input } => ContentView::ToolUse {
                id: id@,
                name: name@,
                input: input@,
            },
            SamplingContent::ToolResult { tool_use_id, content, is_error } => ContentView::ToolResult {
                tool_use_id: tool_use_id@,
                content: crate::json::items(content@),
                is_error,
            },
            SamplingContent::Other(j) => ContentView::Other(j@),
        }
    }
}

impl ContentView {
    /// The piece on the wire.
    pub open spec fn json(self) -> JsonView {
        match self {
            ContentView::Text(s) => crate::protocol::text_content(s),
            ContentView::ToolUse { id, name, input } => JsonView::Object(
                seq![
                    ("type"@, JsonView::Text("tool_use"@)),
                    ("id"@, JsonView::Text(id)),
                    ("name"@, JsonView::Text(name)),
                    ("input"@, input),
                ],
            ),
            ContentView::ToolResult { tool_use_id, content, is_error } => JsonView::Object(
                seq![
                    ("type"@, JsonView::Text("tool_result"@)),
                    ("toolUseId"@, JsonView::Text(tool_use_id)),
                    ("content"@, JsonView::List(content)),
                ] + crate::json::maybe(
                    "isError"@,
                    if is_error {
                        Some(JsonView::Bool(true))
                    } else {
                        None
                    },
                ),
            ),
            ContentView::Other(j) => j,
        }
    }
}

impl SamplingContent {
    /// A piece of text.
    pub fn text(s: &str) -> (r: SamplingContent)
        ensures
            r@ == ContentView::Text(s@),
    {
        SamplingContent::Text(s.to_owned())
    }

    /// The piece on the wire.
    pub fn to_json(&self) -> (r: Json)
        ensures
            r@ == self@.json(),
    {
        let mut v: Vec<(String, Json)> = Vec::new();
        assert(crate::json::fields(v@) =~= Seq::empty());
        match self {
            SamplingContent::Text(s) => content_text(s.as_str()),
            SamplingContent::ToolUse { id, name, input } => {
                push_field(&mut v, "type", text("tool_use"));
                push_field(&mut v, "id", text(id.as_str()));
                push_field(&mut v, "name", text(name.as_str()));
                push_field(&mut v, "input", input.copy());
                assert(crate::json::fields(v@) =~= self@.json()->Object_0);
                object(v)
            },
            SamplingContent::ToolResult { tool_use_id, content, is_error } => {
                push_field(&mut v, "type", text("tool_result"));
                push_field(&mut v, "toolUseId", text(tool_use_id.as_str()));
                push_field(&mut v, "content", list(copy_all(content)));
                let flag = if *is_error {
                    Some(Json::Bool(true))
                } else {
                    None
                };
                push_maybe(&mut v, "isError", flag);
                assert(crate::json::fields(v@) =~= self@.json()->Object_0);
                object(v)
            },
            SamplingContent::Other(j) => j.copy(),
        }
    }
}

/// The pieces of a message.
pub open spec fn pieces(v: Seq<SamplingContent>) -> Seq<ContentView> {
    v.map_values(|c: SamplingContent| c@)
}

/// The pieces of a message on the wire: one piece stands alone.
pub open spec fn content_json(s: Seq<ContentView>) -> JsonView {
    if s.len() == 1 {
        s[0].json()
    } else {
        JsonView::List(s.map_values(|c: ContentView| c.json()))
    }
}

fn content_to_json(content: &Vec<SamplingContent>) -> (r: Json)
    ensures
        r@ == content_json(pieces(content@)),
{
    let ghost all = pieces(content@);
    if content.len() == 1 {
        return content[0].to_json();
    }
    let ghost wanted = all.map_values(|c: ContentView| c.json());
    let mut out: Vec<Json> = Vec::new();
    let mut i: usize = 0;
    assert(crate::json::items(out@) =~= wanted.take(0));
    while i < content.len()
        invariant
            i <= content@.len(),
            all == pieces(content@),
            wanted == all.map_values(|c: ContentView| c.json()),
            crate::json::items(out@) == wanted.take(i as int),
        decreases content@.len() - i,
    {
        let ghost before = crate::json::items(out@);
        let one = content[i].to_json();
        out.push(one);
        i = i + 1;
        assert(crate::json::items(out@) =~= before.push(one@));
        assert(crate::json::items(out@) =~= wanted.take(i as int));
    }
    assert(wanted.take(i as int) =~= wanted);
    list(out)
}

/// Who a message is from.
#[derive(Debug, Clone, Copy, PartialEq, Eq, Structural)]
pub enum SamplingRole {
    User,
    Assistant,
}

impl SamplingRole {
    /// The name of the role on the wire.
    pub open spec fn name(self) -> Seq<char> {
        match self {
            SamplingRole::User => "user"@,
            SamplingRole::Assistant => "assistant"@,
        }
    }
}

/// A message to or from the model.
#[derive(Debug)]
pub struct SamplingMessage {
    pub role: SamplingRole,
    pub content: Vec<SamplingContent>,
}

/// What a [`SamplingMessage`] is.
pub struct TurnView {
    pub role: SamplingRole,
    pub content: Seq<ContentView>,
}

impl View for SamplingMessage {
    type V = TurnView;

    open spec fn view(&self) -> TurnView {
        TurnView { role: self.role, content: pieces(self.content@) }
    }
}

impl TurnView {
    /// The message on the wire.
    pub open spec fn json(self) -> JsonView {
        JsonView::Object(
            seq![
                ("role"@, JsonView::Text(self.role.name())),
                ("content"@, content_json(self.content)),
            ],
        )
    }

    /// Whether the model wants this use of a tool answered.
    pub open spec fn uses(self, id: Seq<char>) -> bool {
        exists|k: int| 0 <= k < self.content.len() && is_use(#[trigger] self.content[k], id)
    }

    /// Whether this use of a tool is answered.
    pub open spec fn answers(self, id: Seq<char>) -> bool {
        exists|k: int| 0 <= k < self.content.len() && is_result(#[trigger] self.content[k], id)
    }

    /// Whether the message holds nothing but results.
    pub open spec fn only_results(self) -> bool {
        self.role == SamplingRole::User && forall|k: int|
            0 <= k < self.content.len() ==> (#[trigger] self.content[k]) is ToolResult
    }
}

/// Whether a piece is this use of a tool.
pub open spec fn is_use(c: ContentView, id: Seq<char>) -> bool {
    c matches ContentView::ToolUse { id: x, name, input } && x == id
}

/// Whether a piece is the result of this use of a tool.
pub open spec fn is_result(c: ContentView, id: Seq<char>) -> bool {
    c matches ContentView::ToolResult { tool_use_id: x, content, is_error } && x == id
}

impl SamplingMessage {
    /// A message from the user.
    pub fn user(content: SamplingContent) -> (r: SamplingMessage)
        ensures
            r@ == (TurnView { role: SamplingRole::User, content: seq![content@] }),
    {
        let mut v: Vec<SamplingContent> = Vec::new();
        let ghost one = content@;
        v.push(content);
        assert(pieces(v@) =~= seq![one]);
        SamplingMessage { role: SamplingRole::User, content: v }
    }

    /// A message from the model.
    pub fn assistant(content: Vec<SamplingContent>) -> (r: SamplingMessage)
        ensures
            r@ == (TurnView { role: SamplingRole::Assistant, content: pieces(content@) }),
    {
        SamplingMessage { role: SamplingRole::Assistant, content }
    }

    /// The message on the wire.
    pub fn to_json(&self) -> (r: Json)
        ensures
            r@ == self@.json(),
    {
        let mut v: Vec<(String, Json)> = Vec::new();
        assert(crate::json::fields(v@) =~= Seq::empty());
        let role = match self.role {
            SamplingRole::User => "user",
            SamplingRole::Assistant => "assistant",
        };
        push_field(&mut v, "role", text(role));
        push_field(&mut v, "content", content_to_json(&self.content));
        assert(crate::json::fields(v@) =~= self@.json()->Object_0);
        object(v)
    }

    fn only_results(&self) -> (r: bool)
        ensures
            r == self@.only_results(),
    {
        if self.role != SamplingRole::User {
            return false;
        }
        let mut i: usize = 0;
        while i < self.content.len()
            invariant
                i <= self.content@.len(),
                forall|k: int| 0 <= k < i ==> (#[trigger] self@.content[k]) is ToolResult,
            decreases self.content@.len() - i,
        {
            assert(self@.content[i as int] == self.content@[i as int]@);
            match &self.content[i] {
                SamplingContent::ToolResult { .. } => {},
                _ => {
                    return false;
                },
            }
            i = i + 1;
        }
        true
    }

    fn answers(&self, id: &str) -> (r: bool)
        ensures
            r == self@.answers(id@),
    {
        let mut i: usize = 0;
        while i < self.content.len()
            invariant
                i <= self.content@.len(),
                forall|k: int| 0 <= k < i ==> !is_result(#[trigger] self@.content[k], id@),
            decreases self.content@.len() - i,
        {
            assert(self@.content[i as int] == self.content@[i as int]@);
            if let SamplingContent::ToolResult { tool_use_id, .. } = &self.content[i] {
                if same_text(tool_use_id.as_str(), id) {
                    assert(is_result(self@.content[i as int], id@));
                    return true;
                }
            }
            i = i + 1;
        }
        false
    }

    /// Whether there is a use of a tool that the next message does not answer.
    fn unanswered(&self, reply: &Option<&SamplingMessage>) -> (r: bool)
        ensures
            r == exists|k: int|
                0 <= k < self.content@.len() && open_use(
                    #[trigger] self@.content[k],
                    reply_view(*reply),
                ),
    {
        let mut i: usize = 0;
        while i < self.content.len()
            invariant
                i <= self.content@.len(),
                forall|k: int|
                    0 <= k < i ==> !open_use(#[trigger] self@.content[k], reply_view(*reply)),
            decreases self.content@.len() - i,
        {
            assert(self@.content[i as int] == self.content@[i as int]@);
            if let SamplingContent::ToolUse { id, .. } = &self.content[i] {
                let answered = match reply {
                    Some(next) => next.only_results() && next.answers(id.as_str()),
                    None => false,
                };
                if !answered {
                    assert(open_use(self@.content[i as int], reply_view(*reply)));
                    return true;
                }
            }
            i = i + 1;
        }
        false
    }
}

/// The view of an optional message.
pub open spec fn reply_view(r: Option<&SamplingMessage>) -> Option<TurnView> {
    match r {
        Some(m) => Some(m@),
        None => None,
    }
}

/// Whether a piece is the use of a tool that the next message does not answer.
pub open spec fn open_use(c: ContentView, reply: Option<TurnView>) -> bool {
    c matches ContentView::ToolUse { id, name, input } && !(reply matches Some(m)
        && m.only_results() && m.answers(id))
}

/// The messages of a conversation.
pub open spec fn turns(v: Seq<SamplingMessage>) -> Seq<TurnView> {
    v.map_values(|m: SamplingMessage| m@)
}

/// The message after this one.
pub open spec fn reply_to(s: Seq<TurnView>, i: int) -> Option<TurnView> {
    if i + 1 < s.len() {
        Some(s[i + 1])
    } else {
        None
    }
}

/// Whether every use of a tool is answered by the message after it, and that
/// message does nothing else.
pub open spec fn loop_closed(s: Seq<TurnView>) -> bool {
    forall|i: int, k: int|
        0 <= i < s.len() && 0 <= k < s[i].content.len() ==> !open_use(
            #[trigger] s[i].content[k],
            reply_to(s, i),
        )
}

/// A tool that is offered to the model.
#[derive(Debug)]
pub struct SamplingTool {
    pub name: String,
    pub description: Option<String>,
    pub input_schema: Json,
}

impl SamplingTool {
    pub fn new(name: &str, input_schema: Json) -> (r: SamplingTool)
        ensures
            r.name@ == name@,
            r.description is None,
            r.input_schema@ == input_schema@,
    {
        SamplingTool { name: name.to_owned(), description: None, input_schema }
    }

    /// The tool on the wire.
    pub open spec fn json(self) -> JsonView {
        JsonView::Object(
            seq![("name"@, JsonView::Text(self.name@))] + crate::json::maybe(
                "description"@,
                crate::json::optional_text(self.description),
            ) + seq![("inputSchema"@, self.input_schema@)],
        )
    }

    /// The tool on the wire.
    pub fn to_json(&self) -> (r: Json)
        ensures
            r@ == self.json(),
    {
        let mut v: Vec<(String, Json)> = Vec::new();
        assert(crate::json::fields(v@) =~= Seq::empty());
        push_field(&mut v, "name", text(self.name.as_str()));
        push_maybe(&mut v, "description", text_if(&self.description));
        push_field(&mut v, "inputSchema", self.input_schema.copy());
        assert(crate::json::fields(v@) =~= self.json()->Object_0);
        object(v)
    }
}

/// Whether the model may use tools.
#[derive(Debug, Clone, Copy, PartialEq, Eq, Structural)]
pub enum ToolChoice {
    Auto,
    Required,
    Never,
}

impl ToolChoice {
    /// The name of the mode on the wire.
    pub open spec fn name(self) -> Seq<char> {
        match self {
            ToolChoice::Auto => "auto"@,
            ToolChoice::Required => "required"@,
            ToolChoice::Never => "none"@,
        }
    }

    /// The choice on the wire.
    pub open spec fn json(self) -> JsonView {
        JsonView::Object(seq![("mode"@, JsonView::Text(self.name()))])
    }

    /// The choice on the wire.
    pub fn to_json(&self) -> (r: Json)
        ensures
            r@ == self.json(),
    {
        let name = match self {
            ToolChoice::Auto => "auto",
            ToolChoice::Required => "required",
            ToolChoice::Never => "none",
        };
        let mut v: Vec<(String, Json)> = Vec::new();
        assert(crate::json::fields(v@) =~= Seq::empty());
        push_field(&mut v, "mode", text(name));
        assert(crate::json::fields(v@) =~= self.json()->Object_0);
        object(v)
    }
}

/// A request for a completion by the client's model.
#[derive(Debug)]
pub struct CreateMessageParams {
    pub messages: Vec<SamplingMessage>,
    pub model_preferences: Option<Json>,
    pub system_prompt: Option<String>,
    /// What it asks to have put before the model.
    pub include_context: Option<String>,
    pub temperature: Option<Number>,
    pub max_tokens: u64,
    pub stop_sequences: Option<Json>,
    pub metadata: Option<Json>,
    /// The tools that it offers.
    pub tools: Vec<SamplingTool>,
    pub tool_choice: Option<ToolChoice>,
}

/// The tools on the wire.
pub open spec fn tools_json(v: Seq<SamplingTool>) -> Seq<JsonView> {
    v.map_values(|t: SamplingTool| t.json())
}

/// The messages on the wire.
pub open spec fn turns_json(s: Seq<TurnView>) -> Seq<JsonView> {
    s.map_values(|t: TurnView| t.json())
}

/// The choice on the wire, where there is one.
pub open spec fn choice_json(c: Option<ToolChoice>) -> Option<JsonView> {
    match c {
        Some(c) => Some(c.json()),
        None => None,
    }
}

impl CreateMessageParams {
    /// A request with these messages, and nothing else to say.
    pub fn new(messages: Vec<SamplingMessage>, max_tokens: u64) -> (r: CreateMessageParams)
        ensures
            turns(r.messages@) == turns(messages@),
            r.max_tokens == max_tokens,
            r.model_preferences is None,
            r.system_prompt is None,
            r.include_context is None,
            r.temperature is None,
            r.stop_sequences is None,
            r.metadata is None,
            r.tools@.len() == 0,
            r.tool_choice is None,
    {
        CreateMessageParams {
            messages,
            model_preferences: None,
            system_prompt: None,
            include_context: None,
            temperature: None,
            max_tokens,
            stop_sequences: None,
            metadata: None,
            tools: Vec::new(),
            tool_choice: None,
        }
    }

    /// The request with these tools.
    pub fn with_tools(self, tools: Vec<SamplingTool>) -> (r: CreateMessageParams)
        ensures
            r == (CreateMessageParams { tools, ..self }),
    {
        let mut r = self;
        r.tools = tools;
        r
    }

    /// The request with this choice.
    pub fn with_tool_choice(self, choice: ToolChoice) -> (r: CreateMessageParams)
        ensures
            r == (CreateMessageParams { tool_choice: Some(choice), ..self }),
    {
        let mut r = self;
        r.tool_choice = Some(choice);
        r
    }

    /// The fields of the request on the wire.
    pub open spec fn wire_fields(self) -> Seq<(Seq<char>, JsonView)> {
        seq![("messages"@, JsonView::List(turns_json(turns(self.messages@))))]
            + crate::json::maybe(
            "modelPreferences"@,
            crate::json::optional(self.model_preferences),
        ) + crate::json::maybe("systemPrompt"@, crate::json::optional_text(self.system_prompt))
            + crate::json::maybe(
            "includeContext"@,
            crate::json::optional_text(self.include_context),
        ) + crate::json::maybe("temperature"@, crate::env::optional_number(self.temperature))
            + seq![("maxTokens"@, crate::json::count(self.max_tokens))] + crate::json::maybe(
            "stopSequences"@,
            crate::json::optional(self.stop_sequences),
        ) + crate::json::maybe("metadata"@, crate::json::optional(self.metadata))
            + crate::json::maybe(
            "tools"@,
            crate::protocol::list_if_any(tools_json(self.tools@)),
        ) + crate::json::maybe("toolChoice"@, choice_json(self.tool_choice))
    }

    fn messages_to_json(&self) -> (r: Json)
        ensures
            r@ == JsonView::List(turns_json(turns(self.messages@))),
    {
        let ghost wanted = turns_json(turns(self.messages@));
        let mut out: Vec<Json> = Vec::new();
        let mut i: usize = 0;
        assert(crate::json::items(out@) =~= wanted.take(0));
        while i < self.messages.len()
            invariant
                i <= self.messages@.len(),
                wanted == turns_json(turns(self.messages@)),
                crate::json::items(out@) == wanted.take(i as int),
            decreases self.messages@.len() - i,
        {
            let ghost before = crate::json::items(out@);
            let one = self.messages[i].to_json();
            out.push(one);
            i = i + 1;
            assert(crate::json::items(out@) =~= before.push(one@));
            assert(crate::json::items(out@) =~= wanted.take(i as int));
        }
        assert(wanted.take(i as int) =~= wanted);
        list(out)
    }

    fn tools_to_json(&self) -> (r: Option<Json>)
        ensures
            crate::json::optional(r) == crate::protocol::list_if_any(tools_json(self.tools@)),
    {
        let ghost wanted = tools_json(self.tools@);
        if self.tools.len() == 0 {
            return None;
        }
        let mut out: Vec<Json> = Vec::new();
        let mut i: usize = 0;
        assert(crate::json::items(out@) =~= wanted.take(0));
        while i < self.tools.len()
            invariant
                i <= self.tools@.len(),
                wanted == tools_json(self.tools@),
                crate::json::items(out@) == wanted.take(i as int),
            decreases self.tools@.len() - i,
        {
            let ghost before = crate::json::items(out@);
            let one = self.tools[i].to_json();
            out.push(one);
            i = i + 1;
            assert(crate::json::items(out@) =~= before.push(one@));
            assert(crate::json::items(out@) =~= wanted.take(i as int));
        }
        assert(wanted.take(i as int) =~= wanted);
        Some(list(out))
    }

    /// The request on the wire.
    pub fn to_json(&self) -> (r: Json)
        ensures
            r@ == JsonView::Object(self.wire_fields()),
    {
        let mut v: Vec<(String, Json)> = Vec::new();
        assert(crate::json::fields(v@) =~= Seq::empty());
        push_field(&mut v, "messages", self.messages_to_json());
        push_maybe(&mut v, "modelPreferences", copy_of(&self.model_preferences));
        push_maybe(&mut v, "systemPrompt", text_if(&self.system_prompt));
        push_maybe(&mut v, "includeContext", text_if(&self.include_context));
        let temperature = match &self.temperature {
            Some(t) => Some(Json::Number(t.copy())),
            None => None,
        };
        push_maybe(&mut v, "temperature", temperature);
        push_field(&mut v, "maxTokens", Json::Number(Number::Unsigned(self.max_tokens)));
        push_maybe(&mut v, "stopSequences", copy_of(&self.stop_sequences));
        push_maybe(&mut v, "metadata", copy_of(&self.metadata));
        push_maybe(&mut v, "tools", self.tools_to_json());
        let choice = match &self.tool_choice {
            Some(c) => Some(c.to_json()),
            None => None,
        };
        push_maybe(&mut v, "toolChoice", choice);
        assert(crate::json::fields(v@) =~= self.wire_fields());
        object(v)
    }

    /// Whether the conversation can be gone on with: every use of a tool is
    /// answered in the next message.
    pub fn validate(&self) -> (r: Result<(), String>)
        ensures
            match r {
                Ok(()) => loop_closed(turns(self.messages@)),
                Err(why) => !loop_closed(turns(self.messages@)) && why@
                    == "every tool use must be answered by a tool result in the next message"@,
            },
    {
        let ghost all = turns(self.messages@);
        let mut i: usize = 0;
        while i < self.messages.len()
            invariant
                i <= self.messages@.len(),
                all == turns(self.messages@),
                forall|j: int, k: int|
                    0 <= j < i && 0 <= k < all[j].content.len() ==> !open_use(
                        #[trigger] all[j].content[k],
                        reply_to(all, j),
                    ),
            decreases self.messages@.len() - i,
        {
            let reply = if i + 1 < self.messages.len() {
                Some(&self.messages[i + 1])
            } else {
                None
            };
            assert(reply_view(reply) == reply_to(all, i as int));
            assert(all[i as int] == self.messages@[i as int]@);
            if self.messages[i].unanswered(&reply) {
                return Err(
                    "every tool use must be answered by a tool result in the next message".to_owned(),
                );
            }
            i = i + 1;
        }
        Ok(())
    }
}

/// Why a request for a completion may not be sent, if it may not.
pub open spec fn sampling_refusal(
    caps: ClientCapabilities,
    params: CreateMessageParams,
) -> Option<McpErrorView> {
    if !caps.can_sample() {
        Some(McpErrorView::Internal("client did not declare support for sampling"@))
    } else if params.tools@.len() > 0 && !caps.can_sample_with_tools() {
        Some(
            McpErrorView::Internal(
                "client did not declare `sampling.tools`, so tool-enabled sampling requests must not be sent to it"@,
            ),
        )
    } else if params.include_context is Some && params.include_context->0@ != "none"@
        && !caps.can_sample_with_context() {
        Some(
            McpErrorView::Internal(
                "client did not declare `sampling.context`, so `includeContext` must be omitted or \"none\""@,
            ),
        )
    } else if !loop_closed(turns(params.messages@)) {
        Some(
            McpErrorView::InvalidParams(
                "every tool use must be answered by a tool result in the next message"@,
            ),
        )
    } else {
        None
    }
}

impl ToolEnv {
    /// Asks the client's model for a completion. Nothing is asked that the
    /// client did not say it can do, and nothing that no model could go on
    /// with.
    pub fn create_message(&self, params: &CreateMessageParams) -> (r: Result<Ask, McpError>)
        ensures
            match r {
                Ok(ask) => sampling_refusal(self.client_capabilities, *params) is None
                    && ask.method@ == "sampling/createMessage"@ && ask.params@
                    == JsonView::Object(params.wire_fields()),
                Err(e) => sampling_refusal(self.client_capabilities, *params) == Some(e@),
            },
    {
        if !self.client_capabilities.supports_sampling() {
            return Err(
                McpError::Internal("client did not declare support for sampling".to_owned()),
            );
        }
        if params.tools.len() > 0 && !self.client_capabilities.supports_sampling_tools() {
            return Err(
                McpError::Internal(
                    "client did not declare `sampling.tools`, so tool-enabled sampling requests must not be sent to it".to_owned(),
                ),
            );
        }
        if let Some(context) = &params.include_context {
            if !same_text(context.as_str(), "none")
                && !self.client_capabilities.supports_sampling_context() {
                return Err(
                    McpError::Internal(
                        "client did not declare `sampling.context`, so `includeContext` must be omitted or \"none\"".to_owned(),
                    ),
                );
            }
        }
        if let Err(why) = params.validate() {
            return Err(McpError::InvalidParams(why));
        }
        Ok(Ask { method: "sampling/createMessage".to_owned(), params: params.to_json() })
    }
}

/// The piece that a JSON value is.
pub open spec fn piece_of(j: JsonView) -> ContentView {
    match (j.get("type"@), j.get("text"@), j.get("id"@), j.get("name"@)) {
        (Some(JsonView::Text(t)), text, id, name) => if t == "text"@ && text is Some && text->0 is Text {
            ContentView::Text(text->0->Text_0)
        } else if t == "tool_use"@ && id is Some && id->0 is Text && name is Some && name->0 is Text {
            ContentView::ToolUse {
                id: id->0->Text_0,
                name: name->0->Text_0,
                input: match j.get("input"@) {
                    Some(v) => v,
                    None => JsonView::Object(Seq::empty()),
                },
            }
        } else {
            ContentView::Other(j)
        },
        _ => ContentView::Other(j),
    }
}

fn read_piece(j: &Json) -> (r: SamplingContent)
    ensures
        r@ == piece_of(j@),
{
    if let Some(Json::Text(t)) = j.get("type") {
        if same_text(t.as_str(), "text") {
            if let Some(Json::Text(s)) = j.get("text") {
                return SamplingContent::Text(s.clone());
            }
        }
        if same_text(t.as_str(), "tool_use") {
            if let (Some(Json::Text(id)), Some(Json::Text(name))) = (j.get("id"), j.get("name")) {
                let input = match j.get("input") {
                    Some(v) => v.copy(),
                    None => crate::json::empty_object(),
                };
                proof {
                    reveal_strlit("text");
                    reveal_strlit("tool_use");
                    assert("text"@.len() == 4 && "tool_use"@.len() == 8);
                }
                return SamplingContent::ToolUse { id: id.clone(), name: name.clone(), input };
            }
        }
    }
    SamplingContent::Other(j.copy())
}

/// The pieces that the content of a message is: one that stands alone, or a
/// list.
pub open spec fn pieces_of(j: JsonView) -> Seq<ContentView> {
    match j {
        JsonView::List(s) => s.map_values(|v: JsonView| piece_of(v)),
        other => seq![piece_of(other)],
    }
}

fn read_pieces(j: &Json) -> (r: Vec<SamplingContent>)
    ensures
        pieces(r@) == pieces_of(j@),
{
    broadcast use crate::json::lemma_list_view;

    let mut out: Vec<SamplingContent> = Vec::new();
    match j {
        Json::List(v) => {
            let ghost all = crate::json::items(v@);
            let ghost wanted = all.map_values(|v: JsonView| piece_of(v));
            assert(j@ == JsonView::List(all));
            let mut i: usize = 0;
            assert(pieces(out@) =~= wanted.take(0));
            while i < v.len()
                invariant
                    i <= v@.len(),
                    all == crate::json::items(v@),
                    wanted == all.map_values(|v: JsonView| piece_of(v)),
                    pieces(out@) == wanted.take(i as int),
                decreases v@.len() - i,
            {
                let ghost before = pieces(out@);
                let one = read_piece(&v[i]);
                out.push(one);
                i = i + 1;
                assert(pieces(out@) =~= before.push(one@));
                assert(pieces(out@) =~= wanted.take(i as int));
            }
            assert(wanted.take(i as int) =~= wanted);
            out
        },
        other => {
            out.push(read_piece(other));
            assert(pieces(out@) =~= seq![piece_of(j@)]);
            out
        },
    }
}

/// What the client's model said.
#[derive(Debug)]
pub struct CreateMessageResult {
    pub role: String,
    pub content: Vec<SamplingContent>,
    pub model: String,
    pub stop_reason: Option<String>,
}

/// The text of the pieces that are text, in order.
pub open spec fn text_of(s: Seq<ContentView>) -> Seq<char>
    decreases s.len(),
{
    if s.len() == 0 {
        Seq::empty()
    } else {
        text_of(s.drop_last()) + match s.last() {
            ContentView::Text(t) => t,
            _ => Seq::empty(),
        }
    }
}

/// The uses of tools among the pieces, in order.
pub open spec fn uses_in(s: Seq<ContentView>) -> Seq<(Seq<char>, Seq<char>, JsonView)>
    decreases s.len(),
{
    if s.len() == 0 {
        Seq::empty()
    } else {
        match s.last() {
            ContentView::ToolUse { id, name, input } => uses_in(s.drop_last()).push(
                (id, name, input),
            ),
            _ => uses_in(s.drop_last()),
        }
    }
}

/// The view of uses of tools.
pub open spec fn uses_view(v: Seq<(String, String, Json)>) -> Seq<(Seq<char>, Seq<char>, JsonView)> {
    v.map_values(|u: (String, String, Json)| (u.0@, u.1@, u.2@))
}

/// Whether an answer is what a model says: who says it, what, and which model.
pub open spec fn is_completion(j: JsonView) -> bool {
    &&& j.get("role"@) is Some && j.get("role"@)->0 is Text
    &&& j.get("content"@) is Some
    &&& j.get("model"@) is Some && j.get("model"@)->0 is Text
}

impl CreateMessageResult {
    /// Reads an answer.
    pub fn from_json(j: &Json) -> (r: Result<CreateMessageResult, McpError>)
        ensures
            match r {
                Ok(x) => is_completion(j@) && j@.get("role"@) == Some(JsonView::Text(x.role@))
                    && pieces(x.content@) == pieces_of(j@.get("content"@)->0) && j@.get("model"@)
                    == Some(JsonView::Text(x.model@)) && crate::json::optional_text(x.stop_reason)
                    == (match j@.get("stopReason"@) {
                    Some(JsonView::Text(s)) => Some(JsonView::Text(s)),
                    _ => None,
                }),
                Err(e) => !is_completion(j@) && e@ == McpErrorView::Json(
                    "a completion needs `role`, `content` and `model`"@,
                ),
            },
    {
        if let (Some(Json::Text(role)), Some(content), Some(Json::Text(model))) = (
            j.get("role"),
            j.get("content"),
            j.get("model"),
        ) {
            let stop_reason = match j.get("stopReason") {
                Some(Json::Text(s)) => Some(s.clone()),
                _ => None,
            };
            return Ok(
                CreateMessageResult {
                    role: role.clone(),
                    content: read_pieces(content),
                    model: model.clone(),
                    stop_reason,
                },
            );
        }
        Err(McpError::Json("a completion needs `role`, `content` and `model`".to_owned()))
    }

    /// What the model said, as text.
    pub fn text(&self) -> (r: String)
        ensures
            r@ == text_of(pieces(self.content@)),
    {
        let ghost all = pieces(self.content@);
        let mut out = String::new();
        let mut i: usize = 0;
        assert(out@ =~= text_of(all.take(0)));
        while i < self.content.len()
            invariant
                i <= self.content@.len(),
                all == pieces(self.content@),
                out@ == text_of(all.take(i as int)),
            decreases self.content@.len() - i,
        {
            assert(all.take(i as int + 1).drop_last() =~= all.take(i as int));
            assert(all.take(i as int + 1).last() == self.content@[i as int]@);
            let ghost before = out@;
            if let SamplingContent::Text(s) = &self.content[i] {
                out.append(s.as_str());
            } else {
                assert(before + Seq::<char>::empty() =~= before);
            }
            i = i + 1;
        }
        assert(all.take(i as int) =~= all);
        out
    }

    /// The uses of tools that the model wants.
    pub fn tool_uses(&self) -> (r: Vec<(String, String, Json)>)
        ensures
            uses_view(r@) == uses_in(pieces(self.content@)),
    {
        let ghost all = pieces(self.content@);
        let mut out: Vec<(String, String, Json)> = Vec::new();
        let mut i: usize = 0;
        assert(uses_view(out@) =~= uses_in(all.take(0)));
        while i < self.content.len()
            invariant
                i <= self.content@.len(),
                all == pieces(self.content@),
                uses_view(out@) == uses_in(all.take(i as int)),
            decreases self.content@.len() - i,
        {
            assert(all.take(i as int + 1).drop_last() =~= all.take(i as int));
            assert(all.take(i as int + 1).last() == self.content@[i as int]@);
            let ghost before = uses_view(out@);
            if let SamplingContent::ToolUse { id, name, input } = &self.content[i] {
                out.push((id.clone(), name.clone(), input.copy()));
                assert(uses_view(out@) =~= before.push((id@, name@, input@)));
            }
            i = i + 1;
        }
        assert(all.take(i as int) =~= all);
        out
    }

    /// Whether the model wants a tool to run.
    pub fn wants_tools(&self) -> (r: bool)
        ensures
            r == (uses_in(pieces(self.content@)).len() > 0),
    {
        let uses = self.tool_uses();
        assert(uses_view(uses@).len() == uses@.len());
        uses.len() > 0
    }
}

/// A conversation in which the model was left waiting for a tool is never sent.
pub proof fn law_no_use_of_a_tool_is_left_open(
    caps: ClientCapabilities,
    params: CreateMessageParams,
    i: int,
    id: Seq<char>,
)
    requires
        sampling_refusal(caps, params) is None,
        0 <= i < params.messages@.len(),
        params.messages@[i]@.uses(id),
    ensures
        i + 1 < params.messages@.len(),
        params.messages@[i + 1]@.only_results(),
        params.messages@[i + 1]@.answers(id),
{
    let s = turns(params.messages@);
    let turn = params.messages@[i]@;
    assert(s[i] == turn);
    let k = choose|k: int| 0 <= k < turn.content.len() && is_use(#[trigger] turn.content[k], id);
    assert(!open_use(s[i].content[k], reply_to(s, i)));
}

} // verus!
