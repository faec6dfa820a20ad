//! What servers and clients tell each other about themselves.

use crate::json::{
    copy_all, copy_of, list, object, push_field, push_maybe, text, text_if, Json, JsonView, Number,
};
use crate::order::{comes_first, Ranked};
use crate::text::same_text;
use vstd::prelude::*;
use vstd::string::*;

verus! {

/// The newest revision of the protocol.
pub const PROTOCOL_VERSION: &'static str = "2025-11-25";

/// The revisions that are spoken, newest first.
pub const SUPPORTED_PROTOCOL_VERSIONS: [&'static str; 3] = [
    "2025-11-25",
    "2025-06-18",
    "2025-03-26",
];

/// Whether this revision is one that is spoken.
pub open spec fn is_supported(version: Seq<char>) -> bool {
    version == "2025-11-25"@ || version == "2025-06-18"@ || version == "2025-03-26"@
}

/// Whether this revision is one that is spoken.
pub fn is_supported_protocol_version(version: &str) -> (r: bool)
    ensures
        r == is_supported(version@),
{
    same_text(version, "2025-11-25") || same_text(version, "2025-06-18") || same_text(
        version,
        "2025-03-26",
    )
}

/// Whether a tool may be called as a task.
#[derive(Debug, Clone, Copy, PartialEq, Eq, Structural)]
pub enum TaskSupport {
    /// Never.
    Forbidden,
    /// As the caller likes.
    Optional,
    /// Always.
    Required,
}

impl TaskSupport {
    pub open spec fn name(self) -> Seq<char> {
        match self {
            TaskSupport::Forbidden => "forbidden"@,
            TaskSupport::Optional => "optional"@,
            TaskSupport::Required => "required"@,
        }
    }
}

/// Something a server lists: the key it is known by, and what is said of it.
#[derive(Debug)]
pub struct Entry {
    pub key: String,
    pub wire: Json,
}

/// What an [`Entry`] is.
pub struct EntryView {
    pub key: Seq<char>,
    pub wire: JsonView,
}

impl View for Entry {
    type V = EntryView;

    open spec fn view(&self) -> EntryView {
        EntryView { key: self.key@, wire: self.wire@ }
    }
}

impl Entry {
    /// An equal entry.
    pub fn copy(&self) -> (r: Entry)
        ensures
            r@ == self@,
    {
        Entry { key: self.key.clone(), wire: self.wire.copy() }
    }
}

/// Entries are listed by key.
impl Ranked for Entry {
    open spec fn precedes(a: EntryView, b: EntryView) -> bool {
        crate::order::text_before(a.key, b.key)
    }

    proof fn order_holds(a: EntryView, b: EntryView, c: EntryView) {
        crate::order::lemma_text_before_one_way(a.key, b.key);
        if !Self::precedes(b, a) && !Self::precedes(c, b) {
            crate::order::lemma_text_before_carries(a.key, b.key, c.key);
        }
    }

    fn comes_before(&self, other: &Entry) -> (r: bool) {
        comes_first(self.key.as_str(), other.key.as_str())
    }
}

/// A tool, as clients see it.
#[derive(Debug)]
pub struct ToolInfo {
    pub name: String,
    pub title: Option<String>,
    pub description: Option<String>,
    pub input_schema: Json,
    pub output_schema: Option<Json>,
    pub annotations: Option<Json>,
    pub icons: Vec<Json>,
    pub task_support: TaskSupport,
    pub meta: Option<Json>,
}

/// A list that is left out where it is empty.
pub open spec fn list_if_any(s: Seq<JsonView>) -> Option<JsonView> {
    if s.len() == 0 {
        None
    } else {
        Some(JsonView::List(s))
    }
}

/// Whether a tool may be called as a task, on the wire. Saying nothing means
/// never.
pub open spec fn execution_json(support: TaskSupport) -> Option<JsonView> {
    if support == TaskSupport::Forbidden {
        None
    } else {
        Some(JsonView::Object(seq![("taskSupport"@, JsonView::Text(support.name()))]))
    }
}

fn list_json_if_any(v: &Vec<Json>) -> (r: Option<Json>)
    ensures
        crate::json::optional(r) == list_if_any(crate::json::items(v@)),
{
    if v.len() == 0 {
        None
    } else {
        Some(list(copy_all(v)))
    }
}

fn execution_of(support: TaskSupport) -> (r: Option<Json>)
    ensures
        crate::json::optional(r) == execution_json(support),
{
    let name = match support {
        TaskSupport::Forbidden => {
            return None;
        },
        TaskSupport::Optional => "optional",
        TaskSupport::Required => "required",
    };
    let mut v: Vec<(String, Json)> = Vec::new();
    assert(crate::json::fields(v@) =~= Seq::empty());
    push_field(&mut v, "taskSupport", text(name));
    assert(crate::json::fields(v@) =~= seq![("taskSupport"@, JsonView::Text(support.name()))]);
    Some(object(v))
}

impl ToolInfo {
    /// The fields of the tool on the wire.
    pub open spec fn wire_fields(self) -> Seq<(Seq<char>, JsonView)> {
        seq![("name"@, JsonView::Text(self.name@))] + crate::json::maybe(
            "title"@,
            crate::json::optional_text(self.title),
        ) + crate::json::maybe("description"@, crate::json::optional_text(self.description))
            + seq![("inputSchema"@, self.input_schema@)] + crate::json::maybe(
            "outputSchema"@,
            crate::json::optional(self.output_schema),
        ) + crate::json::maybe("annotations"@, crate::json::optional(self.annotations))
            + crate::json::maybe("icons"@, list_if_any(crate::json::items(self.icons@)))
            + crate::json::maybe("execution"@, execution_json(self.task_support))
            + crate::json::maybe("_meta"@, crate::json::optional(self.meta))
    }

    /// The tool on the wire.
    pub fn to_json(&self) -> (r: Json)
        ensures
            r@ == JsonView::Object(self.wire_fields()),
    {
        let mut v: Vec<(String, Json)> = Vec::new();
        assert(crate::json::fields(v@) =~= Seq::empty());
        push_field(&mut v, "name", text(self.name.as_str()));
        push_maybe(&mut v, "title", text_if(&self.title));
        push_maybe(&mut v, "description", text_if(&self.description));
        push_field(&mut v, "inputSchema", self.input_schema.copy());
        push_maybe(&mut v, "outputSchema", copy_of(&self.output_schema));
        push_maybe(&mut v, "annotations", copy_of(&self.annotations));
        push_maybe(&mut v, "icons", list_json_if_any(&self.icons));
        push_maybe(&mut v, "execution", execution_of(self.task_support));
        push_maybe(&mut v, "_meta", copy_of(&self.meta));
        assert(crate::json::fields(v@) =~= self.wire_fields());
        object(v)
    }
}

/// A resource, as clients see it.
#[derive(Debug)]
pub struct ResourceInfo {
    pub uri: String,
    pub name: String,
    pub title: Option<String>,
    pub description: Option<String>,
    pub mime_type: Option<String>,
    pub size: Option<u64>,
    pub icons: Vec<Json>,
    pub annotations: Option<Json>,
    pub meta: Option<Json>,
}

/// An optional number, as JSON.
pub open spec fn optional_count(n: Option<u64>) -> Option<JsonView> {
    match n {
        Some(n) => Some(crate::json::count(n)),
        None => None,
    }
}

impl ResourceInfo {
    /// The fields of the resource on the wire.
    pub open spec fn wire_fields(self) -> Seq<(Seq<char>, JsonView)> {
        seq![("uri"@, JsonView::Text(self.uri@)), ("name"@, JsonView::Text(self.name@))]
            + crate::json::maybe("title"@, crate::json::optional_text(self.title))
            + crate::json::maybe("description"@, crate::json::optional_text(self.description))
            + crate::json::maybe("mimeType"@, crate::json::optional_text(self.mime_type))
            + crate::json::maybe("size"@, optional_count(self.size)) + crate::json::maybe(
            "icons"@,
            list_if_any(crate::json::items(self.icons@)),
        ) + crate::json::maybe("annotations"@, crate::json::optional(self.annotations))
            + crate::json::maybe("_meta"@, crate::json::optional(self.meta))
    }

    /// The resource on the wire.
    pub fn to_json(&self) -> (r: Json)
        ensures
            r@ == JsonView::Object(self.wire_fields()),
    {
        let mut v: Vec<(String, Json)> = Vec::new();
        assert(crate::json::fields(v@) =~= Seq::empty());
        push_field(&mut v, "uri", text(self.uri.as_str()));
        push_field(&mut v, "name", text(self.name.as_str()));
        push_maybe(&mut v, "title", text_if(&self.title));
        push_maybe(&mut v, "description", text_if(&self.description));
        push_maybe(&mut v, "mimeType", text_if(&self.mime_type));
        let size = match self.size {
            Some(n) => Some(Json::Number(Number::Unsigned(n))),
            None => None,
        };
        assert(crate::json::optional(size) == optional_count(self.size));
        push_maybe(&mut v, "size", size);
        push_maybe(&mut v, "icons", list_json_if_any(&self.icons));
        push_maybe(&mut v, "annotations", copy_of(&self.annotations));
        push_maybe(&mut v, "_meta", copy_of(&self.meta));
        assert(crate::json::fields(v@) =~= self.wire_fields());
        object(v)
    }
}

/// A template for the URIs of resources, as clients see it.
#[derive(Debug)]
pub struct ResourceTemplate {
    pub uri_template: String,
    pub name: String,
    pub title: Option<String>,
    pub description: Option<String>,
    pub mime_type: Option<String>,
}

impl ResourceTemplate {
    /// The fields of the template on the wire.
    pub open spec fn wire_fields(self) -> Seq<(Seq<char>, JsonView)> {
        seq![
            ("uriTemplate"@, JsonView::Text(self.uri_template@)),
            ("name"@, JsonView::Text(self.name@)),
        ] + crate::json::maybe("title"@, crate::json::optional_text(self.title))
            + crate::json::maybe("description"@, crate::json::optional_text(self.description))
            + crate::json::maybe("mimeType"@, crate::json::optional_text(self.mime_type))
    }

    /// The template on the wire.
    pub fn to_json(&self) -> (r: Json)
        ensures
            r@ == JsonView::Object(self.wire_fields()),
    {
        let mut v: Vec<(String, Json)> = Vec::new();
        assert(crate::json::fields(v@) =~= Seq::empty());
        push_field(&mut v, "uriTemplate", text(self.uri_template.as_str()));
        push_field(&mut v, "name", text(self.name.as_str()));
        push_maybe(&mut v, "title", text_if(&self.title));
        push_maybe(&mut v, "description", text_if(&self.description));
        push_maybe(&mut v, "mimeType", text_if(&self.mime_type));
        assert(crate::json::fields(v@) =~= self.wire_fields());
        object(v)
    }
}

/// An argument of a prompt.
#[derive(Debug)]
pub struct PromptArgument {
    pub name: String,
    pub description: Option<String>,
    pub required: bool,
}

impl PromptArgument {
    /// The fields of the argument on the wire.
    pub open spec fn wire_fields(self) -> Seq<(Seq<char>, JsonView)> {
        seq![("name"@, JsonView::Text(self.name@))] + crate::json::maybe(
            "description"@,
            crate::json::optional_text(self.description),
        ) + seq![("required"@, JsonView::Bool(self.required))]
    }

    /// The argument on the wire.
    pub fn to_json(&self) -> (r: Json)
        ensures
            r@ == JsonView::Object(self.wire_fields()),
    {
        let mut v: Vec<(String, Json)> = Vec::new();
        assert(crate::json::fields(v@) =~= Seq::empty());
        push_field(&mut v, "name", text(self.name.as_str()));
        push_maybe(&mut v, "description", text_if(&self.description));
        push_field(&mut v, "required", Json::Bool(self.required));
        assert(crate::json::fields(v@) =~= self.wire_fields());
        object(v)
    }
}

/// A prompt, as clients see it.
#[derive(Debug)]
pub struct Prompt {
    pub name: String,
    pub title: Option<String>,
    pub description: Option<String>,
    pub arguments: Vec<PromptArgument>,
    pub icons: Vec<Json>,
    pub meta: Option<Json>,
}

impl Prompt {
    /// The arguments on the wire.
    pub open spec fn argument_list(self) -> Seq<JsonView> {
        self.arguments@.map_values(|a: PromptArgument| JsonView::Object(a.wire_fields()))
    }

    /// The fields of the prompt on the wire.
    pub open spec fn wire_fields(self) -> Seq<(Seq<char>, JsonView)> {
        seq![("name"@, JsonView::Text(self.name@))] + crate::json::maybe(
            "title"@,
            crate::json::optional_text(self.title),
        ) + crate::json::maybe("description"@, crate::json::optional_text(self.description))
            + crate::json::maybe("arguments"@, list_if_any(self.argument_list()))
            + crate::json::maybe("icons"@, list_if_any(crate::json::items(self.icons@)))
            + crate::json::maybe("_meta"@, crate::json::optional(self.meta))
    }

    /// The prompt on the wire.
    pub fn to_json(&self) -> (r: Json)
        ensures
            r@ == JsonView::Object(self.wire_fields()),
    {
        let mut args: Vec<Json> = Vec::new();
        let mut i: usize = 0;
        let ghost wanted = self.argument_list();
        assert(crate::json::items(args@) =~= wanted.take(0));
        while i < self.arguments.len()
            invariant
                i <= self.arguments@.len(),
                wanted == self.argument_list(),
                args@.len() == i,
                crate::json::items(args@) == wanted.take(i as int),
            decreases self.arguments@.len() - i,
        {
            let one = self.arguments[i].to_json();
            let ghost done = args@;
            args.push(one);
            assert(crate::json::items(args@) =~= crate::json::items(done).push(one@));
            assert(wanted.take(i as int + 1) =~= crate::json::items(done).push(one@));
            i = i + 1;
        }
        assert(wanted.take(i as int) =~= wanted);
        let mut v: Vec<(String, Json)> = Vec::new();
        assert(crate::json::fields(v@) =~= Seq::empty());
        push_field(&mut v, "name", text(self.name.as_str()));
        push_maybe(&mut v, "title", text_if(&self.title));
        push_maybe(&mut v, "description", text_if(&self.description));
        push_maybe(&mut v, "arguments", list_json_if_any(&args));
        push_maybe(&mut v, "icons", list_json_if_any(&self.icons));
        push_maybe(&mut v, "_meta", copy_of(&self.meta));
        assert(crate::json::fields(v@) =~= self.wire_fields());
        object(v)
    }
}

/// What a tool returns.
#[derive(Debug)]
pub struct CallToolResult {
    pub content: Vec<Json>,
    pub structured_content: Option<Json>,
    pub is_error: bool,
    pub meta: Option<Json>,
}

/// What a [`CallToolResult`] is.
pub struct CallToolResultView {
    pub content: Seq<JsonView>,
    pub structured_content: Option<JsonView>,
    pub is_error: bool,
    pub meta: Option<JsonView>,
}

impl View for CallToolResult {
    type V = CallToolResultView;

    open spec fn view(&self) -> CallToolResultView {
        CallToolResultView {
            content: crate::json::items(self.content@),
            structured_content: crate::json::optional(self.structured_content),
            is_error: self.is_error,
            meta: crate::json::optional(self.meta),
        }
    }
}

/// A piece of text as content.
pub open spec fn text_content(s: Seq<char>) -> JsonView {
    JsonView::Object(seq![("type"@, JsonView::Text("text"@)), ("text"@, JsonView::Text(s))])
}

/// A piece of text as content.
pub fn content_text(s: &str) -> (r: Json)
    ensures
        r@ == text_content(s@),
{
    let mut v: Vec<(String, Json)> = Vec::new();
    assert(crate::json::fields(v@) =~= Seq::empty());
    push_field(&mut v, "type", text("text"));
    push_field(&mut v, "text", text(s));
    assert(crate::json::fields(v@) =~= text_content(s@)->Object_0);
    object(v)
}

impl CallToolResultView {
    /// A result that is one piece of text.
    pub open spec fn of_text(s: Seq<char>, is_error: bool) -> CallToolResultView {
        CallToolResultView {
            content: seq![text_content(s)],
            structured_content: None,
            is_error,
            meta: None,
        }
    }

    /// The fields of the result on the wire.
    pub open spec fn wire_fields(self) -> Seq<(Seq<char>, JsonView)> {
        seq![("content"@, JsonView::List(self.content))] + crate::json::maybe(
            "structuredContent"@,
            self.structured_content,
        ) + crate::json::maybe(
            "isError"@,
            if self.is_error {
                Some(JsonView::Bool(true))
            } else {
                None
            },
        ) + crate::json::maybe("_meta"@, self.meta)
    }

    /// The result on the wire.
    pub open spec fn json(self) -> JsonView {
        JsonView::Object(self.wire_fields())
    }
}

impl CallToolResult {
    fn of(s: &str, is_error: bool) -> (r: CallToolResult)
        ensures
            r@ == CallToolResultView::of_text(s@, is_error),
    {
        let mut content: Vec<Json> = Vec::new();
        content.push(content_text(s));
        let r = CallToolResult { content, structured_content: None, is_error, meta: None };
        assert(r@.content =~= seq![text_content(s@)]);
        r
    }

    /// A result that is one piece of text.
    pub fn text(s: &str) -> (r: CallToolResult)
        ensures
            r@ == CallToolResultView::of_text(s@, false),
    {
        CallToolResult::of(s, false)
    }

    /// A failure that the model can read.
    pub fn error(s: &str) -> (r: CallToolResult)
        ensures
            r@ == CallToolResultView::of_text(s@, true),
    {
        CallToolResult::of(s, true)
    }

    /// A structured result, with the same in text for clients that read only
    /// that.
    pub fn structured(value: Json) -> (r: CallToolResult)
        ensures
            r@ == (CallToolResultView {
                structured_content: Some(value@),
                ..CallToolResultView::of_text(crate::json::json_written(value@), false)
            }),
    {
        let mut r = CallToolResult::of(crate::json::write(&value).as_str(), false);
        r.structured_content = Some(value);
        r
    }

    /// The result on the wire.
    pub fn to_json(&self) -> (r: Json)
        ensures
            r@ == self@.json(),
    {
        let mut v: Vec<(String, Json)> = Vec::new();
        assert(crate::json::fields(v@) =~= Seq::empty());
        push_field(&mut v, "content", list(copy_all(&self.content)));
        push_maybe(&mut v, "structuredContent", copy_of(&self.structured_content));
        push_maybe(
            &mut v,
            "isError",
            if self.is_error {
                Some(Json::Bool(true))
            } else {
                None
            },
        );
        push_maybe(&mut v, "_meta", copy_of(&self.meta));
        assert(crate::json::fields(v@) =~= self@.wire_fields());
        object(v)
    }
}

} // verus!
