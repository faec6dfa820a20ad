//! The server: what it offers, and what it knows of its client.

use crate::broker::RequestBroker;
use crate::calendar::Span;
use crate::capabilities::ClientCapabilities;
use crate::env::{RequestMode, ToolEnv};
use crate::json::{
    copy_all, copy_of, empty_object, list, object, push_field, push_maybe, text, text_if, Json,
    JsonView,
};
use crate::log::{LogLevel, StderrLogging};
use crate::pagination::DEFAULT_PAGE_SIZE;
use crate::params::read_initialize;
use crate::protocol::{
    Entry, EntryView, Prompt, ResourceInfo, ResourceTemplate, TaskSupport, ToolInfo,
    PROTOCOL_VERSION,
};
use crate::tasks::{TaskConfig, TaskStore, TasksCapability};
use crate::text::{join, same_text};
use crate::transport::line::MAX_MESSAGE_BYTES;
use crate::types::{McpError, McpErrorView};
use vstd::prelude::*;
use vstd::string::*;

verus! {

/// The version a server reports unless it is given its own.
pub const VERSION: &'static str = "0.1.0";

/// How a server presents itself, and the bounds it keeps to.
#[derive(Debug)]
pub struct ServerConfig {
    pub name: String,
    pub version: String,
    /// What a model should know about using the server.
    pub instructions: Option<String>,
    pub title: Option<String>,
    pub description: Option<String>,
    pub website_url: Option<String>,
    pub icons: Vec<Json>,
    /// How many items a page of a list has.
    pub page_size: usize,
    /// The revisions of the protocol that are spoken, newest first.
    pub supported_versions: Vec<String>,
    /// The least severe log record that a client gets which never said what it
    /// wants.
    pub default_log_level: LogLevel,
    /// What becomes of log records that the client does not get.
    pub stderr_logging: StderrLogging,
    /// How long a request of the server's own waits for its answer; none means
    /// forever.
    pub request_timeout: Option<Span>,
    /// The longest message that is read.
    pub max_message_bytes: usize,
}

fn default_versions() -> (r: Vec<String>)
    ensures
        crate::text::texts(r@) == seq!["2025-11-25"@, "2025-06-18"@, "2025-03-26"@],
{
    let mut v: Vec<String> = Vec::new();
    v.push("2025-11-25".to_owned());
    v.push("2025-06-18".to_owned());
    v.push("2025-03-26".to_owned());
    assert(crate::text::texts(v@) =~= seq!["2025-11-25"@, "2025-06-18"@, "2025-03-26"@]);
    v
}

impl Default for ServerConfig {
    fn default() -> (r: Self)
        ensures
            r.name@ == "sml_mcps"@,
            r.version@ == VERSION@,
            r.instructions is None,
            r.title is None,
            r.description is None,
            r.website_url is None,
            r.icons@.len() == 0,
            r.page_size == 50,
            crate::text::texts(r.supported_versions@) == seq!["2025-11-25"@, "2025-06-18"@, "2025-03-26"@],
            r.default_log_level == LogLevel::Info,
            r.stderr_logging == StderrLogging::Fallback,
            r.request_timeout == Some(Span { secs: 120, nanos: 0 }),
            r.max_message_bytes == 8_388_608,
    {
        ServerConfig {
            name: "sml_mcps".to_owned(),
            version: VERSION.to_owned(),
            instructions: None,
            title: None,
            description: None,
            website_url: None,
            icons: Vec::new(),
            page_size: DEFAULT_PAGE_SIZE,
            supported_versions: default_versions(),
            default_log_level: LogLevel::Info,
            stderr_logging: StderrLogging::Fallback,
            request_timeout: Some(Span::from_secs(120)),
            max_message_bytes: MAX_MESSAGE_BYTES,
        }
    }
}

/// Whether two optional texts are the same.
pub open spec fn same_words(a: Option<String>, b: Option<String>) -> bool {
    crate::json::optional_text(a) == crate::json::optional_text(b)
}

fn copy_words(s: &Option<String>) -> (r: Option<String>)
    ensures
        same_words(r, *s),
{
    match s {
        Some(s) => Some(s.clone()),
        None => None,
    }
}

fn copy_names(v: &Vec<String>) -> (r: Vec<String>)
    ensures
        crate::text::texts(r@) == crate::text::texts(v@),
{
    let mut out: Vec<String> = Vec::new();
    let mut i: usize = 0;
    assert(crate::text::texts(out@) =~= crate::text::texts(v@).take(0));
    while i < v.len()
        invariant
            i <= v@.len(),
            crate::text::texts(out@) == crate::text::texts(v@).take(i as int),
        decreases v@.len() - i,
    {
        let ghost before = crate::text::texts(out@);
        out.push(v[i].clone());
        i = i + 1;
        assert(crate::text::texts(out@) =~= before.push(v@[i as int - 1]@));
        assert(crate::text::texts(out@) =~= crate::text::texts(v@).take(i as int));
    }
    assert(crate::text::texts(v@).take(i as int) =~= crate::text::texts(v@));
    out
}

impl ServerConfig {
    /// An equal configuration.
    pub fn copy(&self) -> (r: ServerConfig)
        ensures
            r.name@ == self.name@,
            r.version@ == self.version@,
            same_words(r.instructions, self.instructions),
            same_words(r.title, self.title),
            same_words(r.description, self.description),
            same_words(r.website_url, self.website_url),
            crate::json::items(r.icons@) == crate::json::items(self.icons@),
            r.page_size == self.page_size,
            crate::text::texts(r.supported_versions@) == crate::text::texts(
                self.supported_versions@,
            ),
            r.default_log_level == self.default_log_level,
            r.stderr_logging == self.stderr_logging,
            r.request_timeout == self.request_timeout,
            r.max_message_bytes == self.max_message_bytes,
    {
        ServerConfig {
            name: self.name.clone(),
            version: self.version.clone(),
            instructions: copy_words(&self.instructions),
            title: copy_words(&self.title),
            description: copy_words(&self.description),
            website_url: copy_words(&self.website_url),
            icons: copy_all(&self.icons),
            page_size: self.page_size,
            supported_versions: copy_names(&self.supported_versions),
            default_log_level: self.default_log_level,
            stderr_logging: self.stderr_logging,
            request_timeout: self.request_timeout,
            max_message_bytes: self.max_message_bytes,
        }
    }
}

/// What the server keeps of a tool.
#[derive(Debug)]
pub struct ToolEntry {
    pub name: String,
    /// The tool as it is listed.
    pub wire: Json,
    pub task_support: TaskSupport,
    /// What the tool promises of its structured output.
    pub output_schema: Option<Json>,
}

/// What the server keeps of a prompt.
#[derive(Debug)]
pub struct PromptEntry {
    pub name: String,
    /// The prompt as it is listed.
    pub wire: Json,
    pub description: Option<String>,
}

/// Whose tasks a request may see.
#[derive(Debug)]
pub enum TaskContext {
    /// There is one client, and every task is its own.
    Local,
    /// Clients cannot be told apart. A task is found by whoever knows its id,
    /// and no list of tasks is given out.
    Anonymous,
    /// The client is known, and sees its own tasks only.
    Owner(String),
}

/// The owner of the tasks that are seen and created.
pub open spec fn context_owner(c: TaskContext) -> Option<Seq<char>> {
    match c {
        TaskContext::Owner(o) => Some(o@),
        _ => None,
    }
}

/// A server.
#[derive(Debug)]
pub struct Server {
    pub config: ServerConfig,
    pub tools: Vec<ToolEntry>,
    pub resources: Vec<Entry>,
    pub resource_templates: Vec<Entry>,
    pub prompts: Vec<PromptEntry>,
    /// Whether there is anything to send messages through.
    pub has_transport: bool,
    /// Whether the transport can be read while a task is waited for.
    pub can_pump: bool,
    /// Whether a client has introduced itself.
    pub initialized: bool,
    /// The revision agreed on.
    pub negotiated_version: Option<String>,
    /// The least severe log record that the client wants.
    pub log_level: LogLevel,
    /// What the client said it can do.
    pub client_capabilities: ClientCapabilities,
    /// Where answers to the server's own requests are.
    pub broker: RequestBroker,
    /// The tasks, where calls may become tasks.
    pub tasks: Option<TaskStore>,
    /// Whose tasks the current request may see.
    pub task_context: TaskContext,
}

/// The names of the tools.
pub open spec fn tool_names(v: Seq<ToolEntry>) -> Seq<Seq<char>> {
    v.map_values(|t: ToolEntry| t.name@)
}

/// The keys of a list of entries.
pub open spec fn keys(v: Seq<Entry>) -> Seq<Seq<char>> {
    v.map_values(|e: Entry| e.key@)
}

/// The names of the prompts.
pub open spec fn prompt_names(v: Seq<PromptEntry>) -> Seq<Seq<char>> {
    v.map_values(|p: PromptEntry| p.name@)
}

/// The position of a name, or the length.
pub open spec fn name_at(names: Seq<Seq<char>>, name: Seq<char>, from: int) -> int
    decreases names.len() - from,
{
    if from >= names.len() {
        names.len() as int
    } else if names[from] == name {
        from
    } else {
        name_at(names, name, from + 1)
    }
}

/// What `name_at` finds.
pub proof fn lemma_name_at(names: Seq<Seq<char>>, name: Seq<char>, from: int)
    requires
        0 <= from <= names.len(),
    ensures
        from <= name_at(names, name, from) <= names.len(),
        name_at(names, name, from) < names.len() ==> names[name_at(names, name, from)] == name,
        name_at(names, name, from) == names.len() ==> forall|k: int|
            from <= k < names.len() ==> names[k] != name,
    decreases names.len() - from,
{
    if from < names.len() && names[from] != name {
        lemma_name_at(names, name, from + 1);
    }
}

/// Whether a name is taken.
pub open spec fn taken(names: Seq<Seq<char>>, name: Seq<char>) -> bool {
    name_at(names, name, 0) < names.len()
}

pub fn find_tool(v: &Vec<ToolEntry>, name: &str) -> (r: usize)
    ensures
        r == name_at(tool_names(v@), name@, 0),
        r <= v@.len(),
{
    let ghost names = tool_names(v@);
    let mut i: usize = 0;
    while i < v.len()
        invariant
            i <= v@.len(),
            names == tool_names(v@),
            name_at(names, name@, 0) == name_at(names, name@, i as int),
        decreases v@.len() - i,
    {
        assert(names[i as int] == v@[i as int].name@);
        if same_text(v[i].name.as_str(), name) {
            return i;
        }
        i = i + 1;
    }
    i
}

pub fn find_entry(v: &Vec<Entry>, key: &str) -> (r: usize)
    ensures
        r == name_at(keys(v@), key@, 0),
        r <= v@.len(),
{
    let ghost names = keys(v@);
    let mut i: usize = 0;
    while i < v.len()
        invariant
            i <= v@.len(),
            names == keys(v@),
            name_at(names, key@, 0) == name_at(names, key@, i as int),
        decreases v@.len() - i,
    {
        assert(names[i as int] == v@[i as int].key@);
        if same_text(v[i].key.as_str(), key) {
            return i;
        }
        i = i + 1;
    }
    i
}

pub fn find_prompt(v: &Vec<PromptEntry>, name: &str) -> (r: usize)
    ensures
        r == name_at(prompt_names(v@), name@, 0),
        r <= v@.len(),
{
    let ghost names = prompt_names(v@);
    let mut i: usize = 0;
    while i < v.len()
        invariant
            i <= v@.len(),
            names == prompt_names(v@),
            name_at(names, name@, 0) == name_at(names, name@, i as int),
        decreases v@.len() - i,
    {
        assert(names[i as int] == v@[i as int].name@);
        if same_text(v[i].name.as_str(), name) {
            return i;
        }
        i = i + 1;
    }
    i
}

/// No name stands for two things.
pub open spec fn all_differ(names: Seq<Seq<char>>) -> bool {
    forall|i: int, j: int|
        0 <= i < j < names.len() ==> (#[trigger] names[i]) != (#[trigger] names[j])
}

/// The refusal of a name that is taken.
pub open spec fn duplicate(what: Seq<char>, name: Seq<char>) -> McpErrorView {
    McpErrorView::Internal("Duplicate "@ + what + ": "@ + name)
}

fn duplicate_error(what: &str, name: &str) -> (r: McpError)
    ensures
        r@ == duplicate(what@, name@),
{
    let mut m = join("Duplicate ", what);
    m.append(": ");
    m.append(name);
    McpError::Internal(m)
}

/// Adding a name that is not taken keeps all names different.
proof fn lemma_new_name(names: Seq<Seq<char>>, name: Seq<char>)
    requires
        all_differ(names),
        !taken(names, name),
    ensures
        all_differ(names.push(name)),
{
    lemma_name_at(names, name, 0);
}

/// Whether a tool was added, or refused because its name is taken.
pub open spec fn tool_added(
    before: Server,
    after: Server,
    tool: ToolInfo,
    r: Result<(), McpErrorView>,
) -> bool {
    match r {
        Ok(_) => {
            &&& !taken(tool_names(before.tools@), tool.name@)
            &&& after.tools@.len() == before.tools@.len() + 1
            &&& after.tools@.drop_last() == before.tools@
            &&& after.tools@.last().name@ == tool.name@
            &&& after.tools@.last().wire@ == JsonView::Object(tool.wire_fields())
            &&& after.tools@.last().task_support == tool.task_support
            &&& crate::json::optional(after.tools@.last().output_schema)
                == crate::json::optional(tool.output_schema)
            &&& after == (Server { tools: after.tools, ..before })
        },
        Err(e) => taken(tool_names(before.tools@), tool.name@) && e == duplicate(
            "tool"@,
            tool.name@,
        ) && after == before,
    }
}

/// Whether a resource was added, or refused because its URI is taken.
pub open spec fn resource_added(
    before: Server,
    after: Server,
    resource: ResourceInfo,
    r: Result<(), McpErrorView>,
) -> bool {
    match r {
        Ok(_) => {
            &&& !taken(keys(before.resources@), resource.uri@)
            &&& after.resources@.len() == before.resources@.len() + 1
            &&& after.resources@.drop_last() == before.resources@
            &&& after.resources@.last()@ == (EntryView {
                key: resource.uri@,
                wire: JsonView::Object(resource.wire_fields()),
            })
            &&& after == (Server {
                resources: after.resources,
                ..before
            })
        },
        Err(e) => taken(keys(before.resources@), resource.uri@) && e == duplicate(
            "resource"@,
            resource.uri@,
        ) && after == before,
    }
}

/// Whether a template was added, or refused because its URI is taken.
pub open spec fn template_added(
    before: Server,
    after: Server,
    template: ResourceTemplate,
    r: Result<(), McpErrorView>,
) -> bool {
    match r {
        Ok(_) => {
            &&& !taken(keys(before.resource_templates@), template.uri_template@)
            &&& after.resource_templates@.len() == before.resource_templates@.len()
                + 1
            &&& after.resource_templates@.drop_last()
                == before.resource_templates@
            &&& after.resource_templates@.last()@ == (EntryView {
                key: template.uri_template@,
                wire: JsonView::Object(template.wire_fields()),
            })
            &&& after == (Server {
                resource_templates: after.resource_templates,
                ..before
            })
        },
        Err(e) => taken(keys(before.resource_templates@), template.uri_template@) && e
            == duplicate("resource template"@, template.uri_template@) && after
            == before,
    }
}

/// Whether a prompt was added, or refused because its name is taken.
pub open spec fn prompt_added(
    before: Server,
    after: Server,
    prompt: Prompt,
    r: Result<(), McpErrorView>,
) -> bool {
    match r {
        Ok(_) => {
            &&& !taken(prompt_names(before.prompts@), prompt.name@)
            &&& after.prompts@.len() == before.prompts@.len() + 1
            &&& after.prompts@.drop_last() == before.prompts@
            &&& after.prompts@.last().name@ == prompt.name@
            &&& after.prompts@.last().wire@ == JsonView::Object(prompt.wire_fields())
            &&& crate::json::optional_text(after.prompts@.last().description)
                == crate::json::optional_text(prompt.description)
            &&& after == (Server { prompts: after.prompts, ..before })
        },
        Err(e) => taken(prompt_names(before.prompts@), prompt.name@) && e == duplicate(
            "prompt"@,
            prompt.name@,
        ) && after == before,
    }
}

/// What adding something came to.
pub open spec fn said(r: Result<(), McpError>) -> Result<(), McpErrorView> {
    match r {
        Ok(_) => Ok(()),
        Err(e) => Err(e@),
    }
}

/// Whether calls may become tasks from here on.
pub open spec fn tasks_enabled(before: Server, after: Server, config: TaskConfig) -> bool {
    &&& after.offers_as(&before)
    &&& after.session_as(&before)
    &&& after.broker == before.broker
    &&& after.tasks matches Some(store) && store.limits() == config && store@.len() == 0
        && store.stopping() == Set::<Seq<char>>::empty()
}

/// The server with a transport that can do this.
pub open spec fn attached(before: Server, honors_deadlines: bool, splits: bool) -> Server {
    Server { has_transport: true, can_pump: honors_deadlines && splits, ..before }
}

impl Server {
    /// Nothing is offered twice, and the tasks and the requests are in order.
    pub open spec fn wf(&self) -> bool {
        &&& all_differ(tool_names(self.tools@))
        &&& all_differ(keys(self.resources@))
        &&& all_differ(keys(self.resource_templates@))
        &&& all_differ(prompt_names(self.prompts@))
        &&& self.tasks matches Some(store) ==> store.wf()
        &&& self.broker@.wf()
    }

    /// What is offered is the same, and so is everything else but what a
    /// request may change.
    pub open spec fn offers_as(&self, other: &Server) -> bool {
        &&& self.config == other.config
        &&& self.tools == other.tools
        &&& self.resources == other.resources
        &&& self.resource_templates == other.resource_templates
        &&& self.prompts == other.prompts
        &&& self.has_transport == other.has_transport
        &&& self.can_pump == other.can_pump
        &&& self.task_context == other.task_context
    }

    /// What is known of the client is the same.
    pub open spec fn session_as(&self, other: &Server) -> bool {
        &&& self.initialized == other.initialized
        &&& self.negotiated_version == other.negotiated_version
        &&& self.log_level == other.log_level
        &&& self.client_capabilities == other.client_capabilities
    }

    /// A server that offers nothing yet.
    pub fn new(config: ServerConfig) -> (r: Server)
        ensures
            r.wf(),
            r.config == config,
            r.tools@.len() == 0,
            r.resources@.len() == 0,
            r.resource_templates@.len() == 0,
            r.prompts@.len() == 0,
            !r.has_transport,
            !r.can_pump,
            !r.initialized,
            r.negotiated_version is None,
            r.log_level == config.default_log_level,
            r.client_capabilities == crate::capabilities::no_capabilities(),
            r.broker@.issued == 0,
            r.broker@.deferred.len() == 0,
            r.tasks is None,
            r.task_context is Local,
    {
        let log_level = config.default_log_level;
        Server {
            config,
            tools: Vec::new(),
            resources: Vec::new(),
            resource_templates: Vec::new(),
            prompts: Vec::new(),
            has_transport: false,
            can_pump: false,
            initialized: false,
            negotiated_version: None,
            log_level,
            client_capabilities: ClientCapabilities::default(),
            broker: RequestBroker::new(),
            tasks: None,
            task_context: TaskContext::Local,
        }
    }

    /// Lets calls become tasks.
    pub fn enable_tasks(&mut self, config: TaskConfig)
        requires
            old(self).wf(),
        ensures
            final(self).wf(),
            tasks_enabled(*old(self), *final(self), config),
    {
        self.tasks = Some(TaskStore::new(config));
    }

    /// The tasks, where calls may become tasks.
    pub fn task_store(&self) -> (r: Option<&TaskStore>)
        ensures
            match r {
                Some(store) => self.tasks == Some(*store),
                None => self.tasks is None,
            },
    {
        match &self.tasks {
            Some(store) => Some(store),
            None => None,
        }
    }

    /// Notes what the transport can do. Asking the client something from inside
    /// a task takes one that can be split and whose reads can be bounded.
    pub fn attach(&mut self, honors_deadlines: bool, splits: bool)
        requires
            old(self).wf(),
        ensures
            final(self).wf(),
            *final(self) == attached(*old(self), honors_deadlines, splits),
    {
        self.has_transport = true;
        self.can_pump = honors_deadlines && splits;
    }

    /// Adds a tool.
    pub fn add_tool(&mut self, tool: ToolInfo) -> (r: Result<(), McpError>)
        requires
            old(self).wf(),
        ensures
            final(self).wf(),
            tool_added(*old(self), *final(self), tool, said(r)),
    {
        if find_tool(&self.tools, tool.name.as_str()) < self.tools.len() {
            return Err(duplicate_error("tool", tool.name.as_str()));
        }
        proof {
            lemma_new_name(tool_names(self.tools@), tool.name@);
        }
        let ghost names = tool_names(self.tools@);
        let wire = tool.to_json();
        self.tools.push(
            ToolEntry {
                name: tool.name.clone(),
                wire,
                task_support: tool.task_support,
                output_schema: copy_of(&tool.output_schema),
            },
        );
        assert(tool_names(self.tools@) =~= names.push(tool.name@));
        assert(self.tools@.drop_last() =~= old(self).tools@);
        Ok(())
    }

    /// Adds a resource.
    pub fn add_resource(&mut self, resource: ResourceInfo) -> (r: Result<(), McpError>)
        requires
            old(self).wf(),
        ensures
            final(self).wf(),
            resource_added(*old(self), *final(self), resource, said(r)),
    {
        if find_entry(&self.resources, resource.uri.as_str()) < self.resources.len() {
            return Err(duplicate_error("resource", resource.uri.as_str()));
        }
        proof {
            lemma_new_name(keys(self.resources@), resource.uri@);
        }
        let ghost names = keys(self.resources@);
        let wire = resource.to_json();
        self.resources.push(Entry { key: resource.uri.clone(), wire });
        assert(keys(self.resources@) =~= names.push(resource.uri@));
        assert(self.resources@.drop_last() =~= old(self).resources@);
        Ok(())
    }

    /// Adds a template for the URIs of resources.
    pub fn add_resource_template(&mut self, template: ResourceTemplate) -> (r: Result<(), McpError>)
        requires
            old(self).wf(),
        ensures
            final(self).wf(),
            template_added(*old(self), *final(self), template, said(r)),
    {
        if find_entry(&self.resource_templates, template.uri_template.as_str())
            < self.resource_templates.len() {
            return Err(duplicate_error("resource template", template.uri_template.as_str()));
        }
        proof {
            lemma_new_name(keys(self.resource_templates@), template.uri_template@);
        }
        let ghost names = keys(self.resource_templates@);
        let wire = template.to_json();
        self.resource_templates.push(Entry { key: template.uri_template.clone(), wire });
        assert(keys(self.resource_templates@) =~= names.push(template.uri_template@));
        assert(self.resource_templates@.drop_last() =~= old(self).resource_templates@);
        Ok(())
    }

    /// Adds a prompt.
    pub fn add_prompt(&mut self, prompt: Prompt) -> (r: Result<(), McpError>)
        requires
            old(self).wf(),
        ensures
            final(self).wf(),
            prompt_added(*old(self), *final(self), prompt, said(r)),
    {
        if find_prompt(&self.prompts, prompt.name.as_str()) < self.prompts.len() {
            return Err(duplicate_error("prompt", prompt.name.as_str()));
        }
        proof {
            lemma_new_name(prompt_names(self.prompts@), prompt.name@);
        }
        let ghost names = prompt_names(self.prompts@);
        let wire = prompt.to_json();
        let description = match &prompt.description {
            Some(d) => Some(d.clone()),
            None => None,
        };
        self.prompts.push(PromptEntry { name: prompt.name.clone(), wire, description });
        assert(prompt_names(self.prompts@) =~= names.push(prompt.name@));
        assert(self.prompts@.drop_last() =~= old(self).prompts@);
        Ok(())
    }
}

/// The revision agreed on: the one asked for where it is spoken, else the
/// newest that is.
pub open spec fn negotiated(supported: Seq<Seq<char>>, wanted: Seq<char>) -> Seq<char> {
    if taken(supported, wanted) {
        wanted
    } else if supported.len() > 0 {
        supported[0]
    } else {
        PROTOCOL_VERSION@
    }
}

/// An object with nothing in it, where there is reason for one.
pub open spec fn object_if(b: bool) -> Option<JsonView> {
    if b {
        Some(JsonView::Object(Seq::empty()))
    } else {
        None
    }
}

/// What is declared of tasks. Lists of tasks are declared only where clients
/// can be told apart.
pub open spec fn task_capability(listable: bool) -> JsonView {
    JsonView::Object(
        crate::json::maybe("list"@, object_if(listable)) + seq![
            ("cancel"@, JsonView::Object(Seq::empty())),
            (
                "requests"@,
                JsonView::Object(
                    seq![
                        (
                            "tools"@,
                            JsonView::Object(seq![("call"@, JsonView::Object(Seq::empty()))]),
                        ),
                    ],
                ),
            ),
        ],
    )
}

impl Server {
    /// What the server declares that it can do.
    pub open spec fn capability_fields(&self) -> Seq<(Seq<char>, JsonView)> {
        crate::json::maybe("tools"@, object_if(self.tools@.len() > 0)) + crate::json::maybe(
            "resources"@,
            object_if(self.resources@.len() > 0 || self.resource_templates@.len() > 0),
        ) + crate::json::maybe("prompts"@, object_if(self.prompts@.len() > 0)) + seq![
            ("logging"@, JsonView::Object(Seq::empty())),
        ] + crate::json::maybe(
            "tasks"@,
            if self.tasks is Some {
                Some(task_capability(!(self.task_context is Anonymous)))
            } else {
                None
            },
        )
    }

    /// How the server presents itself.
    pub open spec fn info_fields(&self) -> Seq<(Seq<char>, JsonView)> {
        seq![
            ("name"@, JsonView::Text(self.config.name@)),
            ("version"@, JsonView::Text(self.config.version@)),
        ] + crate::json::maybe("title"@, crate::json::optional_text(self.config.title))
            + crate::json::maybe(
            "description"@,
            crate::json::optional_text(self.config.description),
        ) + crate::json::maybe(
            "icons"@,
            crate::protocol::list_if_any(crate::json::items(self.config.icons@)),
        ) + crate::json::maybe("websiteUrl"@, crate::json::optional_text(self.config.website_url))
    }

    /// The answer to a client that introduced itself and asked for a revision.
    pub open spec fn welcome(&self, wanted: Seq<char>) -> JsonView {
        JsonView::Object(
            seq![
                (
                    "protocolVersion"@,
                    JsonView::Text(negotiated(crate::text::texts(self.config.supported_versions@), wanted)),
                ),
                ("capabilities"@, JsonView::Object(self.capability_fields())),
                ("serverInfo"@, JsonView::Object(self.info_fields())),
            ] + crate::json::maybe(
                "instructions"@,
                crate::json::optional_text(self.config.instructions),
            ),
        )
    }

    fn negotiate(&self, wanted: &str) -> (r: String)
        ensures
            r@ == negotiated(crate::text::texts(self.config.supported_versions@), wanted@),
    {
        let ghost all = crate::text::texts(self.config.supported_versions@);
        let mut i: usize = 0;
        while i < self.config.supported_versions.len()
            invariant
                i <= self.config.supported_versions@.len(),
                all == crate::text::texts(self.config.supported_versions@),
                name_at(all, wanted@, 0) == name_at(all, wanted@, i as int),
            decreases self.config.supported_versions@.len() - i,
        {
            assert(all[i as int] == self.config.supported_versions@[i as int]@);
            if same_text(self.config.supported_versions[i].as_str(), wanted) {
                return wanted.to_owned();
            }
            i = i + 1;
        }
        if self.config.supported_versions.len() > 0 {
            assert(all[0] == self.config.supported_versions@[0]@);
            self.config.supported_versions[0].clone()
        } else {
            PROTOCOL_VERSION.to_owned()
        }
    }

    fn capabilities_json(&self) -> (r: Json)
        ensures
            r@ == JsonView::Object(self.capability_fields()),
    {
        let mut v: Vec<(String, Json)> = Vec::new();
        assert(crate::json::fields(v@) =~= Seq::empty());
        push_maybe(&mut v, "tools", empty_if(self.tools.len() > 0));
        push_maybe(
            &mut v,
            "resources",
            empty_if(self.resources.len() > 0 || self.resource_templates.len() > 0),
        );
        push_maybe(&mut v, "prompts", empty_if(self.prompts.len() > 0));
        push_field(&mut v, "logging", empty_object());
        let tasks = if self.tasks.is_some() {
            let listable = match self.task_context {
                TaskContext::Anonymous => false,
                _ => true,
            };
            Some(task_capability_json(listable))
        } else {
            None
        };
        push_maybe(&mut v, "tasks", tasks);
        assert(crate::json::fields(v@) =~= self.capability_fields());
        object(v)
    }

    fn server_info(&self) -> (r: Json)
        ensures
            r@ == JsonView::Object(self.info_fields()),
    {
        let mut v: Vec<(String, Json)> = Vec::new();
        assert(crate::json::fields(v@) =~= Seq::empty());
        push_field(&mut v, "name", text(self.config.name.as_str()));
        push_field(&mut v, "version", text(self.config.version.as_str()));
        push_maybe(&mut v, "title", text_if(&self.config.title));
        push_maybe(&mut v, "description", text_if(&self.config.description));
        let icons = if self.config.icons.len() == 0 {
            None
        } else {
            Some(list(copy_all(&self.config.icons)))
        };
        assert(crate::json::items(self.config.icons@).len() == self.config.icons@.len());
        push_maybe(&mut v, "icons", icons);
        push_maybe(&mut v, "websiteUrl", text_if(&self.config.website_url));
        assert(crate::json::fields(v@) =~= self.info_fields());
        object(v)
    }

    /// Answers a client that introduces itself, and remembers what it can do.
    pub fn handle_initialize(&mut self, params: &Option<Json>) -> (r: Result<Json, McpError>)
        requires
            old(self).wf(),
        ensures
            final(self).wf(),
            initialize_step(
                *old(self),
                *final(self),
                crate::json::optional(*params),
                crate::types::outcome_view(r),
            ),
    {
        let (wanted, capabilities) = match read_initialize(params) {
            Ok(pair) => pair,
            Err(e) => {
                return Err(e);
            },
        };
        self.client_capabilities = capabilities;
        self.initialized = true;
        let version = self.negotiate(wanted.as_str());
        self.negotiated_version = Some(version.clone());
        let mut v: Vec<(String, Json)> = Vec::new();
        assert(crate::json::fields(v@) =~= Seq::empty());
        push_field(&mut v, "protocolVersion", text(version.as_str()));
        push_field(&mut v, "capabilities", self.capabilities_json());
        push_field(&mut v, "serverInfo", self.server_info());
        push_maybe(&mut v, "instructions", text_if(&self.config.instructions));
        assert(crate::json::fields(v@) =~= old(self).welcome(wanted@)->Object_0);
        Ok(object(v))
    }

    /// What a tool can do that runs on the server's own thread.
    pub fn tool_env(&self) -> (r: ToolEnv)
        ensures
            r.has_transport == self.has_transport,
            crate::text::texts(r.resources@) == keys(self.resources@),
            r.log_level == self.log_level,
            r.stderr_logging == self.config.stderr_logging,
            r.logger@ == self.config.name@,
            r.client_capabilities == self.client_capabilities,
            r.mode == RequestMode::Direct,
            r.request_timeout == self.config.request_timeout,
            r.task_id is None,
    {
        ToolEnv {
            has_transport: self.has_transport,
            resources: self.resource_uris(),
            log_level: self.log_level,
            stderr_logging: self.config.stderr_logging,
            logger: self.config.name.clone(),
            client_capabilities: self.client_capabilities,
            mode: RequestMode::Direct,
            request_timeout: self.config.request_timeout,
            task_id: None,
        }
    }

    /// What a tool can do that runs as a task. It can ask the client something
    /// only where somebody reads the transport meanwhile.
    pub fn task_env(&self, task_id: &str) -> (r: ToolEnv)
        ensures
            r.has_transport == self.has_transport,
            crate::text::texts(r.resources@) == keys(self.resources@),
            r.log_level == self.log_level,
            r.stderr_logging == self.config.stderr_logging,
            r.logger@ == self.config.name@,
            r.client_capabilities == (if self.can_pump {
                self.client_capabilities
            } else {
                crate::capabilities::no_capabilities()
            }),
            r.mode == (if self.can_pump {
                RequestMode::Delegated
            } else {
                RequestMode::Forbidden
            }),
            r.request_timeout == self.config.request_timeout,
            r.task_id matches Some(id) && id@ == task_id@,
    {
        ToolEnv {
            has_transport: self.has_transport,
            resources: self.resource_uris(),
            log_level: self.log_level,
            stderr_logging: self.config.stderr_logging,
            logger: self.config.name.clone(),
            client_capabilities: if self.can_pump {
                self.client_capabilities
            } else {
                ClientCapabilities::default()
            },
            mode: if self.can_pump {
                RequestMode::Delegated
            } else {
                RequestMode::Forbidden
            },
            request_timeout: self.config.request_timeout,
            task_id: Some(task_id.to_owned()),
        }
    }

    fn resource_uris(&self) -> (r: Vec<String>)
        ensures
            crate::text::texts(r@) == keys(self.resources@),
    {
        let mut v: Vec<String> = Vec::new();
        let mut i: usize = 0;
        assert(crate::text::texts(v@) =~= keys(self.resources@).take(0));
        while i < self.resources.len()
            invariant
                i <= self.resources@.len(),
                crate::text::texts(v@) == keys(self.resources@).take(i as int),
            decreases self.resources@.len() - i,
        {
            let ghost before = crate::text::texts(v@);
            v.push(self.resources[i].key.clone());
            i = i + 1;
            assert(crate::text::texts(v@) =~= before.push(self.resources@[i as int - 1].key@));
            assert(crate::text::texts(v@) =~= keys(self.resources@).take(i as int));
        }
        assert(keys(self.resources@).take(i as int) =~= keys(self.resources@));
        v
    }
}

/// What `initialize` does: the client is welcomed, and what it can do is
/// remembered. One that makes no sense changes nothing.
pub open spec fn initialize_step(
    before: Server,
    after: Server,
    params: Option<JsonView>,
    r: Result<JsonView, McpErrorView>,
) -> bool {
    &&& after.offers_as(&before)
    &&& after.tasks == before.tasks
    &&& after.broker == before.broker
    &&& match crate::params::initialize_param(params) {
        Ok((wanted, capabilities)) => {
            &&& r == Ok::<JsonView, McpErrorView>(before.welcome(wanted))
            &&& after.initialized
            &&& after.client_capabilities == capabilities
            &&& after.log_level == before.log_level
            &&& after.negotiated_version matches Some(v) && v@ == negotiated(
                crate::text::texts(before.config.supported_versions@),
                wanted,
            )
        },
        Err(e) => r == Err::<JsonView, McpErrorView>(e) && after.session_as(&before),
    }
}

fn empty_if(b: bool) -> (r: Option<Json>)
    ensures
        crate::json::optional(r) == object_if(b),
{
    if b {
        Some(empty_object())
    } else {
        None
    }
}

fn single(key: &str, value: Json) -> (r: Json)
    ensures
        r@ == JsonView::Object(seq![(key@, value@)]),
{
    let mut v: Vec<(String, Json)> = Vec::new();
    assert(crate::json::fields(v@) =~= Seq::empty());
    push_field(&mut v, key, value);
    assert(crate::json::fields(v@) =~= seq![(key@, value@)]);
    object(v)
}

fn task_capability_json(listable: bool) -> (r: Json)
    ensures
        r@ == task_capability(listable),
{
    let declared = TasksCapability {
        list: empty_if(listable),
        cancel: Some(empty_object()),
        requests: Some(single("tools", single("call", empty_object()))),
    };
    assert(declared.wire_fields() =~= task_capability(listable)->Object_0);
    declared.to_json()
}

/// A revision that is spoken is agreed to, and whatever is asked for, a
/// revision is agreed on that is spoken.
pub proof fn law_a_spoken_revision_is_agreed_to(supported: Seq<Seq<char>>, wanted: Seq<char>)
    ensures
        supported.contains(wanted) ==> negotiated(supported, wanted) == wanted,
        supported.len() > 0 ==> supported.contains(negotiated(supported, wanted)),
        supported.len() > 0 && !supported.contains(wanted) ==> negotiated(supported, wanted)
            == supported[0],
{
    lemma_name_at(supported, wanted, 0);
    if supported.contains(wanted) {
        let k = choose|k: int| 0 <= k < supported.len() && supported[k] == wanted;
        assert(supported[k] == wanted);
    }
    if supported.len() > 0 {
        assert(supported.contains(supported[0]));
    }
}

} // verus!
