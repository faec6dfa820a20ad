//! What a server offers: tools, resources and prompts.

use crate::json::Json;
use crate::protocol::{
    CallToolResult, Prompt, PromptArgument, ResourceInfo, TaskSupport, ToolInfo,
};
use crate::types::McpError;
use vstd::prelude::*;
use vstd::string::*;

verus! {

/// A tool. `C` is what the tools of a server share, and `E` is how a tool
/// reaches the client while it runs.
pub trait Tool<C, E>: Send + Sync {
    /// The name, which no other tool of the server has.
    fn name(&self) -> &str;

    /// What the tool does, for people.
    fn description(&self) -> &str;

    /// The JSON Schema of its arguments.
    fn schema(&self) -> Json;

    /// A name for display.
    fn title(&self) -> (r: Option<String>)
        default_ensures
            r is None,
    {
        None
    }

    /// The JSON Schema of its structured output. A tool that has one promises
    /// that every success carries such output, and is held to it.
    fn output_schema(&self) -> (r: Option<Json>)
        default_ensures
            r is None,
    {
        None
    }

    /// Icons for display.
    fn icons(&self) -> (r: Vec<Json>)
        default_ensures
            r@.len() == 0,
    {
        Vec::new()
    }

    /// Whether the tool can run as a task.
    fn task_support(&self) -> (r: TaskSupport)
        default_ensures
            r == TaskSupport::Forbidden,
    {
        TaskSupport::Forbidden
    }

    /// Hints on how the tool behaves.
    fn annotations(&self) -> (r: Option<Json>)
        default_ensures
            r is None,
    {
        None
    }

    /// Protocol metadata.
    fn meta(&self) -> (r: Option<Json>)
        default_ensures
            r is None,
    {
        None
    }

    /// Runs the tool.
    fn execute(&self, args: Json, context: &mut C, env: &E) -> Result<CallToolResult, McpError>;

    /// The tool, as clients see it.
    fn as_protocol_tool(&self) -> (r: ToolInfo)
        default_ensures
            exists|name: &str|
                #[trigger] call_ensures(Self::name, (self,), name) && r.name@ == name@,
            exists|d: &str|
                #[trigger] call_ensures(Self::description, (self,), d) && (r.description matches Some(
                    x,
                ) && x@ == d@),
            call_ensures(Self::schema, (self,), r.input_schema),
            call_ensures(Self::title, (self,), r.title),
            call_ensures(Self::output_schema, (self,), r.output_schema),
            call_ensures(Self::annotations, (self,), r.annotations),
            call_ensures(Self::icons, (self,), r.icons),
            call_ensures(Self::task_support, (self,), r.task_support),
            call_ensures(Self::meta, (self,), r.meta),
    {
        let task_support = self.task_support();
        let name = self.name();
        let title = self.title();
        let description = self.description();
        ToolInfo {
            name: name.to_owned(),
            title,
            description: Some(description.to_owned()),
            input_schema: self.schema(),
            output_schema: self.output_schema(),
            annotations: self.annotations(),
            icons: self.icons(),
            task_support,
            meta: self.meta(),
        }
    }
}

/// A resource.
pub trait Resource: Send + Sync {
    /// The URI, which no other resource of the server has.
    fn uri(&self) -> String;

    /// A name for people.
    fn name(&self) -> String;

    /// What it is, for people.
    fn description(&self) -> String;

    /// The type of its content.
    fn mime_type(&self) -> String;

    /// Its content, item by item.
    fn content(&self) -> Vec<Json>;

    /// A name for display.
    fn title(&self) -> (r: Option<String>)
        default_ensures
            r is None,
    {
        None
    }

    /// How many bytes it has, where that is known without reading it.
    fn size(&self) -> (r: Option<u64>)
        default_ensures
            r is None,
    {
        None
    }

    /// Icons for display.
    fn icons(&self) -> (r: Vec<Json>)
        default_ensures
            r@.len() == 0,
    {
        Vec::new()
    }

    /// Hints on whom it is for.
    fn annotations(&self) -> (r: Option<Json>)
        default_ensures
            r is None,
    {
        None
    }

    /// Protocol metadata.
    fn meta(&self) -> (r: Option<Json>)
        default_ensures
            r is None,
    {
        None
    }

    /// The resource, as clients see it.
    fn as_protocol_resource(&self) -> (r: ResourceInfo)
        default_ensures
            call_ensures(Self::uri, (self,), r.uri),
            call_ensures(Self::name, (self,), r.name),
            call_ensures(Self::title, (self,), r.title),
            r.description matches Some(d) && call_ensures(Self::description, (self,), d),
            r.mime_type matches Some(t) && call_ensures(Self::mime_type, (self,), t),
            call_ensures(Self::size, (self,), r.size),
            call_ensures(Self::icons, (self,), r.icons),
            call_ensures(Self::annotations, (self,), r.annotations),
            call_ensures(Self::meta, (self,), r.meta),
    {
        ResourceInfo {
            uri: self.uri(),
            name: self.name(),
            title: self.title(),
            description: Some(self.description()),
            mime_type: Some(self.mime_type()),
            size: self.size(),
            icons: self.icons(),
            annotations: self.annotations(),
            meta: self.meta(),
        }
    }
}

/// A prompt.
pub trait PromptDef: Send + Sync {
    /// The name, which no other prompt of the server has.
    fn name(&self) -> &str;

    /// What it is, for people.
    fn description(&self) -> Option<&str>;

    /// What it is filled in with.
    fn arguments(&self) -> Vec<PromptArgument>;

    /// Its messages, filled in.
    fn get_messages(&self, args: &Vec<(String, String)>) -> Result<Vec<Json>, McpError>;

    /// A name for display.
    fn title(&self) -> (r: Option<String>)
        default_ensures
            r is None,
    {
        None
    }

    /// Icons for display.
    fn icons(&self) -> (r: Vec<Json>)
        default_ensures
            r@.len() == 0,
    {
        Vec::new()
    }

    /// Protocol metadata.
    fn meta(&self) -> (r: Option<Json>)
        default_ensures
            r is None,
    {
        None
    }

    /// The prompt, as clients see it.
    fn as_protocol_prompt(&self) -> (r: Prompt)
        default_ensures
            exists|name: &str|
                #[trigger] call_ensures(Self::name, (self,), name) && r.name@ == name@,
            call_ensures(Self::title, (self,), r.title),
            exists|d: Option<&str>| #[trigger]
                call_ensures(Self::description, (self,), d) && match (d, r.description) {
                    (Some(d), Some(x)) => x@ == d@,
                    (None, None) => true,
                    _ => false,
                },
            call_ensures(Self::arguments, (self,), r.arguments),
            call_ensures(Self::icons, (self,), r.icons),
            call_ensures(Self::meta, (self,), r.meta),
    {
        let name = self.name();
        let title = self.title();
        let description = self.description();
        let shown = match description {
            Some(d) => Some(d.to_owned()),
            None => None,
        };
        assert(call_ensures(Self::description, (self,), description));
        Prompt {
            name: name.to_owned(),
            title,
            description: shown,
            arguments: self.arguments(),
            icons: self.icons(),
            meta: self.meta(),
        }
    }
}

} // verus!
