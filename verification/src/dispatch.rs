//! From messages to answers.

use crate::calendar::Timestamp;
use crate::calls::Dispatch;
use crate::json::{empty_object, list, object, push_field, push_maybe, text_if, Json, JsonView};
use crate::log::LogLevel;
use crate::params::{read_prompt, read_text};
use crate::server::{find_entry, find_prompt, Server};
use crate::text::{join3, same_text};
use crate::types::{JsonRpcRequest, McpError, McpErrorView, RequestView};
use vstd::prelude::*;
use vstd::string::*;

verus! {

/// The refusal of a level that does not exist.
pub open spec fn unknown_level(name: Seq<char>) -> McpErrorView {
    McpErrorView::InvalidParams(
        "Unknown log level `"@ + name
            + "`; expected one of: debug, info, notice, warning, error, critical, alert, emergency"@,
    )
}

/// What `logging/setLevel` does. A level that does not exist changes nothing.
pub open spec fn level_step(
    before: Server,
    after: Server,
    params: Option<JsonView>,
    r: Result<JsonView, McpErrorView>,
) -> bool {
    match params {
        None => after == before && r == Err::<JsonView, McpErrorView>(crate::params::missing()),
        Some(j) => match j.get("level"@) {
            Some(JsonView::Text(name)) => {
                ||| exists|level: LogLevel|
                    #[trigger] level.name() == crate::text::lower_all(name) && after == (Server {
                        log_level: level,
                        ..before
                    }) && r == Ok::<JsonView, McpErrorView>(JsonView::Object(Seq::empty()))
                ||| after == before && r == Err::<JsonView, McpErrorView>(unknown_level(name)) && forall|
                    level: LogLevel,
                |
                    #[trigger] level.name() != crate::text::lower_all(name)
            },
            _ => after == before && r == Err::<JsonView, McpErrorView>(
                McpErrorView::InvalidParams("Invalid setLevel params: `level` must be a string"@),
            ),
        },
    }
}

/// What `resources/read` does, up to the reading.
pub open spec fn read_step(server: Server, params: Option<JsonView>, r: Dispatch) -> bool {
    match crate::params::text_param(params, "uri"@) {
        Err(e) => r matches Dispatch::Done(Err(x)) && x@ == e,
        Ok(uri) => {
            let i = crate::server::name_at(crate::server::keys(server.resources@), uri, 0);
            if 0 <= i < server.resources@.len() {
                r matches Dispatch::ReadResource { resource } && resource == i
            } else {
                r matches Dispatch::Done(Err(x)) && x@ == McpErrorView::ResourceNotFound(uri)
            }
        },
    }
}

/// What `prompts/get` does, up to the filling in.
pub open spec fn prompt_step(server: Server, params: Option<JsonView>, r: Dispatch) -> bool {
    match crate::params::prompt_param(params) {
        Err(e) => r matches Dispatch::Done(Err(x)) && x@ == e,
        Ok((name, args)) => {
            let i = crate::server::name_at(
                crate::server::prompt_names(server.prompts@),
                name,
                0,
            );
            if 0 <= i < server.prompts@.len() {
                r matches Dispatch::GetPrompt { prompt, arguments } && prompt == i
                    && crate::text::pairs(arguments@) == args
            } else {
                r matches Dispatch::Done(Err(x)) && x@ == McpErrorView::PromptNotFound(name)
            }
        },
    }
}

/// The answer that a request is settled with, where it is.
pub open spec fn settled_view(r: Dispatch) -> Result<JsonView, McpErrorView> {
    match r {
        Dispatch::Done(x) => crate::types::outcome_view(x),
        _ => Err(McpErrorView::TransportClosed),
    }
}

/// What a request does, up to what is not the server's to do.
pub open spec fn dispatch_step(
    before: Server,
    after: Server,
    request: RequestView,
    now: Timestamp,
    r: Dispatch,
) -> bool {
    let params = request.params;
    let page_size = before.config.page_size as int;
    if request.method == "initialize"@ {
        r is Done && crate::server::initialize_step(before, after, params, settled_view(r))
    } else if request.method == "ping"@ {
        after == before && r is Done && settled_view(r) == Ok::<JsonView, McpErrorView>(
            JsonView::Object(Seq::empty()),
        )
    } else if request.method == "tools/list"@ {
        after == before && r is Done && crate::lists::is_page(
            settled_view(r),
            crate::lists::tool_entries(before.tools@),
            "tools"@,
            params,
            page_size,
        )
    } else if request.method == "tools/call"@ {
        crate::calls::call_step(before, after, params, now, r)
    } else if request.method == "resources/list"@ {
        after == before && r is Done && crate::lists::is_page(
            settled_view(r),
            crate::order::viewed(before.resources@),
            "resources"@,
            params,
            page_size,
        )
    } else if request.method == "resources/templates/list"@ {
        after == before && r is Done && crate::lists::is_page(
            settled_view(r),
            crate::order::viewed(before.resource_templates@),
            "resourceTemplates"@,
            params,
            page_size,
        )
    } else if request.method == "resources/read"@ {
        after == before && read_step(before, params, r)
    } else if request.method == "prompts/list"@ {
        after == before && r is Done && crate::lists::is_page(
            settled_view(r),
            crate::lists::prompt_entries(before.prompts@),
            "prompts"@,
            params,
            page_size,
        )
    } else if request.method == "prompts/get"@ {
        after == before && prompt_step(before, params, r)
    } else if request.method == "logging/setLevel"@ {
        r is Done && level_step(before, after, params, settled_view(r))
    } else if request.method == "tasks/get"@ {
        r is Done && crate::task_requests::get_step(before, after, params, now, settled_view(r))
    } else if request.method == "tasks/result"@ {
        crate::task_requests::result_step(before, after, params, now, r)
    } else if request.method == "tasks/list"@ {
        r is Done && crate::task_requests::list_step(before, after, params, now, settled_view(r))
    } else if request.method == "tasks/cancel"@ {
        r is Done && crate::task_requests::cancel_step(
            before,
            after,
            params,
            now,
            settled_view(r),
        )
    } else {
        after == before && r is Done && settled_view(r) == Err::<JsonView, McpErrorView>(
            McpErrorView::MethodNotFound(request.method),
        )
    }
}

impl Server {
    /// Sets the least severe log record that the client wants.
    pub fn handle_set_level(&mut self, params: &Option<Json>) -> (r: Result<Json, McpError>)
        requires
            old(self).wf(),
        ensures
            final(self).wf(),
            level_step(
                *old(self),
                *final(self),
                crate::json::optional(*params),
                crate::types::outcome_view(r),
            ),
    {
        let j = match params {
            None => {
                return Err(McpError::InvalidParams("Missing params".to_owned()));
            },
            Some(j) => j,
        };
        match j.get("level") {
            Some(Json::Text(name)) => match LogLevel::from_wire(name.as_str()) {
                Some(level) => {
                    self.log_level = level;
                    assert(level.name() == crate::text::lower_all(name@));
                    Ok(empty_object())
                },
                None => Err(
                    McpError::InvalidParams(
                        join3(
                            "Unknown log level `",
                            name.as_str(),
                            "`; expected one of: debug, info, notice, warning, error, critical, alert, emergency",
                        ),
                    ),
                ),
            },
            _ => Err(
                McpError::InvalidParams(
                    "Invalid setLevel params: `level` must be a string".to_owned(),
                ),
            ),
        }
    }

    /// Decides about `resources/read`.
    pub fn handle_read_resource(&self, params: &Option<Json>) -> (r: Dispatch)
        ensures
            read_step(*self, crate::json::optional(*params), r),
    {
        match read_text(params, "uri") {
            Err(e) => Dispatch::Done(Err(e)),
            Ok(uri) => {
                let i = find_entry(&self.resources, uri.as_str());
                if i < self.resources.len() {
                    Dispatch::ReadResource { resource: i }
                } else {
                    Dispatch::Done(Err(McpError::ResourceNotFound(uri)))
                }
            },
        }
    }

    /// Decides about `prompts/get`.
    pub fn handle_get_prompt(&self, params: &Option<Json>) -> (r: Dispatch)
        ensures
            prompt_step(*self, crate::json::optional(*params), r),
    {
        match read_prompt(params) {
            Err(e) => Dispatch::Done(Err(e)),
            Ok((name, arguments)) => {
                let i = find_prompt(&self.prompts, name.as_str());
                if i < self.prompts.len() {
                    Dispatch::GetPrompt { prompt: i, arguments }
                } else {
                    Dispatch::Done(Err(McpError::PromptNotFound(name)))
                }
            },
        }
    }

    /// The answer to `resources/read`.
    pub fn finish_read(&self, contents: Vec<Json>) -> (r: Json)
        ensures
            r@ == JsonView::Object(
                seq![("contents"@, JsonView::List(crate::json::items(contents@)))],
            ),
    {
        let mut v: Vec<(String, Json)> = Vec::new();
        assert(crate::json::fields(v@) =~= Seq::empty());
        let ghost all = crate::json::items(contents@);
        push_field(&mut v, "contents", list(contents));
        assert(crate::json::fields(v@) =~= seq![("contents"@, JsonView::List(all))]);
        object(v)
    }

    /// The answer to `prompts/get`.
    pub fn finish_prompt(&self, prompt: usize, messages: Result<Vec<Json>, McpError>) -> (r: Result<
        Json,
        McpError,
    >)
        requires
            prompt < self.prompts@.len(),
        ensures
            match messages {
                Err(e) => r matches Err(x) && x@ == e@,
                Ok(m) => r matches Ok(j) && j@ == JsonView::Object(
                    crate::json::maybe(
                        "description"@,
                        crate::json::optional_text(self.prompts@[prompt as int].description),
                    ) + seq![("messages"@, JsonView::List(crate::json::items(m@)))],
                ),
            },
    {
        match messages {
            Err(e) => Err(e),
            Ok(m) => {
                let ghost all = crate::json::items(m@);
                let mut v: Vec<(String, Json)> = Vec::new();
                assert(crate::json::fields(v@) =~= Seq::empty());
                push_maybe(&mut v, "description", text_if(&self.prompts[prompt].description));
                push_field(&mut v, "messages", list(m));
                assert(crate::json::fields(v@) =~= crate::json::maybe(
                    "description"@,
                    crate::json::optional_text(self.prompts@[prompt as int].description),
                ) + seq![("messages"@, JsonView::List(all))]);
                Ok(object(v))
            },
        }
    }

    /// Decides about a request.
    pub fn dispatch_request(&mut self, request: &JsonRpcRequest, now: Timestamp) -> (r: Dispatch)
        requires
            old(self).wf(),
        ensures
            final(self).wf(),
            dispatch_step(*old(self), *final(self), request@, now, r),
    {
        let method = request.method.as_str();
        let params = &request.params;
        if same_text(method, "initialize") {
            Dispatch::Done(self.handle_initialize(params))
        } else if same_text(method, "ping") {
            Dispatch::Done(Ok(empty_object()))
        } else if same_text(method, "tools/list") {
            Dispatch::Done(self.handle_list_tools(params))
        } else if same_text(method, "tools/call") {
            self.handle_call_tool(params, now)
        } else if same_text(method, "resources/list") {
            Dispatch::Done(self.handle_list_resources(params))
        } else if same_text(method, "resources/templates/list") {
            Dispatch::Done(self.handle_list_resource_templates(params))
        } else if same_text(method, "resources/read") {
            self.handle_read_resource(params)
        } else if same_text(method, "prompts/list") {
            Dispatch::Done(self.handle_list_prompts(params))
        } else if same_text(method, "prompts/get") {
            self.handle_get_prompt(params)
        } else if same_text(method, "logging/setLevel") {
            Dispatch::Done(self.handle_set_level(params))
        } else if same_text(method, "tasks/get") {
            Dispatch::Done(self.handle_task_get(params, now))
        } else if same_text(method, "tasks/result") {
            self.handle_task_result(params, now)
        } else if same_text(method, "tasks/list") {
            Dispatch::Done(self.handle_task_list(params, now))
        } else if same_text(method, "tasks/cancel") {
            Dispatch::Done(self.handle_task_cancel(params, now))
        } else {
            Dispatch::Done(Err(McpError::MethodNotFound(request.method.clone())))
        }
    }
}

} // verus!
