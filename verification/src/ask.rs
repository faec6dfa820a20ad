//! What a tool can ask of the client, and what the answers are.

use crate::capabilities::{ClientCapabilities, ElicitationMode};
use crate::env::ToolEnv;
use crate::json::{
    copy_of, empty_object, object, push_field, push_maybe, text, text_if, Json, JsonView,
};
use crate::text::{chars_between, chars_of, join3, same_text};
use crate::transport::origin::{find_scheme_end, is_scheme_text};
use crate::types::{given_field, JsonRpcMessage, McpError, McpErrorView, MessageView};
use vstd::prelude::*;
use vstd::string::*;

verus! {

/// A question to the client: a method and its parameters.
#[derive(Debug)]
pub struct Ask {
    pub method: String,
    pub params: Json,
}

/// A request for input from the user.
#[derive(Debug)]
pub struct ElicitParams {
    pub mode: ElicitationMode,
    pub message: String,
    /// What a form asks for.
    pub requested_schema: Option<Json>,
    /// Where the user is sent.
    pub url: Option<String>,
    /// What ties the request to its completion.
    pub elicitation_id: Option<String>,
}

/// A text that can be gone to: a scheme, `://`, and something after it.
pub open spec fn is_url(s: Seq<char>) -> bool {
    let at = crate::transport::origin::scheme_end(s, 0);
    at >= 0 && crate::transport::origin::is_scheme(s.take(at)) && at + 3 < s.len()
}

fn is_url_text(s: &str) -> (r: bool)
    ensures
        r == is_url(s@),
{
    let c = chars_of(s);
    let end = c.len();
    match find_scheme_end(&c) {
        None => false,
        Some(at) => {
            let scheme = chars_between(&c, 0, at);
            assert(scheme@ =~= c@.take(at as int));
            is_scheme_text(&scheme) && at + 3 < end
        },
    }
}

/// The name of a mode, as it is declared.
pub open spec fn mode_word(mode: ElicitationMode) -> Seq<char> {
    match mode {
        ElicitationMode::Form => "Form"@,
        ElicitationMode::Url => "Url"@,
    }
}

/// The name of a mode on the wire.
pub open spec fn mode_name(mode: ElicitationMode) -> Seq<char> {
    match mode {
        ElicitationMode::Form => "form"@,
        ElicitationMode::Url => "url"@,
    }
}

impl ElicitParams {
    /// What is wrong with the request, if anything: a form needs a schema, and
    /// a detour needs somewhere to go and an id to be told apart by.
    pub open spec fn problem(self) -> Option<Seq<char>> {
        match self.mode {
            ElicitationMode::Form => match self.requested_schema {
                Some(Json::Object(_)) => None,
                _ => Some("form mode needs a `requestedSchema` object"@),
            },
            ElicitationMode::Url => match (self.url, self.elicitation_id) {
                (Some(url), Some(id)) => if !is_url(url@) {
                    Some("url mode needs a valid `url`"@)
                } else if id@.len() == 0 {
                    Some("url mode needs an `elicitationId`"@)
                } else {
                    None
                },
                (None, _) => Some("url mode needs a valid `url`"@),
                (Some(url), None) => if !is_url(url@) {
                    Some("url mode needs a valid `url`"@)
                } else {
                    Some("url mode needs an `elicitationId`"@)
                },
            },
        }
    }

    /// The fields of the request on the wire.
    pub open spec fn wire_fields(self) -> Seq<(Seq<char>, JsonView)> {
        seq![
            ("mode"@, JsonView::Text(mode_name(self.mode))),
            ("message"@, JsonView::Text(self.message@)),
        ] + crate::json::maybe("requestedSchema"@, crate::json::optional(self.requested_schema))
            + crate::json::maybe("url"@, crate::json::optional_text(self.url)) + crate::json::maybe(
            "elicitationId"@,
            crate::json::optional_text(self.elicitation_id),
        )
    }

    /// A form.
    pub fn form(message: &str, schema: Json) -> (r: ElicitParams)
        ensures
            r.mode == ElicitationMode::Form,
            r.message@ == message@,
            r.requested_schema == Some(schema),
            r.url is None,
            r.elicitation_id is None,
    {
        ElicitParams {
            mode: ElicitationMode::Form,
            message: message.to_owned(),
            requested_schema: Some(schema),
            url: None,
            elicitation_id: None,
        }
    }

    /// A detour to a page.
    pub fn url(message: &str, url: &str, elicitation_id: &str) -> (r: ElicitParams)
        ensures
            r.mode == ElicitationMode::Url,
            r.message@ == message@,
            r.requested_schema is None,
            r.url matches Some(u) && u@ == url@,
            r.elicitation_id matches Some(id) && id@ == elicitation_id@,
    {
        ElicitParams {
            mode: ElicitationMode::Url,
            message: message.to_owned(),
            requested_schema: None,
            url: Some(url.to_owned()),
            elicitation_id: Some(elicitation_id.to_owned()),
        }
    }

    /// What is wrong with the request, if anything.
    pub fn validate(&self) -> (r: Result<(), String>)
        ensures
            match r {
                Ok(()) => self.problem() is None,
                Err(why) => self.problem() == Some(why@),
            },
    {
        match self.mode {
            ElicitationMode::Form => match &self.requested_schema {
                Some(Json::Object(_)) => Ok(()),
                _ => Err("form mode needs a `requestedSchema` object".to_owned()),
            },
            ElicitationMode::Url => {
                let good = match &self.url {
                    Some(url) => is_url_text(url.as_str()),
                    None => false,
                };
                if !good {
                    return Err("url mode needs a valid `url`".to_owned());
                }
                let named = match &self.elicitation_id {
                    Some(id) => !id.as_str().is_empty(),
                    None => false,
                };
                if !named {
                    return Err("url mode needs an `elicitationId`".to_owned());
                }
                Ok(())
            },
        }
    }

    /// The request on the wire.
    pub fn to_json(&self) -> (r: Json)
        ensures
            r@ == JsonView::Object(self.wire_fields()),
    {
        let mut v: Vec<(String, Json)> = Vec::new();
        assert(crate::json::fields(v@) =~= Seq::empty());
        push_field(
            &mut v,
            "mode",
            text(
                match self.mode {
                    ElicitationMode::Form => "form",
                    ElicitationMode::Url => "url",
                },
            ),
        );
        push_field(&mut v, "message", text(self.message.as_str()));
        push_maybe(&mut v, "requestedSchema", copy_of(&self.requested_schema));
        push_maybe(&mut v, "url", text_if(&self.url));
        push_maybe(&mut v, "elicitationId", text_if(&self.elicitation_id));
        assert(crate::json::fields(v@) =~= self.wire_fields());
        object(v)
    }
}

/// What the user did about a request for input.
#[derive(Debug, Clone, Copy, PartialEq, Eq, Structural)]
pub enum ElicitAction {
    Accept,
    Decline,
    Cancel,
}

impl ElicitAction {
    /// The name of the action on the wire.
    pub open spec fn name(self) -> Seq<char> {
        match self {
            ElicitAction::Accept => "accept"@,
            ElicitAction::Decline => "decline"@,
            ElicitAction::Cancel => "cancel"@,
        }
    }
}

/// The answer to a request for input.
#[derive(Debug)]
pub struct ElicitResult {
    pub action: ElicitAction,
    pub content: Option<Json>,
}

impl ElicitResult {
    /// Reads an answer.
    pub fn from_json(j: &Json) -> (r: Result<ElicitResult, McpError>)
        ensures
            match r {
                Ok(result) => j@.get("action"@) == Some(JsonView::Text(result.action.name()))
                    && crate::json::optional(result.content) == crate::types::given(
                    j@,
                    "content"@,
                ),
                Err(e) => e@ == McpErrorView::Json("`action` must be accept, decline or cancel"@)
                    && forall|action: ElicitAction|
                    j@.get("action"@) != Some(JsonView::Text(#[trigger] action.name())),
            },
    {
        if let Some(Json::Text(name)) = j.get("action") {
            let action = if same_text(name.as_str(), "accept") {
                Some(ElicitAction::Accept)
            } else if same_text(name.as_str(), "decline") {
                Some(ElicitAction::Decline)
            } else if same_text(name.as_str(), "cancel") {
                Some(ElicitAction::Cancel)
            } else {
                None
            };
            if let Some(action) = action {
                return Ok(ElicitResult { action, content: given_field(j, "content") });
            }
        }
        Err(McpError::Json("`action` must be accept, decline or cancel".to_owned()))
    }

    /// Whether the user agreed.
    pub fn accepted(&self) -> (r: bool)
        ensures
            r == (self.action == ElicitAction::Accept),
    {
        self.action == ElicitAction::Accept
    }

    /// What the user gave, where the user agreed.
    pub fn accepted_content(&self) -> (r: Option<&Json>)
        ensures
            match r {
                Some(j) => self.action == ElicitAction::Accept && crate::json::optional(
                    self.content,
                ) == Some(j@),
                None => self.action != ElicitAction::Accept || self.content is None,
            },
    {
        if self.action == ElicitAction::Accept {
            match &self.content {
                Some(j) => Some(j),
                None => None,
            }
        } else {
            None
        }
    }
}

/// Why a request for input may not be sent, if it may not.
pub open spec fn elicit_refusal(caps: ClientCapabilities, params: ElicitParams) -> Option<
    McpErrorView,
> {
    if !caps.can_elicit(params.mode) {
        Some(
            McpErrorView::Internal(
                "client did not declare support for "@ + mode_word(params.mode)
                    + " mode elicitation"@,
            ),
        )
    } else {
        match params.problem() {
            Some(why) => Some(McpErrorView::InvalidParams(why)),
            None => None,
        }
    }
}

impl ToolEnv {
    /// Asks the user for input. Nothing is asked that the client did not say it
    /// can do, and nothing that makes no sense.
    pub fn elicit(&self, params: &ElicitParams) -> (r: Result<Ask, McpError>)
        ensures
            match r {
                Ok(ask) => elicit_refusal(self.client_capabilities, *params) is None
                    && ask.method@ == "elicitation/create"@ && ask.params@ == JsonView::Object(
                    params.wire_fields(),
                ),
                Err(e) => elicit_refusal(self.client_capabilities, *params) == Some(e@),
            },
    {
        if !self.client_capabilities.supports_elicitation(params.mode) {
            return Err(
                McpError::Internal(
                    join3(
                        "client did not declare support for ",
                        match params.mode {
                            ElicitationMode::Form => "Form",
                            ElicitationMode::Url => "Url",
                        },
                        " mode elicitation",
                    ),
                ),
            );
        }
        match params.validate() {
            Err(why) => Err(McpError::InvalidParams(why)),
            Ok(()) => Ok(
                Ask { method: "elicitation/create".to_owned(), params: params.to_json() },
            ),
        }
    }

    /// Asks for data with a form.
    pub fn elicit_form(&self, message: &str, schema: Json) -> (r: Result<Ask, McpError>)
        ensures
            r is Ok <==> self.client_capabilities.can_elicit(ElicitationMode::Form)
                && schema is Object,
            r matches Ok(ask) ==> ask.method@ == "elicitation/create"@ && ask.params@
                == JsonView::Object(
                seq![
                    ("mode"@, JsonView::Text("form"@)),
                    ("message"@, JsonView::Text(message@)),
                    ("requestedSchema"@, schema@),
                ],
            ),
            r matches Err(e) ==> e@ == (if self.client_capabilities.can_elicit(
                ElicitationMode::Form,
            ) {
                McpErrorView::InvalidParams("form mode needs a `requestedSchema` object"@)
            } else {
                McpErrorView::Internal(
                    "client did not declare support for "@ + "Form"@ + " mode elicitation"@,
                )
            }),
    {
        let params = ElicitParams::form(message, schema);
        let r = self.elicit(&params);
        assert(params.wire_fields() =~= seq![
            ("mode"@, JsonView::Text("form"@)),
            ("message"@, JsonView::Text(message@)),
            ("requestedSchema"@, schema@),
        ]);
        r
    }

    /// Sends the user to a page, for what the client must not see.
    pub fn elicit_url(&self, message: &str, url: &str, elicitation_id: &str) -> (r: Result<
        Ask,
        McpError,
    >)
        ensures
            r is Ok <==> self.client_capabilities.can_elicit(ElicitationMode::Url) && is_url(url@)
                && elicitation_id@.len() > 0,
            r matches Ok(ask) ==> ask.method@ == "elicitation/create"@ && ask.params@
                == JsonView::Object(
                seq![
                    ("mode"@, JsonView::Text("url"@)),
                    ("message"@, JsonView::Text(message@)),
                    ("url"@, JsonView::Text(url@)),
                    ("elicitationId"@, JsonView::Text(elicitation_id@)),
                ],
            ),
            r matches Err(e) ==> e@ == (if !self.client_capabilities.can_elicit(
                ElicitationMode::Url,
            ) {
                McpErrorView::Internal(
                    "client did not declare support for "@ + "Url"@ + " mode elicitation"@,
                )
            } else if !is_url(url@) {
                McpErrorView::InvalidParams("url mode needs a valid `url`"@)
            } else {
                McpErrorView::InvalidParams("url mode needs an `elicitationId`"@)
            }),
    {
        let params = ElicitParams::url(message, url, elicitation_id);
        let r = self.elicit(&params);
        assert(params.wire_fields() =~= seq![
            ("mode"@, JsonView::Text("url"@)),
            ("message"@, JsonView::Text(message@)),
            ("url"@, JsonView::Text(url@)),
            ("elicitationId"@, JsonView::Text(elicitation_id@)),
        ]);
        r
    }

    /// Tells the client that what a user was sent away for is done.
    pub fn notify_elicitation_complete(&self, elicitation_id: &str) -> (r: Option<JsonRpcMessage>)
        ensures
            match r {
                Some(m) => self.has_transport && m@ == MessageView::Notification(
                    crate::types::NotificationView {
                        method: "notifications/elicitation/complete"@,
                        params: crate::env::tagged(
                            crate::env::optional_task(self.task_id),
                            Some(
                                JsonView::Object(
                                    seq![("elicitationId"@, JsonView::Text(elicitation_id@))],
                                ),
                            ),
                        ),
                    },
                ),
                None => !self.has_transport,
            },
    {
        let mut v: Vec<(String, Json)> = Vec::new();
        assert(crate::json::fields(v@) =~= Seq::empty());
        push_field(&mut v, "elicitationId", text(elicitation_id));
        assert(crate::json::fields(v@) =~= seq![
            ("elicitationId"@, JsonView::Text(elicitation_id@)),
        ]);
        self.send_notification("notifications/elicitation/complete", Some(object(v)))
    }

    /// Asks the client for the roots of its file systems.
    pub fn list_roots(&self) -> (r: Result<Ask, McpError>)
        ensures
            match r {
                Ok(ask) => self.client_capabilities.roots && ask.method@ == "roots/list"@
                    && ask.params@ == JsonView::Object(Seq::empty()),
                Err(e) => !self.client_capabilities.roots && e@ == McpErrorView::Internal(
                    "client did not declare support for roots"@,
                ),
            },
    {
        if !self.client_capabilities.supports_roots() {
            return Err(McpError::Internal("client did not declare support for roots".to_owned()));
        }
        Ok(Ask { method: "roots/list".to_owned(), params: empty_object() })
    }
}

/// A place that the client lets the server look at.
#[derive(Debug)]
pub struct Root {
    pub uri: String,
    pub name: Option<String>,
}

/// What a [`Root`] is.
pub struct RootView {
    pub uri: Seq<char>,
    pub name: Option<Seq<char>>,
}

impl View for Root {
    type V = RootView;

    open spec fn view(&self) -> RootView {
        RootView {
            uri: self.uri@,
            name: match self.name {
                Some(n) => Some(n@),
                None => None,
            },
        }
    }
}

/// The places in a list, in order.
pub open spec fn roots_view(v: Seq<Root>) -> Seq<RootView> {
    v.map_values(|r: Root| r@)
}

/// The place that a JSON value is, where it is one.
pub open spec fn root_of(j: JsonView) -> Option<RootView> {
    match (j.get("uri"@), j.get("name"@)) {
        (Some(JsonView::Text(uri)), Some(JsonView::Text(name))) => Some(
            RootView { uri, name: Some(name) },
        ),
        (Some(JsonView::Text(uri)), None) => Some(RootView { uri, name: None }),
        (Some(JsonView::Text(uri)), Some(JsonView::Null)) => Some(RootView { uri, name: None }),
        _ => None,
    }
}

/// The places that an answer lists, where that is what it does.
pub open spec fn roots_of(j: JsonView) -> Option<Seq<RootView>> {
    match j.get("roots"@) {
        Some(JsonView::List(s)) => if forall|i: int|
            0 <= i < s.len() ==> root_of(#[trigger] s[i]) is Some {
            Some(s.map_values(|v: JsonView| root_of(v)->0))
        } else {
            None
        },
        _ => None,
    }
}

fn read_root(j: &Json) -> (r: Option<Root>)
    ensures
        match r {
            Some(root) => root_of(j@) == Some(root@),
            None => root_of(j@) is None,
        },
{
    let uri = match j.get("uri") {
        Some(Json::Text(uri)) => uri.clone(),
        _ => {
            return None;
        },
    };
    match j.get("name") {
        Some(Json::Text(name)) => Some(Root { uri, name: Some(name.clone()) }),
        None | Some(Json::Null) => Some(Root { uri, name: None }),
        _ => None,
    }
}

/// Reads the answer to `roots/list`.
pub fn read_roots(j: &Json) -> (r: Result<Vec<Root>, McpError>)
    ensures
        match r {
            Ok(roots) => roots_of(j@) == Some(roots_view(roots@)),
            Err(e) => roots_of(j@) is None && e@ == McpErrorView::Json(
                "`roots` must be a list of objects with a `uri`"@,
            ),
        },
{
    broadcast use crate::json::lemma_list_view;

    let mut out: Vec<Root> = Vec::new();
    if let Some(Json::List(v)) = j.get("roots") {
        let ghost all = crate::json::items(v@);
        assert(j@.get("roots"@) == Some(JsonView::List(all)));
        let ghost wanted = all.map_values(|v: JsonView| root_of(v)->0);
        let mut i: usize = 0;
        assert(roots_view(out@) =~= wanted.take(0));
        while i < v.len()
            invariant
                i <= v@.len(),
                all == crate::json::items(v@),
                j@.get("roots"@) == Some(JsonView::List(all)),
                wanted == all.map_values(|v: JsonView| root_of(v)->0),
                roots_view(out@) == wanted.take(i as int),
                forall|k: int| 0 <= k < i ==> root_of(#[trigger] all[k]) is Some,
            decreases v@.len() - i,
        {
            assert(all[i as int] == v@[i as int]@);
            let ghost before = roots_view(out@);
            match read_root(&v[i]) {
                None => {
                    return Err(
                        McpError::Json("`roots` must be a list of objects with a `uri`".to_owned()),
                    );
                },
                Some(root) => {
                    let ghost one = root@;
                    out.push(root);
                    assert(roots_view(out@) =~= before.push(one));
                },
            }
            i = i + 1;
            assert(roots_view(out@) =~= wanted.take(i as int));
        }
        assert(wanted.take(i as int) =~= wanted);
        return Ok(out);
    }
    Err(McpError::Json("`roots` must be a list of objects with a `uri`".to_owned()))
}

/// Nothing is asked of a client that said nothing of what it can do.
pub proof fn law_nothing_is_asked_of_a_client_that_declared_nothing(
    elicit: ElicitParams,
    sample: crate::sampling::CreateMessageParams,
)
    ensures
        elicit_refusal(crate::capabilities::no_capabilities(), elicit) is Some,
        crate::sampling::sampling_refusal(crate::capabilities::no_capabilities(), sample) is Some,
        !crate::capabilities::no_capabilities().roots,
{
}

} // verus!
