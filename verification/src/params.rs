//! Reading the parameters of requests.
//!
//! Parameters of the wrong shape are invalid parameters, not invalid JSON.
//! Fields that are not known are ignored.

use crate::capabilities::ClientCapabilities;
use crate::json::{empty_object, Json, JsonView};
use crate::tasks::TaskParams;
use crate::text::{join, join3};
use crate::types::{given_field, McpError, McpErrorView};
use vstd::prelude::*;
use vstd::string::*;

verus! {

/// The refusal of a field of the wrong type.
pub open spec fn not_a_string(key: Seq<char>) -> McpErrorView {
    McpErrorView::InvalidParams("Invalid params: `"@ + key + "` must be a string"@)
}

/// The refusal of parameters that are missing.
pub open spec fn missing() -> McpErrorView {
    McpErrorView::InvalidParams("Missing params"@)
}

/// A field that has to be there and be text.
pub open spec fn text_param(params: Option<JsonView>, key: Seq<char>) -> Result<
    Seq<char>,
    McpErrorView,
> {
    match params {
        None => Err(missing()),
        Some(j) => match j.get(key) {
            Some(JsonView::Text(s)) => Ok(s),
            _ => Err(not_a_string(key)),
        },
    }
}

/// The cursor of a request for a list, which may be left out.
pub open spec fn cursor_param(params: Option<JsonView>) -> Result<Option<Seq<char>>, McpErrorView> {
    match params {
        None => Ok(None),
        Some(JsonView::Object(f)) => match crate::types::given(JsonView::Object(f), "cursor"@) {
            None => Ok(None),
            Some(JsonView::Text(c)) => Ok(Some(c)),
            Some(_) => Err(not_a_string("cursor"@)),
        },
        Some(_) => Err(McpErrorView::InvalidParams("Invalid params: expected an object"@)),
    }
}

/// What a call of a tool asks for.
pub struct CallView {
    pub name: Seq<char>,
    /// The arguments; an empty object where none are given.
    pub arguments: JsonView,
    /// The lifetime asked for, where the call is to be a task.
    pub task: Option<Option<u64>>,
}

/// What a call of a tool asks for, or why it makes no sense.
pub open spec fn call_param(params: Option<JsonView>) -> Result<CallView, McpErrorView> {
    match text_param(params, "name"@) {
        Err(e) => Err(e),
        Ok(name) => {
            let j = params->0;
            let arguments = match crate::types::given(j, "arguments"@) {
                Some(a) => a,
                None => JsonView::Object(Seq::empty()),
            };
            match crate::types::given(j, "task"@) {
                None => Ok(CallView { name, arguments, task: None }),
                Some(t) => match (t, crate::tasks::ttl_of(crate::types::given(t, "ttl"@))) {
                    (JsonView::Object(_), Some(ttl)) => Ok(
                        CallView { name, arguments, task: Some(ttl) },
                    ),
                    _ => Err(
                        McpErrorView::InvalidParams("Invalid params: `task` is not valid"@),
                    ),
                },
            }
        },
    }
}

/// The texts of an object whose values are all text.
pub open spec fn text_fields(f: Seq<(Seq<char>, JsonView)>) -> Option<Seq<(Seq<char>, Seq<char>)>>
    decreases f.len(),
{
    if f.len() == 0 {
        Some(Seq::empty())
    } else {
        match (text_fields(f.drop_last()), f.last().1) {
            (Some(rest), JsonView::Text(v)) => Some(rest.push((f.last().0, v))),
            _ => None,
        }
    }
}

/// The name and the arguments of a prompt.
pub open spec fn prompt_param(params: Option<JsonView>) -> Result<
    (Seq<char>, Seq<(Seq<char>, Seq<char>)>),
    McpErrorView,
> {
    match text_param(params, "name"@) {
        Err(e) => Err(e),
        Ok(name) => match crate::types::given(params->0, "arguments"@) {
            None => Ok((name, Seq::empty())),
            Some(JsonView::Object(f)) => match text_fields(f) {
                Some(args) => Ok((name, args)),
                None => Err(
                    McpErrorView::InvalidParams("Invalid params: `arguments` must be strings"@),
                ),
            },
            Some(_) => Err(
                McpErrorView::InvalidParams("Invalid params: `arguments` must be strings"@),
            ),
        },
    }
}

/// The refusal of an `initialize` that makes no sense.
pub open spec fn bad_initialize(why: Seq<char>) -> McpErrorView {
    McpErrorView::InvalidParams("Invalid initialize params: "@ + why)
}

/// The revision that a client asks for, and what it says it can do. A client
/// that gives no parameters asks for nothing and can do nothing.
pub open spec fn initialize_param(params: Option<JsonView>) -> Result<
    (Seq<char>, ClientCapabilities),
    McpErrorView,
> {
    match params {
        None => Ok((Seq::empty(), crate::capabilities::no_capabilities())),
        Some(JsonView::Object(f)) => {
            let j = JsonView::Object(f);
            let version = match crate::types::given(j, "protocolVersion"@) {
                None => Some(Seq::empty()),
                Some(JsonView::Text(v)) => Some(v),
                Some(_) => None,
            };
            let capabilities = match crate::types::given(j, "capabilities"@) {
                None => Some(crate::capabilities::no_capabilities()),
                Some(c) => crate::capabilities::capabilities_of(c),
            };
            match (version, capabilities) {
                (None, _) => Err(bad_initialize("`protocolVersion` must be a string"@)),
                (_, None) => Err(bad_initialize("`capabilities` is not valid"@)),
                (Some(v), Some(c)) => Ok((v, c)),
            }
        },
        Some(_) => Err(bad_initialize("expected an object"@)),
    }
}

fn wrong_type(key: &str) -> (r: McpError)
    ensures
        r@ == not_a_string(key@),
{
    McpError::InvalidParams(join3("Invalid params: `", key, "` must be a string"))
}

/// Reads a field that has to be there and be text.
pub fn read_text(params: &Option<Json>, key: &str) -> (r: Result<String, McpError>)
    ensures
        match r {
            Ok(s) => text_param(crate::json::optional(*params), key@) == Ok::<
                Seq<char>,
                McpErrorView,
            >(s@),
            Err(e) => text_param(crate::json::optional(*params), key@) == Err::<
                Seq<char>,
                McpErrorView,
            >(e@),
        },
{
    match params {
        None => Err(McpError::InvalidParams("Missing params".to_owned())),
        Some(j) => match j.get(key) {
            Some(Json::Text(s)) => Ok(s.clone()),
            _ => Err(wrong_type(key)),
        },
    }
}

/// The view of an optional text.
pub open spec fn text_view(s: Option<String>) -> Option<Seq<char>> {
    match s {
        Some(s) => Some(s@),
        None => None,
    }
}

/// Reads the cursor of a request for a list.
pub fn read_cursor(params: &Option<Json>) -> (r: Result<Option<String>, McpError>)
    ensures
        match r {
            Ok(c) => cursor_param(crate::json::optional(*params)) == Ok::<
                Option<Seq<char>>,
                McpErrorView,
            >(text_view(c)),
            Err(e) => cursor_param(crate::json::optional(*params)) == Err::<
                Option<Seq<char>>,
                McpErrorView,
            >(e@),
        },
{
    match params {
        None => Ok(None),
        Some(j) => match j {
            Json::Object(_) => match given_field(j, "cursor") {
                None => Ok(None),
                Some(Json::Text(c)) => Ok(Some(c)),
                Some(_) => Err(wrong_type("cursor")),
            },
            _ => Err(McpError::InvalidParams("Invalid params: expected an object".to_owned())),
        },
    }
}

/// What a call of a tool asks for.
#[derive(Debug)]
pub struct CallToolParams {
    pub name: String,
    pub arguments: Json,
    pub task: Option<TaskParams>,
}

impl View for CallToolParams {
    type V = CallView;

    open spec fn view(&self) -> CallView {
        CallView {
            name: self.name@,
            arguments: self.arguments@,
            task: match self.task {
                Some(t) => Some(t.ttl),
                None => None,
            },
        }
    }
}

/// Reads what a call of a tool asks for.
pub fn read_call(params: &Option<Json>) -> (r: Result<CallToolParams, McpError>)
    ensures
        match r {
            Ok(call) => call_param(crate::json::optional(*params)) == Ok::<CallView, McpErrorView>(
                call@,
            ),
            Err(e) => call_param(crate::json::optional(*params)) == Err::<CallView, McpErrorView>(
                e@,
            ),
        },
{
    let name = match read_text(params, "name") {
        Ok(name) => name,
        Err(e) => {
            return Err(e);
        },
    };
    match params {
        None => Err(McpError::InvalidParams("Missing params".to_owned())),
        Some(j) => {
            let arguments = match given_field(j, "arguments") {
                Some(a) => a,
                None => empty_object(),
            };
            match given_field(j, "task") {
                None => Ok(CallToolParams { name, arguments, task: None }),
                Some(t) => match TaskParams::from_json(&t) {
                    Some(p) => Ok(CallToolParams { name, arguments, task: Some(p) }),
                    None => Err(
                        McpError::InvalidParams("Invalid params: `task` is not valid".to_owned()),
                    ),
                },
            }
        },
    }
}

/// Reads an object whose values are all text.
fn read_text_fields(f: &Vec<(String, Json)>) -> (r: Option<Vec<(String, String)>>)
    ensures
        match r {
            Some(v) => text_fields(crate::json::fields(f@)) == Some(
                crate::text::pairs(v@),
            ),
            None => text_fields(crate::json::fields(f@)) is None,
        },
{
    let ghost all = crate::json::fields(f@);
    let mut out: Vec<(String, String)> = Vec::new();
    let mut i: usize = 0;
    assert(all.take(0) =~= Seq::empty());
    assert(crate::text::pairs(out@) =~= Seq::empty());
    while i < f.len()
        invariant
            i <= f@.len(),
            all == crate::json::fields(f@),
            text_fields(all.take(i as int)) == Some(
                crate::text::pairs(out@),
            ),
        decreases f@.len() - i,
    {
        let ghost next = all.take(i as int + 1);
        let ghost before = crate::text::pairs(out@);
        proof {
            assert(next.drop_last() =~= all.take(i as int));
            assert(next.last() == (f@[i as int].0@, f@[i as int].1@));
        }
        match &f[i].1 {
            Json::Text(v) => {
                out.push((f[i].0.clone(), v.clone()));
                assert(crate::text::pairs(out@) =~= before.push(
                    (f@[i as int].0@, v@),
                ));
            },
            _ => {
                proof {
                    lemma_text_fields_prefix(all, i as int + 1);
                }
                return None;
            },
        }
        i = i + 1;
    }
    assert(all.take(i as int) =~= all);
    Some(out)
}

/// Where a part of the fields is not all text, neither is the whole.
proof fn lemma_text_fields_prefix(f: Seq<(Seq<char>, JsonView)>, n: int)
    requires
        0 <= n <= f.len(),
        text_fields(f.take(n)) is None,
    ensures
        text_fields(f) is None,
    decreases f.len() - n,
{
    if n == f.len() {
        assert(f.take(n) =~= f);
    } else {
        assert(f.take(n + 1).drop_last() =~= f.take(n));
        lemma_text_fields_prefix(f, n + 1);
    }
}

/// Reads the name and the arguments of a prompt.
pub fn read_prompt(params: &Option<Json>) -> (r: Result<
    (String, Vec<(String, String)>),
    McpError,
>)
    ensures
        match r {
            Ok((name, args)) => prompt_param(crate::json::optional(*params)) == Ok::<
                (Seq<char>, Seq<(Seq<char>, Seq<char>)>),
                McpErrorView,
            >((name@, crate::text::pairs(args@))),
            Err(e) => prompt_param(crate::json::optional(*params)) == Err::<
                (Seq<char>, Seq<(Seq<char>, Seq<char>)>),
                McpErrorView,
            >(e@),
        },
{
    broadcast use crate::json::lemma_object_view;

    let name = match read_text(params, "name") {
        Ok(name) => name,
        Err(e) => {
            return Err(e);
        },
    };
    match params {
        None => Err(McpError::InvalidParams("Missing params".to_owned())),
        Some(j) => match given_field(j, "arguments") {
            None => {
                let args: Vec<(String, String)> = Vec::new();
                assert(crate::text::pairs(args@) =~= Seq::empty());
                Ok((name, args))
            },
            Some(Json::Object(f)) => match read_text_fields(&f) {
                Some(args) => Ok((name, args)),
                None => Err(
                    McpError::InvalidParams(
                        "Invalid params: `arguments` must be strings".to_owned(),
                    ),
                ),
            },
            Some(_) => Err(
                McpError::InvalidParams("Invalid params: `arguments` must be strings".to_owned()),
            ),
        },
    }
}

/// Reads what a client says when it introduces itself.
pub fn read_initialize(params: &Option<Json>) -> (r: Result<
    (String, ClientCapabilities),
    McpError,
>)
    ensures
        match r {
            Ok((version, capabilities)) => initialize_param(crate::json::optional(*params)) == Ok::<
                (Seq<char>, ClientCapabilities),
                McpErrorView,
            >((version@, capabilities)),
            Err(e) => initialize_param(crate::json::optional(*params)) == Err::<
                (Seq<char>, ClientCapabilities),
                McpErrorView,
            >(e@),
        },
{
    let j = match params {
        None => {
            let version = String::new();
            assert(version@ =~= Seq::<char>::empty());
            return Ok((version, ClientCapabilities::default()));
        },
        Some(j) => j,
    };
    match j {
        Json::Object(_) => {},
        _ => {
            return Err(
                McpError::InvalidParams(
                    join("Invalid initialize params: ", "expected an object"),
                ),
            );
        },
    }
    let version = match given_field(j, "protocolVersion") {
        None => {
            let version = String::new();
            assert(version@ =~= Seq::<char>::empty());
            version
        },
        Some(Json::Text(v)) => v,
        Some(_) => {
            return Err(
                McpError::InvalidParams(
                    join("Invalid initialize params: ", "`protocolVersion` must be a string"),
                ),
            );
        },
    };
    let capabilities = match given_field(j, "capabilities") {
        None => ClientCapabilities::default(),
        Some(c) => match ClientCapabilities::from_json(&c) {
            Some(c) => c,
            None => {
                return Err(
                    McpError::InvalidParams(
                        join("Invalid initialize params: ", "`capabilities` is not valid"),
                    ),
                );
            },
        },
    };
    Ok((version, capabilities))
}

} // verus!
