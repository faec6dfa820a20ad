//! Asking the client.

use crate::ask::{Ask, ElicitAction, ElicitParams, ElicitResult, Root};
use crate::capabilities::ElicitationMode;
use crate::env::ToolEnv;
use crate::json::{Json, JsonView};
use crate::laws::calls::unsaid;
use crate::sampling::{
    ContentView, CreateMessageParams, CreateMessageResult, SamplingContent, SamplingMessage,
    SamplingRole, SamplingTool, ToolChoice,
};
use crate::types::{JsonRpcMessage, McpError, McpErrorView, MessageView, ResponseView};
use vstd::prelude::*;
use vstd::string::*;

verus! {

/// Whether every use of a tool in a conversation is answered by the message
/// after it, which is the user's and holds nothing but results.
pub open spec fn all_answered(params: CreateMessageParams) -> bool {
    let m = params.messages@;
    forall|i: int, k: int|
        0 <= i < m.len() && 0 <= k < m[i].content@.len() ==> (
        #[trigger] m[i].content@[k] matches SamplingContent::ToolUse { id, name, input } ==> i + 1
            < m.len() && m[i + 1].role == SamplingRole::User && (forall|j: int|
            0 <= j < m[i + 1].content@.len() ==> (
            #[trigger] m[i + 1].content@[j]) is ToolResult) && (exists|j: int|
            0 <= j < m[i + 1].content@.len() && answers_use(#[trigger] m[i + 1].content@[j], id@)))
}

/// Whether a piece is the result of this use of a tool.
pub open spec fn answers_use(c: SamplingContent, id: Seq<char>) -> bool {
    c matches SamplingContent::ToolResult { tool_use_id, content, is_error } && tool_use_id@ == id
}

/// A completion is asked for exactly where the client declared that it gives
/// them, with tools and with context where they are asked for, and where no use
/// of a tool is left without its result. What is sent is the whole request.
pub proof fn law_a_completion_is_asked_for_where_it_can_be(
    env: ToolEnv,
    params: CreateMessageParams,
    r: Result<Ask, McpError>,
)
    requires
        call_ensures(ToolEnv::create_message, (&env, &params), r),
    ensures
        r is Ok <==> {
            let caps = env.client_capabilities;
            &&& caps.sampling is Some
            &&& params.tools@.len() > 0 ==> caps.sampling->0.tools
            &&& params.include_context is Some && params.include_context->0@ != "none"@
                ==> caps.sampling->0.context
            &&& all_answered(params)
        },
        r matches Ok(ask) ==> ask.method@ == "sampling/createMessage"@ && ask.params@
            == JsonView::Object(params.wire_fields()),
        env.client_capabilities.sampling is None ==> (r matches Err(e) && e@ is Internal),
{
    let m = params.messages@;
    let s = crate::sampling::turns(m);
    if crate::sampling::loop_closed(s) {
        assert forall|i: int, k: int|
            0 <= i < m.len() && 0 <= k < m[i].content@.len() implies (
        #[trigger] m[i].content@[k] matches SamplingContent::ToolUse { id, name, input } ==> i + 1
            < m.len() && m[i + 1].role == SamplingRole::User && (forall|j: int|
            0 <= j < m[i + 1].content@.len() ==> (
            #[trigger] m[i + 1].content@[j]) is ToolResult) && (exists|j: int|
            0 <= j < m[i + 1].content@.len() && answers_use(
                #[trigger] m[i + 1].content@[j],
                id@,
            ))) by {
            assert(s[i] == m[i]@);
            assert(s[i].content[k] == m[i].content@[k]@);
            assert(!crate::sampling::open_use(s[i].content[k], crate::sampling::reply_to(s, i)));
            if let SamplingContent::ToolUse { id, name, input } = m[i].content@[k] {
                let next = m[i + 1]@;
                assert(s[i + 1] == next);
                assert forall|j: int| 0 <= j < m[i + 1].content@.len() implies (
                #[trigger] m[i + 1].content@[j]) is ToolResult by {
                    assert(next.content[j] is ToolResult);
                    assert(next.content[j] == m[i + 1].content@[j]@);
                }
                let j = choose|j: int|
                    0 <= j < next.content.len() && crate::sampling::is_result(
                        #[trigger] next.content[j],
                        id@,
                    );
                assert(next.content[j] == m[i + 1].content@[j]@);
                assert(answers_use(m[i + 1].content@[j], id@));
            }
        }
        assert(all_answered(params));
    } else {
        let (i, k) = choose|i: int, k: int|
            0 <= i < s.len() && 0 <= k < s[i].content.len() && crate::sampling::open_use(
                #[trigger] s[i].content[k],
                crate::sampling::reply_to(s, i),
            );
        assert(s[i] == m[i]@);
        assert(s[i].content[k] == m[i].content@[k]@);
        if all_answered(params) {
            let id = m[i].content@[k]->ToolUse_id@;
            assert(i + 1 < m.len());
            let next = m[i + 1]@;
            assert(s[i + 1] == next);
            assert forall|j: int| 0 <= j < next.content.len() implies (
            #[trigger] next.content[j]) is ToolResult by {
                assert(m[i + 1].content@[j] is ToolResult);
            }
            let j = choose|j: int|
                0 <= j < m[i + 1].content@.len() && answers_use(
                    #[trigger] m[i + 1].content@[j],
                    id,
                );
            assert(next.content[j] == m[i + 1].content@[j]@);
            assert(crate::sampling::is_result(next.content[j], id));
            assert(next.answers(id));
            assert(next.only_results());
        }
    }
}

/// Input is asked for exactly where the client declared that it takes it in this
/// way, and the request makes sense: a form has a schema that is an object, and a
/// detour has an address to go to and an id. What is sent is the whole request.
pub proof fn law_input_is_asked_for_where_it_can_be(
    env: ToolEnv,
    params: ElicitParams,
    r: Result<Ask, McpError>,
)
    requires
        call_ensures(ToolEnv::elicit, (&env, &params), r),
    ensures
        r is Ok <==> {
            &&& env.client_capabilities.elicitation is Some
            &&& match params.mode {
                ElicitationMode::Form => env.client_capabilities.elicitation->0.form
                    && params.requested_schema is Some && params.requested_schema->0 is Object,
                ElicitationMode::Url => env.client_capabilities.elicitation->0.url
                    && params.url is Some && crate::ask::is_url(params.url->0@)
                    && params.elicitation_id is Some && params.elicitation_id->0@.len() > 0,
            }
        },
        r matches Ok(ask) ==> ask.method@ == "elicitation/create"@ && ask.params@
            == JsonView::Object(params.wire_fields()),
        r matches Err(e) ==> (e@ is Internal <==> env.client_capabilities.elicitation is None
            || match params.mode {
            ElicitationMode::Form => !env.client_capabilities.elicitation->0.form,
            ElicitationMode::Url => !env.client_capabilities.elicitation->0.url,
        }),
        r matches Err(e) ==> e@ is Internal || e@ is InvalidParams,
{
}

/// An address has a scheme, `://`, and something after it. A scheme begins with a
/// letter.
pub proof fn law_an_address_has_a_scheme_and_a_rest(s: Seq<char>)
    ensures
        crate::ask::is_url(s) ==> exists|at: int|
            0 < at && at + 3 < s.len() && (#[trigger] s[at]) == ':' && s[at + 1] == '/' && s[at + 2]
                == '/' && crate::transport::origin::is_letter(s[0]) && forall|k: int|
                0 <= k < at ==> (#[trigger] s[k]) != ':' && s[k] != '/',
        s.len() == 0 ==> !crate::ask::is_url(s),
{
    if crate::ask::is_url(s) {
        let at = crate::transport::origin::scheme_end(s, 0);
        crate::laws::origins::lemma_scheme_end_at(s, 0);
        let scheme = s.take(at);
        assert(scheme[0] == s[0]);
        assert forall|k: int| 0 <= k < at implies (#[trigger] s[k]) != ':' && s[k] != '/' by {
            assert(crate::transport::origin::is_scheme_char(scheme[k]));
        }
        assert(s[at] == ':');
    }
}

/// The answer to a request for input says what the user did, and what the user
/// gave. One that says anything else is none.
pub proof fn law_an_answer_says_what_the_user_did(
    j: Json,
    r: Result<ElicitResult, McpError>,
)
    requires
        call_ensures(ElicitResult::from_json, (&j,), r),
    ensures
        j@.get("action"@) == Some(JsonView::Text("accept"@)) ==> r is Ok && r->Ok_0.action
            == ElicitAction::Accept,
        j@.get("action"@) == Some(JsonView::Text("decline"@)) ==> r is Ok && r->Ok_0.action
            == ElicitAction::Decline,
        j@.get("action"@) == Some(JsonView::Text("cancel"@)) ==> r is Ok && r->Ok_0.action
            == ElicitAction::Cancel,
        j@.get("action"@) != Some(JsonView::Text("accept"@)) && j@.get("action"@) != Some(
            JsonView::Text("decline"@),
        ) && j@.get("action"@) != Some(JsonView::Text("cancel"@)) ==> (r matches Err(e)
            && e@ is Json),
        r matches Ok(x) ==> match x.content {
            Some(c) => j@.get("content"@) == Some(c@) && !(c@ is Null),
            None => unsaid(j@, "content"@),
        },
{
    crate::laws::words::lemma_actions_differ();
    assert(ElicitAction::Accept.name() == "accept"@);
    assert(ElicitAction::Decline.name() == "decline"@);
    assert(ElicitAction::Cancel.name() == "cancel"@);
}

/// What the user gave is given on only where the user agreed.
pub proof fn law_only_what_was_agreed_to_is_used(x: ElicitResult, r: Option<&Json>)
    requires
        call_ensures(ElicitResult::accepted_content, (&x,), r),
    ensures
        x.action != ElicitAction::Accept ==> r is None,
        x.action == ElicitAction::Accept ==> (match (r, x.content) {
            (Some(a), Some(b)) => a@ == b@,
            (None, None) => true,
            _ => false,
        }),
{
}

/// Answers to a request come to their value; a client that refused comes to an
/// error with the client's words; and a client that said nothing, to nothing.
pub proof fn law_an_answer_is_its_value_or_its_error(r: ResponseView)
    ensures
        r.error matches Some(e) ==> (crate::broker::response_result(r) matches Err(
            McpErrorView::Internal(words),
        ) && crate::laws::messages::ends_in(words, e.message)),
        r.error is None && r.result is Some ==> crate::broker::response_result(r) == Ok::<
            JsonView,
            McpErrorView,
        >(r.result->0),
        r.error is None && r.result is None ==> crate::broker::response_result(r) == Ok::<
            JsonView,
            McpErrorView,
        >(JsonView::Null),
{
    if let Some(e) = r.error {
        let w = "the client answered with an error: "@ + e.message;
        assert(w.skip(w.len() - e.message.len()) =~= e.message);
    }
}

/// The places that a client lists are read in order, each with its address and
/// its name; where one of them has no address, none is read.
pub proof fn law_roots_are_read_in_order(j: Json, r: Result<Vec<Root>, McpError>)
    requires
        call_ensures(crate::ask::read_roots, (&j,), r),
    ensures
        match j@.get("roots"@) {
            Some(JsonView::List(s)) => {
                &&& r is Ok <==> forall|k: int|
                    0 <= k < s.len() ==> ((#[trigger] s[k]).get("uri"@) matches Some(
                        JsonView::Text(_),
                    )) && (unsaid(s[k], "name"@) || s[k].get("name"@)->0 is Text)
                &&& r matches Ok(v) ==> v@.len() == s.len() && forall|k: int|
                    0 <= k < s.len() ==> s[k].get("uri"@) == Some(
                        JsonView::Text((#[trigger] v@[k]).uri@),
                    ) && match v@[k].name {
                        Some(n) => s[k].get("name"@) == Some(JsonView::Text(n@)),
                        None => unsaid(s[k], "name"@),
                    }
            },
            _ => r is Err,
        },
{
    if let Some(JsonView::List(s)) = j@.get("roots"@) {
        assert forall|k: int| 0 <= k < s.len() implies (crate::ask::root_of(#[trigger] s[k]) is Some
            <==> (s[k].get("uri"@) matches Some(JsonView::Text(_))) && (unsaid(s[k], "name"@)
            || s[k].get("name"@)->0 is Text)) by {}
        if let Ok(v) = r {
            let views = crate::ask::roots_view(v@);
            assert(views.len() == v@.len());
            assert forall|k: int| 0 <= k < s.len() implies s[k].get("uri"@) == Some(
                JsonView::Text((#[trigger] v@[k]).uri@),
            ) && (match v@[k].name {
                Some(n) => s[k].get("name"@) == Some(JsonView::Text(n@)),
                None => unsaid(s[k], "name"@),
            }) by {
                assert(views[k] == v@[k]@);
                assert(crate::ask::root_of(s[k]) is Some);
                assert(views[k] == crate::ask::root_of(s[k])->0);
            }
        }
    }
}

/// What a model said is read whole: who said it, which model it was, why it
/// stopped, and every piece of it in order.
pub proof fn law_a_completion_is_read_whole(
    j: Json,
    r: Result<CreateMessageResult, McpError>,
)
    requires
        call_ensures(CreateMessageResult::from_json, (&j,), r),
    ensures
        r is Ok <==> (j@.get("role"@) matches Some(JsonView::Text(_))) && j@.get("content"@) is Some
            && (j@.get("model"@) matches Some(JsonView::Text(_))),
        r matches Ok(x) ==> {
            &&& j@.get("role"@) == Some(JsonView::Text(x.role@))
            &&& j@.get("model"@) == Some(JsonView::Text(x.model@))
            &&& match x.stop_reason {
                Some(s) => j@.get("stopReason"@) == Some(JsonView::Text(s@)),
                None => !(j@.get("stopReason"@) matches Some(JsonView::Text(_))),
            }
            &&& match j@.get("content"@)->0 {
                JsonView::List(s) => x.content@.len() == s.len() && forall|k: int|
                    0 <= k < s.len() ==> (#[trigger] x.content@[k])@ == crate::sampling::piece_of(
                        s[k],
                    ),
                other => x.content@.len() == 1 && x.content@[0]@ == crate::sampling::piece_of(
                    other,
                ),
            }
        },
{
    if let Ok(x) = r {
        let p = crate::sampling::pieces(x.content@);
        assert(p.len() == x.content@.len());
        assert(forall|k: int| 0 <= k < p.len() ==> p[k] == (#[trigger] x.content@[k])@);
    }
}

/// A piece that is text or a use of a tool is read back from what is written of
/// it; so is the content of a message that is made of such pieces.
pub proof fn law_pieces_are_read_back(c: ContentView)
    requires
        c is Text || c is ToolUse,
    ensures
        crate::sampling::piece_of(c.json()) == c,
{
    broadcast use crate::laws::objects::group_fields;

    reveal_with_fuel(crate::json::field_at, 5);
    crate::laws::words::lemma_piece_words_differ();
    let j = c.json();
    match c {
        ContentView::Text(s) => {
            assert(j.get("type"@) == Some(JsonView::Text("text"@)));
            assert(j.get("text"@) == Some(JsonView::Text(s)));
        },
        ContentView::ToolUse { id, name, input } => {
            assert(j.get("type"@) == Some(JsonView::Text("tool_use"@)));
            assert(j.get("id"@) == Some(JsonView::Text(id)));
            assert(j.get("name"@) == Some(JsonView::Text(name)));
            assert(j.get("input"@) == Some(input));
        },
        _ => {},
    }
}

/// What a model said, as text, is the text of its pieces, one after the other;
/// pieces that are not text add nothing.
pub proof fn law_the_text_is_that_of_all_pieces(
    a: Seq<ContentView>,
    c: ContentView,
    b: Seq<ContentView>,
)
    ensures
        crate::sampling::text_of(a + seq![c] + b) == crate::sampling::text_of(a) + (match c {
            ContentView::Text(t) => t,
            _ => Seq::empty(),
        }) + crate::sampling::text_of(b),
        crate::sampling::text_of(Seq::empty()) == Seq::<char>::empty(),
    decreases b.len(),
{
    let all = a + seq![c] + b;
    let t = match c {
        ContentView::Text(t) => t,
        _ => Seq::<char>::empty(),
    };
    if b.len() == 0 {
        assert(all.drop_last() =~= a);
        assert(all.last() == c);
        assert(crate::sampling::text_of(all) =~= crate::sampling::text_of(a) + t
            + crate::sampling::text_of(b));
    } else {
        law_the_text_is_that_of_all_pieces(a, c, b.drop_last());
        assert(all.drop_last() =~= a + seq![c] + b.drop_last());
        assert(all.last() == b.last());
        assert(crate::sampling::text_of(all) =~= crate::sampling::text_of(a) + t
            + crate::sampling::text_of(b));
    }
}

/// The uses of tools that a model wants are all those among its pieces, in
/// order, and nothing else.
pub proof fn law_every_use_of_a_tool_is_found(
    a: Seq<ContentView>,
    c: ContentView,
    b: Seq<ContentView>,
)
    ensures
        crate::sampling::uses_in(a + seq![c] + b) == crate::sampling::uses_in(a) + (match c {
            ContentView::ToolUse { id, name, input } => seq![(id, name, input)],
            _ => Seq::empty(),
        }) + crate::sampling::uses_in(b),
        crate::sampling::uses_in(Seq::empty()) == Seq::<(Seq<char>, Seq<char>, JsonView)>::empty(),
    decreases b.len(),
{
    let all = a + seq![c] + b;
    let t = match c {
        ContentView::ToolUse { id, name, input } => seq![(id, name, input)],
        _ => Seq::<(Seq<char>, Seq<char>, JsonView)>::empty(),
    };
    if b.len() == 0 {
        assert(all.drop_last() =~= a);
        assert(all.last() == c);
        assert(crate::sampling::uses_in(all) =~= crate::sampling::uses_in(a) + t
            + crate::sampling::uses_in(b));
    } else {
        law_every_use_of_a_tool_is_found(a, c, b.drop_last());
        assert(all.drop_last() =~= a + seq![c] + b.drop_last());
        assert(all.last() == b.last());
        assert(crate::sampling::uses_in(all) =~= crate::sampling::uses_in(a) + t
            + crate::sampling::uses_in(b));
    }
}

/// Roots are asked for exactly where the client declared that it has them.
pub proof fn law_roots_are_asked_for_where_there_are_any(env: ToolEnv, r: Result<Ask, McpError>)
    requires
        call_ensures(ToolEnv::list_roots, (&env,), r),
    ensures
        r is Ok <==> env.client_capabilities.roots,
        r matches Ok(ask) ==> ask.method@ == "roots/list"@,
{
}

/// A form is asked for with its schema and its words, and nothing else; a detour
/// with its address, its id and its words.
pub proof fn law_forms_and_detours_are_sent_whole(
    env: ToolEnv,
    message: &str,
    schema: Json,
    form: Result<Ask, McpError>,
    url: &str,
    id: &str,
    detour: Result<Ask, McpError>,
)
    requires
        call_ensures(ToolEnv::elicit_form, (&env, message, schema), form),
        call_ensures(ToolEnv::elicit_url, (&env, message, url, id), detour),
    ensures
        form is Ok <==> env.client_capabilities.elicitation is Some
            && env.client_capabilities.elicitation->0.form && schema is Object,
        form matches Ok(a) ==> a.method@ == "elicitation/create"@ && a.params@.get("mode"@) == Some(
            JsonView::Text("form"@),
        ) && a.params@.get("message"@) == Some(JsonView::Text(message@)) && a.params@.get(
            "requestedSchema"@,
        ) == Some(schema@),
        detour is Ok <==> env.client_capabilities.elicitation is Some
            && env.client_capabilities.elicitation->0.url && crate::ask::is_url(url@) && id@.len()
            > 0,
        detour matches Ok(a) ==> a.method@ == "elicitation/create"@ && a.params@.get("mode"@)
            == Some(JsonView::Text("url"@)) && a.params@.get("message"@) == Some(
            JsonView::Text(message@),
        ) && a.params@.get("url"@) == Some(JsonView::Text(url@)) && a.params@.get("elicitationId"@)
            == Some(JsonView::Text(id@)),
{
    reveal_with_fuel(crate::json::field_at, 5);
    crate::laws::words::lemma_words_of_a_request_for_input_is_written_whole();
}

/// A client is told that what its user was sent away for is done, by its id, and
/// only where there is a way to the client.
pub proof fn law_the_end_of_a_detour_is_told(
    env: ToolEnv,
    id: &str,
    r: Option<JsonRpcMessage>,
)
    requires
        call_ensures(ToolEnv::notify_elicitation_complete, (&env, id), r),
    ensures
        r is Some <==> env.has_transport,
        r matches Some(m) ==> (m@ matches MessageView::Notification(n) && n.method
            == "notifications/elicitation/complete"@ && (n.params matches Some(p) && p.get(
            "elicitationId"@,
        ) == Some(JsonView::Text(id@)))),
{
    reveal_strlit("_meta");
    reveal_strlit("elicitationId");
    assert("_meta"@.len() == 5 && "elicitationId"@.len() == 13);
    let p = JsonView::Object(seq![("elicitationId"@, JsonView::Text(id@))]);
    assert(p.get("elicitationId"@) == Some(JsonView::Text(id@)));
    crate::laws::messages::law_tagging_adds_the_task_and_nothing_else(
        crate::env::optional_task(env.task_id),
        Some(p),
    );
}

/// A tool finds a resource of the server exactly where there is one with the URI.
pub proof fn law_a_tool_finds_resources_by_uri(env: ToolEnv, uri: &str, r: Option<usize>)
    requires
        call_ensures(ToolEnv::get_resource, (&env, uri), r),
    ensures
        r is Some <==> exists|k: int|
            0 <= k < env.resources@.len() && (#[trigger] env.resources@[k])@ == uri@,
        r matches Some(i) ==> i < env.resources@.len() && env.resources@[i as int]@ == uri@,
{
}

/// Requests are made of what they are given, and of nothing else.
pub proof fn law_requests_are_made_of_what_is_given(
    messages: Vec<SamplingMessage>,
    max: u64,
    plain: CreateMessageParams,
    tools: Vec<SamplingTool>,
    offering: CreateMessageParams,
    choice: ToolChoice,
    choosing: CreateMessageParams,
    piece: SamplingContent,
    user: SamplingMessage,
)
    requires
        call_ensures(CreateMessageParams::new, (messages, max), plain),
        call_ensures(CreateMessageParams::with_tools, (plain, tools), offering),
        call_ensures(CreateMessageParams::with_tool_choice, (offering, choice), choosing),
        call_ensures(SamplingMessage::user, (piece,), user),
    ensures
        plain.messages@.len() == messages@.len(),
        forall|k: int|
            0 <= k < messages@.len() ==> (#[trigger] plain.messages@[k])@ == messages@[k]@,
        plain.max_tokens == max,
        plain.system_prompt is None && plain.tools@.len() == 0 && plain.tool_choice is None,
        choosing.tools == tools,
        choosing.tool_choice == Some(choice),
        choosing.max_tokens == max,
        choosing.messages == plain.messages,
        user@.role == SamplingRole::User,
        user@.content.len() == 1 && user@.content[0] == piece@,
{
    let a = crate::sampling::turns(plain.messages@);
    let b = crate::sampling::turns(messages@);
    assert(a.len() == plain.messages@.len() && b.len() == messages@.len());
    assert forall|k: int| 0 <= k < messages@.len() implies (#[trigger] plain.messages@[k])@
        == messages@[k]@ by {
        assert(a[k] == plain.messages@[k]@);
        assert(b[k] == messages@[k]@);
    }
}

} // verus!
