//! What each request does.

use crate::calendar::Timestamp;
use crate::calls::Dispatch;
use crate::capabilities::ClientCapabilities;
use crate::json::JsonView;
use crate::laws::calls::{refused, unsaid};
use crate::laws::words::lemma_methods_differ;
use crate::log::LogLevel;
use crate::protocol::EntryView;
use crate::server::Server;
use crate::types::{McpErrorView, RequestView};
use vstd::prelude::*;
use vstd::string::*;

verus! {

/// The value that a request is answered with, where it is.
pub open spec fn answered(r: Dispatch, j: JsonView) -> bool {
    r matches Dispatch::Done(Ok(x)) && x@ == j
}

/// A prompt that is there is filled in with all the arguments that were sent,
/// each under its name and in order; one whose arguments are not all text is
/// not. Which prompt it is, is decided by its name alone.
pub proof fn law_a_prompt_gets_all_its_arguments(
    before: Server,
    after: Server,
    request: RequestView,
    now: Timestamp,
    r: Dispatch,
    params: JsonView,
    f: Seq<(Seq<char>, JsonView)>,
    i: int,
)
    requires
        before.wf(),
        crate::dispatch::dispatch_step(before, after, request, now, r),
        request.method == "prompts/get"@,
        request.params == Some(params),
        0 <= i < before.prompts@.len(),
        params.get("name"@) == Some(JsonView::Text(before.prompts@[i].name@)),
        if unsaid(params, "arguments"@) {
            f.len() == 0
        } else {
            params.get("arguments"@) == Some(JsonView::Object(f))
        },
    ensures
        after == before,
        (forall|k: int| 0 <= k < f.len() ==> (#[trigger] f[k]).1 is Text) ==> (
        r matches Dispatch::GetPrompt { prompt, arguments } && prompt == i && arguments@.len()
            == f.len() && forall|k: int|
            0 <= k < f.len() ==> f[k] == (
                (#[trigger] arguments@[k]).0@,
                JsonView::Text(arguments@[k].1@),
            )),
        !(forall|k: int| 0 <= k < f.len() ==> (#[trigger] f[k]).1 is Text) ==> refused(
            r,
            McpErrorView::InvalidParams("Invalid params: `arguments` must be strings"@),
        ),
{
    lemma_methods_differ();
    let names = crate::server::prompt_names(before.prompts@);
    crate::server::lemma_name_at(names, before.prompts@[i].name@, 0);
    assert(names[i] == before.prompts@[i].name@);
    lemma_all_text(f);
    if let Dispatch::GetPrompt { prompt, arguments } = r {
        let args = crate::text::pairs(arguments@);
        assert forall|k: int| 0 <= k < arguments@.len() implies args[k] == (
            (#[trigger] arguments@[k]).0@,
            arguments@[k].1@,
        ) by {}
        assert(args.len() == arguments@.len());
    }
}

/// The texts of an object, one for each of its fields.
proof fn lemma_all_text(f: Seq<(Seq<char>, JsonView)>)
    ensures
        crate::params::text_fields(f) is Some <==> forall|k: int|
            0 <= k < f.len() ==> (#[trigger] f[k]).1 is Text,
        crate::params::text_fields(f) matches Some(v) ==> v.len() == f.len() && forall|k: int|
            0 <= k < f.len() ==> f[k] == ((#[trigger] v[k]).0, JsonView::Text(v[k].1)),
    decreases f.len(),
{
    if f.len() > 0 {
        let front = f.drop_last();
        lemma_all_text(front);
        assert(forall|k: int| 0 <= k < front.len() ==> #[trigger] front[k] == f[k]);
        let n = f.len() - 1;
        if forall|k: int| 0 <= k < f.len() ==> (#[trigger] f[k]).1 is Text {
            assert(f[n].1 is Text);
            assert forall|k: int| 0 <= k < front.len() implies (#[trigger] front[k]).1 is Text by {
                assert(f[k].1 is Text);
            }
        }
        if crate::params::text_fields(f) is Some {
            assert(crate::params::text_fields(front) is Some);
            assert forall|k: int| 0 <= k < f.len() implies (#[trigger] f[k]).1 is Text by {
                if k < n {
                    assert(front[k].1 is Text);
                }
            }
        }
    }
}

/// A prompt that is not there is refused with its name, and so is a request
/// that names none.
pub proof fn law_a_prompt_that_is_not_there_is_refused(
    before: Server,
    after: Server,
    request: RequestView,
    now: Timestamp,
    r: Dispatch,
    name: Seq<char>,
)
    requires
        before.wf(),
        crate::dispatch::dispatch_step(before, after, request, now, r),
        request.method == "prompts/get"@,
    ensures
        after == before,
        request.params is None ==> refused(r, McpErrorView::InvalidParams("Missing params"@)),
        request.params is Some && !(request.params->0.get("name"@) matches Some(JsonView::Text(_)))
            ==> (r matches Dispatch::Done(Err(e)) && e@ is InvalidParams),
        request.params is Some && request.params->0.get("name"@) == Some(JsonView::Text(name))
            && unsaid(request.params->0, "arguments"@) && (forall|k: int|
            0 <= k < before.prompts@.len() ==> (#[trigger] before.prompts@[k]).name@ != name)
            ==> refused(r, McpErrorView::PromptNotFound(name)),
{
    lemma_methods_differ();
    let names = crate::server::prompt_names(before.prompts@);
    crate::server::lemma_name_at(names, name, 0);
    let i = crate::server::name_at(names, name, 0);
    if i < names.len() {
        assert(before.prompts@[i].name@ == name);
    }
}

/// A resource is read exactly where one has the URI that was asked for, and it
/// is that one which is read; otherwise the URI is refused. Nothing changes.
pub proof fn law_a_resource_is_read_by_its_uri(
    before: Server,
    after: Server,
    request: RequestView,
    now: Timestamp,
    r: Dispatch,
    uri: Seq<char>,
)
    requires
        before.wf(),
        crate::dispatch::dispatch_step(before, after, request, now, r),
        request.method == "resources/read"@,
        request.params is Some,
        request.params->0.get("uri"@) == Some(JsonView::Text(uri)),
    ensures
        after == before,
        forall|i: int|
            0 <= i < before.resources@.len() && (#[trigger] before.resources@[i]).key@ == uri ==> (
            r matches Dispatch::ReadResource { resource } && resource == i),
        (forall|i: int|
            0 <= i < before.resources@.len() ==> (#[trigger] before.resources@[i]).key@ != uri)
            ==> refused(r, McpErrorView::ResourceNotFound(uri)),
{
    lemma_methods_differ();
    let names = crate::server::keys(before.resources@);
    crate::server::lemma_name_at(names, uri, 0);
    let at = crate::server::name_at(names, uri, 0);
    if at < names.len() {
        assert(before.resources@[at].key@ == uri);
    }
    assert forall|i: int|
        0 <= i < before.resources@.len() && (#[trigger] before.resources@[i]).key@ == uri implies (
    r matches Dispatch::ReadResource { resource } && resource == i) by {
        assert(names[i] == uri);
    }
}

/// A sign of life is given with an empty object; a method that does not exist is
/// refused with its name. Neither changes anything.
pub proof fn law_other_methods_do_nothing(
    before: Server,
    after: Server,
    request: RequestView,
    now: Timestamp,
    r: Dispatch,
)
    requires
        crate::dispatch::dispatch_step(before, after, request, now, r),
        request.method != "initialize"@,
        request.method != "tools/list"@,
        request.method != "tools/call"@,
        request.method != "resources/list"@,
        request.method != "resources/templates/list"@,
        request.method != "resources/read"@,
        request.method != "prompts/list"@,
        request.method != "prompts/get"@,
        request.method != "logging/setLevel"@,
        request.method != "tasks/get"@,
        request.method != "tasks/result"@,
        request.method != "tasks/list"@,
        request.method != "tasks/cancel"@,
    ensures
        after == before,
        request.method == "ping"@ ==> answered(r, JsonView::Object(Seq::empty())),
        request.method != "ping"@ ==> refused(r, McpErrorView::MethodNotFound(request.method)),
{
    lemma_methods_differ();
}

/// The level that has this name, in whatever case.
pub open spec fn level_named(name: Seq<char>) -> Option<LogLevel> {
    let s = crate::text::lower_all(name);
    if s == "debug"@ {
        Some(LogLevel::Debug)
    } else if s == "info"@ {
        Some(LogLevel::Info)
    } else if s == "notice"@ {
        Some(LogLevel::Notice)
    } else if s == "warning"@ {
        Some(LogLevel::Warning)
    } else if s == "error"@ {
        Some(LogLevel::Error)
    } else if s == "critical"@ {
        Some(LogLevel::Critical)
    } else if s == "alert"@ {
        Some(LogLevel::Alert)
    } else if s == "emergency"@ {
        Some(LogLevel::Emergency)
    } else {
        None
    }
}

/// Asking for a level by its name, in whatever case, sets that level and changes
/// nothing else; a name that no level has is refused and changes nothing.
pub proof fn law_the_level_asked_for_is_set(
    before: Server,
    after: Server,
    request: RequestView,
    now: Timestamp,
    r: Dispatch,
    name: Seq<char>,
)
    requires
        crate::dispatch::dispatch_step(before, after, request, now, r),
        request.method == "logging/setLevel"@,
        request.params is Some,
        request.params->0.get("level"@) == Some(JsonView::Text(name)),
    ensures
        match level_named(name) {
            Some(level) => after.log_level == level && after == (Server {
                log_level: level,
                ..before
            }) && answered(r, JsonView::Object(Seq::empty())),
            None => after == before && (r matches Dispatch::Done(Err(e)) && e@ is InvalidParams),
        },
{
    lemma_methods_differ();
    crate::laws::words::lemma_levels_differ();
    let s = crate::text::lower_all(name);
    match level_named(name) {
        Some(level) => {
            assert(level.name() == s);
        },
        None => {},
    }
}

/// Whether a client introduces itself, asks for this revision, and declares
/// that it can do this.
pub open spec fn introduces(request: RequestView, wanted: Seq<char>, caps: ClientCapabilities) -> bool {
    &&& request.method == "initialize"@
    &&& request.params is Some
    &&& request.params->0.get("protocolVersion"@) == Some(JsonView::Text(wanted))
    &&& request.params->0.get("capabilities"@) is Some
    &&& crate::capabilities::capabilities_of(request.params->0.get("capabilities"@)->0) == Some(
        caps,
    )
}

/// A client that introduces itself is remembered with what it says it can do,
/// and is told the revision that will be spoken: the one asked for where the
/// server speaks it, else the first that it does speak. The tools, resources,
/// prompts and tasks of the server stay as they are.
pub proof fn law_a_client_is_welcomed(
    before: Server,
    after: Server,
    request: RequestView,
    now: Timestamp,
    r: Dispatch,
    wanted: Seq<char>,
    caps: ClientCapabilities,
)
    requires
        crate::dispatch::dispatch_step(before, after, request, now, r),
        introduces(request, wanted, caps),
    ensures
        after.initialized,
        after.client_capabilities == caps,
        after.log_level == before.log_level,
        after.tools == before.tools,
        after.resources == before.resources,
        after.prompts == before.prompts,
        after.tasks == before.tasks,
        after.negotiated_version is Some,
        r matches Dispatch::Done(Ok(j)) && ({
            let spoken = before.config.supported_versions@;
            let said = j@.get("protocolVersion"@);
            &&& (exists|i: int| 0 <= i < spoken.len() && (#[trigger] spoken[i])@ == wanted)
                ==> said == Some(JsonView::Text(wanted))
            &&& !(exists|i: int| 0 <= i < spoken.len() && (#[trigger] spoken[i])@ == wanted)
                && spoken.len() > 0 ==> said == Some(JsonView::Text(spoken[0]@))
            &&& said == Some(JsonView::Text(after.negotiated_version->0@))
            &&& j@.get("instructions"@) == (match before.config.instructions {
                Some(s) => Some(JsonView::Text(s@)),
                None => None,
            })
        }),
{
    lemma_methods_differ();
    lemma_welcome(before, wanted);
    assert(crate::types::given(request.params->0, "capabilities"@)
        == request.params->0.get("capabilities"@));
    let spoken = before.config.supported_versions@;
    let all = crate::text::texts(spoken);
    assert(all.len() == spoken.len());
    crate::server::law_a_spoken_revision_is_agreed_to(all, wanted);
    if exists|i: int| 0 <= i < spoken.len() && (#[trigger] spoken[i])@ == wanted {
        let i = choose|i: int| 0 <= i < spoken.len() && (#[trigger] spoken[i])@ == wanted;
        assert(all[i] == wanted);
    } else if all.contains(wanted) {
        let i = choose|i: int| 0 <= i < all.len() && all[i] == wanted;
        assert(spoken[i]@ == wanted);
    }
}

/// The parts of a welcome.
proof fn lemma_welcome(server: Server, wanted: Seq<char>)
    ensures
        ({
            let j = server.welcome(wanted);
            &&& j.get("protocolVersion"@) == Some(
                JsonView::Text(
                    crate::server::negotiated(
                        crate::text::texts(server.config.supported_versions@),
                        wanted,
                    ),
                ),
            )
            &&& j.get("capabilities"@) == Some(JsonView::Object(server.capability_fields()))
            &&& j.get("serverInfo"@) == Some(JsonView::Object(server.info_fields()))
            &&& j.get("instructions"@) == (match server.config.instructions {
                Some(s) => Some(JsonView::Text(s@)),
                None => None,
            })
        }),
{
    broadcast use crate::laws::objects::group_fields;

    reveal_with_fuel(crate::json::field_at, 4);
    crate::laws::words::lemma_welcome_words_differ();
}

/// A client is told what the server offers: tools, resources and prompts where
/// there are any, logging always, and tasks where calls may become tasks. That
/// tasks can be listed is said only where clients can be told apart.
pub proof fn law_a_client_is_told_what_is_offered(
    before: Server,
    after: Server,
    request: RequestView,
    now: Timestamp,
    r: Dispatch,
    wanted: Seq<char>,
    caps: ClientCapabilities,
)
    requires
        crate::dispatch::dispatch_step(before, after, request, now, r),
        introduces(request, wanted, caps),
    ensures
        r matches Dispatch::Done(Ok(j)) && j@.get("capabilities"@) is Some && ({
            let offers = j@.get("capabilities"@)->0;
            let offered = Some(JsonView::Object(Seq::empty()));
            &&& offers.get("tools"@) == (if before.tools@.len() > 0 {
                offered
            } else {
                None
            })
            &&& offers.get("resources"@) == (if before.resources@.len() > 0
                || before.resource_templates@.len() > 0 {
                offered
            } else {
                None
            })
            &&& offers.get("prompts"@) == (if before.prompts@.len() > 0 {
                offered
            } else {
                None
            })
            &&& offers.get("logging"@) == offered
            &&& offers.get("tasks"@) is Some <==> before.tasks is Some
            &&& before.tasks is Some ==> ({
                let tasks = offers.get("tasks"@)->0;
                &&& tasks.get("list"@) is Some <==> !(before.task_context is Anonymous)
                &&& tasks.get("cancel"@) is Some
                &&& tasks.get("requests"@) is Some
                &&& tasks.get("requests"@)->0.get("tools"@) is Some
                &&& tasks.get("requests"@)->0.get("tools"@)->0.get("call"@) == offered
            })
        }),
{
    broadcast use crate::laws::objects::group_fields;

    lemma_methods_differ();
    lemma_welcome(before, wanted);
    assert(crate::types::given(request.params->0, "capabilities"@)
        == request.params->0.get("capabilities"@));
    reveal_with_fuel(crate::json::field_at, 3);
    crate::laws::words::lemma_offer_words_differ();
    let offers = JsonView::Object(before.capability_fields());
    let tasks = crate::server::task_capability(!(before.task_context is Anonymous));
    assert(before.tasks is Some ==> offers.get("tasks"@) == Some(tasks));
}

/// A client is told who the server is: its name and version, and what else is
/// set.
pub proof fn law_a_client_is_told_who_serves(
    before: Server,
    after: Server,
    request: RequestView,
    now: Timestamp,
    r: Dispatch,
    wanted: Seq<char>,
    caps: ClientCapabilities,
)
    requires
        crate::dispatch::dispatch_step(before, after, request, now, r),
        introduces(request, wanted, caps),
    ensures
        r matches Dispatch::Done(Ok(j)) && j@.get("serverInfo"@) is Some && ({
            let info = j@.get("serverInfo"@)->0;
            &&& info.get("name"@) == Some(JsonView::Text(before.config.name@))
            &&& info.get("version"@) == Some(JsonView::Text(before.config.version@))
            &&& info.get("title"@) == (match before.config.title {
                Some(s) => Some(JsonView::Text(s@)),
                None => None,
            })
            &&& info.get("description"@) == (match before.config.description {
                Some(s) => Some(JsonView::Text(s@)),
                None => None,
            })
            &&& info.get("websiteUrl"@) == (match before.config.website_url {
                Some(s) => Some(JsonView::Text(s@)),
                None => None,
            })
            &&& crate::laws::wire::lists(
                info.get("icons"@),
                before.config.icons@.len(),
                |i: int| before.config.icons@[i]@,
            )
        }),
{
    broadcast use crate::laws::objects::group_fields;

    lemma_methods_differ();
    lemma_welcome(before, wanted);
    assert(crate::types::given(request.params->0, "capabilities"@)
        == request.params->0.get("capabilities"@));
    reveal_with_fuel(crate::json::field_at, 3);
    crate::laws::words::lemma_info_words_differ();
}

/// What a client can do is what it declares: a capability is there where its
/// field is an object, and is not where the field is left out. A client that
/// takes input and names no way takes forms.
pub proof fn law_what_is_declared_can_be_done(j: JsonView, caps: ClientCapabilities)
    requires
        crate::capabilities::capabilities_of(j) == Some(caps),
    ensures
        caps.roots <==> !unsaid(j, "roots"@),
        caps.can_sample() <==> !unsaid(j, "sampling"@),
        caps.can_sample_with_tools() <==> !unsaid(j, "sampling"@) && !unsaid(
            j.get("sampling"@)->0,
            "tools"@,
        ),
        caps.can_sample_with_context() <==> !unsaid(j, "sampling"@) && !unsaid(
            j.get("sampling"@)->0,
            "context"@,
        ),
        caps.can_elicit(crate::capabilities::ElicitationMode::Url) <==> !unsaid(
            j,
            "elicitation"@,
        ) && !unsaid(j.get("elicitation"@)->0, "url"@),
        caps.can_elicit(crate::capabilities::ElicitationMode::Form) <==> !unsaid(
            j,
            "elicitation"@,
        ) && (!unsaid(j.get("elicitation"@)->0, "form"@) || unsaid(
            j.get("elicitation"@)->0,
            "url"@,
        )),
{
}

/// A declaration is accepted exactly where every capability in it is an object.
pub proof fn law_a_declaration_is_made_of_objects(j: JsonView)
    ensures
        crate::capabilities::capabilities_of(j) is Some <==> {
            &&& j is Object
            &&& unsaid(j, "roots"@) || j.get("roots"@)->0 is Object
            &&& unsaid(j, "sampling"@) || ({
                let s = j.get("sampling"@)->0;
                s is Object && (unsaid(s, "tools"@) || s.get("tools"@)->0 is Object) && (unsaid(
                    s,
                    "context"@,
                ) || s.get("context"@)->0 is Object)
            })
            &&& unsaid(j, "elicitation"@) || ({
                let s = j.get("elicitation"@)->0;
                s is Object && (unsaid(s, "form"@) || s.get("form"@)->0 is Object) && (unsaid(
                    s,
                    "url"@,
                ) || s.get("url"@)->0 is Object)
            })
        },
{
}

/// Whether this page is one of a list of these entries: each of its items is
/// what is said of one of them.
pub open spec fn drawn_from(j: JsonView, field: Seq<char>, offered: Seq<EntryView>) -> bool {
    j.get(field) matches Some(JsonView::List(s)) && forall|k: int|
        0 <= k < s.len() ==> offered.map_values(|e: EntryView| e.wire).contains(#[trigger] s[k])
}

/// Whether this page is the whole list of these entries, by key.
pub open spec fn whole_list(j: JsonView, field: Seq<char>, offered: Seq<EntryView>) -> bool {
    j.get("nextCursor"@) is None && exists|s: Seq<EntryView>|
        #![trigger s.to_multiset()]
        s.to_multiset() == offered.to_multiset() && s.len() == offered.len() && j.get(field) == Some(
            JsonView::List(Seq::new(s.len(), |k: int| s[k].wire)),
        ) && forall|a: int, b: int|
            0 <= a < b < s.len() ==> !crate::order::text_before(
                (#[trigger] s[b]).key,
                (#[trigger] s[a]).key,
            )
}

/// The list of tools is given out under its own name. Only what is offered is in
/// it, and where no cursor is given and all fits on a page, all of it is, by
/// name. Nothing changes.
pub proof fn law_tools_are_listed(
    before: Server,
    after: Server,
    request: RequestView,
    now: Timestamp,
    r: Dispatch,
    j: JsonView,
)
    requires
        crate::dispatch::dispatch_step(before, after, request, now, r),
        request.method == "tools/list"@,
    ensures
        after == before,
        r is Done,
        request.params is None ==> r->Done_0 is Ok,
        answered(r, j) ==> ({
            let offered = Seq::new(
                before.tools@.len(),
                |i: int|
                    EntryView { key: before.tools@[i].name@, wire: before.tools@[i].wire@ },
            );
            &&& drawn_from(j, "tools"@, offered)
            &&& request.params is None && offered.len() <= before.config.page_size ==> whole_list(
                j,
                "tools"@,
                offered,
            )
        }),
{
    lemma_methods_differ();
    reveal_strlit("nextCursor");
    reveal_strlit("tools");
    let v = crate::dispatch::settled_view(r);
    let size = before.config.page_size as int;
    let all = crate::lists::tool_entries(before.tools@);
    let offered = Seq::new(
        before.tools@.len(),
        |i: int| EntryView { key: before.tools@[i].name@, wire: before.tools@[i].wire@ },
    );
    assert(all =~= offered);
    assert("nextCursor"@.len() == 10 && "tools"@.len() == 5);
    if answered(r, j) {
        lemma_page_items(v, all, "tools"@, request.params, size, j);
        if request.params is None && all.len() <= size {
            lemma_whole_list(v, all, "tools"@, size);
        }
    }
}

/// The list of prompts is given out under its own name. Only what is offered is in
/// it, and where no cursor is given and all fits on a page, all of it is, by
/// name. Nothing changes.
pub proof fn law_prompts_are_listed(
    before: Server,
    after: Server,
    request: RequestView,
    now: Timestamp,
    r: Dispatch,
    j: JsonView,
)
    requires
        crate::dispatch::dispatch_step(before, after, request, now, r),
        request.method == "prompts/list"@,
    ensures
        after == before,
        r is Done,
        request.params is None ==> r->Done_0 is Ok,
        answered(r, j) ==> ({
            let offered = Seq::new(
                before.prompts@.len(),
                |i: int|
                    EntryView { key: before.prompts@[i].name@, wire: before.prompts@[i].wire@ },
            );
            &&& drawn_from(j, "prompts"@, offered)
            &&& request.params is None && offered.len() <= before.config.page_size ==> whole_list(
                j,
                "prompts"@,
                offered,
            )
        }),
{
    lemma_methods_differ();
    reveal_strlit("nextCursor");
    reveal_strlit("prompts");
    let v = crate::dispatch::settled_view(r);
    let size = before.config.page_size as int;
    let all = crate::lists::prompt_entries(before.prompts@);
    let offered = Seq::new(
        before.prompts@.len(),
        |i: int| EntryView { key: before.prompts@[i].name@, wire: before.prompts@[i].wire@ },
    );
    assert(all =~= offered);
    assert("nextCursor"@.len() == 10 && "prompts"@.len() == 7);
    if answered(r, j) {
        lemma_page_items(v, all, "prompts"@, request.params, size, j);
        if request.params is None && all.len() <= size {
            lemma_whole_list(v, all, "prompts"@, size);
        }
    }
}

/// The list of resources is given out under its own name. Only what is offered is in
/// it, and where no cursor is given and all fits on a page, all of it is, by
/// URI. Nothing changes.
pub proof fn law_resources_are_listed(
    before: Server,
    after: Server,
    request: RequestView,
    now: Timestamp,
    r: Dispatch,
    j: JsonView,
)
    requires
        crate::dispatch::dispatch_step(before, after, request, now, r),
        request.method == "resources/list"@,
    ensures
        after == before,
        r is Done,
        request.params is None ==> r->Done_0 is Ok,
        answered(r, j) ==> ({
            let offered = Seq::new(
                before.resources@.len(),
                |i: int|
                    EntryView { key: before.resources@[i].key@, wire: before.resources@[i].wire@ },
            );
            &&& drawn_from(j, "resources"@, offered)
            &&& request.params is None && offered.len() <= before.config.page_size ==> whole_list(
                j,
                "resources"@,
                offered,
            )
        }),
{
    lemma_methods_differ();
    reveal_strlit("nextCursor");
    reveal_strlit("resources");
    let v = crate::dispatch::settled_view(r);
    let size = before.config.page_size as int;
    let all = crate::order::viewed(before.resources@);
    let offered = Seq::new(
        before.resources@.len(),
        |i: int| EntryView { key: before.resources@[i].key@, wire: before.resources@[i].wire@ },
    );
    assert(all =~= offered);
    assert("nextCursor"@.len() == 10 && "resources"@.len() == 9);
    if answered(r, j) {
        lemma_page_items(v, all, "resources"@, request.params, size, j);
        if request.params is None && all.len() <= size {
            lemma_whole_list(v, all, "resources"@, size);
        }
    }
}

/// The list of templates is given out under its own name. Only what is offered is in
/// it, and where no cursor is given and all fits on a page, all of it is, by
/// URI. Nothing changes.
pub proof fn law_templates_are_listed(
    before: Server,
    after: Server,
    request: RequestView,
    now: Timestamp,
    r: Dispatch,
    j: JsonView,
)
    requires
        crate::dispatch::dispatch_step(before, after, request, now, r),
        request.method == "resources/templates/list"@,
    ensures
        after == before,
        r is Done,
        request.params is None ==> r->Done_0 is Ok,
        answered(r, j) ==> ({
            let offered = Seq::new(
                before.resource_templates@.len(),
                |i: int|
                    EntryView { key: before.resource_templates@[i].key@, wire: before.resource_templates@[i].wire@ },
            );
            &&& drawn_from(j, "resourceTemplates"@, offered)
            &&& request.params is None && offered.len() <= before.config.page_size ==> whole_list(
                j,
                "resourceTemplates"@,
                offered,
            )
        }),
{
    lemma_methods_differ();
    reveal_strlit("nextCursor");
    reveal_strlit("resourceTemplates");
    let v = crate::dispatch::settled_view(r);
    let size = before.config.page_size as int;
    let all = crate::order::viewed(before.resource_templates@);
    let offered = Seq::new(
        before.resource_templates@.len(),
        |i: int| EntryView { key: before.resource_templates@[i].key@, wire: before.resource_templates@[i].wire@ },
    );
    assert(all =~= offered);
    assert("nextCursor"@.len() == 10 && "resourceTemplates"@.len() == 17);
    if answered(r, j) {
        lemma_page_items(v, all, "resourceTemplates"@, request.params, size, j);
        if request.params is None && all.len() <= size {
            lemma_whole_list(v, all, "resourceTemplates"@, size);
        }
    }
}

/// What is on a page is among what is listed.
proof fn lemma_page_items(
    r: Result<JsonView, McpErrorView>,
    all: Seq<EntryView>,
    field: Seq<char>,
    params: Option<JsonView>,
    page_size: int,
    j: JsonView,
)
    requires
        crate::lists::is_page(r, all, field, params, page_size),
        r == Ok::<JsonView, McpErrorView>(j),
    ensures
        drawn_from(j, field, all),
{
    broadcast use crate::laws::objects::group_fields;

    let c = crate::params::cursor_param(params)->Ok_0;
    let offset = crate::pagination::page_at(c)->Ok_0;
    lemma_offset_natural(c);
    let sorted = choose|s: Seq<EntryView>|
        crate::lists::is_listing(s, all) && r == Ok::<JsonView, McpErrorView>(
            #[trigger] crate::lists::page_json(field, s, offset, page_size),
        );
    let shown = crate::pagination::page(sorted, offset, page_size);
    let s = crate::lists::wires(shown);
    let wires = all.map_values(|e: EntryView| e.wire);
    assert(j.get(field) == Some(JsonView::List(s)));
    all.to_multiset_ensures();
    sorted.to_multiset_ensures();
    assert forall|k: int| 0 <= k < s.len() implies wires.contains(#[trigger] s[k]) by {
        let x = shown[k];
        assert(x == sorted[offset + k]);
        assert(sorted.contains(x));
        assert(sorted.to_multiset().count(x) > 0);
        assert(all.contains(x));
        let i = choose|i: int| 0 <= i < all.len() && all[i] == x;
        assert(wires[i] == s[k]);
    }
}

/// A cursor never leads before the beginning.
pub proof fn lemma_offset_natural(c: Option<Seq<char>>)
    ensures
        crate::pagination::page_at(c) matches Ok(n) ==> n >= 0,
{
    if let Some(c) = c {
        lemma_number_natural(c.skip(7), 10);
    }
}

pub proof fn lemma_number_natural(s: Seq<char>, base: int)
    requires
        base >= 0,
    ensures
        crate::text::number(s, base) >= 0,
    decreases s.len(),
{
    if s.len() > 0 {
        lemma_number_natural(s.drop_last(), base);
        assert(crate::text::number(s.drop_last(), base) * base >= 0) by (nonlinear_arith)
            requires
                base >= 0,
                crate::text::number(s.drop_last(), base) >= 0,
        ;
    }
}

/// Where no cursor is given and all fits on one page, the page holds all of it.
proof fn lemma_whole_list(
    r: Result<JsonView, McpErrorView>,
    all: Seq<EntryView>,
    field: Seq<char>,
    page_size: int,
)
    requires
        crate::lists::is_page(r, all, field, None, page_size),
        all.len() <= page_size,
        field != "nextCursor"@,
    ensures
        r is Ok,
        whole_list(r->Ok_0, field, all),
{
    broadcast use crate::laws::objects::group_fields;

    let s = choose|s: Seq<EntryView>|
        crate::lists::is_listing(s, all) && r == Ok::<JsonView, McpErrorView>(
            #[trigger] crate::lists::page_json(field, s, 0, page_size),
        );
    all.to_multiset_ensures();
    s.to_multiset_ensures();
    let shown = crate::pagination::page(s, 0, page_size);
    assert(s.len() == all.len());
    assert(shown =~= s);
    assert(crate::lists::wires(s) =~= Seq::new(s.len(), |k: int| s[k].wire));
    assert(r->Ok_0.get("nextCursor"@) is None);
    assert(r->Ok_0.get(field) == Some(JsonView::List(Seq::new(s.len(), |k: int| s[k].wire))));
    assert forall|a: int, b: int| 0 <= a < b < s.len() implies !crate::order::text_before(
        (#[trigger] s[b]).key,
        (#[trigger] s[a]).key,
    ) by {
        assert(!<crate::protocol::Entry as crate::order::Ranked>::precedes(s[b], s[a]));
    }
}

/// Texts are ordered as in a dictionary, by their characters: by the first one
/// that differs, and the shorter first where none does.
pub proof fn law_texts_are_ordered_as_in_a_dictionary(a: Seq<char>, b: Seq<char>, n: int)
    requires
        0 <= n <= a.len(),
        n <= b.len(),
        forall|k: int| 0 <= k < n ==> a[k] == b[k],
    ensures
        n < a.len() && n < b.len() && a[n] != b[n] ==> crate::order::text_before(a, b) == (a[n]
            < b[n]),
        n == a.len() ==> crate::order::text_before(a, b) == (a.len() < b.len()),
        n == b.len() ==> !crate::order::text_before(a, b),
    decreases n,
{
    if n > 0 {
        assert forall|k: int| 0 <= k < n - 1 implies a.skip(1)[k] == b.skip(1)[k] by {
            assert(a[k + 1] == b[k + 1]);
        }
        assert(a[0] == b[0]);
        law_texts_are_ordered_as_in_a_dictionary(a.skip(1), b.skip(1), n - 1);
    }
}

/// A page begins where its cursor says and is as long as pages are, unless the
/// list ends; then nothing follows, and otherwise the next cursor leads to what
/// comes right after it.
pub proof fn law_a_page_is_full_and_leads_on<T>(all: Seq<T>, offset: int, page_size: int)
    requires
        0 <= offset,
        all.len() <= usize::MAX,
    ensures
        ({
            let page = crate::pagination::page(all, offset, page_size);
            let next = crate::pagination::next_cursor(offset, page_size, all.len() as int);
            let room = if page_size < 1 {
                1
            } else {
                page_size
            };
            &&& forall|k: int| 0 <= k < page.len() ==> #[trigger] page[k] == all[offset + k]
            &&& offset >= all.len() ==> page.len() == 0 && next is None
            &&& offset < all.len() <= offset + room ==> page.len() == all.len() - offset
                && next is None
            &&& offset + room < all.len() ==> page.len() == room && (next matches Some(c)
                && crate::pagination::page_at(Some(c)) == Ok::<int, McpErrorView>(offset + room))
        }),
{
    let room = if page_size < 1 {
        1
    } else {
        page_size
    };
    if offset + room < all.len() {
        crate::pagination::law_cursors_are_read_back(offset + room);
    }
}

/// A request for a list says where to begin by its `cursor`: left out, at the
/// beginning; and what is no cursor is refused.
pub proof fn law_cursors_are_texts_that_were_handed_out(params: JsonView)
    requires
        params is Object,
    ensures
        unsaid(params, "cursor"@) ==> crate::params::cursor_param(Some(params)) == Ok::<
            Option<Seq<char>>,
            McpErrorView,
        >(None),
        params.get("cursor"@) matches Some(JsonView::Text(c)) ==> crate::params::cursor_param(
            Some(params),
        ) == Ok::<Option<Seq<char>>, McpErrorView>(Some(c)),
        !unsaid(params, "cursor"@) && !(params.get("cursor"@)->0 is Text)
            ==> crate::params::cursor_param(Some(params)) is Err,
        crate::pagination::page_at(None) == Ok::<int, McpErrorView>(0),
{
}

/// A page of a list begins where its cursor says: it holds what comes there in
/// the order of the whole list, as much of it as a page has, and says where the
/// next one begins.
pub proof fn law_a_page_begins_at_its_cursor(
    r: Result<JsonView, McpErrorView>,
    all: Seq<EntryView>,
    field: Seq<char>,
    params: JsonView,
    n: int,
    size: int,
)
    requires
        crate::lists::is_page(r, all, field, Some(params), size),
        params.get("cursor"@) == Some(JsonView::Text(crate::pagination::cursor(n))),
        0 <= n <= usize::MAX,
        size >= 1,
        field != "nextCursor"@,
    ensures
        exists|s: Seq<EntryView>|
            #![trigger s.to_multiset()]
            {
                let end = if n + size < s.len() {
                    n + size
                } else {
                    s.len() as int
                };
                &&& s.to_multiset() == all.to_multiset() && s.len() == all.len()
                &&& forall|a: int, b: int|
                    0 <= a < b < s.len() ==> !crate::order::text_before(
                        (#[trigger] s[b]).key,
                        (#[trigger] s[a]).key,
                    )
                &&& r is Ok
                &&& crate::laws::wire::is_list(
                    r->Ok_0.get(field),
                    if n < end {
                        (end - n) as nat
                    } else {
                        0
                    },
                    |k: int| s[n + k].wire,
                )
                &&& r->Ok_0.get("nextCursor"@) == (if end < s.len() {
                    Some(JsonView::Text(crate::pagination::cursor(end)))
                } else {
                    None
                })
            },
{
    broadcast use crate::laws::objects::group_fields;

    crate::pagination::law_cursors_are_read_back(n);
    assert(params is Object);
    let s = choose|s: Seq<EntryView>|
        crate::lists::is_listing(s, all) && r == Ok::<JsonView, McpErrorView>(
            #[trigger] crate::lists::page_json(field, s, n, size),
        );
    s.to_multiset_ensures();
    all.to_multiset_ensures();
    assert(s.len() == all.len());
    let page = crate::pagination::page(s, n, size);
    let j = r->Ok_0;
    assert(j.get(field) == Some(JsonView::List(crate::lists::wires(page))));
    assert forall|a: int, b: int| 0 <= a < b < s.len() implies !crate::order::text_before(
        (#[trigger] s[b]).key,
        (#[trigger] s[a]).key,
    ) by {
        assert(!<crate::protocol::Entry as crate::order::Ranked>::precedes(s[b], s[a]));
    }
}

/// A cursor is read as the place it was made for, and what was not made so is
/// refused.
pub proof fn law_what_is_no_cursor_is_refused(c: Seq<char>)
    requires
        c.len() < 8 || c[0] != 'o' || c[6] != '-' || !('0' <= c[7] && c[7] <= '9'),
    ensures
        crate::pagination::page_at(Some(c)) matches Err(McpErrorView::InvalidParams(_)),
{
    reveal_strlit("offset-");
    let w = "offset-"@;
    assert(w.len() == 7 && w[0] == 'o' && w[6] == '-');
    if c.len() >= 7 && c.take(7) == w {
        assert(c.take(7)[0] == c[0] && c.take(7)[6] == c[6]);
        if c.len() >= 8 {
            assert(c.skip(7)[0] == c[7]);
            assert(crate::text::is_number(c.skip(7), 10) ==> crate::text::digit(c.skip(7)[0]) < 10);
        }
    }
}

/// A client that introduces itself without saying anything is taken to want any
/// revision and to be able to do nothing; one that says something of the wrong
/// kind is refused, and nothing is remembered of it.
pub proof fn law_a_client_may_say_little(
    before: Server,
    after: Server,
    request: RequestView,
    now: Timestamp,
    r: Dispatch,
)
    requires
        crate::dispatch::dispatch_step(before, after, request, now, r),
        request.method == "initialize"@,
    ensures
        request.params is None || (request.params->0 is Object && unsaid(
            request.params->0,
            "protocolVersion"@,
        ) && unsaid(request.params->0, "capabilities"@)) ==> after.initialized && (
        r matches Dispatch::Done(Ok(_))) && !after.client_capabilities.roots
            && after.client_capabilities.sampling is None && after.client_capabilities.elicitation
            is None,
        request.params is Some && (!(request.params->0 is Object) || (!unsaid(
            request.params->0,
            "protocolVersion"@,
        ) && !(request.params->0.get("protocolVersion"@)->0 is Text)) || (!unsaid(
            request.params->0,
            "capabilities"@,
        ) && crate::capabilities::capabilities_of(request.params->0.get("capabilities"@)->0)
            is None)) ==> after.initialized == before.initialized && after.client_capabilities
            == before.client_capabilities && after.negotiated_version == before.negotiated_version
            && (r matches Dispatch::Done(Err(e)) && e@ is InvalidParams),
{
    lemma_methods_differ();
}

/// A request for a level that gives none is refused, and changes nothing.
pub proof fn law_a_level_has_to_be_given(
    before: Server,
    after: Server,
    request: RequestView,
    now: Timestamp,
    r: Dispatch,
)
    requires
        crate::dispatch::dispatch_step(before, after, request, now, r),
        request.method == "logging/setLevel"@,
        request.params is None || !(request.params->0.get("level"@) matches Some(JsonView::Text(_))),
    ensures
        after == before,
        r matches Dispatch::Done(Err(e)) && e@ is InvalidParams,
{
    lemma_methods_differ();
}

/// Arguments of a prompt that are there and are no object are refused.
pub proof fn law_a_prompt_takes_an_object(
    before: Server,
    after: Server,
    request: RequestView,
    now: Timestamp,
    r: Dispatch,
)
    requires
        crate::dispatch::dispatch_step(before, after, request, now, r),
        request.method == "prompts/get"@,
        request.params is Some,
        request.params->0.get("name"@) matches Some(JsonView::Text(_)),
        !unsaid(request.params->0, "arguments"@),
        !(request.params->0.get("arguments"@)->0 is Object),
    ensures
        after == before,
        refused(
            r,
            McpErrorView::InvalidParams("Invalid params: `arguments` must be strings"@),
        ),
{
    lemma_methods_differ();
}

/// A resource that is asked for without its URI is refused.
pub proof fn law_a_resource_is_asked_for_by_uri(
    before: Server,
    after: Server,
    request: RequestView,
    now: Timestamp,
    r: Dispatch,
)
    requires
        crate::dispatch::dispatch_step(before, after, request, now, r),
        request.method == "resources/read"@,
        request.params is None || !(request.params->0.get("uri"@) matches Some(JsonView::Text(_))),
    ensures
        after == before,
        r matches Dispatch::Done(Err(e)) && e@ is InvalidParams,
{
    lemma_methods_differ();
}

/// Where a server speaks no revision of its own choosing, the newest is spoken;
/// and the revisions there are, are three.
pub proof fn law_the_revisions_there_are(wanted: Seq<char>, version: &str, r: bool)
    requires
        call_ensures(crate::protocol::is_supported_protocol_version, (version,), r),
    ensures
        crate::server::negotiated(Seq::empty(), wanted) == "2025-11-25"@,
        r <==> version@ == "2025-11-25"@ || version@ == "2025-06-18"@ || version@ == "2025-03-26"@,
{
}

} // verus!
