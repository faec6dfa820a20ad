//! Serving over HTTP: who is let in, and what is answered.

use crate::json::{JsonView, NumberView};
use crate::server::{Server, ServerConfig, TaskContext};
use crate::transport::http::{
    Authorization, Claims, HttpServer, HttpTransportView, Processed, Session, Verdict,
};
use crate::transport::http1::head::{Head, HeadView};
use crate::transport::http1::response::{Response, ResponseView};
use crate::types::{McpError, McpErrorView};
use vstd::prelude::*;
use vstd::string::*;
use vstd::utf8::*;

verus! {

/// Whether this text is among these.
pub open spec fn among(s: Seq<char>, v: Seq<String>) -> bool {
    exists|k: int| 0 <= k < v.len() && (#[trigger] v[k])@ == s
}

/// The value of a header field of a response.
pub open spec fn says(r: ResponseView, name: Seq<char>, value: Seq<char>) -> bool {
    r.headers.contains((name, value))
}

/// Whether a response is a refusal with this status and code, in these words.
pub open spec fn refuses(r: ResponseView, status: u16, code: int, words: Seq<char>) -> bool {
    &&& r.status == status
    &&& exists|j: JsonView|
        r.body == #[trigger] encode_utf8(crate::json::json_written(j)) && j.get("jsonrpc"@) == Some(
            JsonView::Text("2.0"@),
        ) && j.get("error"@) is Some && j.get("error"@)->0.get("code"@) == Some(
            JsonView::Number(NumberView::Negative(code as i64)),
        ) && j.get("error"@)->0.get("message"@) == Some(JsonView::Text(words))
}

proof fn lemma_refuses(status: u16, code: int, words: Seq<char>)
    requires
        -40_000 < code < 0,
    ensures
        refuses(crate::transport::http::refusal(status, code, words), status, code, words),
        crate::transport::http::refusal(status, code, words).headers.len() <= 1,
        says(
            crate::transport::http::refusal(status, code, words),
            "Content-Type"@,
            "application/json"@,
        ),
        !crate::transport::http::refusal(status, code, words).close,
{
    broadcast use crate::laws::objects::group_fields;

    reveal_with_fuel(crate::json::field_at, 3);
    crate::laws::words::lemma_refusal_words_differ();
    let j = crate::transport::http::error_body(code, words);
    let e = j.get("error"@)->0;
    assert(j.get("jsonrpc"@) == Some(JsonView::Text("2.0"@)));
    assert(e.get("message"@) == Some(JsonView::Text(words)));
    assert(e.get("code"@) == Some(JsonView::Number(NumberView::Negative(code as i64))));
    let r = crate::transport::http::refusal(status, code, words);
    lemma_json_type();
    assert(r.headers[0] == ("Content-Type"@, "application/json"@));
}

/// The kind of a JSON body can stand in a header field.
pub proof fn lemma_json_type()
    ensures
        crate::transport::http1::response::token_ok("Content-Type"@),
        crate::transport::http1::response::value_ok("application/json"@),
        crate::transport::http1::response::token_ok("WWW-Authenticate"@),
{
    reveal_strlit("Content-Type");
    reveal_strlit("application/json");
    reveal_strlit("WWW-Authenticate");
}

/// A valid token lets a request through exactly where each scope that is
/// required is among the token's, wherever it stands; the request is then its
/// bearer's. Otherwise it is refused as forbidden.
pub proof fn law_a_token_needs_every_scope(
    server: HttpServer,
    claims: Claims,
    r: Authorization,
)
    requires
        call_ensures(HttpServer::authorize, (&server, Verdict::Valid(claims)), r),
    ensures
        r is Proceed <==> forall|k: int|
            0 <= k < server.required_scopes@.len() ==> among(
                (#[trigger] server.required_scopes@[k])@,
                claims.scopes@,
            ),
        r matches Authorization::Proceed(c) ==> (c matches TaskContext::Owner(o) && o@
            == claims.user_id@ + "\u{1}"@ + claims.tenant_id@),
        r matches Authorization::Reject(x) ==> x@.status == 403,
{
    let want = crate::text::texts(server.required_scopes@);
    let have = crate::text::texts(claims.scopes@);
    law_missing_scopes_are_those_not_held(want, have);
    let missing = crate::transport::http::lacking(want, have);
    if missing.len() == 0 {
        assert forall|k: int| 0 <= k < server.required_scopes@.len() implies among(
            (#[trigger] server.required_scopes@[k])@,
            claims.scopes@,
        ) by {
            let s = server.required_scopes@[k]@;
            assert(want[k] == s);
            assert(want.contains(s));
            assert(!missing.contains(s));
            let j = choose|j: int| 0 <= j < have.len() && have[j] == s;
            assert(claims.scopes@[j]@ == s);
        }
    } else {
        let s = missing[0];
        assert(missing.contains(s));
        let k = choose|k: int| 0 <= k < want.len() && want[k] == s;
        assert(server.required_scopes@[k]@ == s);
        if among(s, claims.scopes@) {
            let j = choose|j: int|
                0 <= j < claims.scopes@.len() && (#[trigger] claims.scopes@[j])@ == s;
            assert(have[j] == s);
        }
        lemma_refuses(
            403,
            -32600,
            "Forbidden: missing scope(s): "@ + crate::text::joined(missing, " "@),
        );
    }
}

/// A scope is missing exactly where it is required and is nowhere among those
/// held. Missing ones stay in the order in which they are required.
pub proof fn law_missing_scopes_are_those_not_held(want: Seq<Seq<char>>, have: Seq<Seq<char>>)
    ensures
        forall|s: Seq<char>| #[trigger]
            crate::transport::http::lacking(want, have).contains(s) <==> want.contains(s)
                && !have.contains(s),
        (forall|k: int| 0 <= k < want.len() ==> !have.contains(#[trigger] want[k]))
            ==> crate::transport::http::lacking(want, have) == want,
    decreases want.len(),
{
    reveal(Seq::filter);
    let out = crate::transport::http::lacking(want, have);
    if want.len() > 0 {
        let front = want.drop_last();
        law_missing_scopes_are_those_not_held(front, have);
        let before = crate::transport::http::lacking(front, have);
        let last = want.last();
        assert forall|s: Seq<char>| #[trigger] out.contains(s) <==> want.contains(s)
            && !have.contains(s) by {
            if before.contains(s) {
                let k = choose|k: int| 0 <= k < before.len() && before[k] == s;
                assert(out[k] == s);
                let j = choose|j: int| 0 <= j < front.len() && front[j] == s;
                assert(want[j] == s);
            }
            if out.contains(s) {
                let k = choose|k: int| 0 <= k < out.len() && out[k] == s;
                if k < before.len() {
                    assert(before[k] == s);
                    assert(before.contains(s));
                } else {
                    assert(want[want.len() - 1] == s);
                }
            }
            if want.contains(s) && !have.contains(s) {
                let k = choose|k: int| 0 <= k < want.len() && want[k] == s;
                if k < front.len() {
                    assert(front[k] == s);
                    assert(before.contains(s));
                } else {
                    assert(out[out.len() - 1] == s);
                }
            }
        }
        if forall|k: int| 0 <= k < want.len() ==> !have.contains(#[trigger] want[k]) {
            assert forall|k: int| 0 <= k < front.len() implies !have.contains(
                #[trigger] front[k],
            ) by {
                assert(!have.contains(want[k]));
            }
            assert(!have.contains(want[want.len() - 1]));
            assert(out =~= want);
        }
    }
}

/// A request without a token, or with one that is not valid, is refused as not
/// authorized, and told where to get one where that is published and can be
/// written in a header field.
pub proof fn law_no_request_without_a_token(
    server: HttpServer,
    why: String,
    missing: Authorization,
    invalid: Authorization,
)
    requires
        call_ensures(HttpServer::authorize, (&server, Verdict::Missing), missing),
        call_ensures(HttpServer::authorize, (&server, Verdict::Invalid(why)), invalid),
    ensures
        missing matches Authorization::Reject(x) && refuses(
            x@,
            401,
            -32600,
            "Unauthorized: Missing Authorization header"@,
        ) && pointed_to(server, x@),
        invalid matches Authorization::Reject(x) && refuses(
            x@,
            401,
            -32600,
            "Unauthorized: "@ + why@,
        ) && pointed_to(server, x@),
{
    lemma_refuses(401, -32600, "Unauthorized: Missing Authorization header"@);
    lemma_refuses(401, -32600, "Unauthorized: "@ + why@);
    lemma_json_type();
    lemma_pointed_to(server, "Unauthorized: Missing Authorization header"@);
    lemma_pointed_to(server, "Unauthorized: "@ + why@);
}

/// Whether a response says where to get a token, where that is published, in
/// ASCII and without control characters.
pub open spec fn pointed_to(server: HttpServer, r: ResponseView) -> bool {
    match server.protected_resource {
        None => r.headers.len() == 1,
        Some(p) => {
            let words = crate::transport::http::challenge_text(
                p.metadata_url@,
                crate::text::texts(p.scopes_supported@),
            );
            if forall|k: int|
                0 <= k < words.len() ==> (' ' <= (#[trigger] words[k]) || words[k] == '\t')
                    && words[k] <= '\u{7f}' {
                says(r, "WWW-Authenticate"@, words)
            } else {
                r.headers.len() == 1
            }
        },
    }
}

proof fn lemma_pointed_to(server: HttpServer, words: Seq<char>)
    ensures
        pointed_to(server, server.unauthorized_answer(words)),
{
    lemma_refuses(401, -32600, words);
    lemma_json_type();
    let plain = crate::transport::http::refusal(401, -32600, words);
    if let Some(p) = server.protected_resource {
        let c = crate::transport::http::challenge_text(
            p.metadata_url@,
            crate::text::texts(p.scopes_supported@),
        );
        let r = crate::transport::http::challenged(plain, c);
        if forall|k: int|
            0 <= k < c.len() ==> (' ' <= (#[trigger] c[k]) || c[k] == '\t') && c[k] <= '\u{7f}' {
            assert(crate::transport::http::is_ascii(c));
            assert(crate::transport::http1::response::value_ok(c));
            assert(r.headers[1] == ("WWW-Authenticate"@, c));
            assert(says(r, "WWW-Authenticate"@, c));
        } else if crate::transport::http::is_ascii(c) {
            let k = choose|k: int|
                0 <= k < c.len() && !((' ' <= (#[trigger] c[k]) || c[k] == '\t') && c[k]
                    <= '\u{7f}');
            assert(c[k] <= '\u{7f}');
            assert(!crate::transport::http1::response::value_ok(c));
        }
    }
}

/// The path of a target is all of it before the first `?` or `#`.
pub proof fn law_the_path_ends_before_query_and_fragment(target: Seq<char>)
    ensures
        ({
            let path = crate::transport::http::path_in(target);
            &&& path.len() <= target.len()
            &&& forall|k: int|
                0 <= k < path.len() ==> #[trigger] path[k] == target[k] && path[k] != '?' && path[k]
                    != '#'
            &&& path.len() < target.len() ==> target[path.len() as int] == '?'
                || target[path.len() as int] == '#'
        }),
{
    crate::text::lemma_find_from(target, '?', 0);
    crate::text::lemma_find_from(target, '#', 0);
}

/// Of several header fields with one name, in whatever case, the first counts.
pub proof fn law_the_first_field_counts(
    headers: Seq<(Seq<char>, Seq<char>)>,
    name: Seq<char>,
    i: int,
)
    ensures
        0 <= i < headers.len() && crate::text::lower_all(headers[i].0) == crate::text::lower_all(
            name,
        ) && (forall|k: int|
            0 <= k < i ==> crate::text::lower_all((#[trigger] headers[k]).0)
                != crate::text::lower_all(name)) ==> crate::transport::http1::head::header_value(
            headers,
            name,
        ) == Some(headers[i].1),
        (forall|k: int|
            0 <= k < headers.len() ==> crate::text::lower_all((#[trigger] headers[k]).0)
                != crate::text::lower_all(name)) ==> crate::transport::http1::head::header_value(
            headers,
            name,
        ) is None,
{
    lemma_header_at(headers, name, 0);
    let at = crate::transport::http1::head::header_at(headers, name, 0);
    if at < headers.len() {
        assert(crate::text::lower_all(headers[at].0) == crate::text::lower_all(name));
    }
}

proof fn lemma_header_at(headers: Seq<(Seq<char>, Seq<char>)>, name: Seq<char>, from: int)
    requires
        0 <= from <= headers.len(),
    ensures
        ({
            let at = crate::transport::http1::head::header_at(headers, name, from);
            &&& from <= at <= headers.len()
            &&& at < headers.len() ==> crate::text::lower_all(headers[at].0)
                == crate::text::lower_all(name)
            &&& forall|k: int|
                from <= k < at ==> crate::text::lower_all((#[trigger] headers[k]).0)
                    != crate::text::lower_all(name)
        }),
    decreases headers.len() - from,
{
    if from < headers.len() && crate::text::lower_all(headers[from].0) != crate::text::lower_all(
        name,
    ) {
        lemma_header_at(headers, name, from + 1);
    }
}

/// The revision that a request speaks is what its header field says, and the
/// oldest that is spoken where it says nothing.
pub open spec fn speaks(head: HeadView, version: Seq<char>) -> bool {
    match crate::transport::http1::head::header_value(head.headers, "MCP-Protocol-Version"@) {
        Some(v) => v == version,
        None => version == "2025-03-26"@,
    }
}

/// A request is let in exactly where it goes to the endpoint, by `POST`, in a
/// revision that is spoken, and from a page that is allowed or from no page.
/// Otherwise it is refused, for the first of these that does not hold. What is
/// published about tokens is given to whoever asks.
pub proof fn law_requests_are_let_in_for_cause(
    server: HttpServer,
    head: HeadView,
    version: Seq<char>,
    said: Head,
    answer: Option<Response>,
)
    requires
        said@ == head,
        call_ensures(HttpServer::precheck, (&server, &said), answer),
        speaks(head, version),
        server.protected_resource matches Some(p) ==> crate::transport::http::path_in(head.target)
            != p.metadata_path@,
    ensures
        ({
            let there = crate::transport::http::path_in(head.target) == server.endpoint@;
            let posted = head.method is Post;
            let spoken = among(version, server.config.supported_versions@);
            let origin = crate::transport::http1::head::header_value(head.headers, "Origin"@);
            let welcome = origin is None || crate::transport::origin::allowed(
                server.origin_policy,
                origin->0,
            );
            &&& answer is None <==> server.rejection(head) is None
            &&& answer matches Some(x) ==> server.rejection(head) == Some(x@)
            &&& match server.rejection(head) {
                None => there && posted && spoken && welcome,
                Some(r) => if !there {
                    refuses(r, 404, -32600, "Not Found"@)
                } else if !posted {
                    refuses(r, 405, -32600, "Method Not Allowed"@)
                } else if !spoken {
                    refuses(
                        r,
                        400,
                        -32600,
                        "Unsupported MCP-Protocol-Version `"@ + version
                            + "`; this server supports: "@ + crate::text::joined(
                            Seq::new(
                                server.config.supported_versions@.len(),
                                |k: int| server.config.supported_versions@[k]@,
                            ),
                            ", "@,
                        ),
                    )
                } else {
                    !welcome && refuses(
                        r,
                        403,
                        -32600,
                        "Forbidden: disallowed Origin `"@ + origin->0 + "`"@,
                    )
                },
            }
        }),
{
    let supported = crate::text::texts(server.config.supported_versions@);
    assert(supported =~= Seq::new(
        server.config.supported_versions@.len(),
        |k: int| server.config.supported_versions@[k]@,
    ));
    lemma_refuses(
        400,
        -32600,
        "Unsupported MCP-Protocol-Version `"@ + version + "`; this server supports: "@
            + crate::text::joined(supported, ", "@),
    );
    if let Some(o) = crate::transport::http1::head::header_value(head.headers, "Origin"@) {
        lemma_refuses(403, -32600, "Forbidden: disallowed Origin `"@ + o + "`"@);
    }
    lemma_refuses(404, -32600, "Not Found"@);
    lemma_refuses(405, -32600, "Method Not Allowed"@);
    if supported.contains(version) {
        let k = choose|k: int| 0 <= k < supported.len() && supported[k] == version;
        assert(server.config.supported_versions@[k]@ == version);
    }
    if among(version, server.config.supported_versions@) {
        let k = choose|k: int|
            0 <= k < server.config.supported_versions@.len() && (
            #[trigger] server.config.supported_versions@[k])@ == version;
        assert(supported[k] == version);
    }
}

/// What is published about who hands out tokens is given to whoever asks for it,
/// as it is.
pub proof fn law_what_is_published_is_given(server: HttpServer, head: HeadView)
    requires
        server.protected_resource is Some,
        crate::transport::http::path_in(head.target) == server.protected_resource->0.metadata_path@,
    ensures
        head.method is Get ==> (server.rejection(head) matches Some(r) && r.status == 200 && r.body
            == encode_utf8(server.protected_resource->0.document@) && says(
            r,
            "Content-Type"@,
            "application/json"@,
        )),
        !(head.method is Get) ==> (server.rejection(head) matches Some(r) && r.status == 405),
{
    lemma_json_type();
    if head.method is Get {
        let r = server.rejection(head)->0;
        assert(r.headers[0] == ("Content-Type"@, "application/json"@));
    }
}

/// What a request came to is answered: with its body where there is one, as
/// accepted where there is nothing to say, and otherwise with the fault, which is
/// the client's where it could not be read.
pub proof fn law_outcomes_have_their_status(
    server: HttpServer,
    outcome: Result<Processed, McpError>,
    r: Response,
)
    requires
        call_ensures(HttpServer::finish, (&server, outcome), r),
    ensures
        match outcome {
            Ok(Processed::Body(body, kind)) => r@.status == 200 && r@.body == encode_utf8(body@),
            Ok(Processed::Accepted) => r@.status == 202 && r@.body.len() == 0,
            Err(e) => match e@ {
                McpErrorView::Json(_) => refuses(r@, 400, -32700, e@.words()),
                McpErrorView::InvalidMessage(_) => refuses(r@, 400, -32600, e@.words()),
                _ => refuses(r@, 500, -32603, e@.words()),
            },
        },
        !r@.close,
{
    if let Err(e) = outcome {
        lemma_refuses(400, -32700, e@.words());
        lemma_refuses(400, -32600, e@.words());
        lemma_refuses(500, -32603, e@.words());
    }
}

/// A stream of events holds one event for each message, in order, and nothing
/// else.
pub proof fn law_each_message_is_an_event(a: Seq<Seq<char>>, m: Seq<char>, b: Seq<Seq<char>>)
    ensures
        crate::transport::http::events(a + seq![m] + b) == crate::transport::http::events(a)
            + "data: "@ + m + "\n\n"@ + crate::transport::http::events(b),
        crate::transport::http::events(Seq::empty()) == Seq::<char>::empty(),
    decreases b.len(),
{
    let all = a + seq![m] + b;
    if b.len() == 0 {
        assert(all.drop_last() =~= a);
        assert(all.last() == m);
        assert(crate::transport::http::events(all) =~= crate::transport::http::events(a) + "data: "@
            + m + "\n\n"@ + crate::transport::http::events(b));
    } else {
        law_each_message_is_an_event(a, m, b.drop_last());
        assert(all.drop_last() =~= a + seq![m] + b.drop_last());
        assert(all.last() == b.last());
        assert(crate::transport::http::events(all) =~= crate::transport::http::events(a) + "data: "@
            + m + "\n\n"@ + crate::transport::http::events(b));
    }
}

/// What was said in answer to a request is its body: a single message as JSON,
/// as it is; several as a stream of events, the first of them first; and nothing
/// at all is merely accepted.
pub proof fn law_what_was_said_is_the_body(m: Seq<Seq<char>>, r: Processed)
    requires
        crate::transport::http::comes_to(m, r),
    ensures
        m.len() == 0 <==> r is Accepted,
        m.len() == 1 ==> (r matches Processed::Body(body, kind) && body@ == m[0] && kind@
            == "application/json"@),
        m.len() > 1 ==> (r matches Processed::Body(body, kind) && body@
            == crate::transport::http::events(m) && kind@ == "text/event-stream"@ && body@.len() > 0),
{
    reveal_strlit("data: ");
    if m.len() > 1 {
        assert("data: "@.len() == 6);
    }
}

/// A client that said how much it wants to hear, what it can do and which
/// revision it speaks is known by the next server that serves it, and so are its
/// tasks; what is not known is left to that server.
pub proof fn law_a_client_is_known_again(
    known: Session,
    server: Server,
    kept: Session,
    left: Server,
    next: Server,
    rest: Session,
    again: Server,
)
    requires
        crate::transport::http::absorbed(known, server, kept, left),
        crate::transport::http::restored(kept, next, rest, again),
    ensures
        again.log_level == server.log_level,
        again.client_capabilities == server.client_capabilities,
        server.negotiated_version is Some ==> again.negotiated_version is Some
            && again.negotiated_version->0@ == server.negotiated_version->0@,
        server.negotiated_version is None && known.negotiated_version is None
            ==> again.negotiated_version == next.negotiated_version,
        server.tasks is Some ==> again.tasks == server.tasks,
        server.tasks is None ==> again.tasks == next.tasks,
        again.tools == next.tools,
        again.resources == next.resources,
        again.prompts == next.prompts,
        again.config == next.config,
        again.task_context == next.task_context,
        left.tasks is None,
        rest.tasks is None,
{
}

/// A session that has heard nothing leaves the level as the server has it.
pub proof fn law_a_new_session_changes_no_level(
    known: Session,
    server: Server,
    left: Session,
    after: Server,
)
    requires
        crate::transport::http::restored(known, server, left, after),
        known.log_level is None,
        known.tasks is None,
        known.negotiated_version is None,
    ensures
        after.log_level == server.log_level,
        after.tasks == server.tasks,
        after.negotiated_version == server.negotiated_version,
        after.client_capabilities == known.client_capabilities,
{
}

/// A client without a valid token is told the address where it reads how to get
/// one, and the scopes that there are, if any.
pub proof fn law_a_challenge_names_address_and_scopes(url: Seq<char>, scopes: Seq<Seq<char>>)
    ensures
        scopes.len() == 0 ==> crate::transport::http::challenge_text(url, scopes)
            == "Bearer resource_metadata=\""@ + url + "\""@,
        scopes.len() > 0 ==> crate::transport::http::challenge_text(url, scopes)
            == "Bearer resource_metadata=\""@ + url + "\", scope=\""@ + crate::text::joined(
            scopes,
            " "@,
        ) + "\""@,
{
    reveal_strlit("\"");
    reveal_strlit(", scope=\"");
    reveal_strlit("\", scope=\"");
    assert("\""@ + ", scope=\""@ =~= "\", scope=\""@);
    let front = "Bearer resource_metadata=\""@ + url;
    let rest = crate::text::joined(scopes, " "@) + "\""@;
    if scopes.len() > 0 {
        assert(crate::transport::http::challenge_text(url, scopes) =~= front + "\", scope=\""@
            + crate::text::joined(scopes, " "@) + "\""@);
    } else {
        assert(crate::transport::http::challenge_text(url, scopes) =~= front + "\""@);
    }
}

/// A client whose token does not suffice is told which scopes are missing, and,
/// where it is published how to get a token, every scope that is required.
pub proof fn law_a_forbidden_request_is_told_what_it_lacks(
    server: HttpServer,
    missing: Seq<Seq<char>>,
)
    ensures
        ({
            let r = server.forbidden_answer(missing);
            let words = "Forbidden: missing scope(s): "@ + crate::text::joined(missing, " "@);
            &&& refuses(r, 403, -32600, words)
            &&& server.protected_resource is None ==> r.headers.len() == 1
            &&& server.protected_resource matches Some(p) ==> ({
                let c = "Bearer error=\"insufficient_scope\", scope=\""@ + crate::text::joined(
                    crate::text::texts(server.required_scopes@),
                    " "@,
                ) + "\", resource_metadata=\""@ + p.metadata_url@
                    + "\", error_description=\"the token does not carry the scopes this request needs\""@;
                (forall|k: int|
                    0 <= k < c.len() ==> (' ' <= (#[trigger] c[k]) || c[k] == '\t') && c[k]
                        <= '\u{7f}') ==> says(r, "WWW-Authenticate"@, c)
            })
        }),
{
    let words = "Forbidden: missing scope(s): "@ + crate::text::joined(missing, " "@);
    lemma_refuses(403, -32600, words);
    lemma_json_type();
    let plain = crate::transport::http::refusal(403, -32600, words);
    if let Some(p) = server.protected_resource {
        let c = crate::transport::http::scope_challenge_text(
            p.metadata_url@,
            crate::text::texts(server.required_scopes@),
        );
        let r = crate::transport::http::challenged(plain, c);
        if forall|k: int|
            0 <= k < c.len() ==> (' ' <= (#[trigger] c[k]) || c[k] == '\t') && c[k] <= '\u{7f}' {
            assert(crate::transport::http::is_ascii(c));
            assert(crate::transport::http1::response::value_ok(c));
            assert(r.headers[1] == ("WWW-Authenticate"@, c));
        }
    }
}

/// Serving those with tokens takes a validator that is bound to an audience, and
/// bodies are logged only where everything is.
pub proof fn law_tokens_are_for_somebody(
    bound: bool,
    r: Result<(), McpError>,
    server: HttpServer,
    logs: bool,
)
    requires
        call_ensures(crate::transport::http::require_audience, (bound,), r),
        call_ensures(HttpServer::logs_bodies, (&server,), logs),
    ensures
        r is Ok <==> bound,
        logs <==> server.config.default_log_level == crate::log::LogLevel::Debug,
{
}

/// A request over HTTP is read once, as the message that its body is; everything
/// that is said in answer is kept, in order.
pub proof fn law_one_request_and_all_that_is_said(
    t: HttpTransportView,
    m: crate::types::MessageView,
)
    ensures
        t.request matches Some(body) ==> t.asked() == crate::types::message_in(body),
        t.request is None ==> t.asked() == Err::<crate::types::MessageView, McpErrorView>(
            McpErrorView::TransportClosed,
        ),
        t.saying(m).messages.len() == t.messages.len() + 1,
        t.saying(m).messages.last() == crate::types::message_text(m),
        forall|k: int|
            0 <= k < t.messages.len() ==> #[trigger] t.saying(m).messages[k] == t.messages[k],
        t.saying(m).request == t.request,
{
}

/// A server is where it was put, lets in whom it was told to, and requires what
/// it was told to; what is not changed stays as it is.
pub proof fn law_a_server_is_as_it_was_set_up(
    config: ServerConfig,
    fresh: HttpServer,
    path: &str,
    moved: HttpServer,
    policy: crate::transport::origin::OriginPolicy,
    open: HttpServer,
    scopes: Vec<String>,
    strict: HttpServer,
)
    requires
        call_ensures(HttpServer::new, (config,), fresh),
        call_ensures(HttpServer::endpoint, (fresh, path), moved),
        call_ensures(HttpServer::origin_policy, (moved, policy), open),
        call_ensures(HttpServer::require_scopes, (open, scopes), strict),
    ensures
        fresh.endpoint@ == "/mcp"@,
        fresh.origin_policy is Loopback,
        fresh.required_scopes@.len() == 0 && fresh.protected_resource is None,
        strict.config == config,
        strict.endpoint@ == path@,
        strict.origin_policy == policy,
        strict.required_scopes == scopes,
        strict.protected_resource is None,
{
}

} // verus!
