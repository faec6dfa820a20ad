//! Tasks, and the requests about them.

use crate::calendar::Timestamp;
use crate::calls::Dispatch;
use crate::json::JsonView;
use crate::laws::calls::refused;
use crate::laws::requests::answered;
use crate::laws::words::lemma_methods_differ;
use crate::server::{Server, TaskContext};
use crate::tasks::{OutcomeView, RecordView, TaskStatus, TaskStore, TaskView, RELATED_TASK};
use crate::types::{JsonRpcErrorView, McpError, McpErrorView, RequestView};
use vstd::prelude::*;
use vstd::string::*;

verus! {

/// Whether a task's lifetime, counted in milliseconds from its creation, is
/// over.
pub open spec fn over(r: RecordView, now: Timestamp) -> bool {
    r.task.ttl matches Some(n) && r.created.total() + n * 1_000_000 <= now.total()
}

/// Whether a request is by the owner of a task. Where clients are not told apart
/// by name, tasks have no owner.
pub open spec fn may_see(c: TaskContext, r: RecordView) -> bool {
    match c {
        TaskContext::Owner(o) => r.owner == Some(o@),
        _ => r.owner is None,
    }
}

/// Whether a record is of a task that ended.
pub open spec fn done(r: RecordView) -> bool {
    r.task.status == TaskStatus::Completed || r.task.status == TaskStatus::Failed || r.task.status
        == TaskStatus::Cancelled
}

/// The refusal of a task that is not there.
pub open spec fn not_there(r: Dispatch, id: Seq<char>) -> bool {
    refused(
        r,
        McpErrorView::InvalidParams("Failed to retrieve task: Task not found: "@ + id),
    )
}

/// Whether a request gives this id.
pub open spec fn names(request: RequestView, id: Seq<char>) -> bool {
    request.params matches Some(p) && p.get("taskId"@) == Some(JsonView::Text(id))
}

/// Whether a record with this id is in the store, alive and to be seen.
pub open spec fn visible(server: Server, k: int, id: Seq<char>, now: Timestamp) -> bool {
    server.tasks matches Some(store) && 0 <= k < store@.len() && store@[k].task.task_id == id
        && !over(store@[k], now) && may_see(server.task_context, store@[k])
}

/// What a look at the store finds: the record that is there, while its task
/// lives.
pub proof fn lemma_found(store: TaskStore, id: Seq<char>, now: Timestamp)
    requires
        store.wf(),
    ensures
        forall|k: int|
            0 <= k < store@.len() && (#[trigger] store@[k]).task.task_id == id
                ==> crate::tasks::lookup(crate::tasks::alive(store@, now), id) == (if over(
                store@[k],
                now,
            ) {
                None
            } else {
                Some(store@[k])
            }),
        (forall|k: int|
            0 <= k < store@.len() ==> (#[trigger] store@[k]).task.task_id != id || over(
                store@[k],
                now,
            )) ==> crate::tasks::lookup(crate::tasks::alive(store@, now), id) is None,
        crate::tasks::ids_differ(crate::tasks::alive(store@, now)),
{
    let s = store@;
    crate::tasks::law_expired_tasks_are_gone(s, id, now);
    crate::laws::calls::lemma_alive_keeps_ids_apart(s, now);
    crate::tasks::lemma_task_at(s, id, 0);
    let at = crate::tasks::task_at(s, id, 0);
    assert forall|k: int| 0 <= k < s.len() && (#[trigger] s[k]).task.task_id == id implies at
        == k by {
        if at < k {
            assert(s[at].task.task_id != s[k].task.task_id);
        }
    }
    if at < s.len() {
        assert(s[at].task.task_id == id);
    }
}

/// The tasks that live on are those whose lifetime is not over, each as it was
/// and in the same order.
pub proof fn law_only_what_is_over_goes(s: Seq<RecordView>, now: Timestamp)
    ensures
        ({
            let kept = crate::tasks::alive(s, now);
            &&& forall|k: int| 0 <= k < kept.len() ==> !over(#[trigger] kept[k], now)
            &&& forall|k: int|
                0 <= k < s.len() && !over(#[trigger] s[k], now) ==> kept.contains(s[k])
            &&& forall|k: int| 0 <= k < kept.len() ==> s.contains(#[trigger] kept[k])
            &&& (forall|k: int| 0 <= k < s.len() ==> !over(#[trigger] s[k], now)) ==> kept == s
        }),
    decreases s.len(),
{
    reveal(Seq::filter);
    let kept = crate::tasks::alive(s, now);
    if s.len() > 0 {
        let t = s.drop_last();
        let before = crate::tasks::alive(t, now);
        law_only_what_is_over_goes(t, now);
        let last = s.last();
        assert forall|k: int| 0 <= k < kept.len() implies !over(#[trigger] kept[k], now)
            && s.contains(kept[k]) by {
            if k < before.len() {
                assert(kept[k] == before[k]);
                assert(t.contains(before[k]));
                let j = choose|j: int| 0 <= j < t.len() && t[j] == before[k];
                assert(s[j] == kept[k]);
            } else {
                assert(s[s.len() - 1] == kept[k]);
            }
        }
        assert forall|k: int| 0 <= k < s.len() && !over(#[trigger] s[k], now) implies kept.contains(
            s[k],
        ) by {
            if k < t.len() {
                assert(t[k] == s[k]);
                let j = choose|j: int| 0 <= j < before.len() && before[j] == t[k];
                assert(kept[j] == s[k]);
            } else {
                assert(kept[kept.len() - 1] == s[k]);
            }
        }
        if forall|k: int| 0 <= k < s.len() ==> !over(#[trigger] s[k], now) {
            assert forall|k: int| 0 <= k < t.len() implies !over(#[trigger] t[k], now) by {
                assert(s[k] == t[k]);
            }
            assert(!over(s[s.len() - 1], now));
            assert(kept =~= s);
        }
    }
}

/// A server without tasks knows none of the requests about them.
pub proof fn law_without_tasks_there_are_none(
    before: Server,
    after: Server,
    request: RequestView,
    now: Timestamp,
    r: Dispatch,
)
    requires
        crate::dispatch::dispatch_step(before, after, request, now, r),
        before.tasks is None,
        request.method == "tasks/get"@ || request.method == "tasks/result"@ || request.method
            == "tasks/list"@ || request.method == "tasks/cancel"@,
    ensures
        after.tasks is None,
        r matches Dispatch::Done(Err(e)) && e@ is MethodNotFound,
{
    lemma_methods_differ();
}

/// `tasks/get` tells its owner of a task that lives, as it is in the store. To
/// anybody else, and once its lifetime is over, it is not there. Nothing but
/// expired tasks is lost by asking.
pub proof fn law_a_task_is_told_of(
    before: Server,
    after: Server,
    request: RequestView,
    now: Timestamp,
    r: Dispatch,
    id: Seq<char>,
)
    requires
        before.wf(),
        crate::dispatch::dispatch_step(before, after, request, now, r),
        request.method == "tasks/get"@,
        before.tasks is Some,
        names(request, id),
    ensures
        forall|k: int| #[trigger]
            visible(before, k, id, now) ==> answered(r, before.tasks->0@[k].task.json()),
        (forall|k: int| !#[trigger] visible(before, k, id, now)) ==> not_there(r, id),
        after.tasks is Some,
        after.tasks->0.limits() == before.tasks->0.limits(),
        after.tasks->0.stopping() == before.tasks->0.stopping(),
        after.tasks->0@ == before.tasks->0@.filter(|r: RecordView| !over(r, now)),
        after.log_level == before.log_level,
        after.tools == before.tools,
{
    lemma_methods_differ();
    let store = before.tasks->0;
    lemma_found(store, id, now);
    lemma_alive_is(store@, now);
    let kept = crate::tasks::alive(store@, now);
    crate::tasks::lemma_task_at(store@, id, 0);
    let at = crate::tasks::task_at(store@, id, 0);
    if at < store@.len() {
        assert(store@[at].task.task_id == id);
        if crate::tasks::lookup(kept, id) is Some && may_see(before.task_context, store@[at]) {
            assert(visible(before, at, id, now));
        }
    }
}

/// What lives on, in other words.
proof fn lemma_alive_is(s: Seq<RecordView>, now: Timestamp)
    ensures
        crate::tasks::alive(s, now) == s.filter(|r: RecordView| !over(r, now)),
    decreases s.len(),
{
    reveal(Seq::filter);
    if s.len() > 0 {
        lemma_alive_is(s.drop_last(), now);
    }
}

/// `tasks/result` waits exactly while a task that is there and is the caller's
/// own is not done. Once it is done, the caller gets what it ended with: an
/// object as it is but for the task's name in its `_meta`, any other value as it
/// is, and an error with its own code and words.
pub proof fn law_a_result_is_waited_for_and_given(
    before: Server,
    after: Server,
    request: RequestView,
    now: Timestamp,
    r: Dispatch,
    id: Seq<char>,
    k: int,
)
    requires
        before.wf(),
        crate::dispatch::dispatch_step(before, after, request, now, r),
        request.method == "tasks/result"@,
        names(request, id),
        visible(before, k, id, now),
    ensures
        !done(before.tasks->0@[k]) ==> (r matches Dispatch::AwaitTask { task_id } && task_id@ == id),
        done(before.tasks->0@[k]) ==> match before.tasks->0@[k].outcome {
            None => false,
            Some(OutcomeView::Value(v)) => r matches Dispatch::Done(Ok(j)) && given_back(
                v,
                j@,
                id,
            ),
            Some(OutcomeView::Error(e)) => r matches Dispatch::Done(Err(x)) && (
            x@ matches McpErrorView::Passthrough(y) && y.code == e.code && y.message == e.message),
        },
{
    lemma_methods_differ();
    let store = before.tasks->0;
    lemma_found(store, id, now);
    assert(store@[k].task.task_id == id);
    if done(store@[k]) {
        assert(store@[k].outcome is Some);
        if let Some(OutcomeView::Value(v)) = store@[k].outcome {
            lemma_given_back(v, id);
        }
    }
}

/// Whether a value is given back as it was, but for the name of its task.
pub open spec fn given_back(v: JsonView, j: JsonView, id: Seq<char>) -> bool {
    match v {
        JsonView::Object(f) => {
            &&& j is Object
            &&& forall|key: Seq<char>| key != "_meta"@ ==> #[trigger] j.get(key) == v.get(key)
            &&& j.get("_meta"@) is Some
            &&& j.get("_meta"@)->0.get(RELATED_TASK@) is Some
            &&& j.get("_meta"@)->0.get(RELATED_TASK@)->0.get("taskId"@) == Some(JsonView::Text(id))
            &&& v.get("_meta"@) matches Some(JsonView::Object(m)) ==> forall|key: Seq<char>|
                key != RELATED_TASK@ ==> #[trigger] j.get("_meta"@)->0.get(key) == JsonView::Object(
                    m,
                ).get(key)
        },
        other => j == other,
    }
}

proof fn lemma_given_back(v: JsonView, id: Seq<char>)
    ensures
        crate::task_requests::outcome_reply(OutcomeView::Value(v), id) is Ok,
        given_back(v, crate::task_requests::outcome_reply(OutcomeView::Value(v), id)->Ok_0, id),
{
    broadcast use crate::laws::objects::group_fields;

    if let JsonView::Object(f) = v {
        let meta = crate::json::field(f, "_meta"@);
        let named = crate::task_requests::meta_with_task(meta, id);
        let j = crate::task_requests::outcome_reply(OutcomeView::Value(v), id)->Ok_0;
        let mark = crate::tasks::task_reference(id);
        crate::json::lemma_with_field(f, "_meta"@, named, "_meta"@);
        assert forall|key: Seq<char>| key != "_meta"@ implies #[trigger] j.get(key) == v.get(
            key,
        ) by {
            crate::json::lemma_with_field(f, "_meta"@, named, key);
        }
        assert(j.get("_meta"@) == Some(named));
        if let Some(JsonView::Object(m)) = meta {
            crate::json::lemma_with_field(m, RELATED_TASK@, mark, RELATED_TASK@);
            assert forall|key: Seq<char>| key != RELATED_TASK@ implies #[trigger] named.get(key)
                == JsonView::Object(m).get(key) by {
                crate::json::lemma_with_field(m, RELATED_TASK@, mark, key);
            }
            assert forall|key: Seq<char>|
                key != RELATED_TASK@ implies #[trigger] j.get("_meta"@)->0.get(key)
                == JsonView::Object(m).get(key) by {
                assert(named.get(key) == JsonView::Object(m).get(key));
            }
        }
        assert(named.get(RELATED_TASK@) == Some(mark));
        assert(mark.get("taskId"@) == Some(JsonView::Text(id)));
    }
}

/// A result is given to nobody but the owner of a task that lives.
pub proof fn law_a_result_is_for_the_owner(
    before: Server,
    after: Server,
    request: RequestView,
    now: Timestamp,
    r: Dispatch,
    id: Seq<char>,
)
    requires
        before.wf(),
        crate::dispatch::dispatch_step(before, after, request, now, r),
        request.method == "tasks/result"@ || request.method == "tasks/cancel"@,
        before.tasks is Some,
        names(request, id),
        forall|k: int| !#[trigger] visible(before, k, id, now),
    ensures
        not_there(r, id),
        after.tasks is Some,
        after.tasks->0.stopping() == before.tasks->0.stopping(),
        after.tasks->0@ == before.tasks->0@.filter(|r: RecordView| !over(r, now)),
{
    lemma_methods_differ();
    let store = before.tasks->0;
    lemma_found(store, id, now);
    lemma_alive_is(store@, now);
    let kept = crate::tasks::alive(store@, now);
    crate::tasks::lemma_task_at(store@, id, 0);
    let at = crate::tasks::task_at(store@, id, 0);
    if at < store@.len() {
        assert(store@[at].task.task_id == id);
        assert(!visible(before, at, id, now));
    }
}

/// A task that is the caller's own and is not done is cancelled: it says so, its
/// tool is told to stop, its result is an error from then on, and no other task
/// is touched. One that is done already is left as it is.
pub proof fn law_a_task_is_cancelled_once(
    before: Server,
    after: Server,
    request: RequestView,
    now: Timestamp,
    r: Dispatch,
    id: Seq<char>,
    k: int,
    other: Seq<char>,
)
    requires
        before.wf(),
        crate::dispatch::dispatch_step(before, after, request, now, r),
        request.method == "tasks/cancel"@,
        names(request, id),
        visible(before, k, id, now),
    ensures
        after.tasks is Some,
        ({
            let was = before.tasks->0@[k];
            let s = after.tasks->0@;
            let is = crate::tasks::lookup(s, id);
            let kept = before.tasks->0@.filter(|r: RecordView| !over(r, now));
            if done(was) {
                &&& r matches Dispatch::Done(Err(e)) && e@ is InvalidParams
                &&& s == kept
                &&& after.tasks->0.stopping() == before.tasks->0.stopping()
            } else {
                &&& is is Some
                &&& answered(r, is->0.task.json())
                &&& is->0.task.status == TaskStatus::Cancelled
                &&& is->0.task.status_message is Some
                &&& is->0.task.created_at == was.task.created_at
                &&& is->0.task.ttl == was.task.ttl
                &&& is->0.task.poll_interval == was.task.poll_interval
                &&& is->0.task.task_id == id
                &&& is->0.created == was.created
                &&& is->0.owner == was.owner
                &&& is->0.cancelled
                &&& is->0.outcome matches Some(OutcomeView::Error(e)) && e.code == -32603
                &&& after.tasks->0.stopping().contains(id)
                &&& s.len() == kept.len()
                &&& other != id ==> crate::tasks::lookup(s, other) == crate::tasks::lookup(
                    kept,
                    other,
                )
                &&& other != id ==> (after.tasks->0.stopping().contains(other)
                    <==> before.tasks->0.stopping().contains(other))
            }
        }),
{
    lemma_methods_differ();
    let store = before.tasks->0;
    let kept = crate::tasks::alive(store@, now);
    lemma_found(store, id, now);
    lemma_alive_is(store@, now);
    assert(store@[k].task.task_id == id);
    crate::tasks::lemma_task_at(kept, id, 0);
    let new = crate::tasks::cancelled(store@[k], now);
    crate::tasks::law_other_tasks_are_untouched(kept, id, new, other);
}

/// Which tasks a client sees in a list: those that live and are its own.
pub open spec fn own_tasks(server: Server, now: Timestamp) -> Seq<RecordView> {
    server.tasks->0@.filter(
        |r: RecordView| !over(r, now) && may_see(server.task_context, r),
    )
}

/// `tasks/list` gives a client its own tasks that live, and no others, newest
/// first. Where clients cannot be told apart, it gives none. Where no cursor is
/// given and all fits on a page, all of them are on it.
pub proof fn law_a_client_sees_its_own_tasks(
    before: Server,
    after: Server,
    request: RequestView,
    now: Timestamp,
    r: Dispatch,
)
    requires
        before.wf(),
        crate::dispatch::dispatch_step(before, after, request, now, r),
        request.method == "tasks/list"@,
        before.tasks is Some,
        request.params is None,
    ensures
        before.task_context is Anonymous ==> after == before && (
        r matches Dispatch::Done(Err(e)) && e@ is MethodNotFound),
        !(before.task_context is Anonymous) && own_tasks(before, now).len()
            <= before.config.page_size ==> exists|s: Seq<TaskView>|
            #![trigger s.to_multiset()]
            {
                &&& s.to_multiset() == own_tasks(before, now).map_values(
                    |r: RecordView| r.task,
                ).to_multiset()
                &&& forall|a: int, b: int|
                    0 <= a < b < s.len() ==> !newer((#[trigger] s[b]), (#[trigger] s[a]))
                &&& r matches Dispatch::Done(Ok(j)) && j@.get("nextCursor"@) is None && (
                j@.get("tasks"@) matches Some(JsonView::List(items)) && items.len() == s.len()
                    && forall|i: int| 0 <= i < s.len() ==> #[trigger] items[i] == s[i].json())
            },
        !(before.task_context is Anonymous) ==> after.tasks is Some && after.tasks->0@
            == before.tasks->0@.filter(|r: RecordView| !over(r, now)),
{
    broadcast use crate::laws::objects::group_fields;

    lemma_methods_differ();
    reveal_strlit("tasks");
    reveal_strlit("nextCursor");
    assert("tasks"@.len() == 5 && "nextCursor"@.len() == 10);
    let store = before.tasks->0;
    if before.task_context is Anonymous {
        assert(after.same_but_tasks(&before));
        assert(after == before);
    } else {
        let owner = crate::server::context_owner(before.task_context);
        lemma_alive_is(store@, now);
        lemma_own_tasks(store@, before.task_context, now);
        let own = own_tasks(before, now);
        let all = crate::tasks::tasks_in(own);
        assert(all =~= own.map_values(|r: RecordView| r.task));
        assert(all.len() == own.len());
        if own.len() <= before.config.page_size {
            let size = before.config.page_size as int;
            let s = choose|s: Seq<TaskView>|
                crate::order::in_order::<crate::tasks::Task>(s) && s.to_multiset()
                    == all.to_multiset() && crate::dispatch::settled_view(r) == Ok::<
                    JsonView,
                    McpErrorView,
                >(
                    #[trigger] crate::tasks::task_page(
                        crate::pagination::page(s, 0, size),
                        crate::pagination::next_cursor(0, size, s.len() as int),
                    ),
                );
            s.to_multiset_ensures();
            all.to_multiset_ensures();
            assert(s.len() == all.len());
            assert(crate::pagination::page(s, 0, size) =~= s);
            assert forall|a: int, b: int| 0 <= a < b < s.len() implies !newer(
                (#[trigger] s[b]),
                (#[trigger] s[a]),
            ) by {
                assert(!<crate::tasks::Task as crate::order::Ranked>::precedes(s[b], s[a]));
                crate::order::lemma_text_before_one_way(s[a].created_at, s[a].created_at);
            }
            let j = crate::tasks::task_page(s, None);
            assert(j.get("tasks"@) == Some(crate::tasks::tasks_json(s)));
            assert(j.get("nextCursor"@) is None);
        }
    }
}

/// Whether one task is listed before another: the one created later, and of two
/// that were created in the same second the one with the smaller id.
pub open spec fn newer(a: TaskView, b: TaskView) -> bool {
    ||| crate::order::text_before(b.created_at, a.created_at)
    ||| a.created_at == b.created_at && crate::order::text_before(a.task_id, b.task_id)
}

proof fn lemma_own_tasks(s: Seq<RecordView>, c: TaskContext, now: Timestamp)
    requires
        !(c is Anonymous),
    ensures
        crate::tasks::owned(crate::tasks::alive(s, now), crate::server::context_owner(c))
            == s.filter(|r: RecordView| !over(r, now) && may_see(c, r)),
    decreases s.len(),
{
    reveal(Seq::filter);
    if s.len() > 0 {
        lemma_own_tasks(s.drop_last(), c, now);
        let before = crate::tasks::alive(s.drop_last(), now);
        if !over(s.last(), now) {
            assert(before.push(s.last()).drop_last() =~= before);
        }
    }
}

/// A task that is finished shows how it ended and with what, and when; an error
/// shows its words. Nothing else of it changes, and no other task does.
pub proof fn law_finishing_touches_one_task(
    s: Seq<RecordView>,
    id: Seq<char>,
    status: TaskStatus,
    outcome: OutcomeView,
    now: Timestamp,
    other: Seq<char>,
)
    requires
        crate::tasks::lookup(s, id) is Some,
        !done(crate::tasks::lookup(s, id)->0),
    ensures
        ({
            let was = crate::tasks::lookup(s, id)->0;
            let t = crate::tasks::after_finish(s, id, status, outcome, now);
            &&& t.len() == s.len()
            &&& crate::tasks::lookup(t, id) matches Some(is) && is.task.status == status
                && is.outcome == Some(outcome) && is.task.last_updated_at == crate::calendar::stamp(
                now,
            ) && is.task.created_at == was.task.created_at && is.task.task_id == was.task.task_id
                && is.task.ttl == was.task.ttl && is.task.poll_interval == was.task.poll_interval
                && is.created == was.created && is.owner == was.owner && is.cancelled
                == was.cancelled && is.task.status_message == (match outcome {
                OutcomeView::Error(e) => Some(e.message),
                OutcomeView::Value(_) => was.task.status_message,
            })
            &&& other != id ==> crate::tasks::lookup(t, other) == crate::tasks::lookup(s, other)
        }),
{
    crate::tasks::lemma_task_at(s, id, 0);
    let was = crate::tasks::lookup(s, id)->0;
    crate::tasks::law_other_tasks_are_untouched(
        s,
        id,
        crate::tasks::finished(was, status, outcome, now),
        other,
    );
}

/// A task moves between working and waiting for the client, and only while it is
/// not done; it never moves to where it is, and nothing but its status and the
/// time of its last change is different then. A note changes its words only.
pub proof fn law_a_task_moves_while_it_is_not_done(
    s: Seq<RecordView>,
    id: Seq<char>,
    status: TaskStatus,
    now: Timestamp,
    words: Seq<char>,
    r: RecordView,
)
    ensures
        crate::tasks::moves(s, id, status) <==> (status == TaskStatus::Working || status
            == TaskStatus::InputRequired) && (crate::tasks::lookup(s, id) matches Some(was) && !done(
            was,
        ) && was.task.status != status),
        ({
            let is = crate::tasks::moved(r, status, now);
            &&& is.task.status == status
            &&& is.task.last_updated_at == crate::calendar::stamp(now)
            &&& is.task.status_message == r.task.status_message
            &&& is.task.task_id == r.task.task_id && is.task.created_at == r.task.created_at
            &&& is.task.ttl == r.task.ttl && is.task.poll_interval == r.task.poll_interval
            &&& is.outcome == r.outcome && is.created == r.created && is.owner == r.owner
            &&& is.cancelled == r.cancelled
        }),
        ({
            let is = crate::tasks::noted(r, words, now);
            &&& is.task.status == r.task.status
            &&& is.task.last_updated_at == crate::calendar::stamp(now)
            &&& is.task.status_message == Some(words)
            &&& is.task.task_id == r.task.task_id && is.task.created_at == r.task.created_at
            &&& is.task.ttl == r.task.ttl && is.task.poll_interval == r.task.poll_interval
            &&& is.outcome == r.outcome && is.created == r.created && is.owner == r.owner
            &&& is.cancelled == r.cancelled
        }),
{
}

/// The tasks that count against the limit are those that are not done.
pub proof fn law_tasks_that_are_done_do_not_count(s: Seq<RecordView>)
    ensures
        crate::tasks::running_in(s) == s.filter(|r: RecordView| !done(r)).len(),
    decreases s.len(),
{
    reveal(Seq::filter);
    if s.len() > 0 {
        law_tasks_that_are_done_do_not_count(s.drop_last());
    }
}

/// What a task ended with, where it is an error, names the task in its data,
/// and keeps what the data said.
pub proof fn law_an_error_names_its_task(e: JsonRpcErrorView, id: Seq<char>)
    ensures
        crate::task_requests::outcome_reply(OutcomeView::Error(e), id) matches Err(
            McpErrorView::Passthrough(x),
        ) && x.code == e.code && x.message == e.message && match e.data {
            None => x.data is Some && x.data->0.get(RELATED_TASK@) is Some && x.data->0.get(
                RELATED_TASK@,
            )->0.get("taskId"@) == Some(JsonView::Text(id)),
            Some(JsonView::Object(f)) => x.data is Some && x.data->0.get(RELATED_TASK@) is Some
                && x.data->0.get(RELATED_TASK@)->0.get("taskId"@) == Some(JsonView::Text(id))
                && forall|key: Seq<char>|
                key != RELATED_TASK@ ==> #[trigger] x.data->0.get(key) == JsonView::Object(f).get(
                    key,
                ),
            Some(other) => x.data == Some(other),
        },
{
    broadcast use crate::laws::objects::group_fields;

    let mark = crate::tasks::task_reference(id);
    assert(mark.get("taskId"@) == Some(JsonView::Text(id)));
    if let Some(JsonView::Object(f)) = e.data {
        let named = JsonView::Object(crate::json::with_field(f, RELATED_TASK@, mark));
        crate::json::lemma_with_field(f, RELATED_TASK@, mark, RELATED_TASK@);
        assert forall|key: Seq<char>| key != RELATED_TASK@ implies #[trigger] named.get(key)
            == JsonView::Object(f).get(key) by {
            crate::json::lemma_with_field(f, RELATED_TASK@, mark, key);
        }
    }
}

/// A task that ended is as much alive as it was.
pub proof fn lemma_still_alive(
    kept: Seq<RecordView>,
    ended: Seq<RecordView>,
    id: Seq<char>,
    status: TaskStatus,
    outcome: OutcomeView,
    now: Timestamp,
)
    requires
        forall|k: int| 0 <= k < kept.len() ==> !over(#[trigger] kept[k], now),
        ended == crate::tasks::after_finish(kept, id, status, outcome, now),
    ensures
        crate::tasks::alive(ended, now) == ended,
{
    crate::tasks::lemma_task_at(kept, id, 0);
    assert forall|k: int| 0 <= k < ended.len() implies !over(#[trigger] ended[k], now) by {
        assert(!over(kept[k], now));
    }
    law_only_what_is_over_goes(ended, now);
}

/// A task is moved to a status that does not end it exactly where it is there and
/// may move there; nothing but that task changes then. A status that ends a task
/// is refused.
pub proof fn law_a_move_touches_one_task(
    before: Seq<RecordView>,
    after: Seq<RecordView>,
    id: Seq<char>,
    status: TaskStatus,
    now: Timestamp,
    r: Result<bool, McpErrorView>,
    other: Seq<char>,
)
    requires
        crate::tasks::status_step(before, after, id, status, now, r),
    ensures
        ({
            let kept = before.filter(|r: RecordView| !over(r, now));
            let was = crate::tasks::lookup(kept, id);
            let ends = status == TaskStatus::Completed || status == TaskStatus::Failed || status
                == TaskStatus::Cancelled;
            &&& r is Err <==> ends
            &&& ends ==> after == kept
            &&& !ends ==> (r == Ok::<bool, McpErrorView>(true) <==> was is Some && !done(was->0)
                && was->0.task.status != status)
            &&& r == Ok::<bool, McpErrorView>(false) ==> after == kept
            &&& r == Ok::<bool, McpErrorView>(true) ==> (crate::tasks::lookup(after, id)
                matches Some(is) && is.task.status == status && is.task.created_at
                == was->0.task.created_at && is.task.ttl == was->0.task.ttl && is.owner
                == was->0.owner && is.outcome == was->0.outcome) && (other != id
                ==> crate::tasks::lookup(after, other) == crate::tasks::lookup(kept, other))
        }),
{
    lemma_alive_is(before, now);
    let kept = crate::tasks::alive(before, now);
    crate::tasks::lemma_task_at(kept, id, 0);
    if r == Ok::<bool, McpErrorView>(true) {
        let was = crate::tasks::lookup(kept, id)->0;
        crate::tasks::law_other_tasks_are_untouched(
            kept,
            id,
            crate::tasks::moved(was, status, now),
            other,
        );
    }
}

/// A note is put on the task it is for, where that is there, and on no other.
pub proof fn law_a_note_is_put_on_one_task(
    s: Seq<RecordView>,
    id: Seq<char>,
    words: Seq<char>,
    now: Timestamp,
    other: Seq<char>,
)
    ensures
        ({
            let t = crate::tasks::after_note(s, id, words, now);
            &&& crate::tasks::lookup(s, id) is None ==> t == s
            &&& crate::tasks::lookup(s, id) matches Some(was) ==> (crate::tasks::lookup(t, id)
                matches Some(is) && is.task.status_message == Some(words) && is.task.status
                == was.task.status && is.outcome == was.outcome)
            &&& other != id ==> crate::tasks::lookup(t, other) == crate::tasks::lookup(s, other)
        }),
{
    crate::tasks::lemma_task_at(s, id, 0);
    if let Some(was) = crate::tasks::lookup(s, id) {
        crate::tasks::law_other_tasks_are_untouched(
            s,
            id,
            crate::tasks::noted(was, words, now),
            other,
        );
    }
}

/// The record of a task is the first with its id.
pub proof fn law_a_task_is_found_by_its_id(s: Seq<RecordView>, id: Seq<char>, k: int)
    requires
        crate::tasks::ids_differ(s),
    ensures
        0 <= k < s.len() && s[k].task.task_id == id ==> crate::tasks::lookup(s, id) == Some(s[k]),
        (forall|j: int| 0 <= j < s.len() ==> (#[trigger] s[j]).task.task_id != id)
            ==> crate::tasks::lookup(s, id) is None,
        crate::tasks::lookup(s, id) matches Some(r) ==> s.contains(r) && r.task.task_id == id,
{
    crate::tasks::lemma_task_at(s, id, 0);
    let at = crate::tasks::task_at(s, id, 0);
    if at < s.len() {
        assert(s[at].task.task_id == id);
        assert(s.contains(s[at]));
        if 0 <= k < s.len() && s[k].task.task_id == id && at < k {
            assert(s[at].task.task_id != s[k].task.task_id);
        }
    }
}

/// A tool is told to stop while its task is cancelled in the store, or was when
/// it was there and the tool has not ended since.
pub proof fn law_tools_are_told_to_stop(s: Seq<RecordView>, stopping: Set<Seq<char>>, id: Seq<char>)
    ensures
        crate::tasks::lookup(s, id) matches Some(r) && r.cancelled ==> crate::tasks::to_stop(
            s,
            stopping,
            id,
        ),
        stopping.contains(id) ==> crate::tasks::to_stop(s, stopping, id),
        !stopping.contains(id) && !(crate::tasks::lookup(s, id) matches Some(r) && r.cancelled)
            ==> !crate::tasks::to_stop(s, stopping, id),
{
}

/// A task is created exactly where fewer run than may. It is then in the store,
/// working, under an id of 128 bits that was drawn for it, with its owner and the
/// lifetime it was granted; all tasks that live on are still there. Otherwise
/// nothing is created.
pub proof fn law_a_task_is_created_where_there_is_room(
    before: TaskStore,
    after: TaskStore,
    asked: Option<u64>,
    now: Timestamp,
    owner: Option<Seq<char>>,
    r: Result<TaskView, McpErrorView>,
    other: Seq<char>,
)
    requires
        before.wf(),
        crate::tasks::creation(before, after, asked, now, owner, r),
    ensures
        ({
            let kept = before@.filter(|r: RecordView| !over(r, now));
            &&& r is Ok <==> kept.filter(|r: RecordView| !done(r)).len()
                < before.limits().max_concurrent
            &&& r is Err ==> after@ == kept && r->Err_0 is Internal
            &&& r matches Ok(task) ==> {
                &&& task.status == TaskStatus::Working
                &&& task.task_id.len() == 32
                &&& crate::laws::calls::lifetime_granted(before.limits(), asked, task.ttl)
                &&& task.poll_interval == Some(before.limits().poll_interval_ms)
                &&& crate::tasks::lookup(after@, task.task_id) matches Some(x) && x.task == task
                    && x.owner == owner && x.created == now && x.outcome is None && !x.cancelled
                &&& other != task.task_id ==> crate::tasks::lookup(after@, other)
                    == crate::tasks::lookup(kept, other)
                &&& !after.stopping().contains(task.task_id)
            }
        }),
{
    let kept = crate::tasks::alive(before@, now);
    lemma_alive_is(before@, now);
    law_tasks_that_are_done_do_not_count(kept);
    crate::laws::calls::lemma_alive_keeps_ids_apart(before@, now);
    if let Ok(task) = r {
        let made = crate::tasks::new_record(before.limits(), asked, now, task.task_id, owner);
        crate::tasks::law_created_task_is_found(kept, made, other);
        let bytes = choose|bytes: Seq<u8>|
            bytes.len() == 16 && task.task_id == #[trigger] crate::tasks::hex(bytes);
        assert(crate::tasks::hex(bytes).len() == 32);
    }
}

/// What a look at the store says: whose a task is, whether its tool is to stop,
/// and what it ended with, if it has.
pub proof fn law_a_look_at_the_store_says(
    store: TaskStore,
    id: &str,
    owner: Option<String>,
    mine: bool,
    stop: bool,
    result: Result<Option<crate::tasks::TaskOutcome>, McpError>,
)
    requires
        store.wf(),
        call_ensures(TaskStore::belongs_to, (&store, id, &owner), mine),
        call_ensures(TaskStore::is_cancelled, (&store, id), stop),
        call_ensures(TaskStore::peek_result, (&store, id), result),
    ensures
        ({
            let is = crate::tasks::lookup(store@, id@);
            &&& mine <==> is is Some && match (is->0.owner, owner) {
                (Some(a), Some(b)) => a == b@,
                (None, None) => true,
                _ => false,
            }
            &&& stop <==> (is is Some && is->0.cancelled) || store.stopping().contains(id@)
            &&& result is Err <==> is is None
            &&& is is Some && !done(is->0) ==> (result matches Ok(None))
            &&& is is Some && done(is->0) ==> (result matches Ok(Some(o)) && is->0.outcome == Some(
                o@,
            ))
        }),
{
    crate::tasks::lemma_task_at(store@, id@, 0);
}

/// A page of tasks begins where its cursor says, and a cursor that leads past the
/// last task is refused.
pub proof fn law_a_page_of_tasks_begins_at_its_cursor(
    r: Result<JsonView, McpErrorView>,
    all: Seq<TaskView>,
    params: JsonView,
    n: int,
    size: int,
)
    requires
        crate::task_requests::is_task_page(r, all, Some(params), size),
        params.get("cursor"@) == Some(JsonView::Text(crate::pagination::cursor(n))),
        0 <= n <= usize::MAX,
        size >= 1,
    ensures
        n > 0 && n >= all.len() ==> r matches Err(McpErrorView::InvalidParams(_)),
        n < all.len() ==> exists|s: Seq<TaskView>|
            #![trigger s.to_multiset()]
            {
                let end = if n + size < s.len() {
                    n + size
                } else {
                    s.len() as int
                };
                &&& s.to_multiset() == all.to_multiset() && s.len() == all.len()
                &&& forall|a: int, b: int|
                    0 <= a < b < s.len() ==> !newer((#[trigger] s[b]), (#[trigger] s[a]))
                &&& r is Ok
                &&& crate::laws::wire::is_list(
                    r->Ok_0.get("tasks"@),
                    (end - n) as nat,
                    |k: int| s[n + k].json(),
                )
                &&& r->Ok_0.get("nextCursor"@) == (if end < s.len() {
                    Some(JsonView::Text(crate::pagination::cursor(end)))
                } else {
                    None
                })
            },
{
    broadcast use crate::laws::objects::group_fields;

    reveal_strlit("tasks");
    reveal_strlit("nextCursor");
    assert("tasks"@.len() == 5 && "nextCursor"@.len() == 10);
    crate::pagination::law_cursors_are_read_back(n);
    assert(params is Object);
    if n < all.len() {
        let s = choose|s: Seq<TaskView>|
            crate::order::in_order::<crate::tasks::Task>(s) && s.to_multiset() == all.to_multiset()
                && r == Ok::<JsonView, McpErrorView>(
                #[trigger] crate::tasks::task_page(
                    crate::pagination::page(s, n, size),
                    crate::pagination::next_cursor(n, size, s.len() as int),
                ),
            );
        s.to_multiset_ensures();
        all.to_multiset_ensures();
        assert(s.len() == all.len());
        let end = if n + size < s.len() {
            n + size
        } else {
            s.len() as int
        };
        let page = crate::pagination::page(s, n, size);
        assert(page =~= s.subrange(n, end));
        let j = r->Ok_0;
        assert(j.get("tasks"@) == Some(crate::tasks::tasks_json(page)));
        assert forall|a: int, b: int| 0 <= a < b < s.len() implies !newer(
            (#[trigger] s[b]),
            (#[trigger] s[a]),
        ) by {
            assert(!<crate::tasks::Task as crate::order::Ranked>::precedes(s[b], s[a]));
            crate::order::lemma_text_before_one_way(s[a].created_at, s[a].created_at);
        }
    }
}

/// Looking again at a task that is waited for says the same as asking for its
/// result: nothing while it is not done, what it ended with once it is, and that
/// it is not there to anybody but its owner.
pub proof fn law_a_wait_looks_at_its_task(
    server: Server,
    id: &str,
    r: Option<Result<crate::json::Json, McpError>>,
)
    requires
        server.wf(),
        call_ensures(Server::peek_task, (&server, id), r),
    ensures
        server.tasks is None ==> (r matches Some(Err(e)) && e@ is MethodNotFound),
        server.tasks matches Some(store) ==> match crate::tasks::lookup(store@, id@) {
            Some(x) => if !may_see(server.task_context, x) {
                r matches Some(Err(e)) && e@ is InvalidParams
            } else if !done(x) {
                r is None
            } else {
                match x.outcome {
                    Some(OutcomeView::Value(v)) => r matches Some(Ok(j)) && given_back(v, j@, id@),
                    Some(OutcomeView::Error(e)) => r matches Some(Err(y)) && (
                    y@ matches McpErrorView::Passthrough(z) && z.code == e.code && z.message
                        == e.message),
                    None => true,
                }
            },
            None => r matches Some(Err(e)) && e@ is InvalidParams,
        },
{
    if let Some(store) = server.tasks {
        crate::tasks::lemma_task_at(store@, id@, 0);
        if let Some(x) = crate::tasks::lookup(store@, id@) {
            if let Some(OutcomeView::Value(v)) = x.outcome {
                lemma_given_back(v, id@);
            }
        }
    }
}

} // verus!
