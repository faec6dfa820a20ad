//! The requests about tasks: looking at them, waiting for them, and giving
//! them up.

use crate::calendar::Timestamp;
use crate::calls::{owner_of, Dispatch};
use crate::json::{find_field, set_field, Json, JsonView};
use crate::order::Ranked;
use crate::pagination::{paginate, PageState};
use crate::params::{read_cursor, read_text};
use crate::server::{Server, TaskContext};
use crate::tasks::{
    related_task_meta, task_reference_json, ListTasksResult, OutcomeView, RecordView, Task,
    TaskOutcome, TaskView, RELATED_TASK,
};
use crate::text::{decimal_text, join};
use crate::types::{JsonRpcError, JsonRpcErrorView, McpError, McpErrorView};
use vstd::prelude::*;
use vstd::string::*;

verus! {

/// The refusal of a server without tasks.
pub open spec fn no_tasks() -> McpErrorView {
    McpErrorView::MethodNotFound("tasks are not supported by this server"@)
}

fn no_tasks_error() -> (r: McpError)
    ensures
        r@ == no_tasks(),
{
    McpError::MethodNotFound("tasks are not supported by this server".to_owned())
}

/// The record of a task, for its owner.
pub open spec fn seen(s: Seq<RecordView>, id: Seq<char>, owner: Option<Seq<char>>) -> Option<
    RecordView,
> {
    match crate::tasks::lookup(s, id) {
        Some(r) => if r.owner == owner {
            Some(r)
        } else {
            None
        },
        None => None,
    }
}

/// The answer to `tasks/get`.
pub open spec fn get_answer(s: Seq<RecordView>, id: Seq<char>, owner: Option<Seq<char>>) -> Result<
    JsonView,
    McpErrorView,
> {
    match seen(s, id, owner) {
        Some(r) => Ok(r.task.json()),
        None => Err(crate::tasks::no_such_task(id)),
    }
}

/// The answer to `tasks/cancel`.
pub open spec fn cancel_reply(
    s: Seq<RecordView>,
    id: Seq<char>,
    owner: Option<Seq<char>>,
    now: Timestamp,
) -> Result<JsonView, McpErrorView> {
    match seen(s, id, owner) {
        None => Err(crate::tasks::no_such_task(id)),
        Some(_) => match crate::tasks::cancel_answer(s, id, now) {
            Ok(task) => Ok(task.json()),
            Err(e) => Err(e),
        },
    }
}

/// A `_meta` object that names the task. What is there and no object makes
/// way.
pub open spec fn meta_with_task(meta: Option<JsonView>, id: Seq<char>) -> JsonView {
    match meta {
        Some(JsonView::Object(f)) => JsonView::Object(
            crate::json::with_field(f, RELATED_TASK@, crate::tasks::task_reference(id)),
        ),
        _ => JsonView::Object(seq![(RELATED_TASK@, crate::tasks::task_reference(id))]),
    }
}

/// The data of an error that names the task, beside what is there. What is
/// there and no object stays as it is.
pub open spec fn data_with_task(data: Option<JsonView>, id: Seq<char>) -> JsonView {
    match data {
        Some(JsonView::Object(f)) => JsonView::Object(
            crate::json::with_field(f, RELATED_TASK@, crate::tasks::task_reference(id)),
        ),
        Some(other) => other,
        None => JsonView::Object(seq![(RELATED_TASK@, crate::tasks::task_reference(id))]),
    }
}

/// What a task ended with, as `tasks/result` returns it: the same, and the
/// name of the task.
pub open spec fn outcome_reply(outcome: OutcomeView, id: Seq<char>) -> Result<
    JsonView,
    McpErrorView,
> {
    match outcome {
        OutcomeView::Value(JsonView::Object(f)) => Ok(
            JsonView::Object(
                crate::json::with_field(
                    f,
                    "_meta"@,
                    meta_with_task(crate::json::field(f, "_meta"@), id),
                ),
            ),
        ),
        OutcomeView::Value(other) => Ok(other),
        OutcomeView::Error(e) => Err(
            McpErrorView::Passthrough(
                JsonRpcErrorView { data: Some(data_with_task(e.data, id)), ..e },
            ),
        ),
    }
}

/// What `tasks/result` has to say of a task, if anything yet.
pub open spec fn result_reply(s: Seq<RecordView>, id: Seq<char>, owner: Option<Seq<char>>) -> Option<
    Result<JsonView, McpErrorView>,
> {
    match seen(s, id, owner) {
        None => Some(Err(crate::tasks::no_such_task(id))),
        Some(_) => match crate::tasks::outcome_answer(s, id) {
            Err(e) => Some(Err(e)),
            Ok(None) => None,
            Ok(Some(o)) => Some(outcome_reply(o, id)),
        },
    }
}

fn named_meta(meta: Option<Json>, task_id: &str) -> (r: Json)
    ensures
        r@ == meta_with_task(crate::json::optional(meta), task_id@),
{
    broadcast use crate::json::lemma_object_view;

    match meta {
        Some(Json::Object(f)) => {
            let mut f = f;
            set_field(&mut f, RELATED_TASK, task_reference_json(task_id));
            Json::Object(f)
        },
        _ => related_task_meta(task_id),
    }
}

/// An error that names the task it is of.
pub fn with_related_task_data(error: JsonRpcError, task_id: &str) -> (r: JsonRpcError)
    ensures
        r@ == (JsonRpcErrorView { data: Some(data_with_task(error@.data, task_id@)), ..error@ }),
{
    broadcast use crate::json::lemma_object_view;

    let data = match error.data {
        Some(Json::Object(f)) => {
            let mut f = f;
            set_field(&mut f, RELATED_TASK, task_reference_json(task_id));
            Json::Object(f)
        },
        Some(other) => other,
        None => related_task_meta(task_id),
    };
    JsonRpcError { code: error.code, message: error.message, data: Some(data) }
}

/// What a task ended with, as `tasks/result` returns it.
pub fn outcome_answered(outcome: TaskOutcome, task_id: &str) -> (r: Result<Json, McpError>)
    ensures
        crate::types::outcome_view(r) == outcome_reply(outcome@, task_id@),
{
    broadcast use crate::json::lemma_object_view;

    match outcome {
        TaskOutcome::Value(Json::Object(f)) => {
            let mut f = f;
            let at = find_field(&f, "_meta");
            let meta = if at < f.len() {
                assert(crate::json::fields(f@)[at as int] == (f@[at as int].0@, f@[at as int].1@));
                Some(f[at].1.copy())
            } else {
                None
            };
            set_field(&mut f, "_meta", named_meta(meta, task_id));
            Ok(Json::Object(f))
        },
        TaskOutcome::Value(other) => Ok(other),
        TaskOutcome::Error(e) => Err(McpError::Passthrough(with_related_task_data(e, task_id))),
    }
}

/// The refusal of a cursor that leads past the end.
pub open spec fn no_such_page(offset: int) -> McpErrorView {
    McpErrorView::InvalidParams(
        "Invalid cursor: no task at offset "@ + crate::text::decimal(offset),
    )
}

/// The refusal to list tasks to clients that cannot be told apart.
pub open spec fn not_listable() -> McpErrorView {
    McpErrorView::MethodNotFound("tasks/list: clients cannot be told apart"@)
}

/// Whether this is the answer to a request for a page of these tasks.
pub open spec fn is_task_page(
    r: Result<JsonView, McpErrorView>,
    all: Seq<TaskView>,
    params: Option<JsonView>,
    page_size: int,
) -> bool {
    match crate::params::cursor_param(params) {
        Err(e) => r == Err::<JsonView, McpErrorView>(e),
        Ok(c) => match crate::pagination::page_at(c) {
            Err(e) => r == Err::<JsonView, McpErrorView>(e),
            Ok(offset) => if offset > 0 && offset >= all.len() {
                r == Err::<JsonView, McpErrorView>(no_such_page(offset))
            } else {
                exists|s: Seq<TaskView>|
                    crate::order::in_order::<Task>(s) && s.to_multiset() == all.to_multiset() && r
                        == Ok::<JsonView, McpErrorView>(
                        #[trigger] crate::tasks::task_page(
                            crate::pagination::page(s, offset, page_size),
                            crate::pagination::next_cursor(offset, page_size, s.len() as int),
                        ),
                    )
            },
        },
    }
}

/// What `tasks/get` does.
pub open spec fn get_step(
    before: Server,
    after: Server,
    params: Option<JsonView>,
    now: Timestamp,
    r: Result<JsonView, McpErrorView>,
) -> bool {
    &&& after.same_but_tasks(&before)
    &&& match (before.tasks, crate::params::text_param(params, "taskId"@)) {
        (None, _) => after.tasks is None && r == Err::<JsonView, McpErrorView>(no_tasks()),
        (Some(_), Err(e)) => after.tasks == before.tasks && r == Err::<JsonView, McpErrorView>(e),
        (Some(store), Ok(id)) => after.swept(&before, now) && r == get_answer(
            crate::tasks::alive(store@, now),
            id,
            crate::server::context_owner(before.task_context),
        ),
    }
}

/// What `tasks/cancel` does.
pub open spec fn cancel_step(
    before: Server,
    after: Server,
    params: Option<JsonView>,
    now: Timestamp,
    r: Result<JsonView, McpErrorView>,
) -> bool {
    &&& after.same_but_tasks(&before)
    &&& match (before.tasks, crate::params::text_param(params, "taskId"@)) {
        (None, _) => after.tasks is None && r == Err::<JsonView, McpErrorView>(no_tasks()),
        (Some(_), Err(e)) => after.tasks == before.tasks && r == Err::<JsonView, McpErrorView>(e),
        (Some(store), Ok(id)) => {
            let kept = crate::tasks::alive(store@, now);
            let owner = crate::server::context_owner(before.task_context);
            &&& r == cancel_reply(kept, id, owner, now)
            &&& after.tasks matches Some(s) && s.limits() == store.limits() && s.stopping() == (
            if r is Ok {
                store.stopping().insert(id)
            } else {
                store.stopping()
            }) && s@ == (if r is Ok {
                crate::tasks::replaced(
                    kept,
                    id,
                    crate::tasks::cancelled(crate::tasks::lookup(kept, id)->0, now),
                )
            } else {
                kept
            })
        },
    }
}

/// What `tasks/list` does.
pub open spec fn list_step(
    before: Server,
    after: Server,
    params: Option<JsonView>,
    now: Timestamp,
    r: Result<JsonView, McpErrorView>,
) -> bool {
    &&& after.same_but_tasks(&before)
    &&& match before.tasks {
        None => after.tasks is None && r == Err::<JsonView, McpErrorView>(no_tasks()),
        Some(store) => if before.task_context is Anonymous {
            after.tasks == before.tasks && r == Err::<JsonView, McpErrorView>(not_listable())
        } else {
            after.swept(&before, now) && is_task_page(
                r,
                crate::tasks::tasks_in(
                    crate::tasks::owned(
                        crate::tasks::alive(store@, now),
                        crate::server::context_owner(before.task_context),
                    ),
                ),
                params,
                before.config.page_size as int,
            )
        },
    }
}

/// What `tasks/result` does, up to the waiting.
pub open spec fn result_step(
    before: Server,
    after: Server,
    params: Option<JsonView>,
    now: Timestamp,
    r: Dispatch,
) -> bool {
    &&& after.same_but_tasks(&before)
    &&& match (before.tasks, crate::params::text_param(params, "taskId"@)) {
        (None, _) => after.tasks is None && (r matches Dispatch::Done(Err(e)) && e@ == no_tasks()),
        (Some(_), Err(e)) => after.tasks == before.tasks && (r matches Dispatch::Done(Err(x)) && x@
            == e),
        (Some(store), Ok(id)) => after.swept(&before, now) && match result_reply(
            crate::tasks::alive(store@, now),
            id,
            crate::server::context_owner(before.task_context),
        ) {
            None => r matches Dispatch::AwaitTask { task_id } && task_id@ == id,
            Some(reply) => r matches Dispatch::Done(x) && crate::types::outcome_view(x) == reply,
        },
    }
}

/// Gives out a page of tasks that are in order already.
fn page_of_tasks(all: &Vec<Task>, params: &Option<Json>, page_size: usize) -> (r: Result<
    Json,
    McpError,
>)
    requires
        crate::order::in_order::<Task>(crate::order::viewed(all@)),
    ensures
        is_task_page(
            crate::types::outcome_view(r),
            crate::order::viewed(all@),
            crate::json::optional(*params),
            page_size as int,
        ),
{
    let cursor = match read_cursor(params) {
        Ok(c) => c,
        Err(e) => {
            return Err(e);
        },
    };
    let asked = match &cursor {
        Some(c) => Some(c.as_str()),
        None => None,
    };
    let state = match PageState::from_cursor(asked, page_size) {
        Ok(state) => state,
        Err(e) => {
            return Err(e);
        },
    };
    let ghost s = crate::order::viewed(all@);
    if state.offset > 0 && state.offset >= all.len() {
        return Err(
            McpError::InvalidParams(
                join(
                    "Invalid cursor: no task at offset ",
                    decimal_text(state.offset as u64).as_str(),
                ),
            ),
        );
    }
    let (from, to, next) = paginate(all.len(), &state);
    let ghost page = crate::pagination::page(s, state.offset as int, state.page_size as int);
    let mut shown: Vec<Task> = Vec::new();
    let mut i: usize = from;
    assert(page.len() == to - from);
    assert(crate::order::viewed(shown@) =~= page.take(0));
    while i < to
        invariant
            from <= i <= to <= all@.len(),
            s == crate::order::viewed(all@),
            page == crate::pagination::page(s, state.offset as int, state.page_size as int),
            page.len() == to - from,
            from < to ==> from == state.offset && state.offset < all@.len() && to
                == crate::pagination::page_end(
                state.offset as int,
                state.page_size as int,
                s.len() as int,
            ),
            crate::order::viewed(shown@) == page.take(i - from),
        decreases to - i,
    {
        let one = all[i].copy();
        let ghost done = crate::order::viewed(shown@);
        shown.push(one);
        proof {
            assert(page[i - from] == s[i as int]);
            assert(s[i as int] == all@[i as int]@);
            assert(crate::order::viewed(shown@) =~= done.push(one@));
            assert(page.take(i - from + 1) =~= page.take(i - from).push(one@));
        }
        i = i + 1;
    }
    assert(page.take(to - from) =~= page);
    let result = ListTasksResult { tasks: shown, next_cursor: next };
    Ok(result.to_json())
}

impl Server {
    /// What a request about a task changes: expired tasks are gone.
    pub open spec fn swept(&self, before: &Server, now: Timestamp) -> bool {
        match (self.tasks, before.tasks) {
            (Some(after), Some(store)) => after.limits() == store.limits() && after.stopping()
                == store.stopping() && after@
                == crate::tasks::alive(store@, now),
            _ => false,
        }
    }

    /// Answers `tasks/get`.
    pub fn handle_task_get(&mut self, params: &Option<Json>, now: Timestamp) -> (r: Result<
        Json,
        McpError,
    >)
        requires
            old(self).wf(),
        ensures
            final(self).wf(),
            get_step(
                *old(self),
                *final(self),
                crate::json::optional(*params),
                now,
                crate::types::outcome_view(r),
            ),
    {
        if self.tasks.is_none() {
            return Err(no_tasks_error());
        }
        let id = match read_text(params, "taskId") {
            Ok(id) => id,
            Err(e) => {
                return Err(e);
            },
        };
        let owner = owner_of(&self.task_context);
        match &mut self.tasks {
            None => Err(no_tasks_error()),
            Some(store) => match store.get(id.as_str(), now) {
                Err(e) => Err(e),
                Ok(task) => if store.belongs_to(id.as_str(), &owner) {
                    Ok(task.to_json())
                } else {
                    Err(
                        McpError::InvalidParams(
                            join("Failed to retrieve task: Task not found: ", id.as_str()),
                        ),
                    )
                },
            },
        }
    }

    /// Answers `tasks/cancel`. A task of somebody else is as good as none.
    pub fn handle_task_cancel(&mut self, params: &Option<Json>, now: Timestamp) -> (r: Result<
        Json,
        McpError,
    >)
        requires
            old(self).wf(),
        ensures
            final(self).wf(),
            cancel_step(
                *old(self),
                *final(self),
                crate::json::optional(*params),
                now,
                crate::types::outcome_view(r),
            ),
    {
        if self.tasks.is_none() {
            return Err(no_tasks_error());
        }
        let id = match read_text(params, "taskId") {
            Ok(id) => id,
            Err(e) => {
                return Err(e);
            },
        };
        let owner = owner_of(&self.task_context);
        match &mut self.tasks {
            None => Err(no_tasks_error()),
            Some(store) => {
                store.sweep(now);
                proof {
                    lemma_alive_twice(old(self).tasks->0@, now);
                }
                if !store.belongs_to(id.as_str(), &owner) {
                    return Err(
                        McpError::InvalidParams(
                            join("Failed to retrieve task: Task not found: ", id.as_str()),
                        ),
                    );
                }
                match store.cancel(id.as_str(), now) {
                    Ok(task) => Ok(task.to_json()),
                    Err(e) => Err(e),
                }
            },
        }
    }

    /// Answers `tasks/list` with the caller's own tasks.
    pub fn handle_task_list(&mut self, params: &Option<Json>, now: Timestamp) -> (r: Result<
        Json,
        McpError,
    >)
        requires
            old(self).wf(),
        ensures
            final(self).wf(),
            list_step(
                *old(self),
                *final(self),
                crate::json::optional(*params),
                now,
                crate::types::outcome_view(r),
            ),
    {
        if self.tasks.is_none() {
            return Err(no_tasks_error());
        }
        match self.task_context {
            TaskContext::Anonymous => {
                return Err(
                    McpError::MethodNotFound("tasks/list: clients cannot be told apart".to_owned()),
                );
            },
            _ => {},
        }
        let owner = owner_of(&self.task_context);
        let page_size = self.config.page_size;
        match &mut self.tasks {
            None => Err(no_tasks_error()),
            Some(store) => {
                let all = store.list_for(&owner, now);
                let r = page_of_tasks(&all, params, page_size);
                proof {
                    let shown = crate::order::viewed(all@);
                    let mine = crate::tasks::tasks_in(
                        crate::tasks::owned(
                            store@,
                            crate::server::context_owner(old(self).task_context),
                        ),
                    );
                    shown.to_multiset_ensures();
                    mine.to_multiset_ensures();
                    assert(shown.len() == mine.len());
                }
                r
            },
        }
    }

    /// What `tasks/result` has to say of a task, if anything yet. The caller
    /// waits where it has nothing to say.
    pub fn check_task(&mut self, task_id: &str, now: Timestamp) -> (r: Option<
        Result<Json, McpError>,
    >)
        requires
            old(self).wf(),
        ensures
            final(self).wf(),
            final(self).same_but_tasks(old(self)),
            match old(self).tasks {
                None => final(self).tasks is None && (r matches Some(Err(e)) && e@ == no_tasks()),
                Some(store) => final(self).swept(old(self), now) && match result_reply(
                    crate::tasks::alive(store@, now),
                    task_id@,
                    crate::server::context_owner(old(self).task_context),
                ) {
                    None => r is None,
                    Some(reply) => r matches Some(x) && crate::types::outcome_view(x) == reply,
                },
            },
    {
        let owner = owner_of(&self.task_context);
        match &mut self.tasks {
            None => Some(Err(no_tasks_error())),
            Some(store) => {
                let outcome = store.try_result(task_id, now);
                if !store.belongs_to(task_id, &owner) {
                    return Some(
                        Err(
                            McpError::InvalidParams(
                                join("Failed to retrieve task: Task not found: ", task_id),
                            ),
                        ),
                    );
                }
                match outcome {
                    Err(e) => Some(Err(e)),
                    Ok(None) => None,
                    Ok(Some(o)) => Some(outcome_answered(o, task_id)),
                }
            },
        }
    }

    /// What `tasks/result` has to say of a task, if anything yet, as the store
    /// stands: looking again while waiting drops nothing.
    pub fn peek_task(&self, task_id: &str) -> (r: Option<Result<Json, McpError>>)
        requires
            self.wf(),
        ensures
            match self.tasks {
                None => r matches Some(Err(e)) && e@ == no_tasks(),
                Some(store) => match result_reply(
                    store@,
                    task_id@,
                    crate::server::context_owner(self.task_context),
                ) {
                    None => r is None,
                    Some(reply) => r matches Some(x) && crate::types::outcome_view(x) == reply,
                },
            },
    {
        let owner = owner_of(&self.task_context);
        match &self.tasks {
            None => Some(Err(no_tasks_error())),
            Some(store) => {
                if !store.belongs_to(task_id, &owner) {
                    return Some(
                        Err(
                            McpError::InvalidParams(
                                join("Failed to retrieve task: Task not found: ", task_id),
                            ),
                        ),
                    );
                }
                match store.peek_result(task_id) {
                    Err(e) => Some(Err(e)),
                    Ok(None) => None,
                    Ok(Some(o)) => Some(outcome_answered(o, task_id)),
                }
            },
        }
    }

    /// Decides about `tasks/result`: the answer where the task has ended, else
    /// a wait.
    pub fn handle_task_result(&mut self, params: &Option<Json>, now: Timestamp) -> (r: Dispatch)
        requires
            old(self).wf(),
        ensures
            final(self).wf(),
            result_step(
                *old(self),
                *final(self),
                crate::json::optional(*params),
                now,
                r,
            ),
    {
        if self.tasks.is_none() {
            return Dispatch::Done(Err(no_tasks_error()));
        }
        let id = match read_text(params, "taskId") {
            Ok(id) => id,
            Err(e) => {
                return Dispatch::Done(Err(e));
            },
        };
        match self.check_task(id.as_str(), now) {
            Some(reply) => Dispatch::Done(reply),
            None => Dispatch::AwaitTask { task_id: id },
        }
    }
}

/// Dropping what expired twice is dropping it once.
proof fn lemma_alive_twice(s: Seq<RecordView>, now: Timestamp)
    ensures
        crate::tasks::alive(crate::tasks::alive(s, now), now) == crate::tasks::alive(s, now),
    decreases s.len(),
{
    reveal(Seq::filter);
    if s.len() > 0 {
        lemma_alive_twice(s.drop_last(), now);
        let f = crate::tasks::alive(s.drop_last(), now);
        assert(f.push(s.last()).drop_last() =~= f);
    }
}

/// A task is found by its owner and by nobody else: to others it is as if it
/// had never been.
pub proof fn law_tasks_are_seen_by_their_owner_only(
    s: Seq<RecordView>,
    id: Seq<char>,
    owner: Option<Seq<char>>,
    now: Timestamp,
)
    requires
        crate::tasks::lookup(s, id) matches Some(r) ==> r.owner != owner,
    ensures
        get_answer(s, id, owner) == Err::<JsonView, McpErrorView>(crate::tasks::no_such_task(id)),
        cancel_reply(s, id, owner, now) == Err::<JsonView, McpErrorView>(
            crate::tasks::no_such_task(id),
        ),
        result_reply(s, id, owner) == Some(
            Err::<JsonView, McpErrorView>(crate::tasks::no_such_task(id)),
        ),
{
}

/// What a tool says of itself in `_meta` is still there when its result is
/// collected as a task's.
pub proof fn law_the_tools_own_meta_is_kept(
    f: Seq<(Seq<char>, JsonView)>,
    id: Seq<char>,
    key: Seq<char>,
)
    requires
        key != RELATED_TASK@,
        crate::json::field(f, "_meta"@) matches Some(JsonView::Object(_)),
    ensures
        ({
            let meta = crate::json::field(f, "_meta"@)->0;
            let reply = outcome_reply(OutcomeView::Value(JsonView::Object(f)), id);
            reply is Ok && reply->Ok_0.get("_meta"@) is Some && ({
                let after = reply->Ok_0.get("_meta"@)->0;
                after.get(key) == meta.get(key) && after.get(RELATED_TASK@) == Some(
                    crate::tasks::task_reference(id),
                )
            })
        }),
{
    let meta = crate::json::field(f, "_meta"@)->0;
    let m = meta->Object_0;
    crate::json::lemma_with_field(
        f,
        "_meta"@,
        meta_with_task(crate::json::field(f, "_meta"@), id),
        "_meta"@,
    );
    crate::json::lemma_with_field(m, RELATED_TASK@, crate::tasks::task_reference(id), key);
}

} // verus!
