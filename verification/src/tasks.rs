//! Tasks: long-running calls that a client starts, polls and collects.
//!
//! A client adds a `task` field to a `tools/call`. The server records the
//! task, answers at once, and the client polls `tasks/get` until the status is
//! terminal; `tasks/result` then hands over what the call produced.

use crate::calendar::{iso8601, Timestamp};
use crate::json::{
    copy_of, object, push_field, push_maybe, text, Json, JsonView, Number, NumberView,
};
use crate::order::{comes_first, sort, Ranked};
use crate::text::{decimal_text, join, join3, same_text};
use crate::transport::origin::contains_text;
use crate::types::{JsonRpcError, JsonRpcErrorView, McpError, McpErrorView};
use vstd::prelude::*;
use vstd::string::*;

verus! {

/// `_meta` key that ties a message to the task it belongs to.
pub const RELATED_TASK: &'static str = "io.modelcontextprotocol/related-task";

/// `_meta` key on a `CreateTaskResult` for text to hand the model while the
/// task runs.
pub const MODEL_IMMEDIATE_RESPONSE: &'static str =
    "io.modelcontextprotocol/model-immediate-response";

/// Where a task is in its life.
#[derive(Debug, Clone, Copy, PartialEq, Eq, Structural)]
pub enum TaskStatus {
    /// Being worked on. Every task starts here.
    Working,
    /// Waiting for something only the client can give.
    InputRequired,
    Completed,
    Failed,
    Cancelled,
}

impl TaskStatus {
    /// A status that a task never leaves.
    pub open spec fn terminal(self) -> bool {
        self is Completed || self is Failed || self is Cancelled
    }

    /// The moves a task may make.
    pub open spec fn may_become(self, next: TaskStatus) -> bool {
        !self.terminal() && self != next
    }

    /// The name of the status on the wire.
    pub open spec fn name(self) -> Seq<char> {
        match self {
            TaskStatus::Working => "working"@,
            TaskStatus::InputRequired => "input_required"@,
            TaskStatus::Completed => "completed"@,
            TaskStatus::Failed => "failed"@,
            TaskStatus::Cancelled => "cancelled"@,
        }
    }

    /// Whether this status is one a task never leaves.
    pub fn is_terminal(&self) -> (r: bool)
        ensures
            r == self.terminal(),
    {
        match self {
            TaskStatus::Completed | TaskStatus::Failed | TaskStatus::Cancelled => true,
            _ => false,
        }
    }

    /// Whether a task may move from this status to `next`.
    pub fn can_transition_to(&self, next: TaskStatus) -> (r: bool)
        ensures
            r == self.may_become(next),
    {
        match self {
            TaskStatus::Working => next != TaskStatus::Working,
            TaskStatus::InputRequired => next != TaskStatus::InputRequired,
            _ => false,
        }
    }
}

/// The name of a status on the wire.
pub fn status_name(status: TaskStatus) -> (r: &'static str)
    ensures
        r@ == status.name(),
{
    match status {
        TaskStatus::Working => "working",
        TaskStatus::InputRequired => "input_required",
        TaskStatus::Completed => "completed",
        TaskStatus::Failed => "failed",
        TaskStatus::Cancelled => "cancelled",
    }
}

/// A task as clients see it.
#[derive(Debug, PartialEq)]
pub struct Task {
    pub task_id: String,
    pub status: TaskStatus,
    pub status_message: Option<String>,
    /// When the task was created, in the form of ISO 8601.
    pub created_at: String,
    /// When the task last changed, in the form of ISO 8601.
    pub last_updated_at: String,
    /// Milliseconds from creation before the task may be deleted; none means
    /// never.
    pub ttl: Option<u64>,
    /// Suggested milliseconds between polls.
    pub poll_interval: Option<u64>,
}

/// What a [`Task`] is.
pub struct TaskView {
    pub task_id: Seq<char>,
    pub status: TaskStatus,
    pub status_message: Option<Seq<char>>,
    pub created_at: Seq<char>,
    pub last_updated_at: Seq<char>,
    pub ttl: Option<u64>,
    pub poll_interval: Option<u64>,
}

/// The view of an optional text.
pub open spec fn optional_text(s: Option<String>) -> Option<Seq<char>> {
    match s {
        Some(s) => Some(s@),
        None => None,
    }
}

impl View for Task {
    type V = TaskView;

    open spec fn view(&self) -> TaskView {
        TaskView {
            task_id: self.task_id@,
            status: self.status,
            status_message: optional_text(self.status_message),
            created_at: self.created_at@,
            last_updated_at: self.last_updated_at@,
            ttl: self.ttl,
            poll_interval: self.poll_interval,
        }
    }
}

impl Task {
    /// An equal task.
    pub fn copy(&self) -> (r: Task)
        ensures
            r@ == self@,
    {
        Task {
            task_id: self.task_id.clone(),
            status: self.status,
            status_message: match &self.status_message {
                Some(m) => Some(m.clone()),
                None => None,
            },
            created_at: self.created_at.clone(),
            last_updated_at: self.last_updated_at.clone(),
            ttl: self.ttl,
            poll_interval: self.poll_interval,
        }
    }
}

/// Newest first, and by id among tasks of the same second.
impl Ranked for Task {
    open spec fn precedes(a: TaskView, b: TaskView) -> bool {
        if a.created_at == b.created_at {
            crate::order::text_before(a.task_id, b.task_id)
        } else {
            crate::order::text_before(b.created_at, a.created_at)
        }
    }

    proof fn order_holds(a: TaskView, b: TaskView, c: TaskView) {
        crate::order::lemma_text_before_one_way(a.task_id, b.task_id);
        crate::order::lemma_text_before_one_way(a.created_at, b.created_at);
        if !Self::precedes(b, a) && !Self::precedes(c, b) {
            crate::order::lemma_text_before_one_way(a.created_at, c.created_at);
            if !crate::order::text_before(b.created_at, a.created_at)
                && !crate::order::text_before(a.created_at, b.created_at) {
                crate::order::lemma_text_before_or_same(a.created_at, b.created_at);
            }
            if !crate::order::text_before(b.created_at, c.created_at)
                && !crate::order::text_before(c.created_at, b.created_at) {
                crate::order::lemma_text_before_or_same(c.created_at, b.created_at);
            }
            if a.created_at == b.created_at && b.created_at == c.created_at {
                crate::order::lemma_text_before_carries(a.task_id, b.task_id, c.task_id);
            } else if a.created_at == c.created_at {
                crate::order::lemma_text_before_one_way(a.created_at, b.created_at);
            } else {
                crate::order::lemma_text_before_one_way(b.created_at, c.created_at);
                crate::order::lemma_text_before_carries(c.created_at, b.created_at, a.created_at);
            }
        }
    }

    fn comes_before(&self, other: &Task) -> (r: bool) {
        if same_text(self.created_at.as_str(), other.created_at.as_str()) {
            comes_first(self.task_id.as_str(), other.task_id.as_str())
        } else {
            comes_first(other.created_at.as_str(), self.created_at.as_str())
        }
    }
}

/// What a finished task produced.
#[derive(Debug, PartialEq)]
pub enum TaskOutcome {
    /// A result, ready to be returned.
    Value(Json),
    /// An error, to be returned exactly as it stands.
    Error(JsonRpcError),
}

/// What a [`TaskOutcome`] is.
pub enum OutcomeView {
    Value(JsonView),
    Error(JsonRpcErrorView),
}

impl View for TaskOutcome {
    type V = OutcomeView;

    open spec fn view(&self) -> OutcomeView {
        match *self {
            TaskOutcome::Value(j) => OutcomeView::Value(j@),
            TaskOutcome::Error(e) => OutcomeView::Error(e@),
        }
    }
}

impl TaskOutcome {
    /// An equal outcome.
    pub fn copy(&self) -> (r: TaskOutcome)
        ensures
            r@ == self@,
    {
        match self {
            TaskOutcome::Value(j) => TaskOutcome::Value(j.copy()),
            TaskOutcome::Error(e) => TaskOutcome::Error(e.copy()),
        }
    }
}

/// What a server declares of tasks. What is left out is not offered.
#[derive(Debug)]
pub struct TasksCapability {
    pub list: Option<Json>,
    pub cancel: Option<Json>,
    pub requests: Option<Json>,
}

impl Default for TasksCapability {
    fn default() -> (r: Self)
        ensures
            r.list is None,
            r.cancel is None,
            r.requests is None,
    {
        TasksCapability { list: None, cancel: None, requests: None }
    }
}

impl TasksCapability {
    /// The fields of the capability on the wire.
    pub open spec fn wire_fields(self) -> Seq<(Seq<char>, JsonView)> {
        crate::json::maybe("list"@, crate::json::optional(self.list)) + crate::json::maybe(
            "cancel"@,
            crate::json::optional(self.cancel),
        ) + crate::json::maybe("requests"@, crate::json::optional(self.requests))
    }

    /// The capability on the wire.
    pub fn to_json(&self) -> (r: Json)
        ensures
            r@ == JsonView::Object(self.wire_fields()),
    {
        let mut v: Vec<(String, Json)> = Vec::new();
        assert(crate::json::fields(v@) =~= Seq::empty());
        push_maybe(&mut v, "list", copy_of(&self.list));
        push_maybe(&mut v, "cancel", copy_of(&self.cancel));
        push_maybe(&mut v, "requests", copy_of(&self.requests));
        assert(crate::json::fields(v@) =~= self.wire_fields());
        object(v)
    }
}

/// Tuning for the task store.
#[derive(Debug, Clone, Copy)]
pub struct TaskConfig {
    /// Lifetime of a task that asks for none, in milliseconds.
    pub default_ttl_ms: u64,
    /// The longest lifetime a task can ask for, in milliseconds.
    pub max_ttl_ms: u64,
    /// Polling interval suggested to clients, in milliseconds.
    pub poll_interval_ms: u64,
    /// How many tasks may run at once.
    pub max_concurrent: usize,
}

impl Default for TaskConfig {
    fn default() -> (r: Self)
        ensures
            r.default_ttl_ms == 300_000,
            r.max_ttl_ms == 3_600_000,
            r.poll_interval_ms == 1_000,
            r.max_concurrent == 16,
    {
        TaskConfig {
            default_ttl_ms: 300_000,
            max_ttl_ms: 3_600_000,
            poll_interval_ms: 1_000,
            max_concurrent: 16,
        }
    }
}

/// Everything the store keeps of one task.
#[derive(Debug)]
struct TaskRecord {
    task: Task,
    outcome: Option<TaskOutcome>,
    created: Timestamp,
    cancelled: bool,
    owner: Option<String>,
}

/// What a record is.
pub struct RecordView {
    pub task: TaskView,
    pub outcome: Option<OutcomeView>,
    /// When the task was created, for its expiry.
    pub created: Timestamp,
    /// Whether the running tool was asked to stop.
    pub cancelled: bool,
    /// Whom the task belongs to, where that is known.
    pub owner: Option<Seq<char>>,
}

impl View for TaskRecord {
    type V = RecordView;

    closed spec fn view(&self) -> RecordView {
        RecordView {
            task: self.task@,
            outcome: match self.outcome {
                Some(o) => Some(o@),
                None => None,
            },
            created: self.created,
            cancelled: self.cancelled,
            owner: optional_text(self.owner),
        }
    }
}

/// Whether a task's lifetime is over. A clock that went back ends nothing.
pub open spec fn expired(r: RecordView, now: Timestamp) -> bool {
    match r.task.ttl {
        None => false,
        Some(ttl) => now.total() >= r.created.total() && now.total() - r.created.total() >= ttl
            * 1_000_000,
    }
}

/// The records that are still alive.
pub open spec fn alive(s: Seq<RecordView>, now: Timestamp) -> Seq<RecordView> {
    s.filter(|r: RecordView| !expired(r, now))
}

/// How many tasks are running.
pub open spec fn running_in(s: Seq<RecordView>) -> nat {
    s.filter(|r: RecordView| !r.task.status.terminal()).len()
}

/// The position of the task with this id, or the number of records.
pub open spec fn task_at(s: Seq<RecordView>, id: Seq<char>, from: int) -> int
    decreases s.len() - from,
{
    if from >= s.len() {
        s.len() as int
    } else if s[from].task.task_id == id {
        from
    } else {
        task_at(s, id, from + 1)
    }
}

/// The record of a task.
pub open spec fn lookup(s: Seq<RecordView>, id: Seq<char>) -> Option<RecordView> {
    let i = task_at(s, id, 0);
    if 0 <= i < s.len() {
        Some(s[i])
    } else {
        None
    }
}

/// The records of all other tasks.
pub open spec fn others(s: Seq<RecordView>, id: Seq<char>) -> Seq<RecordView> {
    s.filter(|r: RecordView| r.task.task_id != id)
}

/// The store with the record of one task replaced.
pub open spec fn replaced(s: Seq<RecordView>, id: Seq<char>, r: RecordView) -> Seq<RecordView> {
    s.update(task_at(s, id, 0), r)
}

/// No two records are of the same task.
pub open spec fn ids_differ(s: Seq<RecordView>) -> bool {
    forall|i: int, j: int|
        0 <= i < j < s.len() ==> (#[trigger] s[i]).task.task_id != (#[trigger] s[j]).task.task_id
}

/// A task that is done has something to show for it.
pub open spec fn outcomes_kept(s: Seq<RecordView>) -> bool {
    forall|i: int|
        0 <= i < s.len() && (#[trigger] s[i]).task.status.terminal() ==> s[i].outcome is Some
}

/// The lifetime a task is given.
pub open spec fn granted_ttl(config: TaskConfig, requested: Option<u64>) -> u64 {
    let wanted = match requested {
        Some(t) => t,
        None => config.default_ttl_ms,
    };
    if wanted <= config.max_ttl_ms {
        wanted
    } else {
        config.max_ttl_ms
    }
}

/// A task as it is created.
pub open spec fn new_record(
    config: TaskConfig,
    requested: Option<u64>,
    now: Timestamp,
    id: Seq<char>,
    owner: Option<Seq<char>>,
) -> RecordView {
    RecordView {
        task: TaskView {
            task_id: id,
            status: TaskStatus::Working,
            status_message: None,
            created_at: crate::calendar::stamp(now),
            last_updated_at: crate::calendar::stamp(now),
            ttl: Some(granted_ttl(config, requested)),
            poll_interval: Some(config.poll_interval_ms),
        },
        outcome: None,
        created: now,
        cancelled: false,
        owner,
    }
}

/// The store after a task was added. A task with the same id makes way.
pub open spec fn with_task(s: Seq<RecordView>, r: RecordView) -> Seq<RecordView> {
    others(s, r.task.task_id).push(r)
}

/// The refusal of one task too many.
pub open spec fn too_many(running: nat, limit: usize) -> McpErrorView {
    McpErrorView::Internal(
        "too many tasks in flight ("@ + crate::text::decimal(running as int) + "/"@
            + crate::text::decimal(limit as int) + ")"@,
    )
}

/// A record whose task ended with this outcome.
pub open spec fn finished(
    r: RecordView,
    status: TaskStatus,
    outcome: OutcomeView,
    now: Timestamp,
) -> RecordView {
    RecordView {
        task: TaskView {
            status,
            last_updated_at: crate::calendar::stamp(now),
            status_message: match outcome {
                OutcomeView::Error(e) => Some(e.message),
                OutcomeView::Value(_) => r.task.status_message,
            },
            ..r.task
        },
        outcome: Some(outcome),
        ..r
    }
}

/// A record whose task moved to another status.
pub open spec fn moved(r: RecordView, status: TaskStatus, now: Timestamp) -> RecordView {
    RecordView {
        task: TaskView { status, last_updated_at: crate::calendar::stamp(now), ..r.task },
        ..r
    }
}

/// A record whose task carries a note.
pub open spec fn noted(r: RecordView, message: Seq<char>, now: Timestamp) -> RecordView {
    RecordView {
        task: TaskView {
            status_message: Some(message),
            last_updated_at: crate::calendar::stamp(now),
            ..r.task
        },
        ..r
    }
}

/// A record whose task was cancelled.
pub open spec fn cancelled(r: RecordView, now: Timestamp) -> RecordView {
    RecordView {
        task: TaskView {
            status: TaskStatus::Cancelled,
            status_message: Some("The task was cancelled by request."@),
            last_updated_at: crate::calendar::stamp(now),
            ..r.task
        },
        outcome: Some(
            OutcomeView::Error(
                JsonRpcErrorView { code: -32603, message: "Task was cancelled"@, data: None },
            ),
        ),
        cancelled: true,
        ..r
    }
}

/// What [`TaskStore::finish`] leaves behind.
pub open spec fn after_finish(
    s: Seq<RecordView>,
    id: Seq<char>,
    status: TaskStatus,
    outcome: OutcomeView,
    now: Timestamp,
) -> Seq<RecordView> {
    match lookup(s, id) {
        Some(r) => if r.task.status.terminal() {
            s
        } else {
            replaced(s, id, finished(r, status, outcome, now))
        },
        None => s,
    }
}

/// Whether [`TaskStore::set_status`] moves a task.
pub open spec fn moves(s: Seq<RecordView>, id: Seq<char>, status: TaskStatus) -> bool {
    !status.terminal() && lookup(s, id) is Some && lookup(s, id)->0.task.status.may_become(status)
}

/// The view of whether a task moved.
pub open spec fn moved_view(r: Result<bool, McpError>) -> Result<bool, McpErrorView> {
    match r {
        Ok(did) => Ok(did),
        Err(e) => Err(e@),
    }
}

/// What [`TaskStore::set_status`] does.
pub open spec fn status_step(
    before: Seq<RecordView>,
    after: Seq<RecordView>,
    id: Seq<char>,
    status: TaskStatus,
    now: Timestamp,
    r: Result<bool, McpErrorView>,
) -> bool {
    let kept = alive(before, now);
    match r {
        Err(e) => status.terminal() && after == kept && e == McpErrorView::Internal(
            "use finish() to move task "@ + id + " to a terminal status"@,
        ),
        Ok(did) => !status.terminal() && did == moves(kept, id, status) && after == (if did {
            replaced(kept, id, moved(lookup(kept, id)->0, status, now))
        } else {
            kept
        }),
    }
}

/// What [`TaskStore::set_status_message`] leaves behind.
pub open spec fn after_note(
    s: Seq<RecordView>,
    id: Seq<char>,
    message: Seq<char>,
    now: Timestamp,
) -> Seq<RecordView> {
    match lookup(s, id) {
        Some(r) => replaced(s, id, noted(r, message, now)),
        None => s,
    }
}

/// The answer to a cancellation.
pub open spec fn cancel_answer(
    s: Seq<RecordView>,
    id: Seq<char>,
    now: Timestamp,
) -> Result<TaskView, McpErrorView> {
    match lookup(s, id) {
        None => Err(no_such_task(id)),
        Some(r) => if r.task.status.terminal() {
            Err(
                McpErrorView::InvalidParams(
                    "Cannot cancel task: already in terminal status '"@ + r.task.status.name()
                        + "'"@,
                ),
            )
        } else {
            Ok(cancelled(r, now).task)
        },
    }
}

/// What is known of a task's outcome: nothing while it runs.
pub open spec fn outcome_answer(s: Seq<RecordView>, id: Seq<char>) -> Result<
    Option<OutcomeView>,
    McpErrorView,
> {
    match lookup(s, id) {
        None => Err(no_such_task(id)),
        Some(r) => if r.task.status.terminal() {
            Ok(r.outcome)
        } else {
            Ok(None)
        },
    }
}

/// The records of the tasks that belong to `owner`.
pub open spec fn owned(s: Seq<RecordView>, owner: Option<Seq<char>>) -> Seq<RecordView> {
    s.filter(|r: RecordView| r.owner == owner)
}

fn same_owner(a: &Option<String>, b: &Option<String>) -> (r: bool)
    ensures
        r == (optional_text(*a) == optional_text(*b)),
{
    match (a, b) {
        (None, None) => true,
        (Some(a), Some(b)) => same_text(a.as_str(), b.as_str()),
        _ => false,
    }
}

/// The tasks of a store's records.
pub open spec fn tasks_in(s: Seq<RecordView>) -> Seq<TaskView> {
    s.map_values(|r: RecordView| r.task)
}

/// The answer for a task that is not there, whether it expired or never was.
pub open spec fn no_such_task(id: Seq<char>) -> McpErrorView {
    McpErrorView::InvalidParams("Failed to retrieve task: Task not found: "@ + id)
}

/// The tasks of a server, each kept for its lifetime.
#[derive(Debug)]
pub struct TaskStore {
    records: Vec<TaskRecord>,
    config: TaskConfig,
    /// How many ids were drawn: a number that never repeats.
    drawn: u64,
    /// The cancelled tasks whose tools have not ended.
    stopping: Vec<String>,
}

impl View for TaskStore {
    type V = Seq<RecordView>;

    closed spec fn view(&self) -> Seq<RecordView> {
        self.records@.map_values(|r: TaskRecord| r@)
    }
}

fn not_found(task_id: &str) -> (r: McpError)
    ensures
        r@ == no_such_task(task_id@),
{
    McpError::InvalidParams(join("Failed to retrieve task: Task not found: ", task_id))
}

impl TaskRecord {
    fn expired(&self, now: Timestamp) -> (r: bool)
        ensures
            r == expired(self@, now),
    {
        match self.task.ttl {
            None => false,
            Some(ttl) => {
                let later: i128 = (now.secs as i128) * 1_000_000_000 + (now.nanos as i128);
                let earlier: i128 = (self.created.secs as i128) * 1_000_000_000 + (
                self.created.nanos as i128);
                later >= earlier && later - earlier >= (ttl as i128) * 1_000_000
            },
        }
    }
}

/// Filtering one more item.
proof fn lemma_filter_step(s: Seq<RecordView>, keep: spec_fn(RecordView) -> bool, n: int)
    requires
        0 <= n < s.len(),
    ensures
        s.take(n + 1).filter(keep) == if keep(s[n]) {
            s.take(n).filter(keep).push(s[n])
        } else {
            s.take(n).filter(keep)
        },
{
    reveal(Seq::filter);
    assert(s.take(n + 1).drop_last() =~= s.take(n));
    assert(s.take(n + 1).last() == s[n]);
}

/// What is left after filtering was there before, in the same order.
proof fn lemma_filter_from(s: Seq<RecordView>, keep: spec_fn(RecordView) -> bool)
    ensures
        s.filter(keep).len() <= s.len(),
        forall|i: int|
            0 <= i < s.filter(keep).len() ==> keep(#[trigger] s.filter(keep)[i]) && s.contains(
                s.filter(keep)[i],
            ),
        ids_differ(s) ==> ids_differ(s.filter(keep)),
        outcomes_kept(s) ==> outcomes_kept(s.filter(keep)),
    decreases s.len(),
{
    reveal(Seq::filter);
    if s.len() > 0 {
        let t = s.drop_last();
        lemma_filter_from(t, keep);
        let f = t.filter(keep);
        assert forall|i: int| 0 <= i < f.len() implies s.contains(#[trigger] f[i]) by {
            let k = choose|k: int| 0 <= k < t.len() && t[k] == f[i];
            assert(s[k] == f[i]);
        }
        if ids_differ(s) {
            assert(ids_differ(t)) by {
                assert forall|i: int, j: int| 0 <= i < j < t.len() implies (
                #[trigger] t[i]).task.task_id != (#[trigger] t[j]).task.task_id by {
                    assert(s[i].task.task_id != s[j].task.task_id);
                }
            }
            if keep(s.last()) {
                assert forall|i: int| 0 <= i < f.len() implies (#[trigger] f[i]).task.task_id
                    != s.last().task.task_id by {
                    assert(t.contains(f[i]));
                    let k = choose|k: int| 0 <= k < t.len() && t[k] == f[i];
                    assert(s[k].task.task_id != s[s.len() - 1].task.task_id);
                }
            }
        }
        if outcomes_kept(s) {
            assert(outcomes_kept(t)) by {
                assert forall|i: int| 0 <= i < t.len() && (
                #[trigger] t[i]).task.status.terminal() implies t[i].outcome is Some by {
                    assert(s[i] == t[i]);
                }
            }
            assert(s[s.len() - 1] == s.last());
        }
    }
}

/// Takes a text off a list, however often it is on it.
fn forget(list: &mut Vec<String>, text: &str)
    ensures
        crate::text::texts(final(list)@).to_set() == crate::text::texts(
            old(list)@,
        ).to_set().remove(text@),
{
    let ghost all = crate::text::texts(list@);
    let mut i: usize = 0;
    while i < list.len()
        invariant
            i <= list@.len(),
            forall|k: int| 0 <= k < i ==> (#[trigger] list@[k])@ != text@,
            crate::text::texts(list@).to_set().remove(text@) == all.to_set().remove(text@),
        decreases list@.len() - i,
    {
        let ghost before = crate::text::texts(list@);
        assert(before[i as int] == list@[i as int]@);
        if same_text(list[i].as_str(), text) {
            let _ = list.remove(i);
            proof {
                let after = crate::text::texts(list@);
                assert(after =~= before.remove(i as int));
                assert forall|x: Seq<char>| x != text@ implies (before.contains(x)
                    <==> #[trigger] after.contains(x)) by {
                    if before.contains(x) {
                        let k = choose|k: int| 0 <= k < before.len() && before[k] == x;
                        if k < i {
                            assert(after[k] == x);
                        } else {
                            assert(after[k - 1] == x);
                        }
                    }
                    if after.contains(x) {
                        let k = choose|k: int| 0 <= k < after.len() && after[k] == x;
                        if k < i {
                            assert(before[k] == x);
                        } else {
                            assert(before[k + 1] == x);
                        }
                    }
                }
                assert(after.to_set().remove(text@) =~= before.to_set().remove(text@));
            }
        } else {
            i = i + 1;
        }
    }
    proof {
        let left = crate::text::texts(list@);
        assert forall|x: Seq<char>| left.contains(x) implies x != text@ by {
            let k = choose|k: int| 0 <= k < left.len() && left[k] == x;
            assert(list@[k]@ == x);
        }
        assert(left.to_set() =~= left.to_set().remove(text@));
    }
}

/// Whether a tool is to stop: its task is there and was cancelled, or was
/// cancelled and is gone before the tool ended.
pub open spec fn to_stop(s: Seq<RecordView>, stopping: Set<Seq<char>>, id: Seq<char>) -> bool {
    ||| lookup(s, id) is Some && lookup(s, id)->0.cancelled
    ||| stopping.contains(id)
}

impl TaskStore {
    /// The configured limits.
    pub closed spec fn limits(&self) -> TaskConfig {
        self.config
    }

    /// The ids of the cancelled tasks whose tools have not ended. They are
    /// kept when the tasks expire.
    pub closed spec fn stopping(&self) -> Set<Seq<char>> {
        crate::text::texts(self.stopping@).to_set()
    }

    /// No task is kept twice, and no finished task lacks its outcome.
    pub open spec fn wf(&self) -> bool {
        ids_differ(self@) && outcomes_kept(self@)
    }

    pub fn new(config: TaskConfig) -> (r: TaskStore)
        ensures
            r.wf(),
            r@ == Seq::<RecordView>::empty(),
            r.limits() == config,
            r.stopping() == Set::<Seq<char>>::empty(),
    {
        let r = TaskStore { records: Vec::new(), config, drawn: 0, stopping: Vec::new() };
        assert(r@ =~= Seq::<RecordView>::empty());
        assert(r.stopping() =~= Set::<Seq<char>>::empty());
        r
    }

    /// The configured limits.
    pub fn config(&self) -> (r: TaskConfig)
        ensures
            r == self.limits(),
    {
        self.config
    }

    /// Drops the tasks whose lifetime is over.
    pub fn sweep(&mut self, now: Timestamp)
        requires
            old(self).wf(),
        ensures
            final(self).wf(),
            final(self)@ == alive(old(self)@, now),
            final(self).limits() == old(self).limits(),
            final(self).stopping() == old(self).stopping(),
    {
        let ghost all = self@;
        let ghost keep = |r: RecordView| !expired(r, now);
        let ghost mut seen: int = 0;
        let mut i: usize = 0;
        proof {
            reveal(Seq::filter);
            assert(all.take(0).filter(keep) =~= Seq::<RecordView>::empty());
            assert(self@ =~= all.take(0).filter(keep) + all.skip(0));
        }
        while i < self.records.len()
            invariant
                0 <= seen <= all.len(),
                keep == (|r: RecordView| !expired(r, now)),
                i == all.take(seen).filter(keep).len(),
                self@ == all.take(seen).filter(keep) + all.skip(seen),
                self.config == old(self).config,
                self.stopping == old(self).stopping,
                i <= self.records@.len(),
            decreases self.records@.len() - i,
        {
            let ghost before = self@;
            assert(self.records@[i as int]@ == before[i as int]);
            assert(before[i as int] == all[seen]);
            proof {
                lemma_filter_step(all, keep, seen);
            }
            if self.records[i].expired(now) {
                let _ = self.records.remove(i);
                assert(self@ =~= before.remove(i as int));
                assert(self@ =~= all.take(seen + 1).filter(keep) + all.skip(seen + 1));
            } else {
                i = i + 1;
                assert(self@ =~= all.take(seen + 1).filter(keep) + all.skip(seen + 1));
            }
            proof {
                seen = seen + 1;
            }
        }
        proof {
            assert(seen == all.len());
            assert(all.take(seen) =~= all);
            assert(self@ =~= all.filter(keep));
            lemma_filter_from(all, keep);
        }
    }

    /// Where the task with this id is.
    fn find(&self, task_id: &str) -> (r: usize)
        ensures
            r == task_at(self@, task_id@, 0),
            r <= self.records@.len(),
            r < self.records@.len() ==> self@[r as int] == self.records@[r as int]@
                && self@[r as int].task.task_id == task_id@,
            self@.len() == self.records@.len(),
    {
        let mut i: usize = 0;
        while i < self.records.len()
            invariant
                i <= self.records@.len(),
                self@.len() == self.records@.len(),
                task_at(self@, task_id@, 0) == task_at(self@, task_id@, i as int),
            decreases self.records@.len() - i,
        {
            assert(self@[i as int] == self.records@[i as int]@);
            if same_text(self.records[i].task.task_id.as_str(), task_id) {
                return i;
            }
            i = i + 1;
        }
        i
    }

    /// How many tasks are running.
    fn count_running(&self) -> (r: usize)
        ensures
            r == running_in(self@),
    {
        let ghost going = |r: RecordView| !r.task.status.terminal();
        let mut n: usize = 0;
        let mut i: usize = 0;
        proof {
            reveal(Seq::filter);
            assert(self@.take(0).filter(going) =~= Seq::<RecordView>::empty());
        }
        while i < self.records.len()
            invariant
                going == (|r: RecordView| !r.task.status.terminal()),
                i <= self.records@.len(),
                n <= i,
                n == self@.take(i as int).filter(going).len(),
            decreases self.records@.len() - i,
        {
            proof {
                assert(self@[i as int] == self.records@[i as int]@);
                lemma_filter_step(self@, going, i as int);
            }
            if !self.records[i].task.status.is_terminal() {
                n = n + 1;
            }
            i = i + 1;
        }
        assert(self@.take(i as int) =~= self@);
        n
    }

    /// How many tasks are running.
    pub fn running(&mut self, now: Timestamp) -> (r: usize)
        requires
            old(self).wf(),
        ensures
            final(self).wf(),
            final(self)@ == alive(old(self)@, now),
            final(self).limits() == old(self).limits(),
            final(self).stopping() == old(self).stopping(),
            r == running_in(final(self)@),
    {
        self.sweep(now);
        self.count_running()
    }

    /// Drops the tasks whose lifetime is over, and refuses where as many are
    /// running as may.
    fn make_room(&mut self, now: Timestamp) -> (r: Result<(), McpError>)
        requires
            old(self).wf(),
        ensures
            final(self).wf(),
            final(self)@ == alive(old(self)@, now),
            final(self).limits() == old(self).limits(),
            final(self).stopping() == old(self).stopping(),
            match r {
                Ok(_) => running_in(final(self)@) < old(self).limits().max_concurrent,
                Err(e) => running_in(final(self)@) >= old(self).limits().max_concurrent && e@
                    == too_many(running_in(final(self)@), old(self).limits().max_concurrent),
            },
    {
        let running = self.running(now);
        if running >= self.config.max_concurrent {
            let mut why = "too many tasks in flight (".to_owned();
            why.append(decimal_text(running as u64).as_str());
            why.append("/");
            why.append(decimal_text(self.config.max_concurrent as u64).as_str());
            why.append(")");
            return Err(McpError::Internal(why));
        }
        Ok(())
    }

    /// Adds a task under this id.
    fn add_task(
        &mut self,
        requested_ttl: Option<u64>,
        now: Timestamp,
        task_id: String,
        owner: Option<String>,
    ) -> (r: Task)
        requires
            old(self).wf(),
        ensures
            final(self).wf(),
            final(self).limits() == old(self).limits(),
            final(self).stopping() == old(self).stopping().remove(task_id@),
            ({
                let made = new_record(
                    old(self).limits(),
                    requested_ttl,
                    now,
                    task_id@,
                    optional_text(owner),
                );
                r@ == made.task && final(self)@ == with_task(old(self)@, made)
            }),
    {
        let wanted: u64 = match requested_ttl {
            Some(t) => t,
            None => self.config.default_ttl_ms,
        };
        let ttl: u64 = if wanted <= self.config.max_ttl_ms {
            wanted
        } else {
            self.config.max_ttl_ms
        };
        let timestamp = iso8601(now);
        let task = Task {
            task_id,
            status: TaskStatus::Working,
            status_message: None,
            created_at: timestamp.clone(),
            last_updated_at: timestamp,
            ttl: Some(ttl),
            poll_interval: Some(self.config.poll_interval_ms),
        };
        forget(&mut self.stopping, task.task_id.as_str());
        let ghost kept = self@;
        let at = self.find(task.task_id.as_str());
        proof {
            lemma_others(kept, task.task_id@);
            lemma_filter_from(kept, |r: RecordView| r.task.task_id != task.task_id@);
        }
        if at < self.records.len() {
            let _ = self.records.remove(at);
            assert(self@ =~= kept.remove(at as int));
        }
        let ghost rest = self@;
        assert(rest == others(kept, task.task_id@));
        let record = TaskRecord { task: task.copy(), outcome: None, created: now, cancelled: false, owner };
        self.records.push(record);
        assert(self@ =~= rest.push(record@));
        task
    }

    /// Creates a task under this id, or refuses where too many are running.
    pub fn create_with_id(
        &mut self,
        requested_ttl: Option<u64>,
        now: Timestamp,
        task_id: String,
        owner: Option<String>,
    ) -> (r: Result<Task, McpError>)
        requires
            old(self).wf(),
        ensures
            final(self).wf(),
            final(self).limits() == old(self).limits(),
            ({
                let kept = alive(old(self)@, now);
                let limits = old(self).limits();
                let made = new_record(
                    limits,
                    requested_ttl,
                    now,
                    task_id@,
                    optional_text(owner),
                );
                match r {
                    Ok(task) => running_in(kept) < limits.max_concurrent && task@ == made.task
                        && final(self)@ == with_task(kept, made) && final(self).stopping()
                        == old(self).stopping().remove(task_id@),
                    Err(e) => running_in(kept) >= limits.max_concurrent && e@ == too_many(
                        running_in(kept),
                        limits.max_concurrent,
                    ) && final(self)@ == kept && final(self).stopping() == old(self).stopping(),
                }
            }),
    {
        match self.make_room(now) {
            Ok(_) => Ok(self.add_task(requested_ttl, now, task_id, owner)),
            Err(e) => Err(e),
        }
    }

    /// What is known of a task.
    pub fn get(&mut self, task_id: &str, now: Timestamp) -> (r: Result<Task, McpError>)
        requires
            old(self).wf(),
        ensures
            final(self).wf(),
            final(self)@ == alive(old(self)@, now),
            final(self).limits() == old(self).limits(),
            final(self).stopping() == old(self).stopping(),
            match r {
                Ok(task) => lookup(final(self)@, task_id@) is Some && task@ == lookup(
                    final(self)@,
                    task_id@,
                )->0.task,
                Err(e) => lookup(final(self)@, task_id@) is None && e@ == no_such_task(task_id@),
            },
    {
        self.sweep(now);
        let i = self.find(task_id);
        if i < self.records.len() {
            Ok(self.records[i].task.copy())
        } else {
            Err(not_found(task_id))
        }
    }

    /// Every task, newest first.
    pub fn list(&mut self, now: Timestamp) -> (r: Vec<Task>)
        requires
            old(self).wf(),
        ensures
            final(self).wf(),
            final(self)@ == alive(old(self)@, now),
            final(self).limits() == old(self).limits(),
            final(self).stopping() == old(self).stopping(),
            crate::order::in_order::<Task>(crate::order::viewed(r@)),
            crate::order::viewed(r@).to_multiset() == tasks_in(final(self)@).to_multiset(),
    {
        self.sweep(now);
        let mut all: Vec<Task> = Vec::new();
        let mut i: usize = 0;
        assert(tasks_in(self@).take(0) =~= Seq::<TaskView>::empty());
        assert(crate::order::viewed(all@) =~= Seq::<TaskView>::empty());
        while i < self.records.len()
            invariant
                i <= self.records@.len(),
                crate::order::viewed(all@) == tasks_in(self@).take(i as int),
            decreases self.records@.len() - i,
        {
            let ghost before = crate::order::viewed(all@);
            let task = self.records[i].task.copy();
            all.push(task);
            assert(self@[i as int] == self.records@[i as int]@);
            assert(crate::order::viewed(all@) =~= before.push(task@));
            assert(tasks_in(self@).take(i as int + 1) =~= before.push(task@));
            i = i + 1;
        }
        assert(tasks_in(self@).take(i as int) =~= tasks_in(self@));
        sort(all)
    }

    /// The tasks that belong to `owner`, newest first.
    pub fn list_for(&mut self, owner: &Option<String>, now: Timestamp) -> (r: Vec<Task>)
        requires
            old(self).wf(),
        ensures
            final(self).wf(),
            final(self)@ == alive(old(self)@, now),
            final(self).limits() == old(self).limits(),
            final(self).stopping() == old(self).stopping(),
            crate::order::in_order::<Task>(crate::order::viewed(r@)),
            crate::order::viewed(r@).to_multiset() == tasks_in(
                owned(final(self)@, optional_text(*owner)),
            ).to_multiset(),
    {
        self.sweep(now);
        let ghost mine = |r: RecordView| r.owner == optional_text(*owner);
        let mut all: Vec<Task> = Vec::new();
        let mut i: usize = 0;
        proof {
            reveal(Seq::filter);
            assert(self@.take(0).filter(mine) =~= Seq::<RecordView>::empty());
            assert(crate::order::viewed(all@) =~= tasks_in(self@.take(0).filter(mine)));
        }
        while i < self.records.len()
            invariant
                i <= self.records@.len(),
                mine == (|r: RecordView| r.owner == optional_text(*owner)),
                crate::order::viewed(all@) == tasks_in(self@.take(i as int).filter(mine)),
            decreases self.records@.len() - i,
        {
            let ghost before = self@.take(i as int).filter(mine);
            proof {
                assert(self@[i as int] == self.records@[i as int]@);
                lemma_filter_step(self@, mine, i as int);
            }
            if same_owner(&self.records[i].owner, owner) {
                let task = self.records[i].task.copy();
                let ghost listed = crate::order::viewed(all@);
                all.push(task);
                assert(crate::order::viewed(all@) =~= listed.push(task@));
                assert(tasks_in(before.push(self@[i as int])) =~= tasks_in(before).push(task@));
            }
            i = i + 1;
        }
        assert(self@.take(i as int) =~= self@);
        sort(all)
    }

    /// Whether a task is there and belongs to `owner`.
    pub fn belongs_to(&self, task_id: &str, owner: &Option<String>) -> (r: bool)
        ensures
            r == (lookup(self@, task_id@) is Some && lookup(self@, task_id@)->0.owner
                == optional_text(*owner)),
    {
        let i = self.find(task_id);
        i < self.records.len() && same_owner(&self.records[i].owner, owner)
    }

    /// Records how a task ended, and that its tool did. A task that ended
    /// already stays as it is, and one that is gone stays gone.
    pub fn finish(&mut self, task_id: &str, status: TaskStatus, outcome: TaskOutcome, now: Timestamp)
        requires
            old(self).wf(),
        ensures
            final(self).wf(),
            final(self).limits() == old(self).limits(),
            final(self).stopping() == old(self).stopping().remove(task_id@),
            final(self)@ == after_finish(
                alive(old(self)@, now),
                task_id@,
                status,
                outcome@,
                now,
            ),
    {
        self.sweep(now);
        forget(&mut self.stopping, task_id);
        let ghost s = self@;
        let i = self.find(task_id);
        if i < self.records.len() && !self.records[i].task.status.is_terminal() {
            let message = match &outcome {
                TaskOutcome::Error(e) => Some(e.message.clone()),
                TaskOutcome::Value(_) => None,
            };
            let ghost was = self.records@[i as int]@;
            let ghost kind = outcome@;
            let record = &mut self.records[i];
            record.task.status = status;
            record.task.last_updated_at = iso8601(now);
            if message.is_some() {
                record.task.status_message = message;
            }
            record.outcome = Some(outcome);
            assert(self.records@[i as int]@ == finished(was, status, kind, now));
            assert(self@ =~= replaced(s, task_id@, finished(was, status, kind, now)));
            proof {
                lemma_replaced(s, task_id@, finished(was, status, kind, now));
            }
        }
    }

    /// Moves a task between statuses that are not terminal, and says whether
    /// it moved. A task that is gone, or that ended, does not move.
    pub fn set_status(&mut self, task_id: &str, status: TaskStatus, now: Timestamp) -> (r: Result<
        bool,
        McpError,
    >)
        requires
            old(self).wf(),
        ensures
            final(self).wf(),
            final(self).limits() == old(self).limits(),
            final(self).stopping() == old(self).stopping(),
            status_step(old(self)@, final(self)@, task_id@, status, now, moved_view(r)),
    {
        self.sweep(now);
        if status.is_terminal() {
            return Err(
                McpError::Internal(
                    join3("use finish() to move task ", task_id, " to a terminal status"),
                ),
            );
        }
        let ghost s = self@;
        let i = self.find(task_id);
        if i == self.records.len() {
            return Ok(false);
        }
        if !self.records[i].task.status.can_transition_to(status) {
            return Ok(false);
        }
        let ghost was = self.records@[i as int]@;
        let record = &mut self.records[i];
        record.task.status = status;
        record.task.last_updated_at = iso8601(now);
        assert(self.records@[i as int]@ == moved(was, status, now));
        assert(self@ =~= replaced(s, task_id@, moved(was, status, now)));
        proof {
            lemma_replaced(s, task_id@, moved(was, status, now));
        }
        Ok(true)
    }

    /// Attaches a note to a task, whatever its status.
    pub fn set_status_message(&mut self, task_id: &str, message: String, now: Timestamp)
        requires
            old(self).wf(),
        ensures
            final(self).wf(),
            final(self).limits() == old(self).limits(),
            final(self).stopping() == old(self).stopping(),
            final(self)@ == after_note(alive(old(self)@, now), task_id@, message@, now),
    {
        self.sweep(now);
        let ghost s = self@;
        let i = self.find(task_id);
        if i < self.records.len() {
            let ghost was = self.records@[i as int]@;
            let ghost note = message@;
            let record = &mut self.records[i];
            record.task.status_message = Some(message);
            record.task.last_updated_at = iso8601(now);
            assert(self.records@[i as int]@ == noted(was, note, now));
            assert(self@ =~= replaced(s, task_id@, noted(was, note, now)));
            proof {
                lemma_replaced(s, task_id@, noted(was, note, now));
            }
        }
    }

    /// Cancels a task that has not ended. The tool running it is asked to
    /// stop, and the task is cancelled whether or not it does.
    pub fn cancel(&mut self, task_id: &str, now: Timestamp) -> (r: Result<Task, McpError>)
        requires
            old(self).wf(),
        ensures
            final(self).wf(),
            final(self).limits() == old(self).limits(),
            ({
                let kept = alive(old(self)@, now);
                match r {
                    Ok(task) => cancel_answer(kept, task_id@, now) == Ok::<TaskView, McpErrorView>(
                        task@,
                    ) && final(self)@ == replaced(
                        kept,
                        task_id@,
                        cancelled(lookup(kept, task_id@)->0, now),
                    ) && final(self).stopping() == old(self).stopping().insert(task_id@),
                    Err(e) => cancel_answer(kept, task_id@, now) == Err::<TaskView, McpErrorView>(
                        e@,
                    ) && final(self)@ == kept && final(self).stopping() == old(self).stopping(),
                }
            }),
    {
        self.sweep(now);
        let ghost s = self@;
        let i = self.find(task_id);
        if i == self.records.len() {
            return Err(not_found(task_id));
        }
        if self.records[i].task.status.is_terminal() {
            return Err(
                McpError::InvalidParams(
                    join3(
                        "Cannot cancel task: already in terminal status '",
                        status_name(self.records[i].task.status),
                        "'",
                    ),
                ),
            );
        }
        let ghost was = self.records@[i as int]@;
        let record = &mut self.records[i];
        record.cancelled = true;
        record.task.status = TaskStatus::Cancelled;
        record.task.status_message = Some("The task was cancelled by request.".to_owned());
        record.task.last_updated_at = iso8601(now);
        record.outcome = Some(TaskOutcome::Error(JsonRpcError::new(-32603, "Task was cancelled")));
        let task = record.task.copy();
        assert(self.records@[i as int]@ == cancelled(was, now));
        assert(self@ =~= replaced(s, task_id@, cancelled(was, now)));
        proof {
            lemma_replaced(s, task_id@, cancelled(was, now));
        }
        let ghost told = crate::text::texts(self.stopping@);
        self.stopping.push(task_id.to_owned());
        proof {
            let more = crate::text::texts(self.stopping@);
            assert(more =~= told.push(task_id@));
            assert forall|x: Seq<char>| #[trigger] more.contains(x) <==> told.contains(x) || x
                == task_id@ by {
                if told.contains(x) {
                    let k = choose|k: int| 0 <= k < told.len() && told[k] == x;
                    assert(more[k] == x);
                }
                assert(more[told.len() as int] == task_id@);
            }
            assert(more.to_set() =~= told.to_set().insert(task_id@));
        }
        Ok(task)
    }

    /// Whether the tool that runs a task is to stop. A task that expires does
    /// not take this back.
    pub fn is_cancelled(&self, task_id: &str) -> (r: bool)
        ensures
            r == to_stop(self@, self.stopping(), task_id@),
    {
        let i = self.find(task_id);
        let flagged = i < self.records.len() && self.records[i].cancelled;
        let told = contains_text(&self.stopping, task_id);
        proof {
            let all = crate::text::texts(self.stopping@);
            if told {
                let k = choose|k: int|
                    0 <= k < self.stopping@.len() && (#[trigger] self.stopping@[k])@ == task_id@;
                assert(all[k] == task_id@);
            } else if all.contains(task_id@) {
                let k = choose|k: int| 0 <= k < all.len() && all[k] == task_id@;
                assert(self.stopping@[k]@ == task_id@);
            }
        }
        flagged || told
    }

    /// A task's outcome where it has ended, as the store stands.
    pub fn peek_result(&self, task_id: &str) -> (r: Result<Option<TaskOutcome>, McpError>)
        requires
            self.wf(),
        ensures
            match r {
                Err(e) => outcome_answer(self@, task_id@) == Err::<
                    Option<OutcomeView>,
                    McpErrorView,
                >(e@),
                Ok(None) => outcome_answer(self@, task_id@) == Ok::<
                    Option<OutcomeView>,
                    McpErrorView,
                >(None),
                Ok(Some(o)) => outcome_answer(self@, task_id@) == Ok::<
                    Option<OutcomeView>,
                    McpErrorView,
                >(Some(o@)),
            },
    {
        let i = self.find(task_id);
        if i == self.records.len() {
            return Err(not_found(task_id));
        }
        assert(self@[i as int].task.status.terminal() ==> self@[i as int].outcome is Some);
        if !self.records[i].task.status.is_terminal() {
            return Ok(None);
        }
        match &self.records[i].outcome {
            Some(o) => Ok(Some(o.copy())),
            None => Ok(None),
        }
    }

    /// A task's outcome where it has ended.
    pub fn try_result(&mut self, task_id: &str, now: Timestamp) -> (r: Result<
        Option<TaskOutcome>,
        McpError,
    >)
        requires
            old(self).wf(),
        ensures
            final(self).wf(),
            final(self)@ == alive(old(self)@, now),
            final(self).limits() == old(self).limits(),
            final(self).stopping() == old(self).stopping(),
            match r {
                Err(e) => outcome_answer(final(self)@, task_id@) == Err::<
                    Option<OutcomeView>,
                    McpErrorView,
                >(e@),
                Ok(None) => outcome_answer(final(self)@, task_id@) == Ok::<
                    Option<OutcomeView>,
                    McpErrorView,
                >(None),
                Ok(Some(o)) => outcome_answer(final(self)@, task_id@) == Ok::<
                    Option<OutcomeView>,
                    McpErrorView,
                >(Some(o@)),
            },
    {
        self.sweep(now);
        self.peek_result(task_id)
    }
}

/// What `task_at` finds.
pub proof fn lemma_task_at(s: Seq<RecordView>, id: Seq<char>, from: int)
    requires
        0 <= from <= s.len(),
    ensures
        from <= task_at(s, id, from) <= s.len(),
        task_at(s, id, from) < s.len() ==> s[task_at(s, id, from)].task.task_id == id,
        forall|k: int| from <= k < task_at(s, id, from) ==> (#[trigger] s[k]).task.task_id != id,
    decreases s.len() - from,
{
    if from < s.len() && s[from].task.task_id != id {
        lemma_task_at(s, id, from + 1);
    }
}

/// Where no two records are of the same task, leaving one task out takes one
/// record out.
proof fn lemma_others(s: Seq<RecordView>, id: Seq<char>)
    requires
        ids_differ(s),
    ensures
        task_at(s, id, 0) < s.len() ==> others(s, id) == s.remove(task_at(s, id, 0)),
        task_at(s, id, 0) == s.len() ==> others(s, id) == s,
        forall|k: int|
            0 <= k < others(s, id).len() ==> (#[trigger] others(s, id)[k]).task.task_id != id,
    decreases s.len(),
{
    reveal(Seq::filter);
    lemma_task_at(s, id, 0);
    if s.len() > 0 {
        let t = s.drop_last();
        assert(ids_differ(t)) by {
            assert forall|i: int, j: int| 0 <= i < j < t.len() implies (
            #[trigger] t[i]).task.task_id != (#[trigger] t[j]).task.task_id by {
                assert(s[i].task.task_id != s[j].task.task_id);
            }
        }
        lemma_others(t, id);
        lemma_task_at(t, id, 0);
        let at = task_at(s, id, 0);
        let before = task_at(t, id, 0);
        if at < s.len() - 1 {
            assert(t[at].task.task_id == id);
            assert(before == at);
            assert(s[at].task.task_id != s[s.len() - 1].task.task_id);
            assert(t.remove(at).push(s.last()) =~= s.remove(at));
        } else {
            assert(before == t.len()) by {
                if before < t.len() {
                    assert(s[before].task.task_id == id);
                }
            }
            if at == s.len() - 1 {
                assert(s.remove(at) =~= t);
            } else {
                assert(s.last() == s[s.len() - 1]);
                assert(t.push(s.last()) =~= s);
            }
        }
    }
}

/// Replacing a record by one of the same task, with an outcome where it is
/// done, keeps the store in order.
proof fn lemma_replaced(s: Seq<RecordView>, id: Seq<char>, r: RecordView)
    requires
        ids_differ(s),
        outcomes_kept(s),
        task_at(s, id, 0) < s.len(),
        r.task.task_id == id,
        r.task.status.terminal() ==> r.outcome is Some,
    ensures
        ids_differ(replaced(s, id, r)),
        outcomes_kept(replaced(s, id, r)),
{
    lemma_task_at(s, id, 0);
    let t = replaced(s, id, r);
    assert forall|i: int, j: int| 0 <= i < j < t.len() implies (#[trigger] t[i]).task.task_id != (
    #[trigger] t[j]).task.task_id by {
        assert(s[i].task.task_id != s[j].task.task_id);
    }
}

impl TaskView {
    /// The fields of the task on the wire. `ttl` is null where there is none.
    pub open spec fn wire_fields(self) -> Seq<(Seq<char>, JsonView)> {
        seq![
            ("taskId"@, JsonView::Text(self.task_id)),
            ("status"@, JsonView::Text(self.status.name())),
        ] + crate::json::maybe(
            "statusMessage"@,
            match self.status_message {
                Some(m) => Some(JsonView::Text(m)),
                None => None,
            },
        ) + seq![
            ("createdAt"@, JsonView::Text(self.created_at)),
            ("lastUpdatedAt"@, JsonView::Text(self.last_updated_at)),
            (
                "ttl"@,
                match self.ttl {
                    Some(t) => crate::json::count(t),
                    None => JsonView::Null,
                },
            ),
        ] + crate::json::maybe(
            "pollInterval"@,
            match self.poll_interval {
                Some(t) => Some(crate::json::count(t)),
                None => None,
            },
        )
    }

    /// The task on the wire.
    pub open spec fn json(self) -> JsonView {
        JsonView::Object(self.wire_fields())
    }
}

impl Task {
    /// The task on the wire.
    pub fn to_json(&self) -> (r: Json)
        ensures
            r@ == self@.json(),
    {
        let mut v: Vec<(String, Json)> = Vec::new();
        assert(crate::json::fields(v@) =~= Seq::empty());
        push_field(&mut v, "taskId", text(self.task_id.as_str()));
        push_field(&mut v, "status", text(status_name(self.status)));
        if let Some(m) = &self.status_message {
            push_field(&mut v, "statusMessage", text(m.as_str()));
        }
        push_field(&mut v, "createdAt", text(self.created_at.as_str()));
        push_field(&mut v, "lastUpdatedAt", text(self.last_updated_at.as_str()));
        push_field(
            &mut v,
            "ttl",
            match self.ttl {
                Some(t) => Json::Number(Number::Unsigned(t)),
                None => Json::Null,
            },
        );
        if let Some(t) = self.poll_interval {
            push_field(&mut v, "pollInterval", Json::Number(Number::Unsigned(t)));
        }
        assert(crate::json::fields(v@) =~= self@.wire_fields());
        object(v)
    }
}

/// The answer to a call that became a task.
#[derive(Debug, PartialEq)]
pub struct CreateTaskResult {
    pub task: Task,
    pub meta: Option<Json>,
}

impl CreateTaskResult {
    /// The answer on the wire.
    pub fn to_json(&self) -> (r: Json)
        ensures
            r@ == JsonView::Object(
                seq![("task"@, self.task@.json())] + crate::json::maybe(
                    "_meta"@,
                    crate::json::optional(self.meta),
                ),
            ),
    {
        let mut v: Vec<(String, Json)> = Vec::new();
        assert(crate::json::fields(v@) =~= Seq::empty());
        push_field(&mut v, "task", self.task.to_json());
        if let Some(m) = &self.meta {
            push_field(&mut v, "_meta", m.copy());
        }
        assert(crate::json::fields(v@) =~= seq![("task"@, self.task@.json())] + crate::json::maybe(
            "_meta"@,
            crate::json::optional(self.meta),
        ));
        object(v)
    }
}

/// The `task` field of a call that is to become a task.
#[derive(Debug, PartialEq)]
pub struct TaskParams {
    /// Requested lifetime in milliseconds.
    pub ttl: Option<u64>,
}

/// A lifetime, where the value is one: a whole number that is not negative.
pub open spec fn ttl_of(j: Option<JsonView>) -> Option<Option<u64>> {
    match j {
        None => Some(None),
        Some(JsonView::Number(NumberView::Unsigned(n))) => Some(Some(n)),
        Some(_) => None,
    }
}

impl TaskParams {
    /// Reads the `task` field: an object, whose `ttl` may be missing or null.
    pub fn from_json(j: &Json) -> (r: Option<TaskParams>)
        ensures
            match r {
                Some(p) => j@ is Object && ttl_of(crate::types::given(j@, "ttl"@)) == Some(p.ttl),
                None => !(j@ is Object) || ttl_of(crate::types::given(j@, "ttl"@)) is None,
            },
    {
        match j {
            Json::Object(_) => match crate::types::given_field(j, "ttl") {
                None => Some(TaskParams { ttl: None }),
                Some(Json::Number(Number::Unsigned(n))) => Some(TaskParams { ttl: Some(n) }),
                Some(_) => None,
            },
            _ => None,
        }
    }
}

/// The parameters of `tasks/get`, `tasks/result` and `tasks/cancel`.
#[derive(Debug, PartialEq)]
pub struct TaskIdParams {
    pub task_id: String,
}

impl TaskIdParams {
    /// Reads the parameters: an object with the task's id in it.
    pub fn from_json(j: &Json) -> (r: Option<TaskIdParams>)
        ensures
            match r {
                Some(p) => j@.get("taskId"@) == Some(JsonView::Text(p.task_id@)),
                None => !(j@.get("taskId"@) matches Some(JsonView::Text(_))),
            },
    {
        match j.get("taskId") {
            Some(Json::Text(id)) => Some(TaskIdParams { task_id: id.clone() }),
            _ => None,
        }
    }
}

/// The parameters of `tasks/list`.
#[derive(Debug, PartialEq)]
pub struct ListTasksParams {
    pub cursor: Option<String>,
}

/// The result of `tasks/list`.
#[derive(Debug, PartialEq)]
pub struct ListTasksResult {
    pub tasks: Vec<Task>,
    pub next_cursor: Option<String>,
}

/// The tasks on the wire.
pub open spec fn tasks_json(s: Seq<TaskView>) -> JsonView {
    JsonView::List(s.map_values(|t: TaskView| t.json()))
}

/// A page of tasks on the wire.
pub open spec fn task_page(s: Seq<TaskView>, next: Option<Seq<char>>) -> JsonView {
    JsonView::Object(
        seq![("tasks"@, tasks_json(s))] + crate::json::maybe(
            "nextCursor"@,
            match next {
                Some(c) => Some(JsonView::Text(c)),
                None => None,
            },
        ),
    )
}

impl ListTasksResult {
    /// The result on the wire.
    pub fn to_json(&self) -> (r: Json)
        ensures
            r@ == task_page(crate::order::viewed(self.tasks@), optional_text(self.next_cursor)),
    {
        let mut all: Vec<Json> = Vec::new();
        let mut i: usize = 0;
        let ghost wanted = crate::order::viewed(self.tasks@).map_values(|t: TaskView| t.json());
        assert(crate::json::items(all@) =~= wanted.take(0));
        while i < self.tasks.len()
            invariant
                i <= self.tasks@.len(),
                wanted == crate::order::viewed(self.tasks@).map_values(|t: TaskView| t.json()),
                crate::json::items(all@) == wanted.take(i as int),
            decreases self.tasks@.len() - i,
        {
            let ghost before = crate::json::items(all@);
            let one = self.tasks[i].to_json();
            all.push(one);
            assert(crate::json::items(all@) =~= before.push(one@));
            assert(wanted.take(i as int + 1) =~= before.push(one@));
            i = i + 1;
        }
        assert(wanted.take(i as int) =~= wanted);
        let mut v: Vec<(String, Json)> = Vec::new();
        assert(crate::json::fields(v@) =~= Seq::empty());
        push_field(&mut v, "tasks", crate::json::list(all));
        if let Some(c) = &self.next_cursor {
            push_field(&mut v, "nextCursor", text(c.as_str()));
        }
        assert(crate::json::fields(v@) =~= task_page(
            crate::order::viewed(self.tasks@),
            optional_text(self.next_cursor),
        )->Object_0);
        object(v)
    }
}

/// What ties a message to a task.
pub open spec fn task_reference(id: Seq<char>) -> JsonView {
    JsonView::Object(seq![("taskId"@, JsonView::Text(id))])
}

/// What ties a message to a task.
pub fn task_reference_json(task_id: &str) -> (r: Json)
    ensures
        r@ == task_reference(task_id@),
{
    let mut v: Vec<(String, Json)> = Vec::new();
    assert(crate::json::fields(v@) =~= Seq::empty());
    push_field(&mut v, "taskId", text(task_id));
    assert(crate::json::fields(v@) =~= task_reference(task_id@)->Object_0);
    object(v)
}

/// The `_meta` object that ties a message to a task.
pub fn related_task_meta(task_id: &str) -> (r: Json)
    ensures
        r@ == JsonView::Object(seq![(RELATED_TASK@, task_reference(task_id@))]),
{
    let mut v: Vec<(String, Json)> = Vec::new();
    assert(crate::json::fields(v@) =~= Seq::empty());
    push_field(&mut v, RELATED_TASK, task_reference_json(task_id));
    assert(crate::json::fields(v@) =~= seq![(RELATED_TASK@, task_reference(task_id@))]);
    object(v)
}

/// A hexadecimal digit.
pub open spec fn hex_digit(n: int) -> char {
    if n < 10 {
        (n + '0' as int) as u8 as char
    } else {
        (n - 10 + 'a' as int) as u8 as char
    }
}

/// Bytes in hexadecimal, two digits each.
pub open spec fn hex(bytes: Seq<u8>) -> Seq<char> {
    Seq::new(
        bytes.len() * 2,
        |k: int|
            hex_digit(
                if k % 2 == 0 {
                    bytes[k / 2] as int / 16
                } else {
                    bytes[k / 2] as int % 16
                },
            ),
    )
}

fn hex_char(n: u8) -> (r: char)
    requires
        n < 16,
    ensures
        r == hex_digit(n as int),
{
    if n < 10 {
        (n + 48u8) as char
    } else {
        (n - 10 + 97u8) as char
    }
}

/// Bytes in hexadecimal, two digits each.
pub fn hex_text(bytes: &Vec<u8>) -> (r: String)
    ensures
        r@ == hex(bytes@),
{
    let mut out = String::new();
    let mut i: usize = 0;
    while i < bytes.len()
        invariant
            i <= bytes@.len(),
            out@ == hex(bytes@.take(i as int)),
        decreases bytes@.len() - i,
    {
        out.push(hex_char(bytes[i] / 16));
        out.push(hex_char(bytes[i] % 16));
        i = i + 1;
        assert(out@ =~= hex(bytes@.take(i as int)));
    }
    assert(bytes@.take(i as int) =~= bytes@);
    out
}

/// Sixteen bytes from the operating system, by `getrandom::fill`, or the words
/// of its error. What they are is left to chance, so nothing is claimed of
/// them.
#[verifier::external_body]
fn os_entropy() -> (r: Result<[u8; 16], String>) {
    let mut bytes = [0u8; 16];
    match getrandom::fill(&mut bytes) {
        Ok(()) => Ok(bytes),
        Err(e) => Err(e.to_string()),
    }
}

/// The keys of a hasher, by `std::hash::RandomState::new`. What they are is
/// left to chance, so nothing is claimed of them.
#[verifier::external_body]
fn new_keys() -> (r: std::hash::RandomState) {
    std::hash::RandomState::new()
}

/// The hash of three numbers under these keys, by
/// `std::hash::BuildHasher::hash_one`. It hangs on the keys, which are left to
/// chance, so nothing is claimed of it.
#[verifier::external_body]
fn hash_under(keys: &std::hash::RandomState, counter: u64, index: u64, nanos: i128) -> (r: u64) {
    std::hash::BuildHasher::hash_one(keys, (counter, index, nanos))
}

/// A byte of a number, counted from the least.
pub open spec fn byte_of(n: int, k: int) -> u8
    decreases k,
{
    if k <= 0 {
        (n % 256) as u8
    } else {
        byte_of(n / 256, k - 1)
    }
}

/// The eight bytes of a number, the least first.
pub open spec fn le_bytes(n: u64) -> Seq<u8> {
    Seq::new(8, |k: int| byte_of(n as int, k))
}

/// Adds the eight bytes of a number, the least first.
fn push_le_bytes(out: &mut Vec<u8>, n: u64)
    ensures
        final(out)@ == old(out)@ + le_bytes(n),
{
    let ghost start = out@;
    let mut rest: u64 = n;
    let mut k: u64 = 0;
    while k < 8
        invariant
            k <= 8,
            out@ == start + le_bytes(n).take(k as int),
            forall|j: int| k <= j < 8 ==> #[trigger] byte_of(n as int, j) == byte_of(
                rest as int,
                j - k,
            ),
        decreases 8 - k,
    {
        let ghost before = rest as int;
        assert(byte_of(n as int, k as int) == byte_of(before, 0));
        out.push((rest % 256) as u8);
        rest = rest / 256;
        assert forall|j: int| k + 1 <= j < 8 implies #[trigger] byte_of(n as int, j) == byte_of(
            rest as int,
            j - (k + 1),
        ) by {
            assert(byte_of(n as int, j) == byte_of(before, j - k));
        }
        k = k + 1;
        assert(out@ =~= start + le_bytes(n).take(k as int));
    }
    assert(le_bytes(n).take(8) =~= le_bytes(n));
}

/// Sixteen bytes from what was drawn: those of the operating system where it
/// gave any, all of them and in order, else those of two numbers.
pub fn bytes_from(entropy: Option<[u8; 16]>, first: u64, second: u64) -> (r: Vec<u8>)
    ensures
        entropy matches Some(b) ==> r@ == b@,
        entropy is None ==> r@ == le_bytes(first) + le_bytes(second),
        r@.len() == 16,
{
    let mut out: Vec<u8> = Vec::new();
    match entropy {
        Some(bytes) => {
            let mut i: usize = 0;
            while i < 16
                invariant
                    i <= 16,
                    out@ =~= bytes@.take(i as int),
                decreases 16 - i,
            {
                out.push(bytes[i]);
                i = i + 1;
            }
            assert(out@ =~= bytes@);
        },
        None => {
            push_le_bytes(&mut out, first);
            push_le_bytes(&mut out, second);
            assert(out@ =~= le_bytes(first) + le_bytes(second));
        },
    }
    out
}

/// A moment as one number.
pub open spec fn nanos_of(now: Timestamp) -> i128 {
    now.total() as i128
}

fn nanos(now: Timestamp) -> (r: i128)
    ensures
        r == nanos_of(now),
{
    (now.secs as i128) * 1_000_000_000 + (now.nanos as i128)
}

/// Whether this number was drawn from a hasher whose keys were drawn for it.
pub closed spec fn hashed(n: u64, counter: u64, index: u64, now: Timestamp) -> bool {
    exists|keys: std::hash::RandomState| #[trigger]
        call_ensures(new_keys, (), keys) && call_ensures(
            hash_under,
            (&keys, counter, index, nanos_of(now)),
            n,
        )
}

/// Draws a number from a hasher.
fn draw_hash(counter: u64, index: u64, now: Timestamp) -> (r: u64)
    ensures
        hashed(r, counter, index, now),
{
    let keys = new_keys();
    hash_under(&keys, counter, index, nanos(now))
}

/// Whether these bytes were drawn from the hasher, once for each half, with
/// the counter, the half's place and the time to tell the draws apart.
pub open spec fn drawn_by_hash(bytes: Seq<u8>, counter: u64, now: Timestamp) -> bool {
    exists|first: u64, second: u64|
        #![trigger le_bytes(first), le_bytes(second)]
        hashed(first, counter, 0, now) && hashed(second, counter, 1, now) && bytes == le_bytes(
            first,
        ) + le_bytes(second)
}

/// Whether this is what the operating system gave when it was asked.
pub closed spec fn given_by_system(entropy: Result<[u8; 16], String>) -> bool {
    call_ensures(os_entropy, (), entropy)
}

/// Asks the operating system for sixteen bytes.
pub(crate) fn draw() -> (r: Result<[u8; 16], String>)
    ensures
        given_by_system(r),
{
    os_entropy()
}

/// What is said where the operating system gave no bytes.
pub open spec fn degraded_words(why: Seq<char>) -> Seq<char> {
    "sml_mcps: OS entropy unavailable ("@ + why + "); task ids are degraded"@
}

/// Whether these bytes were drawn, with this warning: from the operating
/// system, and without one, or, where it gave none, from the hasher.
pub open spec fn drawn(
    bytes: Seq<u8>,
    counter: u64,
    now: Timestamp,
    warning: Option<Seq<char>>,
) -> bool {
    ||| warning is None && exists|b: [u8; 16]| #[trigger]
        given_by_system(Ok(b)) && bytes == b@
    ||| drawn_by_hash(bytes, counter, now) && exists|why: String| #[trigger]
        given_by_system(Err(why)) && warning == Some(degraded_words(why@))
}

/// Sixteen bytes without the operating system's help: weaker, but still not
/// to be guessed. Which they are is left to chance; [`bytes_from`] says what is
/// made of what was drawn.
pub fn fallback_random_bytes(counter: u64, now: Timestamp) -> (r: Vec<u8>)
    ensures
        r@.len() == 16,
        drawn_by_hash(r@, counter, now),
{
    let first = draw_hash(counter, 0, now);
    let second = draw_hash(counter, 1, now);
    bytes_from(None, first, second)
}

/// Sixteen bytes that cannot be guessed, and a warning where the operating
/// system had none. Which they are is left to chance; [`bytes_from`] says what
/// is made of what was drawn.
pub fn random_bytes(counter: u64, now: Timestamp) -> (r: (Vec<u8>, Option<String>))
    ensures
        r.0@.len() == 16,
        drawn(r.0@, counter, now, optional_text(r.1)),
{
    match draw() {
        Ok(bytes) => (bytes_from(Some(bytes), 0, 0), None),
        Err(why) => (
            fallback_random_bytes(counter, now),
            Some(
                join3(
                    "sml_mcps: OS entropy unavailable (",
                    why.as_str(),
                    "); task ids are degraded",
                ),
            ),
        ),
    }
}

/// The form of a task id: 128 bits in hexadecimal.
pub open spec fn is_task_id(id: Seq<char>) -> bool {
    exists|bytes: Seq<u8>| bytes.len() == 16 && id == #[trigger] hex(bytes)
}

/// Whether this id was drawn at this moment, with this warning.
pub open spec fn drawn_id(id: Seq<char>, now: Timestamp, warning: Option<Seq<char>>) -> bool {
    exists|counter: u64, bytes: Seq<u8>| #[trigger]
        drawn(bytes, counter, now, warning) && id == hex(bytes)
}

/// A new task id, and a warning where it is weaker than it should be. Where the
/// client is not authenticated, not being able to guess the id is what protects
/// the task.
pub fn new_task_id(counter: u64, now: Timestamp) -> (r: (String, Option<String>))
    ensures
        is_task_id(r.0@),
        drawn_id(r.0@, now, optional_text(r.1)),
        exists|bytes: Seq<u8>| #[trigger]
            drawn(bytes, counter, now, optional_text(r.1)) && r.0@ == hex(bytes),
{
    let (bytes, warning) = random_bytes(counter, now);
    (hex_text(&bytes), warning)
}

/// The view of a task that was created, or why none was.
pub open spec fn created_view(r: Result<Task, McpError>) -> Result<TaskView, McpErrorView> {
    match r {
        Ok(task) => Ok(task@),
        Err(e) => Err(e@),
    }
}

/// The view of a task that was created with a warning, or why none was.
pub open spec fn noted_view(r: Result<(Task, Option<String>), McpError>) -> Result<
    TaskView,
    McpErrorView,
> {
    match r {
        Ok((task, _)) => Ok(task@),
        Err(e) => Err(e@),
    }
}

/// What creating a task does: the task is there under an id that was drawn for
/// it, or too many are running.
pub open spec fn creation(
    before: TaskStore,
    after: TaskStore,
    requested_ttl: Option<u64>,
    now: Timestamp,
    owner: Option<Seq<char>>,
    r: Result<TaskView, McpErrorView>,
) -> bool {
    let kept = alive(before@, now);
    let limits = before.limits();
    match r {
        Ok(task) => {
            let made = new_record(limits, requested_ttl, now, task.task_id, owner);
            &&& running_in(kept) < limits.max_concurrent
            &&& is_task_id(task.task_id)
            &&& exists|warning: Option<Seq<char>>| drawn_id(task.task_id, now, warning)
            &&& task == made.task
            &&& after@ == with_task(kept, made)
            &&& after.stopping() == before.stopping().remove(task.task_id)
        },
        Err(e) => {
            &&& running_in(kept) >= limits.max_concurrent
            &&& e == too_many(running_in(kept), limits.max_concurrent)
            &&& after@ == kept
            &&& after.stopping() == before.stopping()
        },
    }
}

impl TaskStore {
    /// Creates a task that belongs to nobody in particular.
    pub fn create(&mut self, requested_ttl: Option<u64>, now: Timestamp) -> (r: Result<Task, McpError>)
        requires
            old(self).wf(),
        ensures
            final(self).wf(),
            final(self).limits() == old(self).limits(),
            creation(
                *old(self),
                *final(self),
                requested_ttl,
                now,
                None,
                created_view(r),
            ),
    {
        self.create_for(requested_ttl, now, None)
    }

    /// Creates a task, or refuses where too many are running, and says what is
    /// to be warned of. The task is in the store before its id is known to
    /// anyone.
    pub fn create_noting(
        &mut self,
        requested_ttl: Option<u64>,
        now: Timestamp,
        owner: Option<String>,
    ) -> (r: Result<(Task, Option<String>), McpError>)
        requires
            old(self).wf(),
        ensures
            final(self).wf(),
            final(self).limits() == old(self).limits(),
            creation(
                *old(self),
                *final(self),
                requested_ttl,
                now,
                optional_text(owner),
                noted_view(r),
            ),
            r matches Ok((task, warning)) ==> drawn_id(
                task@.task_id,
                now,
                optional_text(warning),
            ),
    {
        if let Err(e) = self.make_room(now) {
            return Err(e);
        }
        let ghost kept = self@;
        self.drawn = self.drawn.wrapping_add(1);
        assert(self@ =~= kept);
        assert(self.stopping() == old(self).stopping());
        let (id, warning) = new_task_id(self.drawn, now);
        Ok((self.add_task(requested_ttl, now, id, owner), warning))
    }

    /// Creates a task, or refuses where too many are running. The task is in
    /// the store before its id is known to anyone.
    pub fn create_for(&mut self, requested_ttl: Option<u64>, now: Timestamp, owner: Option<String>) -> (r:
        Result<Task, McpError>)
        requires
            old(self).wf(),
        ensures
            final(self).wf(),
            final(self).limits() == old(self).limits(),
            creation(
                *old(self),
                *final(self),
                requested_ttl,
                now,
                optional_text(owner),
                created_view(r),
            ),
    {
        match self.create_noting(requested_ttl, now, owner) {
            Ok((task, _)) => Ok(task),
            Err(e) => Err(e),
        }
    }
}

/// Replacing one task's record changes what is found for that task, and for
/// no other.
pub proof fn law_other_tasks_are_untouched(
    s: Seq<RecordView>,
    id: Seq<char>,
    r: RecordView,
    other: Seq<char>,
)
    requires
        lookup(s, id) is Some,
        r.task.task_id == id,
    ensures
        lookup(replaced(s, id, r), id) == Some(r),
        other != id ==> lookup(replaced(s, id, r), other) == lookup(s, other),
{
    let t = replaced(s, id, r);
    lemma_task_at(s, id, 0);
    lemma_task_at(t, id, 0);
    lemma_task_at(s, other, 0);
    lemma_task_at(t, other, 0);
    let at = task_at(s, id, 0);
    assert(forall|k: int| 0 <= k < s.len() && k != at ==> t[k] == s[k]);
    assert(t[at] == r);
    if task_at(t, id, 0) < at {
        assert(s[task_at(t, id, 0)].task.task_id != id);
    }
    if other != id {
        let a = task_at(s, other, 0);
        let b = task_at(t, other, 0);
        if a < b {
            assert(t[a].task.task_id != other);
        } else if b < a {
            assert(s[b].task.task_id != other);
        }
    }
}

/// A task that was created is found at once, and creating it disturbs no
/// other.
pub proof fn law_created_task_is_found(s: Seq<RecordView>, r: RecordView, other: Seq<char>)
    requires
        ids_differ(s),
    ensures
        lookup(with_task(s, r), r.task.task_id) == Some(r),
        other != r.task.task_id ==> lookup(with_task(s, r), other) == lookup(s, other),
{
    let id = r.task.task_id;
    let rest = others(s, id);
    let t = rest.push(r);
    lemma_others(s, id);
    lemma_task_at(s, id, 0);
    lemma_task_at(t, id, 0);
    assert(forall|k: int| 0 <= k < rest.len() ==> t[k] == rest[k]);
    assert(t[rest.len() as int] == r);
    let i = task_at(t, id, 0);
    if i < rest.len() {
        assert(rest[i].task.task_id != id);
    }
    if other != id {
        lemma_task_at(s, other, 0);
        lemma_task_at(t, other, 0);
        let a = task_at(s, other, 0);
        let b = task_at(t, other, 0);
        let gone = task_at(s, id, 0);
        if gone < s.len() {
            assert(rest == s.remove(gone));
            assert(forall|k: int| 0 <= k < gone ==> rest[k] == s[k]);
            assert(forall|k: int| gone <= k < rest.len() ==> rest[k] == s[k + 1]);
            if a < s.len() {
                let a2 = if a < gone {
                    a
                } else {
                    a - 1
                };
                assert(t[a2] == s[a]);
                if b < a2 {
                    let b2 = if b < gone {
                        b
                    } else {
                        b + 1
                    };
                    assert(t[b] == s[b2]);
                    assert(s[b2].task.task_id != other);
                } else if a2 < b {
                    assert(t[a2].task.task_id != other);
                }
            } else if b < t.len() {
                let b2 = if b < gone {
                    b
                } else {
                    b + 1
                };
                assert(t[b] == s[b2]);
                assert(s[b2].task.task_id != other);
            }
        } else {
            assert(rest == s);
            if a < s.len() {
                assert(t[a] == s[a]);
                if b < a {
                    assert(s[b].task.task_id != other);
                } else if a < b {
                    assert(t[a].task.task_id != other);
                }
            } else if b < s.len() {
                assert(s[b].task.task_id != other);
            }
        }
    }
}

/// A task that ended stays as it ended: finishing it again changes nothing, no
/// status can be set, and it cannot be cancelled.
pub proof fn law_an_ended_task_never_changes(
    s: Seq<RecordView>,
    id: Seq<char>,
    status: TaskStatus,
    outcome: OutcomeView,
    now: Timestamp,
)
    requires
        lookup(s, id) is Some,
        lookup(s, id)->0.task.status.terminal(),
    ensures
        after_finish(s, id, status, outcome, now) == s,
        !moves(s, id, status),
        cancel_answer(s, id, now) is Err,
{
}

/// A cancelled task stays cancelled when the work it stood for completes or
/// fails afterwards.
pub proof fn law_a_cancelled_task_stays_cancelled(
    s: Seq<RecordView>,
    id: Seq<char>,
    when: Timestamp,
    status: TaskStatus,
    outcome: OutcomeView,
    later: Timestamp,
)
    requires
        lookup(s, id) is Some,
    ensures
        ({
            let r = cancelled(lookup(s, id)->0, when);
            let t = replaced(s, id, r);
            lookup(after_finish(t, id, status, outcome, later), id) == Some(r)
        }),
{
    lemma_task_at(s, id, 0);
    law_other_tasks_are_untouched(s, id, cancelled(lookup(s, id)->0, when), id);
}

/// What a task is finished with is what its result is, exactly.
pub proof fn law_the_result_is_what_the_work_returned(
    s: Seq<RecordView>,
    id: Seq<char>,
    status: TaskStatus,
    outcome: OutcomeView,
    now: Timestamp,
)
    requires
        lookup(s, id) is Some,
        !lookup(s, id)->0.task.status.terminal(),
        status.terminal(),
    ensures
        outcome_answer(after_finish(s, id, status, outcome, now), id) == Ok::<
            Option<OutcomeView>,
            McpErrorView,
        >(Some(outcome)),
{
    lemma_task_at(s, id, 0);
    law_other_tasks_are_untouched(s, id, finished(lookup(s, id)->0, status, outcome, now), id);
}

/// While a task is neither finished nor cancelled, its result is not there.
pub proof fn law_no_result_before_the_end(s: Seq<RecordView>, id: Seq<char>)
    requires
        lookup(s, id) is Some,
    ensures
        outcomes_kept(s) ==> (outcome_answer(s, id) == Ok::<Option<OutcomeView>, McpErrorView>(None)
            <==> !lookup(s, id)->0.task.status.terminal()),
{
    lemma_task_at(s, id, 0);
}

/// No task is kept longer than the limit.
pub proof fn law_lifetimes_are_bounded(config: TaskConfig, requested: Option<u64>)
    ensures
        granted_ttl(config, requested) <= config.max_ttl_ms,
        requested is Some && requested->0 <= config.max_ttl_ms ==> granted_ttl(config, requested)
            == requested->0,
{
}

/// A task whose lifetime is over is not found, and one that lives on is found
/// unchanged.
pub proof fn law_expired_tasks_are_gone(s: Seq<RecordView>, id: Seq<char>, now: Timestamp)
    requires
        ids_differ(s),
    ensures
        lookup(alive(s, now), id) == (match lookup(s, id) {
            Some(r) => if expired(r, now) {
                None
            } else {
                Some(r)
            },
            None => None,
        }),
    decreases s.len(),
{
    reveal(Seq::filter);
    lemma_task_at(s, id, 0);
    let a = alive(s, now);
    lemma_task_at(a, id, 0);
    if s.len() > 0 {
        let t = s.drop_last();
        assert(ids_differ(t)) by {
            assert forall|i: int, j: int| 0 <= i < j < t.len() implies (
            #[trigger] t[i]).task.task_id != (#[trigger] t[j]).task.task_id by {
                assert(s[i].task.task_id != s[j].task.task_id);
            }
        }
        law_expired_tasks_are_gone(t, id, now);
        lemma_task_at(t, id, 0);
        let b = alive(t, now);
        lemma_task_at(b, id, 0);
        let at = task_at(s, id, 0);
        let before = task_at(t, id, 0);
        if at < t.len() {
            assert(t[at].task.task_id == id);
            assert(before == at);
            assert(s[at].task.task_id != s[s.len() - 1].task.task_id);
        } else {
            if before < t.len() {
                assert(s[before].task.task_id == id);
            }
            assert(before == t.len());
        }
        if !expired(s.last(), now) {
            assert(a == b.push(s.last()));
            let x = task_at(b, id, 0);
            let y = task_at(a, id, 0);
            if x < b.len() {
                assert(a[x] == b[x]);
                if y < x {
                    assert(b[y].task.task_id != id);
                }
            } else {
                if y < b.len() {
                    assert(a[y] == b[y]);
                    assert(b[y].task.task_id != id);
                }
            }
            assert(a[b.len() as int] == s.last());
        }
    }
}

/// Dropping and replacing records, where only a running task's record is
/// replaced or its status is kept, never makes more tasks run.
proof fn lemma_running_after_replace(s: Seq<RecordView>, id: Seq<char>, r: RecordView)
    requires
        lookup(s, id) is Some,
        r.task.status.terminal() || !lookup(s, id)->0.task.status.terminal(),
    ensures
        running_in(replaced(s, id, r)) <= running_in(s),
{
    lemma_task_at(s, id, 0);
    lemma_running_after_update(s, task_at(s, id, 0), r);
}

proof fn lemma_running_after_update(s: Seq<RecordView>, at: int, r: RecordView)
    requires
        0 <= at < s.len(),
        r.task.status.terminal() || !s[at].task.status.terminal(),
    ensures
        running_in(s.update(at, r)) <= running_in(s),
    decreases s.len(),
{
    reveal(Seq::filter);
    let t = s.update(at, r);
    if at == s.len() - 1 {
        assert(t.drop_last() =~= s.drop_last());
    } else {
        assert(t.drop_last() =~= s.drop_last().update(at, r));
        assert(t.last() == s.last());
        lemma_running_after_update(s.drop_last(), at, r);
    }
}

proof fn lemma_running_after_filter(s: Seq<RecordView>, keep: spec_fn(RecordView) -> bool)
    ensures
        running_in(s.filter(keep)) <= running_in(s),
    decreases s.len(),
{
    reveal(Seq::filter);
    if s.len() > 0 {
        lemma_running_after_filter(s.drop_last(), keep);
        let f = s.drop_last().filter(keep);
        if keep(s.last()) {
            assert(f.push(s.last()).drop_last() =~= f);
        }
    }
}

/// However many tasks are asked for, finished, moved, cancelled or expired, no
/// more run at once than the limit allows.
pub proof fn law_running_tasks_are_bounded(
    s: Seq<RecordView>,
    limit: nat,
    id: Seq<char>,
    made: RecordView,
    status: TaskStatus,
    outcome: OutcomeView,
    message: Seq<char>,
    now: Timestamp,
)
    requires
        running_in(s) <= limit,
    ensures
        running_in(alive(s, now)) <= limit,
        running_in(s) < limit ==> running_in(with_task(s, made)) <= limit,
        running_in(after_finish(s, id, status, outcome, now)) <= limit,
        moves(s, id, status) ==> running_in(
            replaced(s, id, moved(lookup(s, id)->0, status, now)),
        ) <= limit,
        lookup(s, id) is Some ==> running_in(
            replaced(s, id, noted(lookup(s, id)->0, message, now)),
        ) <= limit && running_in(replaced(s, id, cancelled(lookup(s, id)->0, now))) <= limit,
{
    lemma_running_after_filter(s, |r: RecordView| !expired(r, now));
    let id2 = made.task.task_id;
    lemma_running_after_filter(s, |r: RecordView| r.task.task_id != id2);
    let rest = others(s, id2);
    assert(running_in(rest.push(made)) <= running_in(rest) + 1) by {
        reveal(Seq::filter);
        assert(rest.push(made).drop_last() =~= rest);
    }
    if let Some(r) = lookup(s, id) {
        if !r.task.status.terminal() {
            lemma_running_after_replace(s, id, finished(r, status, outcome, now));
            lemma_running_after_replace(s, id, moved(r, status, now));
        }
        lemma_running_after_replace(s, id, noted(r, message, now));
        lemma_running_after_replace(s, id, cancelled(r, now));
    }
}

/// Tasks that are listed twice from the same records come in the same order,
/// so that the pages of two requests fit together.
pub proof fn law_task_listings_are_the_same_every_time(
    s: Seq<RecordView>,
    a: Seq<TaskView>,
    b: Seq<TaskView>,
)
    requires
        ids_differ(s),
        crate::order::in_order::<Task>(a),
        crate::order::in_order::<Task>(b),
        a.to_multiset() == tasks_in(s).to_multiset(),
        b.to_multiset() == tasks_in(s).to_multiset(),
    ensures
        a == b,
{
    let all = tasks_in(s);
    all.to_multiset_ensures();
    a.to_multiset_ensures();
    assert forall|x: TaskView, y: TaskView|
        a.contains(x) && a.contains(y) && x != y implies #[trigger] Task::precedes(x, y)
        || Task::precedes(y, x) by {
        assert(a.to_multiset().count(x) > 0);
        assert(a.to_multiset().count(y) > 0);
        assert(all.contains(x));
        assert(all.contains(y));
        let i = choose|i: int| 0 <= i < all.len() && all[i] == x;
        let j = choose|j: int| 0 <= j < all.len() && all[j] == y;
        assert(s[i].task == x && s[j].task == y);
        assert(x.task_id != y.task_id);
        if x.created_at == y.created_at {
            if !crate::order::text_before(x.task_id, y.task_id) && !crate::order::text_before(
                y.task_id,
                x.task_id,
            ) {
                crate::order::lemma_text_before_or_same(x.task_id, y.task_id);
            }
        } else if !crate::order::text_before(x.created_at, y.created_at)
            && !crate::order::text_before(y.created_at, x.created_at) {
            crate::order::lemma_text_before_or_same(x.created_at, y.created_at);
        }
    }
    crate::order::law_there_is_one_order::<Task>(a, b);
}

/// A tool whose task was cancelled is told to stop until it ends, however long
/// after: neither the task's lifetime nor anything done to other tasks takes it
/// back.
pub proof fn law_a_cancelled_tool_is_told_until_it_ends(
    s: Seq<RecordView>,
    stopping: Set<Seq<char>>,
    id: Seq<char>,
    when: Timestamp,
    later: Timestamp,
    other: Seq<char>,
)
    requires
        lookup(s, id) is Some,
    ensures
        ({
            let after = replaced(s, id, cancelled(lookup(s, id)->0, when));
            &&& to_stop(after, stopping.insert(id), id)
            &&& to_stop(alive(after, later), stopping.insert(id), id)
            &&& to_stop(alive(after, later), stopping.insert(id).insert(other), id)
            &&& other != id ==> to_stop(
                alive(after, later),
                stopping.insert(id).remove(other),
                id,
            )
        }),
{
}

} // verus!
