//! A request of the server's own, from its sending to its end.
//!
//! Here it is decided what is done next; it is done, and what came of it is
//! reported, by whoever holds the transport.

use crate::broker::{into_result, BrokerView, RequestBroker};
use crate::calendar::Span;
use crate::env::{
    await_delegated_response, await_response, deadline_from, route, undeliverable, DelegatedWait,
    PendingRequest, Routed, ToolEnv, Wait,
};
use crate::json::{Json, JsonView};
use crate::tasks::TaskStatus;
use crate::types::{
    JsonRpcMessage, JsonRpcResponse, McpError, McpErrorView, MessageView, RequestIdView,
    RequestView, ResponseView,
};
use vstd::prelude::*;

verus! {

/// How far a request has come.
#[derive(Debug)]
pub enum Stage {
    /// It is being sent.
    Sending,
    /// Its answer is waited for.
    Waiting,
    /// The wait is over, and what was arranged for it is being undone.
    Closing(Result<Json, McpError>),
    /// The wait ran out, and the client is being told.
    Telling(Result<Json, McpError>),
    /// Whoever asked has the outcome.
    Over,
}

/// What a [`Stage`] is.
pub enum StageView {
    Sending,
    Waiting,
    Closing(Result<JsonView, McpErrorView>),
    Telling(Result<JsonView, McpErrorView>),
    Over,
}

impl View for Stage {
    type V = StageView;

    open spec fn view(&self) -> StageView {
        match *self {
            Stage::Sending => StageView::Sending,
            Stage::Waiting => StageView::Waiting,
            Stage::Closing(o) => StageView::Closing(crate::types::outcome_view(o)),
            Stage::Telling(o) => StageView::Telling(crate::types::outcome_view(o)),
            Stage::Over => StageView::Over,
        }
    }
}

/// A request of the server's own.
#[derive(Debug)]
pub struct RoundTrip {
    pub pending: PendingRequest,
    /// When the wait is over.
    pub deadline: Option<Span>,
    pub stage: Stage,
}

/// What a [`RoundTrip`] is.
pub struct RoundView {
    pub id: RequestIdView,
    pub message: MessageView,
    pub delegated: bool,
    pub timeout: Option<Span>,
    pub deadline: Option<int>,
    pub stage: StageView,
}

impl View for RoundTrip {
    type V = RoundView;

    open spec fn view(&self) -> RoundView {
        RoundView {
            id: self.pending.id@,
            message: self.pending.message@,
            delegated: self.pending.delegated,
            timeout: self.pending.timeout,
            deadline: optional_total(self.deadline),
            stage: self.stage@,
        }
    }
}

/// An optional time as a number.
pub open spec fn optional_total(t: Option<Span>) -> Option<int> {
    match t {
        Some(t) => Some(t.total()),
        None => None,
    }
}

/// What is to be done.
#[derive(Debug)]
pub enum Act {
    /// Move the task. Whether that is possible does not matter.
    SetStatus(TaskStatus),
    /// Bound the reads by this, and read a message.
    Read(Option<Span>),
    /// Give an answer to the worker that waits for it.
    HandOver(JsonRpcResponse),
    /// Look for the answer that is to be handed over, for this long.
    Look(Span),
    /// Let reads take as long as they will. A failure does not matter.
    ClearDeadline,
    /// Send a message. A failure does not matter.
    Tell(JsonRpcMessage),
    /// Give the outcome to whoever asked.
    Return(Result<Json, McpError>),
}

/// What an [`Act`] is.
pub enum ActView {
    SetStatus(TaskStatus),
    Read(Option<int>),
    HandOver(ResponseView),
    Look(int),
    ClearDeadline,
    Tell(MessageView),
    Return(Result<JsonView, McpErrorView>),
}

impl View for Act {
    type V = ActView;

    open spec fn view(&self) -> ActView {
        match *self {
            Act::SetStatus(s) => ActView::SetStatus(s),
            Act::Read(t) => ActView::Read(optional_total(t)),
            Act::HandOver(r) => ActView::HandOver(r@),
            Act::Look(t) => ActView::Look(t.total()),
            Act::ClearDeadline => ActView::ClearDeadline,
            Act::Tell(m) => ActView::Tell(m@),
            Act::Return(o) => ActView::Return(crate::types::outcome_view(o)),
        }
    }
}

/// What came of it.
#[derive(Debug)]
pub enum Report {
    /// It is done.
    Done,
    /// It failed.
    Failed(McpError),
    /// A message was read.
    Message(JsonRpcMessage),
    /// The answer was handed over.
    Handed(JsonRpcResponse),
    /// The answer cannot be handed over any more.
    Gone,
}

/// What a [`Report`] is.
pub enum ReportView {
    Done,
    Failed(McpErrorView),
    Message(MessageView),
    Handed(ResponseView),
    Gone,
}

impl View for Report {
    type V = ReportView;

    open spec fn view(&self) -> ReportView {
        match *self {
            Report::Done => ReportView::Done,
            Report::Failed(e) => ReportView::Failed(e@),
            Report::Message(m) => ReportView::Message(m@),
            Report::Handed(r) => ReportView::Handed(r@),
            Report::Gone => ReportView::Gone,
        }
    }
}

/// What becomes of a request in one step: how far it has come then, what the
/// broker holds then, and what is to be done.
pub struct Step {
    pub round: RoundView,
    pub broker: BrokerView,
    pub act: ActView,
}

/// Whether a wait ran out.
pub open spec fn ran_out(o: Result<JsonView, McpErrorView>) -> bool {
    o matches Err(McpErrorView::Timeout(_))
}

impl RoundView {
    pub open spec fn at(self, stage: StageView) -> RoundView {
        RoundView { stage, ..self }
    }

    /// What undoes what was arranged for the wait: a task works again, and
    /// reads that were bounded are not any more.
    pub open spec fn undoing(self) -> Option<ActView> {
        if self.delegated {
            Some(ActView::SetStatus(TaskStatus::Working))
        } else if self.deadline is Some {
            Some(ActView::ClearDeadline)
        } else {
            None
        }
    }

    /// The step after everything was undone: a wait that ran out is given up,
    /// and the client is told.
    pub open spec fn parted(
        self,
        env: ToolEnv,
        broker: BrokerView,
        o: Result<JsonView, McpErrorView>,
    ) -> Step {
        if ran_out(o) && env.has_transport {
            Step {
                round: self.at(StageView::Telling(o)),
                broker: broker.given_up(self.id),
                act: ActView::Tell(crate::env::cancellation(env, self.id, self.timeout)),
            }
        } else {
            Step {
                round: self.at(StageView::Over),
                broker: if ran_out(o) {
                    broker.given_up(self.id)
                } else {
                    broker
                },
                act: ActView::Return(o),
            }
        }
    }

    /// The step that ends a wait.
    pub open spec fn settled(
        self,
        env: ToolEnv,
        broker: BrokerView,
        o: Result<JsonView, McpErrorView>,
    ) -> Step {
        match self.undoing() {
            Some(act) => Step { round: self.at(StageView::Closing(o)), broker, act },
            None => self.parted(env, broker, o),
        }
    }

    /// The step that goes on with a wait, by reading.
    pub open spec fn reading(self, env: ToolEnv, broker: BrokerView, now: int) -> Step {
        let rest = BrokerView {
            parked: crate::broker::answers_without(broker.parked, self.id),
            ..broker
        };
        match crate::broker::answer_for(broker.parked, self.id) {
            Some(answer) => self.settled(env, rest, crate::broker::response_result(answer)),
            None => if self.deadline matches Some(d) && d <= now {
                self.settled(env, rest, Err(crate::env::no_response(self.id)))
            } else {
                Step {
                    round: self.at(StageView::Waiting),
                    broker: rest,
                    act: ActView::Read(
                        match self.deadline {
                            Some(d) => Some(d - now),
                            None => None,
                        },
                    ),
                }
            },
        }
    }

    /// The step that goes on with a wait, by looking.
    pub open spec fn looking(self, env: ToolEnv, broker: BrokerView, cancelled: bool, now: int) -> Step {
        if cancelled {
            self.settled(env, broker, Err(crate::env::abandoned(self.id)))
        } else if self.deadline matches Some(d) && d <= now {
            self.settled(env, broker, Err(crate::env::no_response(self.id)))
        } else {
            Step {
                round: self.at(StageView::Waiting),
                broker,
                act: ActView::Look(crate::env::look_for(self.deadline, now)),
            }
        }
    }

    /// The step that a report leads to.
    pub open spec fn step(
        self,
        env: ToolEnv,
        broker: BrokerView,
        report: ReportView,
        cancelled: bool,
        now: int,
    ) -> Step {
        match self.stage {
            StageView::Sending => match report {
                ReportView::Failed(e) => Step {
                    round: self.at(StageView::Over),
                    broker,
                    act: ActView::Return(Err(e)),
                },
                _ => if self.delegated {
                    Step {
                        round: self.at(StageView::Waiting),
                        broker,
                        act: ActView::SetStatus(TaskStatus::InputRequired),
                    }
                } else {
                    self.reading(env, broker, now)
                },
            },
            StageView::Waiting => if self.delegated {
                match report {
                    ReportView::Handed(answer) => self.settled(
                        env,
                        broker,
                        crate::broker::response_result(answer),
                    ),
                    ReportView::Gone => self.settled(
                        env,
                        broker,
                        Err(crate::env::out_of_reach(self.id)),
                    ),
                    _ => self.looking(env, broker, cancelled, now),
                }
            } else {
                match report {
                    ReportView::Failed(e) => self.settled(env, broker, Err(e)),
                    ReportView::Message(MessageView::Response(answer)) => if answer.id == self.id {
                        self.settled(env, broker, crate::broker::response_result(answer))
                    } else if broker.fate(answer.id) is HandedOver {
                        Step {
                            round: self,
                            broker: broker.delivered(answer),
                            act: ActView::HandOver(answer),
                        }
                    } else {
                        self.reading(env, broker.delivered(answer), now)
                    },
                    ReportView::Message(other) => self.reading(
                        env,
                        BrokerView { deferred: broker.deferred.push(other), ..broker },
                        now,
                    ),
                    _ => self.reading(env, broker, now),
                }
            },
            StageView::Closing(o) => self.parted(env, broker, o),
            StageView::Telling(o) => Step {
                round: self.at(StageView::Over),
                broker,
                act: ActView::Return(o),
            },
            StageView::Over => Step {
                round: self,
                broker,
                act: ActView::Return(Err(crate::env::out_of_reach(self.id))),
            },
        }
    }
}

impl RoundTrip {
    pub open spec fn wf(&self) -> bool {
        self.deadline matches Some(d) ==> d.wf()
    }

    /// Begins a request to the client. Its message is to be sent, and what came
    /// of that is the first report.
    pub fn begin(
        env: &ToolEnv,
        broker: &mut RequestBroker,
        method: &str,
        params: Json,
        timeout: Option<Span>,
        now: Span,
    ) -> (r: Result<RoundTrip, McpError>)
        requires
            old(broker)@.issued < u64::MAX,
            now.wf(),
            timeout matches Some(t) ==> t.wf() && now.secs + t.secs + 1 <= u64::MAX,
        ensures
            match r {
                Err(e) => crate::env::request_refusal(*env, method@) == Some(e@) && final(broker)@
                    == old(broker)@,
                Ok(round) => {
                    &&& crate::env::request_refusal(*env, method@) is None
                    &&& round.wf()
                    &&& round@ == begun(*env, old(broker)@, method@, params@, timeout, now.total())
                    &&& final(broker)@ == old(broker)@.asked(round@.delegated)
                    &&& old(broker)@.wf() ==> final(broker)@.wf() && final(broker)@.gave_out(
                        round@.id,
                    )
                },
            },
    {
        match env.send_request_with_timeout(broker, method, params, timeout) {
            Err(e) => Err(e),
            Ok(pending) => Ok(
                RoundTrip { pending, deadline: deadline_from(now, timeout), stage: Stage::Sending },
            ),
        }
    }

    fn part(self, env: &ToolEnv, broker: &mut RequestBroker, outcome: Result<Json, McpError>) -> (r: (
        RoundTrip,
        Act,
    ))
        requires
            self.wf(),
        ensures
            r.0.wf(),
            (Step { round: r.0@, broker: final(broker)@, act: r.1@ }) == self@.parted(
                *env,
                old(broker)@,
                crate::types::outcome_view(outcome),
            ),
            old(broker)@.wf() && old(broker)@.gave_out(self@.id) ==> final(broker)@.wf(),
    {
        match env.after_wait(broker, &self.pending, &outcome) {
            Some(m) => (RoundTrip { stage: Stage::Telling(outcome), ..self }, Act::Tell(m)),
            None => (RoundTrip { stage: Stage::Over, ..self }, Act::Return(outcome)),
        }
    }

    fn settle(self, env: &ToolEnv, broker: &mut RequestBroker, outcome: Result<Json, McpError>) -> (r: (
        RoundTrip,
        Act,
    ))
        requires
            self.wf(),
        ensures
            r.0.wf(),
            (Step { round: r.0@, broker: final(broker)@, act: r.1@ }) == self@.settled(
                *env,
                old(broker)@,
                crate::types::outcome_view(outcome),
            ),
            old(broker)@.wf() && old(broker)@.gave_out(self@.id) ==> final(broker)@.wf(),
    {
        if self.pending.delegated {
            (
                RoundTrip { stage: Stage::Closing(outcome), ..self },
                Act::SetStatus(TaskStatus::Working),
            )
        } else if self.deadline.is_some() {
            (RoundTrip { stage: Stage::Closing(outcome), ..self }, Act::ClearDeadline)
        } else {
            self.part(env, broker, outcome)
        }
    }

    fn read_on(self, env: &ToolEnv, broker: &mut RequestBroker, now: Span) -> (r: (RoundTrip, Act))
        requires
            self.wf(),
            now.wf(),
        ensures
            r.0.wf(),
            (Step { round: r.0@, broker: final(broker)@, act: r.1@ }) == self@.reading(
                *env,
                old(broker)@,
                now.total(),
            ),
            r.1 matches Act::Read(Some(t)) ==> t.wf(),
            old(broker)@.wf() && old(broker)@.gave_out(self@.id) ==> final(broker)@.wf(),
    {
        match await_response(broker, &self.pending.id, now, self.deadline) {
            Wait::Done(outcome) => self.settle(env, broker, outcome),
            Wait::Read(left) => (RoundTrip { stage: Stage::Waiting, ..self }, Act::Read(left)),
        }
    }

    fn look_on(self, env: &ToolEnv, broker: &mut RequestBroker, cancelled: bool, now: Span) -> (r: (
        RoundTrip,
        Act,
    ))
        requires
            self.wf(),
            now.wf(),
        ensures
            r.0.wf(),
            (Step { round: r.0@, broker: final(broker)@, act: r.1@ }) == self@.looking(
                *env,
                old(broker)@,
                cancelled,
                now.total(),
            ),
            r.1 matches Act::Look(t) ==> t.wf(),
            old(broker)@.wf() && old(broker)@.gave_out(self@.id) ==> final(broker)@.wf(),
    {
        match await_delegated_response(cancelled, &self.pending.id, now, self.deadline) {
            DelegatedWait::Fail(e) => self.settle(env, broker, Err(e)),
            DelegatedWait::Look(t) => (RoundTrip { stage: Stage::Waiting, ..self }, Act::Look(t)),
        }
    }

    /// Decides what is to be done, by what came of what was done last and by
    /// whether the task was cancelled. Once whoever asked has the outcome,
    /// there is no other to come.
    pub fn next(
        self,
        env: &ToolEnv,
        broker: &mut RequestBroker,
        report: Report,
        cancelled: bool,
        now: Span,
    ) -> (r: (RoundTrip, Act))
        requires
            self.wf(),
            now.wf(),
        ensures
            r.0.wf(),
            (Step { round: r.0@, broker: final(broker)@, act: r.1@ }) == self@.step(
                *env,
                old(broker)@,
                report@,
                cancelled,
                now.total(),
            ),
            r.1 matches Act::Read(Some(t)) ==> t.wf(),
            r.1 matches Act::Look(t) ==> t.wf(),
            old(broker)@.wf() && old(broker)@.gave_out(self@.id) ==> final(broker)@.wf(),
    {
        let RoundTrip { pending, deadline, stage } = self;
        let delegated = pending.delegated;
        match stage {
            Stage::Sending => {
                let round = RoundTrip { pending, deadline, stage: Stage::Sending };
                match report {
                    Report::Failed(e) => (
                        RoundTrip { stage: Stage::Over, ..round },
                        Act::Return(Err(e)),
                    ),
                    _ => if delegated {
                        (
                            RoundTrip { stage: Stage::Waiting, ..round },
                            Act::SetStatus(TaskStatus::InputRequired),
                        )
                    } else {
                        round.read_on(env, broker, now)
                    },
                }
            },
            Stage::Waiting => {
                let round = RoundTrip { pending, deadline, stage: Stage::Waiting };
                if delegated {
                    match report {
                        Report::Handed(answer) => round.settle(env, broker, into_result(answer)),
                        Report::Gone => {
                            let e = undeliverable(&round.pending.id);
                            round.settle(env, broker, Err(e))
                        },
                        _ => round.look_on(env, broker, cancelled, now),
                    }
                } else {
                    match report {
                        Report::Failed(e) => round.settle(env, broker, Err(e)),
                        Report::Message(m) => match route(broker, &round.pending.id, m) {
                            Routed::Ours(outcome) => round.settle(env, broker, outcome),
                            Routed::HandOver(answer) => (round, Act::HandOver(answer)),
                            Routed::Elsewhere => round.read_on(env, broker, now),
                        },
                        _ => round.read_on(env, broker, now),
                    }
                }
            },
            Stage::Closing(outcome) => {
                let round = RoundTrip { pending, deadline, stage: Stage::Over };
                round.part(env, broker, outcome)
            },
            Stage::Telling(outcome) => (
                RoundTrip { pending, deadline, stage: Stage::Over },
                Act::Return(outcome),
            ),
            Stage::Over => {
                let e = undeliverable(&pending.id);
                (RoundTrip { pending, deadline, stage: Stage::Over }, Act::Return(Err(e)))
            },
        }
    }
}

/// A request that was begun at this moment.
pub open spec fn begun(
    env: ToolEnv,
    broker: BrokerView,
    method: Seq<char>,
    params: JsonView,
    timeout: Option<Span>,
    now: int,
) -> RoundView {
    let id = crate::broker::request_id(broker.issued + 1);
    RoundView {
        id,
        message: MessageView::Request(
            RequestView {
                id,
                method,
                params: crate::env::tagged(
                    crate::env::optional_task(env.task_id),
                    Some(params),
                ),
            },
        ),
        delegated: env.mode == crate::env::RequestMode::Delegated,
        timeout,
        deadline: match timeout {
            Some(t) => Some(now + t.total()),
            None => None,
        },
        stage: StageView::Sending,
    }
}

/// What is reported at one moment.
pub struct Event {
    pub report: ReportView,
    pub cancelled: bool,
    pub now: int,
}

impl RoundView {
    /// What is done, one after the other, until whoever asked has the outcome
    /// or there is nothing more to report.
    pub open spec fn trail(self, env: ToolEnv, broker: BrokerView, events: Seq<Event>) -> Seq<ActView>
        decreases events.len(),
    {
        if events.len() == 0 || self.stage is Over {
            Seq::empty()
        } else {
            let s = self.step(
                env,
                broker,
                events[0].report,
                events[0].cancelled,
                events[0].now,
            );
            seq![s.act] + s.round.trail(env, s.broker, events.drop_first())
        }
    }

    /// What the broker holds after these reports.
    pub open spec fn left_behind(self, env: ToolEnv, broker: BrokerView, events: Seq<Event>) -> BrokerView
        decreases events.len(),
    {
        if events.len() == 0 || self.stage is Over {
            broker
        } else {
            let s = self.step(
                env,
                broker,
                events[0].report,
                events[0].cancelled,
                events[0].now,
            );
            s.round.left_behind(env, s.broker, events.drop_first())
        }
    }

    /// Whether this is part of waiting, for no longer than the request may take.
    pub open spec fn waits(self, act: ActView) -> bool {
        match act {
            ActView::Read(left) => !self.delegated && match self.timeout {
                Some(t) => left matches Some(n) && 0 < n <= t.total(),
                None => left is None,
            },
            ActView::HandOver(answer) => !self.delegated && answer.id != self.id,
            ActView::Look(n) => self.delegated && 0 < n <= 100_000_000 && (self.timeout matches Some(
                t,
            ) ==> n <= t.total()),
            _ => false,
        }
    }

    /// What is done before the answer is waited for: a task waits for the
    /// client then.
    pub open spec fn opening(self) -> Seq<ActView> {
        if self.delegated {
            seq![ActView::SetStatus(TaskStatus::InputRequired)]
        } else {
            Seq::empty()
        }
    }

    /// How a request ends, by its outcome: what was arranged for the wait is
    /// undone, the client is told where the wait ran out, and the outcome is
    /// handed on.
    pub open spec fn ending(self, env: ToolEnv, o: Result<JsonView, McpErrorView>) -> Seq<ActView> {
        let undone = match self.undoing() {
            Some(act) => seq![act],
            None => Seq::empty(),
        };
        undone + self.farewell(env, o)
    }

    /// The end of a request, once what was arranged for the wait is undone.
    pub open spec fn farewell(self, env: ToolEnv, o: Result<JsonView, McpErrorView>) -> Seq<ActView> {
        if ran_out(o) && env.has_transport {
            seq![
                ActView::Tell(crate::env::cancellation(env, self.id, self.timeout)),
                ActView::Return(o),
            ]
        } else {
            seq![ActView::Return(o)]
        }
    }
}

/// Whether time only passes from this moment on.
pub open spec fn all_after(events: Seq<Event>, start: int) -> bool {
    forall|i: int| 0 <= i < events.len() ==> start <= (#[trigger] events[i]).now
}

/// The last thing that was done, where it is the handing on of an outcome.
pub open spec fn outcome_of(acts: Seq<ActView>) -> Option<Result<JsonView, McpErrorView>> {
    if acts.len() > 0 {
        match acts.last() {
            ActView::Return(o) => Some(o),
            _ => None,
        }
    } else {
        None
    }
}

/// What [`RoundView::trail`] is from the end of a wait on.
proof fn lemma_farewell(
    round: RoundView,
    env: ToolEnv,
    broker: BrokerView,
    events: Seq<Event>,
    o: Result<JsonView, McpErrorView>,
)
    requires
        round.stage == StageView::Closing(o) || round.stage == StageView::Telling(o),
        outcome_of(round.trail(env, broker, events)) is Some,
    ensures
        outcome_of(round.trail(env, broker, events)) == Some(o),
        round.stage is Closing ==> round.trail(env, broker, events) == round.farewell(env, o)
            && round.left_behind(env, broker, events) == (if ran_out(o) {
            broker.given_up(round.id)
        } else {
            broker
        }),
        round.stage is Telling ==> round.trail(env, broker, events) == seq![ActView::Return(o)]
            && round.left_behind(env, broker, events) == broker,
    decreases events.len(),
{
    let s = round.step(env, broker, events[0].report, events[0].cancelled, events[0].now);
    let rest = events.drop_first();
    let tail = s.round.trail(env, s.broker, rest);
    let whole = round.trail(env, broker, events);
    assert(whole == seq![s.act] + tail);
    if s.round.stage is Over {
        assert(tail =~= Seq::empty());
        assert(whole =~= seq![ActView::Return(o)]);
        assert(s.round.left_behind(env, s.broker, rest) == s.broker);
        assert(whole.last() == ActView::Return(o));
    } else {
        assert(s.round.stage == StageView::Telling(o));
        if tail.len() == 0 {
            assert(whole.last() == s.act);
        }
        assert(tail.len() > 0);
        assert(whole.last() == tail.last());
        lemma_farewell(s.round, env, s.broker, rest, o);
        assert(whole =~= round.farewell(env, o));
    }
}

proof fn lemma_given_up(id: RequestIdView)
    ensures
        forall|b: BrokerView| (#[trigger] b.given_up(id)).fate(id) is Dropped,
{
    assert forall|b: BrokerView| (#[trigger] b.given_up(id)).fate(id) is Dropped by {
        crate::broker::law_late_answers_are_dropped(
            b,
            ResponseView { id, result: None, error: None },
        );
    }
}

/// What [`RoundView::trail`] is while the answer is waited for.
proof fn lemma_wait(
    round: RoundView,
    env: ToolEnv,
    broker: BrokerView,
    events: Seq<Event>,
    start: int,
) -> (waits: Seq<ActView>)
    requires
        round.stage is Waiting,
        round.deadline == (match round.timeout {
            Some(t) => Some(start + t.total()),
            None => None::<int>,
        }),
        all_after(events, start),
        outcome_of(round.trail(env, broker, events)) is Some,
    ensures
        forall|i: int| 0 <= i < waits.len() ==> round.waits(#[trigger] waits[i]),
        ({
            let acts = round.trail(env, broker, events);
            let o = outcome_of(acts)->0;
            acts == waits + round.ending(env, o) && (ran_out(o) ==> round.left_behind(
                env,
                broker,
                events,
            ).fate(round.id) is Dropped)
        }),
    decreases events.len(),
{
    let e = events[0];
    let s = round.step(env, broker, e.report, e.cancelled, e.now);
    let rest = events.drop_first();
    let tail = s.round.trail(env, s.broker, rest);
    let acts = round.trail(env, broker, events);
    assert(start <= events[0].now);
    assert(acts == seq![s.act] + tail);
    assert(tail.len() > 0 ==> acts.last() == tail.last());
    assert(tail.len() == 0 ==> acts.last() == s.act);
    let o = outcome_of(acts)->0;
    if s.round.stage is Waiting {
        assert(round.waits(s.act));
        assert(all_after(rest, start)) by {
            assert forall|i: int| 0 <= i < rest.len() implies start <= (#[trigger] rest[i]).now by {
                assert(rest[i] == events[i + 1]);
            }
        }
        let more = lemma_wait(s.round, env, s.broker, rest, start);
        assert(s.round.ending(env, o) == round.ending(env, o));
        let waits = seq![s.act] + more;
        assert(acts =~= waits + round.ending(env, o));
        assert forall|i: int| 0 <= i < waits.len() implies round.waits(#[trigger] waits[i]) by {
            if i > 0 {
                assert(waits[i] == more[i - 1]);
                assert(s.round.waits(more[i - 1]));
            }
        }
        waits
    } else {
        let waits = Seq::<ActView>::empty();
        match s.round.stage {
            StageView::Over => {
                assert(tail =~= Seq::empty());
            },
            StageView::Closing(p) => {
                lemma_farewell(s.round, env, s.broker, rest, p);
                assert(s.round.farewell(env, p) == round.farewell(env, p));
            },
            StageView::Telling(p) => {
                lemma_farewell(s.round, env, s.broker, rest, p);
            },
            _ => {},
        }
        assert(acts =~= waits + round.ending(env, o));
        if ran_out(o) {
            lemma_given_up(round.id);
        }
        waits
    }
}

/// The messages that were sent, beside the request.
pub open spec fn told(acts: Seq<ActView>) -> Seq<MessageView>
    decreases acts.len(),
{
    if acts.len() == 0 {
        Seq::empty()
    } else {
        match acts.last() {
            ActView::Tell(m) => told(acts.drop_last()).push(m),
            _ => told(acts.drop_last()),
        }
    }
}

/// What reads are bounded by after all this.
pub open spec fn bound_after(acts: Seq<ActView>) -> Option<int>
    decreases acts.len(),
{
    if acts.len() == 0 {
        None
    } else {
        match acts.last() {
            ActView::Read(left) => left,
            ActView::ClearDeadline => None,
            _ => bound_after(acts.drop_last()),
        }
    }
}

/// What the task was moved to last.
pub open spec fn status_after(acts: Seq<ActView>) -> Option<TaskStatus>
    decreases acts.len(),
{
    if acts.len() == 0 {
        None
    } else {
        match acts.last() {
            ActView::SetStatus(s) => Some(s),
            _ => status_after(acts.drop_last()),
        }
    }
}

/// Waiting sends nothing and moves no task, and bounds reads only where there
/// is a time limit.
proof fn lemma_waits(round: RoundView, opening: Seq<ActView>, waits: Seq<ActView>)
    requires
        forall|i: int| 0 <= i < waits.len() ==> round.waits(#[trigger] waits[i]),
        told(opening) == Seq::<MessageView>::empty(),
        bound_after(opening) is None,
    ensures
        told(opening + waits) == Seq::<MessageView>::empty(),
        status_after(opening + waits) == status_after(opening),
        round.delegated || round.timeout is None ==> bound_after(opening + waits) is None,
    decreases waits.len(),
{
    let all = opening + waits;
    if waits.len() == 0 {
        assert(all =~= opening);
    } else {
        assert(all.drop_last() =~= opening + waits.drop_last());
        assert(all.last() == waits.last());
        lemma_waits(round, opening, waits.drop_last());
    }
}

/// What one more act adds.
proof fn lemma_one_more(acts: Seq<ActView>, act: ActView)
    ensures
        told(acts.push(act)) == (match act {
            ActView::Tell(m) => told(acts).push(m),
            _ => told(acts),
        }),
        bound_after(acts.push(act)) == (match act {
            ActView::Read(left) => left,
            ActView::ClearDeadline => None,
            _ => bound_after(acts),
        }),
        status_after(acts.push(act)) == (match act {
            ActView::SetStatus(s) => Some(s),
            _ => status_after(acts),
        }),
{
    assert(acts.push(act).drop_last() =~= acts);
}

/// A request that went out, whatever the client does and whenever, ends in one
/// way for whoever asked. The answer is waited for, never for longer than the
/// request may take; then a task that was waiting for the client works again,
/// and reads take as long as they will; then, if and only if the wait ran out,
/// the client is told to stop, which is the one message that follows the
/// request, and an answer that still comes is dropped.
pub proof fn law_a_request_ends_well(
    env: ToolEnv,
    broker: BrokerView,
    method: Seq<char>,
    params: JsonView,
    timeout: Option<Span>,
    start: int,
    events: Seq<Event>,
)
    requires
        crate::env::request_refusal(env, method) is None,
        all_after(events, start),
        events.len() > 0,
        !(events[0].report is Failed),
        ({
            let round = begun(env, broker, method, params, timeout, start);
            outcome_of(round.trail(env, broker.asked(round.delegated), events)) is Some
        }),
    ensures
        ({
            let round = begun(env, broker, method, params, timeout, start);
            let acts = round.trail(env, broker.asked(round.delegated), events);
            let after = round.left_behind(env, broker.asked(round.delegated), events);
            let o = outcome_of(acts)->0;
            &&& exists|waits: Seq<ActView>|
                #![trigger round.opening() + waits]
                acts == round.opening() + waits + round.ending(env, o) && forall|i: int|
                    0 <= i < waits.len() ==> round.waits(#[trigger] waits[i])
            &&& told(acts) == (if ran_out(o) {
                seq![crate::env::cancellation(env, round.id, timeout)]
            } else {
                Seq::empty()
            })
            &&& bound_after(acts) is None
            &&& status_after(acts) == (if round.delegated {
                Some(TaskStatus::Working)
            } else {
                None
            })
            &&& ran_out(o) ==> after.fate(round.id) is Dropped
        }),
{
    let round = begun(env, broker, method, params, timeout, start);
    let asked = broker.asked(round.delegated);
    let acts = round.trail(env, asked, events);
    let o = outcome_of(acts)->0;
    let e = events[0];
    let none = Seq::<ActView>::empty();
    let rest = events.drop_first();
    assert(start <= events[0].now);
    assert(all_after(rest, start)) by {
        assert forall|i: int| 0 <= i < rest.len() implies start <= (#[trigger] rest[i]).now by {
            assert(rest[i] == events[i + 1]);
        }
    }
    let opening = round.opening();
    lemma_one_more(none, ActView::SetStatus(TaskStatus::InputRequired));
    assert(none.push(ActView::SetStatus(TaskStatus::InputRequired)) =~= seq![
        ActView::SetStatus(TaskStatus::InputRequired),
    ]);
    let waiting = round.at(StageView::Waiting);
    let waits = if round.delegated {
        let s = round.step(env, asked, e.report, e.cancelled, e.now);
        let tail = s.round.trail(env, s.broker, rest);
        assert(s.round == waiting);
        assert(acts == seq![s.act] + tail);
        assert(tail.len() > 0 ==> acts.last() == tail.last());
        let waits = lemma_wait(s.round, env, s.broker, rest, start);
        assert(acts =~= opening + waits + round.ending(env, o));
        waits
    } else {
        let plain = seq![Event { report: ReportView::Done, ..e }] + rest;
        assert(plain.drop_first() =~= rest);
        assert(all_after(plain, start)) by {
            assert forall|i: int| 0 <= i < plain.len() implies start <= (
            #[trigger] plain[i]).now by {
                assert(i > 0 ==> plain[i] == rest[i - 1]);
            }
        }
        assert(waiting.reading(env, asked, e.now) == round.reading(env, asked, e.now));
        assert(waiting.trail(env, asked, plain) == acts);
        assert(waiting.left_behind(env, asked, plain) == round.left_behind(env, asked, events));
        let waits = lemma_wait(waiting, env, asked, plain, start);
        assert(acts =~= opening + waits + round.ending(env, o));
        waits
    };
    assert forall|i: int| 0 <= i < waits.len() implies round.waits(#[trigger] waits[i]) by {
        assert(waiting.waits(waits[i]));
    }
    lemma_waits(round, opening, waits);
    let before = opening + waits;
    let undone = match round.undoing() {
        Some(act) => before.push(act),
        None => before,
    };
    match round.undoing() {
        Some(act) => {
            lemma_one_more(before, act);
        },
        None => {},
    }
    if ran_out(o) {
        let tell = ActView::Tell(crate::env::cancellation(env, round.id, timeout));
        lemma_one_more(undone, tell);
        lemma_one_more(undone.push(tell), ActView::Return(o));
        assert(acts =~= undone.push(tell).push(ActView::Return(o)));
        assert(told(acts) =~= seq![crate::env::cancellation(env, round.id, timeout)]);
    } else {
        lemma_one_more(undone, ActView::Return(o));
        assert(acts =~= undone.push(ActView::Return(o)));
        assert(told(acts) =~= Seq::empty());
    }
}

/// A client that stays silent: the read that waits for the answer is bounded by
/// what is left of the time, fails for want of a message, and whoever asked has
/// that as the outcome, after the bound was lifted and the client told.
pub proof fn law_a_silent_client_is_given_up(
    env: ToolEnv,
    broker: BrokerView,
    method: Seq<char>,
    params: JsonView,
    timeout: Span,
    start: int,
    events: Seq<Event>,
    why: Seq<char>,
)
    requires
        crate::env::request_refusal(env, method) is None,
        env.mode == crate::env::RequestMode::Direct,
        crate::broker::answer_for(
            broker.parked,
            crate::broker::request_id(broker.issued + 1),
        ) is None,
        events.len() == 4,
        events[0].report is Done,
        start <= events[0].now < start + timeout.total(),
        events[1].report == ReportView::Failed(McpErrorView::Timeout(why)),
    ensures
        ({
            let round = begun(env, broker, method, params, Some(timeout), start);
            round.trail(env, broker.asked(false), events) == seq![
                ActView::Read(Some(start + timeout.total() - events[0].now)),
                ActView::ClearDeadline,
                ActView::Tell(crate::env::cancellation(env, round.id, Some(timeout))),
                ActView::Return(Err(McpErrorView::Timeout(why))),
            ]
        }),
{
    let round = begun(env, broker, method, params, Some(timeout), start);
    let asked = broker.asked(false);
    let s0 = round.step(env, asked, events[0].report, events[0].cancelled, events[0].now);
    let e1 = events.drop_first();
    let s1 = s0.round.step(env, s0.broker, e1[0].report, e1[0].cancelled, e1[0].now);
    let e2 = e1.drop_first();
    let s2 = s1.round.step(env, s1.broker, e2[0].report, e2[0].cancelled, e2[0].now);
    let e3 = e2.drop_first();
    let s3 = s2.round.step(env, s2.broker, e3[0].report, e3[0].cancelled, e3[0].now);
    let e4 = e3.drop_first();
    assert(s3.round.trail(env, s3.broker, e4) =~= Seq::empty());
    assert(s2.round.trail(env, s2.broker, e3) =~= seq![s3.act]);
    assert(s1.round.trail(env, s1.broker, e2) =~= seq![s2.act, s3.act]);
    assert(s0.round.trail(env, s0.broker, e1) =~= seq![s1.act, s2.act, s3.act]);
    assert(round.trail(env, asked, events) =~= seq![s0.act, s1.act, s2.act, s3.act]);
}

/// While a caller reads for its answer, the late answer to a request that was
/// given up is passed over, and the answer to the caller's own request is what
/// the caller gets.
pub proof fn law_a_late_answer_is_passed_over(
    env: ToolEnv,
    round: RoundView,
    broker: BrokerView,
    late: ResponseView,
    answer: ResponseView,
    first: int,
    second: int,
)
    requires
        round.stage is Waiting,
        !round.delegated,
        broker.abandoned.contains(late.id),
        late.id != round.id,
        answer.id == round.id,
        crate::broker::answer_for(broker.parked, round.id) is None,
        round.deadline matches Some(d) ==> first < d,
    ensures
        ({
            let s = round.step(
                env,
                broker,
                ReportView::Message(MessageView::Response(late)),
                false,
                first,
            );
            &&& s.act is Read
            &&& s.round == round
            &&& s.round.step(
                env,
                s.broker,
                ReportView::Message(MessageView::Response(answer)),
                false,
                second,
            ) == round.settled(env, s.broker, crate::broker::response_result(answer))
        }),
{
}

} // verus!
