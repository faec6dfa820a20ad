//! Requests of the server's own, and who gets the answers.

use crate::broker::BrokerView;
use crate::env::{await_delegated_response, deadline_from, DelegatedWait, RequestMode, ToolEnv};
use crate::json::JsonView;
use crate::round_trip::{ActView, ReportView, RoundView, StageView};
use crate::tasks::TaskStatus;
use crate::types::{McpErrorView, MessageView, RequestId, RequestIdView, ResponseView};
use crate::calendar::Span;
use vstd::prelude::*;
use vstd::string::*;

verus! {

/// The answer to a request is the first that came for it.
pub proof fn law_the_first_answer_counts(s: Seq<ResponseView>, id: RequestIdView, k: int)
    ensures
        0 <= k < s.len() && s[k].id == id && (forall|j: int|
            0 <= j < k ==> (#[trigger] s[j]).id != id) ==> crate::broker::answer_for(s, id) == Some(
            s[k],
        ),
        (forall|j: int| 0 <= j < s.len() ==> (#[trigger] s[j]).id != id)
            ==> crate::broker::answer_for(s, id) is None,
        crate::broker::answer_for(s, id) matches Some(r) ==> r.id == id && s.contains(r),
{
    lemma_answer_at(s, id, 0);
    let at = crate::broker::answer_at(s, id, 0);
    if at < s.len() {
        assert(s[at].id == id);
        assert(s.contains(s[at]));
    }
}

proof fn lemma_answer_at(s: Seq<ResponseView>, id: RequestIdView, from: int)
    requires
        0 <= from <= s.len(),
    ensures
        ({
            let at = crate::broker::answer_at(s, id, from);
            &&& from <= at <= s.len()
            &&& at < s.len() ==> s[at].id == id
            &&& forall|j: int| from <= j < at ==> (#[trigger] s[j]).id != id
        }),
    decreases s.len() - from,
{
    if from < s.len() && s[from].id != id {
        lemma_answer_at(s, id, from + 1);
    }
}

/// Taking the answer to one request leaves the answers to all others.
pub proof fn law_taking_an_answer_leaves_the_others(
    s: Seq<ResponseView>,
    id: RequestIdView,
    other: RequestIdView,
)
    requires
        other != id,
    ensures
        crate::broker::answer_for(crate::broker::answers_without(s, id), other)
            == crate::broker::answer_for(s, other),
        crate::broker::answer_for(s, id) is None ==> crate::broker::answers_without(s, id) == s,
        crate::broker::answer_for(s, id) is Some ==> crate::broker::answers_without(s, id).len()
            == s.len() - 1,
{
    let t = crate::broker::answers_without(s, id);
    lemma_answer_at(s, id, 0);
    lemma_answer_at(s, other, 0);
    lemma_answer_at(t, other, 0);
    let at = crate::broker::answer_at(s, id, 0);
    let a = crate::broker::answer_at(s, other, 0);
    let b = crate::broker::answer_at(t, other, 0);
    if at < s.len() {
        assert(forall|j: int| 0 <= j < at ==> t[j] == s[j]);
        assert(forall|j: int| at <= j < t.len() ==> t[j] == s[j + 1]);
        if a < s.len() {
            let c = if a < at {
                a
            } else {
                a - 1
            };
            assert(t[c] == s[a]);
            assert(b <= c);
            if b < c {
                if b < at {
                    assert(s[b].id == other);
                } else {
                    assert(s[b + 1].id == other);
                }
            }
        } else if b < t.len() {
            if b < at {
                assert(s[b].id == other);
            } else {
                assert(s[b + 1].id == other);
            }
        }
    }
}

/// A request that is given up has its answer dropped, whether it came already or
/// is still to come; nothing changes for any other request, and nothing that is
/// kept for the main loop is lost.
pub proof fn law_giving_up_is_about_one_request(
    broker: BrokerView,
    id: RequestIdView,
    other: RequestIdView,
)
    requires
        other != id,
    ensures
        ({
            let after = broker.given_up(id);
            &&& after.abandoned.contains(id)
            &&& after.abandoned.contains(other) <==> broker.abandoned.contains(other)
            &&& after.waiting.contains(other) <==> broker.waiting.contains(other)
            &&& crate::broker::answer_for(after.parked, other) == crate::broker::answer_for(
                broker.parked,
                other,
            )
            &&& after.deferred == broker.deferred
            &&& after.issued == broker.issued
            &&& after.waiting.len() <= broker.waiting.len()
        }),
{
    law_taking_an_answer_leaves_the_others(broker.parked, id, other);
    lemma_without(broker.waiting, id, other);
    let after = broker.given_up(id);
    assert(after.abandoned[broker.abandoned.len() as int] == id);
    if broker.abandoned.contains(other) {
        let k = choose|k: int| 0 <= k < broker.abandoned.len() && broker.abandoned[k] == other;
        assert(after.abandoned[k] == other);
    }
    if after.abandoned.contains(other) {
        let k = choose|k: int| 0 <= k < after.abandoned.len() && after.abandoned[k] == other;
        assert(broker.abandoned[k] == other);
    }
}

proof fn lemma_id_at(s: Seq<RequestIdView>, id: RequestIdView, from: int)
    requires
        0 <= from <= s.len(),
    ensures
        ({
            let at = crate::broker::id_at(s, id, from);
            &&& from <= at <= s.len()
            &&& at < s.len() ==> s[at] == id
            &&& forall|j: int| from <= j < at ==> s[j] != id
        }),
    decreases s.len() - from,
{
    if from < s.len() && s[from] != id {
        lemma_id_at(s, id, from + 1);
    }
}

proof fn lemma_without(s: Seq<RequestIdView>, id: RequestIdView, other: RequestIdView)
    requires
        other != id,
    ensures
        crate::broker::without(s, id).contains(other) <==> s.contains(other),
        s.contains(id) ==> crate::broker::without(s, id).len() == s.len() - 1,
        !s.contains(id) ==> crate::broker::without(s, id) == s,
{
    lemma_id_at(s, id, 0);
    let at = crate::broker::id_at(s, id, 0);
    let t = crate::broker::without(s, id);
    if s.contains(id) {
        let k = choose|k: int| 0 <= k < s.len() && s[k] == id;
        assert(at <= k);
    }
    if at < s.len() {
        assert(s.contains(s[at]));
        if s.contains(other) {
            let k = choose|k: int| 0 <= k < s.len() && s[k] == other;
            if k < at {
                assert(t[k] == other);
            } else {
                assert(t[k - 1] == other);
            }
        }
        if t.contains(other) {
            let k = choose|k: int| 0 <= k < t.len() && t[k] == other;
            if k < at {
                assert(s[k] == other);
            } else {
                assert(s[k + 1] == other);
            }
        }
    }
}

/// An answer that came in is dropped once where its request was given up, handed
/// over once where somebody waits for it, and kept otherwise. Nothing changes for
/// any other request.
pub proof fn law_an_answer_is_about_one_request(
    broker: BrokerView,
    r: ResponseView,
    other: RequestIdView,
)
    requires
        other != r.id,
    ensures
        ({
            let after = broker.delivered(r);
            let gone = broker.abandoned.contains(r.id);
            let wanted = broker.waiting.contains(r.id);
            &&& gone ==> after.abandoned.len() == broker.abandoned.len() - 1 && after.waiting
                == broker.waiting && after.parked == broker.parked
            &&& !gone && wanted ==> after.waiting.len() == broker.waiting.len() - 1
                && after.abandoned == broker.abandoned && after.parked == broker.parked
            &&& !gone && !wanted ==> after.parked == broker.parked.push(r) && after.waiting
                == broker.waiting && after.abandoned == broker.abandoned
            &&& after.abandoned.contains(other) <==> broker.abandoned.contains(other)
            &&& after.waiting.contains(other) <==> broker.waiting.contains(other)
            &&& after.deferred == broker.deferred && after.issued == broker.issued
        }),
{
    lemma_without(broker.abandoned, r.id, other);
    lemma_without(broker.waiting, r.id, other);
}

/// The ids that the server gives its requests are numbered from one, and marked
/// as the server's own.
pub proof fn law_requests_are_numbered(broker: BrokerView)
    ensures
        broker.asked(false).issued == broker.issued + 1,
        broker.asked(true).issued == broker.issued + 1,
        broker.asked(false).waiting == broker.waiting,
        broker.asked(true).waiting.len() == broker.waiting.len() + 1,
        broker.asked(true).waiting.last() == crate::broker::request_id(broker.issued + 1),
        crate::broker::request_id(broker.issued + 1) matches RequestIdView::String(s) && s.len() > 4
            && s[0] == 's' && s[1] == 'm' && s[2] == 'l' && s[3] == '-' || broker.issued < 0,
        forall|delegated: bool|
            (#[trigger] broker.asked(delegated)).parked == broker.parked && broker.asked(
                delegated,
            ).deferred == broker.deferred && broker.asked(delegated).abandoned == broker.abandoned,
{
    reveal_strlit("sml-");
    if broker.issued >= 0 {
        crate::laws::texts::law_decimals_are_written_and_read(broker.issued + 1);
    }
}

/// The client is asked exactly where somebody will read the answer and there is a
/// way to the client.
pub proof fn law_nothing_is_asked_in_vain(env: ToolEnv, method: Seq<char>)
    ensures
        crate::env::request_refusal(env, method) is None <==> env.mode != RequestMode::Forbidden
            && env.has_transport,
        crate::env::request_refusal(env, method) matches Some(e) ==> e is Internal,
{
}

/// While another reads for a worker, the worker stops waiting where its task was
/// cancelled or the time is up, and otherwise looks again for as long as is left
/// and for a tenth of a second at most.
pub proof fn law_a_worker_looks_up_from_its_wait(
    cancelled: bool,
    id: RequestId,
    now: Span,
    deadline: Option<Span>,
    r: DelegatedWait,
)
    requires
        now.wf(),
        deadline matches Some(d) ==> d.wf(),
        call_ensures(await_delegated_response, (cancelled, &id, now, deadline), r),
    ensures
        ({
            let over = deadline is Some && deadline->0.total() <= now.total();
            &&& cancelled ==> (r matches DelegatedWait::Fail(e) && e@ is Internal)
            &&& !cancelled && over ==> (r matches DelegatedWait::Fail(e) && e@ is Timeout)
            &&& !cancelled && !over ==> (r matches DelegatedWait::Look(t) && 0 < t.total()
                <= 100_000_000 && (deadline is Some ==> t.total() <= deadline->0.total()
                - now.total()) && (deadline is None || deadline->0.total() - now.total()
                >= 100_000_000 ==> t.total() == 100_000_000) && (deadline is Some
                && deadline->0.total() - now.total() < 100_000_000 ==> t.total()
                == deadline->0.total() - now.total()))
        }),
{
}

/// A wait ends as long after its beginning as it may take, and never where it may
/// take forever.
pub proof fn law_a_wait_ends_when_its_time_is_up(
    now: Span,
    timeout: Option<Span>,
    r: Option<Span>,
)
    requires
        now.wf(),
        timeout matches Some(t) ==> t.wf() && now.secs + t.secs + 1 <= u64::MAX,
        call_ensures(deadline_from, (now, timeout), r),
    ensures
        r is Some <==> timeout is Some,
        r matches Some(d) ==> d.secs * 1_000_000_000 + d.nanos == now.secs * 1_000_000_000
            + now.nanos + timeout->0.secs * 1_000_000_000 + timeout->0.nanos,
{
}

/// Whoever reads for its own answer gets it, whatever it is, as soon as it is
/// read; a failure to read ends the wait with that failure; and until then other
/// messages do not end it while there is time.
pub proof fn law_a_reader_gets_its_answer(
    env: ToolEnv,
    round: RoundView,
    broker: BrokerView,
    report: ReportView,
    now: int,
)
    requires
        round.stage is Waiting,
        !round.delegated,
        crate::broker::answer_for(broker.parked, round.id) is None,
        round.deadline matches Some(d) ==> now < d,
    ensures
        ({
            let s = round.step(env, broker, report, false, now);
            match report {
                ReportView::Message(MessageView::Response(x)) => if x.id == round.id {
                    ends_with(round, env, s.act, s.round.stage, crate::broker::response_result(x))
                } else {
                    s.round.stage is Waiting || crate::broker::answer_for(
                        broker.delivered(x).parked,
                        round.id,
                    ) is Some
                },
                ReportView::Message(other) => s.round.stage is Waiting && s.act is Read
                    && s.broker.deferred == broker.deferred.push(other),
                ReportView::Failed(e) => ends_with(round, env, s.act, s.round.stage, Err(e)),
                _ => s.round.stage is Waiting && s.act is Read,
            }
        }),
{
}

/// Whether a wait ends with this outcome: at once, or after what was arranged for
/// it is undone and the client is told.
pub open spec fn ends_with(
    round: RoundView,
    env: ToolEnv,
    act: ActView,
    stage: StageView,
    o: Result<JsonView, McpErrorView>,
) -> bool {
    if !round.delegated && round.deadline is Some {
        act is ClearDeadline && stage == StageView::Closing(o)
    } else if o is Err && o->Err_0 is Timeout && env.has_transport {
        act is Tell && stage == StageView::Telling(o)
    } else {
        act == ActView::Return(o) && stage is Over
    }
}

/// A worker that waits for another to read gets the answer that is handed to it;
/// before it waits, its task waits for the client, and after, it works again.
pub proof fn law_a_worker_gets_what_is_handed_to_it(
    env: ToolEnv,
    round: RoundView,
    broker: BrokerView,
    x: ResponseView,
    now: int,
    cancelled: bool,
)
    requires
        round.delegated,
    ensures
        round.stage is Sending ==> ({
            let s = round.step(env, broker, ReportView::Done, cancelled, now);
            s.act == ActView::SetStatus(TaskStatus::InputRequired) && s.round.stage is Waiting
                && s.broker == broker
        }),
        round.stage is Waiting ==> ({
            let s = round.step(env, broker, ReportView::Handed(x), cancelled, now);
            s.act == ActView::SetStatus(TaskStatus::Working) && s.round.stage == StageView::Closing(
                crate::broker::response_result(x),
            ) && s.broker == broker
        }),
{
}

/// Messages that are kept for the main loop come out in the order in which they
/// went in, each once, and nothing else changes by keeping or taking them.
pub proof fn law_messages_are_kept_in_order(
    broker: BrokerView,
    m: MessageView,
    after: BrokerView,
    r: Option<MessageView>,
)
    requires
        crate::broker::next_kept(broker.keeping(m), after, r),
    ensures
        r is Some,
        broker.deferred.len() == 0 ==> r == Some(m) && after == broker,
        broker.deferred.len() > 0 ==> r == Some(broker.deferred[0]) && after.deferred
            == broker.deferred.skip(1).push(m),
        after.parked == broker.parked && after.waiting == broker.waiting && after.abandoned
            == broker.abandoned && after.issued == broker.issued,
{
    let kept = broker.keeping(m);
    if broker.deferred.len() == 0 {
        assert(after.deferred =~= broker.deferred);
    } else {
        assert(after.deferred =~= broker.deferred.skip(1).push(m));
    }
}

/// Whoever waits for an answer is waited with, and whoever comes for one that is
/// there takes it; neither touches the rest.
pub proof fn law_waiting_and_coming_touch_one_thing(broker: BrokerView, id: RequestIdView)
    ensures
        broker.waited_for(id).waiting == broker.waiting.push(id),
        broker.waited_for(id).parked == broker.parked && broker.waited_for(id).deferred
            == broker.deferred && broker.waited_for(id).abandoned == broker.abandoned,
        crate::broker::answer_for(broker.parked, id) is None ==> broker.come_for(id).parked
            == broker.parked,
        crate::broker::answer_for(broker.parked, id) is Some ==> broker.come_for(id).parked.len()
            == broker.parked.len() - 1,
        broker.come_for(id).waiting == broker.waiting && broker.come_for(id).deferred
            == broker.deferred && broker.come_for(id).abandoned == broker.abandoned,
{
    lemma_answer_at(broker.parked, id, 0);
}

} // verus!
