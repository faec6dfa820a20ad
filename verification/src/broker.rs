//! Bringing the answers to the server's own requests to whoever asked.

use crate::json::{Json, JsonView};
use crate::text::{decimal_text, join};
use crate::types::{
    JsonRpcMessage, JsonRpcResponse, McpError, McpErrorView, MessageView, RequestId, RequestIdView,
    ResponseView,
};
use vstd::prelude::*;
use vstd::string::*;

verus! {

/// What is on its way between the transport and those who wait.
#[derive(Debug)]
pub struct RequestBroker {
    issued: u64,
    /// Messages that a waiter read and that are not for it.
    deferred: Vec<JsonRpcMessage>,
    /// Answers that nobody has come for yet.
    parked: Vec<JsonRpcResponse>,
    /// Requests whose answer is to be handed over as soon as it is read.
    waiting: Vec<RequestId>,
    /// Requests whose answer nobody wants any more.
    abandoned: Vec<RequestId>,
}

/// What a [`RequestBroker`] is.
pub struct BrokerView {
    pub issued: int,
    pub deferred: Seq<MessageView>,
    pub parked: Seq<ResponseView>,
    pub waiting: Seq<RequestIdView>,
    pub abandoned: Seq<RequestIdView>,
}

impl View for RequestBroker {
    type V = BrokerView;

    closed spec fn view(&self) -> BrokerView {
        BrokerView {
            issued: self.issued as int,
            deferred: self.deferred@.map_values(|m: JsonRpcMessage| m@),
            parked: self.parked@.map_values(|r: JsonRpcResponse| r@),
            waiting: ids(self.waiting@),
            abandoned: ids(self.abandoned@),
        }
    }
}

/// The ids of a list.
pub open spec fn ids(s: Seq<RequestId>) -> Seq<RequestIdView> {
    s.map_values(|id: RequestId| id@)
}

/// The position of an id, or the length.
pub open spec fn id_at(s: Seq<RequestIdView>, id: RequestIdView, from: int) -> int
    decreases s.len() - from,
{
    if from >= s.len() {
        s.len() as int
    } else if s[from] == id {
        from
    } else {
        id_at(s, id, from + 1)
    }
}

/// The list without the first occurrence of an id.
pub open spec fn without(s: Seq<RequestIdView>, id: RequestIdView) -> Seq<RequestIdView> {
    let i = id_at(s, id, 0);
    if 0 <= i < s.len() {
        s.remove(i)
    } else {
        s
    }
}

/// The position of the answer to a request, or the length.
pub open spec fn answer_at(s: Seq<ResponseView>, id: RequestIdView, from: int) -> int
    decreases s.len() - from,
{
    if from >= s.len() {
        s.len() as int
    } else if s[from].id == id {
        from
    } else {
        answer_at(s, id, from + 1)
    }
}

/// The answer to a request, where it is there.
pub open spec fn answer_for(s: Seq<ResponseView>, id: RequestIdView) -> Option<ResponseView> {
    let i = answer_at(s, id, 0);
    if 0 <= i < s.len() {
        Some(s[i])
    } else {
        None
    }
}

/// The answers without the one to this request.
pub open spec fn answers_without(s: Seq<ResponseView>, id: RequestIdView) -> Seq<ResponseView> {
    let i = answer_at(s, id, 0);
    if 0 <= i < s.len() {
        s.remove(i)
    } else {
        s
    }
}

/// The id that is given out as the `k`th.
pub open spec fn request_id(k: int) -> RequestIdView {
    RequestIdView::String("sml-"@ + crate::text::decimal(k))
}

/// What becomes of an answer.
pub enum Fate {
    /// Nobody wants it.
    Dropped,
    /// Somebody is waiting for it.
    HandedOver,
    /// It is kept for whoever comes for it.
    Parked,
}

impl BrokerView {
    /// Whether this id was given out.
    pub open spec fn gave_out(self, id: RequestIdView) -> bool {
        exists|k: int| 1 <= k <= self.issued && id == #[trigger] request_id(k)
    }

    /// Nobody waits for the answer to a request that was never made, and no
    /// such request was given up.
    pub open spec fn wf(self) -> bool {
        &&& 0 <= self.issued
        &&& forall|i: int|
            0 <= i < self.waiting.len() ==> self.gave_out(#[trigger] self.waiting[i])
        &&& forall|i: int|
            0 <= i < self.abandoned.len() ==> self.gave_out(#[trigger] self.abandoned[i])
    }

    /// The broker after the next id was given out, and its answer is waited
    /// for where somebody else is to read it.
    pub open spec fn asked(self, delegated: bool) -> BrokerView {
        BrokerView {
            issued: self.issued + 1,
            waiting: if delegated {
                self.waiting.push(request_id(self.issued + 1))
            } else {
                self.waiting
            },
            ..self
        }
    }

    /// What becomes of an answer to this request.
    pub open spec fn fate(self, id: RequestIdView) -> Fate {
        if self.abandoned.contains(id) {
            Fate::Dropped
        } else if self.waiting.contains(id) {
            Fate::HandedOver
        } else {
            Fate::Parked
        }
    }

    /// The broker after an answer came in.
    pub open spec fn delivered(self, r: ResponseView) -> BrokerView {
        match self.fate(r.id) {
            Fate::Dropped => BrokerView { abandoned: without(self.abandoned, r.id), ..self },
            Fate::HandedOver => BrokerView { waiting: without(self.waiting, r.id), ..self },
            Fate::Parked => BrokerView { parked: self.parked.push(r), ..self },
        }
    }

    /// The broker after a request was given up.
    pub open spec fn given_up(self, id: RequestIdView) -> BrokerView {
        BrokerView {
            abandoned: self.abandoned.push(id),
            waiting: without(self.waiting, id),
            parked: answers_without(self.parked, id),
            ..self
        }
    }
}

impl BrokerView {
    /// The broker with a message kept for the main loop, behind those kept
    /// already.
    pub open spec fn keeping(self, m: MessageView) -> BrokerView {
        BrokerView { deferred: self.deferred.push(m), ..self }
    }

    /// The broker when somebody waits for the answer to a request.
    pub open spec fn waited_for(self, id: RequestIdView) -> BrokerView {
        BrokerView { waiting: self.waiting.push(id), ..self }
    }

    /// The broker after somebody came for the answer to a request.
    pub open spec fn come_for(self, id: RequestIdView) -> BrokerView {
        BrokerView { parked: answers_without(self.parked, id), ..self }
    }
}

/// Whether this is the message that was kept first, and the broker without it.
pub open spec fn next_kept(before: BrokerView, after: BrokerView, r: Option<MessageView>) -> bool {
    match r {
        Some(m) => before.deferred.len() > 0 && m == before.deferred[0] && after == (BrokerView {
            deferred: before.deferred.skip(1),
            ..before
        }),
        None => before.deferred.len() == 0 && after == before,
    }
}

/// What became of an answer.
#[derive(Debug)]
pub enum Delivery {
    Dropped,
    HandedOver(JsonRpcResponse),
    Parked,
}

/// What an answer comes to for whoever asked.
pub open spec fn response_result(r: ResponseView) -> Result<JsonView, McpErrorView> {
    match (r.error, r.result) {
        (Some(e), _) => Err(
            McpErrorView::Internal("the client answered with an error: "@ + e.message),
        ),
        (None, Some(j)) => Ok(j),
        (None, None) => Ok(JsonView::Null),
    }
}

/// What `id_at` finds.
proof fn lemma_id_at(s: Seq<RequestIdView>, id: RequestIdView, from: int)
    requires
        0 <= from <= s.len(),
    ensures
        from <= id_at(s, id, from) <= s.len(),
        id_at(s, id, from) < s.len() ==> s[id_at(s, id, from)] == id,
        id_at(s, id, from) == s.len() ==> forall|k: int| from <= k < s.len() ==> s[k] != id,
    decreases s.len() - from,
{
    if from < s.len() && s[from] != id {
        lemma_id_at(s, id, from + 1);
    }
}

fn find_id(list: &Vec<RequestId>, id: &RequestId) -> (r: usize)
    ensures
        r == id_at(ids(list@), id@, 0),
        r <= list@.len(),
        ids(list@).len() == list@.len(),
        (r < list@.len()) == ids(list@).contains(id@),
{
    let ghost all = ids(list@);
    let mut i: usize = 0;
    while i < list.len() && !list[i].same(id)
        invariant
            i <= list@.len(),
            all == ids(list@),
            all.len() == list@.len(),
            id_at(all, id@, 0) == id_at(all, id@, i as int),
        decreases list@.len() - i,
    {
        assert(all[i as int] == list@[i as int]@);
        i = i + 1;
    }
    proof {
        if i < list@.len() {
            assert(all[i as int] == list@[i as int]@);
        }
        lemma_id_at(all, id@, 0);
        if i < list@.len() {
            assert(all.contains(id@));
        }
    }
    i
}

fn remove_id(list: &mut Vec<RequestId>, id: &RequestId)
    ensures
        ids(final(list)@) == without(ids(old(list)@), id@),
{
    let i = find_id(list, id);
    let ghost before = ids(list@);
    if i < list.len() {
        let _ = list.remove(i);
        assert(ids(list@) =~= before.remove(i as int));
    }
}

fn take_answer(list: &mut Vec<JsonRpcResponse>, id: &RequestId) -> (r: Option<JsonRpcResponse>)
    ensures
        ({
            let before = old(list)@.map_values(|r: JsonRpcResponse| r@);
            let after = final(list)@.map_values(|r: JsonRpcResponse| r@);
            after == answers_without(before, id@) && match r {
                Some(answer) => answer_for(before, id@) == Some(answer@),
                None => answer_for(before, id@) is None,
            }
        }),
{
    let ghost before = list@.map_values(|r: JsonRpcResponse| r@);
    let mut i: usize = 0;
    while i < list.len() && !list[i].id.same(id)
        invariant
            i <= list@.len(),
            before == list@.map_values(|r: JsonRpcResponse| r@),
            before.len() == list@.len(),
            answer_at(before, id@, 0) == answer_at(before, id@, i as int),
        decreases list@.len() - i,
    {
        assert(before[i as int] == list@[i as int]@);
        i = i + 1;
    }
    if i < list.len() {
        assert(before[i as int] == list@[i as int]@);
        let answer = list.remove(i);
        assert(list@.map_values(|r: JsonRpcResponse| r@) =~= before.remove(i as int));
        Some(answer)
    } else {
        None
    }
}

impl RequestBroker {
    pub fn new() -> (r: RequestBroker)
        ensures
            r@.issued == 0,
            r@.deferred == Seq::<MessageView>::empty(),
            r@.parked == Seq::<ResponseView>::empty(),
            r@.waiting == Seq::<RequestIdView>::empty(),
            r@.abandoned == Seq::<RequestIdView>::empty(),
            r@.wf(),
    {
        let r = RequestBroker {
            issued: 0,
            deferred: Vec::new(),
            parked: Vec::new(),
            waiting: Vec::new(),
            abandoned: Vec::new(),
        };
        assert(r@.deferred =~= Seq::<MessageView>::empty());
        assert(r@.parked =~= Seq::<ResponseView>::empty());
        assert(r@.waiting =~= Seq::<RequestIdView>::empty());
        assert(r@.abandoned =~= Seq::<RequestIdView>::empty());
        r
    }

    /// A new id, of a kind that clients do not use for theirs.
    pub fn next_request_id(&mut self) -> (r: RequestId)
        requires
            old(self)@.issued < u64::MAX,
        ensures
            final(self)@ == old(self)@.asked(false),
            r@ == request_id(old(self)@.issued + 1),
            old(self)@.wf() ==> final(self)@.wf() && final(self)@.gave_out(r@),
    {
        proof {
            if self@.wf() {
                law_asking_keeps_what_was_given_out(self@, false);
            }
        }
        self.issued = self.issued + 1;
        RequestId::String(join("sml-", decimal_text(self.issued).as_str()))
    }

    /// How many ids were given out.
    pub fn issued(&self) -> (r: u64)
        ensures
            r == self@.issued,
    {
        self.issued
    }

    /// Keeps a message for the main loop.
    pub fn defer(&mut self, message: JsonRpcMessage)
        ensures
            final(self)@ == old(self)@.keeping(message@),
            old(self)@.wf() ==> final(self)@.wf(),
    {
        let ghost before = self@.deferred;
        self.deferred.push(message);
        assert(self@.deferred =~= before.push(message@));
    }

    /// The message that was kept first.
    pub fn next_deferred(&mut self) -> (r: Option<JsonRpcMessage>)
        ensures
            next_kept(
                old(self)@,
                final(self)@,
                match r {
                    Some(m) => Some(m@),
                    None => None,
                },
            ),
            old(self)@.wf() ==> final(self)@.wf(),
    {
        if self.deferred.len() == 0 {
            return None;
        }
        let ghost before = self@.deferred;
        let m = self.deferred.remove(0);
        assert(self@.deferred =~= before.skip(1));
        Some(m)
    }

    /// Notes that somebody waits for the answer to a request. To be done before
    /// the request goes out: the answer can be back at once.
    pub fn register_waiter(&mut self, id: &RequestId)
        ensures
            final(self)@ == old(self)@.waited_for(id@),
            old(self)@.wf() && old(self)@.gave_out(id@) ==> final(self)@.wf(),
    {
        let ghost before = self@.waiting;
        self.waiting.push(id.copy());
        assert(self@.waiting =~= before.push(id@));
    }

    /// Takes in an answer.
    pub fn deliver(&mut self, response: JsonRpcResponse) -> (r: Delivery)
        ensures
            final(self)@ == old(self)@.delivered(response@),
            match old(self)@.fate(response@.id) {
                Fate::Dropped => r is Dropped,
                Fate::HandedOver => r matches Delivery::HandedOver(x) && x@ == response@,
                Fate::Parked => r is Parked,
            },
            old(self)@.wf() ==> final(self)@.wf(),
    {
        proof {
            if self@.wf() {
                lemma_delivered_wf(self@, response@);
            }
        }
        let gone = find_id(&self.abandoned, &response.id);
        if gone < self.abandoned.len() {
            remove_id(&mut self.abandoned, &response.id);
            return Delivery::Dropped;
        }
        let wanted = find_id(&self.waiting, &response.id);
        if wanted < self.waiting.len() {
            remove_id(&mut self.waiting, &response.id);
            return Delivery::HandedOver(response);
        }
        let ghost before = self@.parked;
        self.parked.push(response);
        assert(self@.parked =~= before.push(response@));
        Delivery::Parked
    }

    /// Takes the answer to a request, where it is there.
    pub fn take_parked(&mut self, id: &RequestId) -> (r: Option<JsonRpcResponse>)
        ensures
            final(self)@ == old(self)@.come_for(id@),
            match r {
                Some(answer) => answer_for(old(self)@.parked, id@) == Some(answer@),
                None => answer_for(old(self)@.parked, id@) is None,
            },
            old(self)@.wf() ==> final(self)@.wf(),
    {
        take_answer(&mut self.parked, id)
    }

    /// Gives up on a request. Its answer is dropped when it comes.
    pub fn abandon(&mut self, id: &RequestId)
        ensures
            final(self)@ == old(self)@.given_up(id@),
            old(self)@.wf() && old(self)@.gave_out(id@) ==> final(self)@.wf(),
    {
        proof {
            if self@.wf() && self@.gave_out(id@) {
                lemma_given_up_wf(self@, id@);
            }
        }
        let ghost before = self@.abandoned;
        self.abandoned.push(id.copy());
        assert(self@.abandoned =~= before.push(id@));
        remove_id(&mut self.waiting, id);
        let _ = take_answer(&mut self.parked, id);
    }
}

/// What an answer comes to for whoever asked.
pub fn into_result(response: JsonRpcResponse) -> (r: Result<Json, McpError>)
    ensures
        crate::types::outcome_view(r) == response_result(response@),
{
    match response.error {
        Some(e) => Err(
            McpError::Internal(join("the client answered with an error: ", e.message.as_str())),
        ),
        None => match response.result {
            Some(j) => Ok(j),
            None => Ok(Json::Null),
        },
    }
}

/// A list without an id holds nothing new.
proof fn lemma_without(s: Seq<RequestIdView>, id: RequestIdView)
    ensures
        forall|i: int| 0 <= i < without(s, id).len() ==> s.contains(#[trigger] without(s, id)[i]),
        forall|x: RequestIdView| x != id && s.contains(x) ==> #[trigger] without(s, id).contains(x),
{
    lemma_id_at(s, id, 0);
    let at = id_at(s, id, 0);
    let t = without(s, id);
    assert forall|i: int| 0 <= i < t.len() implies s.contains(#[trigger] t[i]) by {
        if at < s.len() && i >= at {
            assert(t[i] == s[i + 1]);
        } else {
            assert(t[i] == s[i]);
        }
    }
    assert forall|x: RequestIdView| x != id && s.contains(x) implies #[trigger] t.contains(x) by {
        let k = choose|k: int| 0 <= k < s.len() && s[k] == x;
        if at < s.len() && k > at {
            assert(t[k - 1] == x);
        } else {
            assert(t[k] == x);
        }
    }
}

proof fn lemma_delivered_wf(broker: BrokerView, r: ResponseView)
    requires
        broker.wf(),
    ensures
        broker.delivered(r).wf(),
{
    lemma_without(broker.abandoned, r.id);
    lemma_without(broker.waiting, r.id);
    let after = broker.delivered(r);
    assert forall|i: int| 0 <= i < after.waiting.len() implies after.gave_out(
        #[trigger] after.waiting[i],
    ) by {
        assert(broker.waiting.contains(after.waiting[i]));
        assert(broker.gave_out(after.waiting[i]));
    }
    assert forall|i: int| 0 <= i < after.abandoned.len() implies after.gave_out(
        #[trigger] after.abandoned[i],
    ) by {
        assert(broker.abandoned.contains(after.abandoned[i]));
        assert(broker.gave_out(after.abandoned[i]));
    }
}

proof fn lemma_given_up_wf(broker: BrokerView, id: RequestIdView)
    requires
        broker.wf(),
        broker.gave_out(id),
    ensures
        broker.given_up(id).wf(),
{
    lemma_without(broker.waiting, id);
    let after = broker.given_up(id);
    assert forall|i: int| 0 <= i < after.waiting.len() implies after.gave_out(
        #[trigger] after.waiting[i],
    ) by {
        assert(broker.waiting.contains(after.waiting[i]));
        assert(broker.gave_out(after.waiting[i]));
    }
    assert forall|i: int| 0 <= i < after.abandoned.len() implies after.gave_out(
        #[trigger] after.abandoned[i],
    ) by {
        assert(broker.gave_out(after.abandoned[i]));
    }
}

/// Asking gives out one more id, which nobody waited for or gave up, and takes
/// none back.
pub proof fn law_asking_keeps_what_was_given_out(broker: BrokerView, delegated: bool)
    requires
        broker.wf(),
    ensures
        broker.asked(delegated).wf(),
        broker.asked(delegated).gave_out(request_id(broker.issued + 1)),
        forall|id: RequestIdView| #[trigger]
            broker.gave_out(id) ==> broker.asked(delegated).gave_out(id) && id != request_id(
                broker.issued + 1,
            ),
        !broker.waiting.contains(request_id(broker.issued + 1)),
        !broker.abandoned.contains(request_id(broker.issued + 1)),
{
    let fresh = request_id(broker.issued + 1);
    let after = broker.asked(delegated);
    assert(after.gave_out(fresh));
    assert forall|id: RequestIdView| #[trigger] broker.gave_out(id) implies after.gave_out(id)
        && id != fresh by {
        let k = choose|k: int| 1 <= k <= broker.issued && id == #[trigger] request_id(k);
        law_request_ids_differ(k, broker.issued + 1);
    }
    assert forall|i: int| 0 <= i < after.waiting.len() implies after.gave_out(
        #[trigger] after.waiting[i],
    ) by {
        if i < broker.waiting.len() {
            assert(broker.gave_out(broker.waiting[i]));
        }
    }
}

/// The answer to a request that was given up never reaches a later caller.
/// Whether that caller reads for itself or leaves the reading to another, its
/// request has an id of its own; the late answer is dropped and changes nothing
/// of what is kept for the caller; and the answer to the caller's request, which
/// comes after it, is still the caller's.
pub proof fn law_a_late_answer_reaches_no_later_caller(
    broker: BrokerView,
    late: ResponseView,
    delegated: bool,
)
    requires
        broker.wf(),
        broker.abandoned.contains(late.id),
    ensures
        ({
            let id = request_id(broker.issued + 1);
            let asked = broker.asked(delegated);
            let after = asked.delivered(late);
            &&& late.id != id
            &&& asked.fate(late.id) is Dropped
            &&& after.parked == broker.parked
            &&& after.waiting == asked.waiting
            &&& !after.abandoned.contains(id)
            &&& delegated ==> after.fate(id) is HandedOver
            &&& !delegated ==> after.fate(id) is Parked
            &&& after.wf()
        }),
{
    let id = request_id(broker.issued + 1);
    let asked = broker.asked(delegated);
    let after = asked.delivered(late);
    law_asking_keeps_what_was_given_out(broker, delegated);
    let k = choose|k: int| 0 <= k < broker.abandoned.len() && broker.abandoned[k] == late.id;
    assert(broker.gave_out(broker.abandoned[k]));
    lemma_without(asked.abandoned, late.id);
    lemma_delivered_wf(asked, late);
    if after.abandoned.contains(id) {
        let j = choose|j: int| 0 <= j < after.abandoned.len() && after.abandoned[j] == id;
        assert(asked.abandoned.contains(after.abandoned[j]));
    }
    if delegated {
        assert(after.waiting[broker.waiting.len() as int] == id);
        assert(after.waiting.contains(id));
    }
}

/// The answer to a request that was given up is dropped when it comes, so it
/// can be taken for the answer to no other.
pub proof fn law_late_answers_are_dropped(broker: BrokerView, r: ResponseView)
    ensures
        broker.given_up(r.id).fate(r.id) is Dropped,
        broker.given_up(r.id).delivered(r).parked == broker.given_up(r.id).parked,
{
    let after = broker.given_up(r.id).abandoned;
    assert(after[broker.abandoned.len() as int] == r.id);
    assert(after.contains(r.id));
}

/// An answer that nobody waits for is found by whoever comes for it.
pub proof fn law_parked_answers_are_found(broker: BrokerView, r: ResponseView)
    requires
        broker.fate(r.id) is Parked,
        answer_for(broker.parked, r.id) is None,
    ensures
        answer_for(broker.delivered(r).parked, r.id) == Some(r),
{
    lemma_answer_at(broker.parked, r.id, 0);
    lemma_answer_at_end(broker.parked, r, 0);
}

proof fn lemma_answer_at(s: Seq<ResponseView>, id: RequestIdView, from: int)
    requires
        0 <= from <= s.len(),
    ensures
        from <= answer_at(s, id, from) <= s.len(),
    decreases s.len() - from,
{
    if from < s.len() && s[from].id != id {
        lemma_answer_at(s, id, from + 1);
    }
}

proof fn lemma_answer_at_end(s: Seq<ResponseView>, r: ResponseView, from: int)
    requires
        0 <= from <= s.len(),
        answer_at(s, r.id, from) == s.len(),
    ensures
        answer_at(s.push(r), r.id, from) == s.len(),
    decreases s.len() - from,
{
    if from < s.len() {
        if s[from].id == r.id {
            assert(answer_at(s, r.id, from) == from);
        }
        lemma_answer_at_end(s, r, from + 1);
    }
}

/// Ids that were given out differ.
pub proof fn law_request_ids_differ(a: int, b: int)
    requires
        0 <= a < b,
    ensures
        "sml-"@ + crate::text::decimal(a) != "sml-"@ + crate::text::decimal(b),
{
    crate::pagination::lemma_decimal_is_read_back(a);
    crate::pagination::lemma_decimal_is_read_back(b);
    let x = "sml-"@ + crate::text::decimal(a);
    let y = "sml-"@ + crate::text::decimal(b);
    let n = "sml-"@.len() as int;
    assert(x.skip(n) =~= crate::text::decimal(a));
    assert(y.skip(n) =~= crate::text::decimal(b));
}

} // verus!
