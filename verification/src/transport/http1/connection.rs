//! One connection, from the first request line to the last.

use super::body::Body;
use super::head::{read_head, Head, HeadRead, HeadStep, HeadView};
use super::response::{render, Method, MethodView, Response, ResponseView, Version};
use super::wire::Ending;
use crate::bytes::{append_between, bytes_between, encode};
use crate::calendar::Span;
use crate::transport::line::MAX_MESSAGE_BYTES;
use vstd::prelude::*;
use vstd::utf8::*;

verus! {

/// Live connections allowed at once, by default.
pub const DEFAULT_MAX_CONNECTIONS: usize = 512;

/// What a peer is allowed to make the server hold.
#[derive(Debug, Clone, Copy)]
pub struct Limits {
    /// Live connections at once, across all peers.
    pub max_connections: usize,
    /// A whole request head, the empty line that ends it counted.
    pub max_head_bytes: usize,
    /// How many header fields one request may carry.
    pub max_headers: usize,
    /// The largest body that will be read.
    pub max_body_bytes: usize,
    /// How long a peer may take over a head or a body.
    pub read_timeout: Span,
    /// How long a connection may sit between requests.
    pub idle_timeout: Span,
    /// How long a write may take.
    pub write_timeout: Span,
}

impl Default for Limits {
    fn default() -> (r: Self)
        ensures
            r.max_connections == 512,
            r.max_head_bytes == 32_768,
            r.max_headers == 100,
            r.max_body_bytes == 8_388_608,
            r.read_timeout == (Span { secs: 30, nanos: 0 }),
            r.idle_timeout == (Span { secs: 120, nanos: 0 }),
            r.write_timeout == (Span { secs: 30, nanos: 0 }),
    {
        Limits {
            max_connections: DEFAULT_MAX_CONNECTIONS,
            max_head_bytes: 32_768,
            max_headers: 100,
            max_body_bytes: MAX_MESSAGE_BYTES,
            read_timeout: Span::from_secs(30),
            idle_timeout: Span::from_secs(120),
            write_timeout: Span::from_secs(30),
        }
    }
}

/// A connection's incoming side: what has arrived and is not used up, and
/// whether more can arrive.
#[derive(Debug)]
pub struct Connection {
    pub input: Vec<u8>,
    pub ending: Ending,
}

/// What to do next on a connection that is between requests.
#[derive(Debug)]
pub enum Next {
    /// Read more bytes.
    Receive,
    /// Close: the peer is gone, or has gone quiet.
    Hangup,
    /// Send these bytes, then close.
    Reject(Vec<u8>),
    /// Serve this request.
    Serve(Head, Body),
}

/// Whether a connection can carry another request.
pub open spec fn reusable(head: HeadView, body_finished: bool, response: ResponseView) -> bool {
    !head.wants_close && !response.close && body_finished
}

/// The response as it is sent: marked as the last where it is.
pub open spec fn as_sent(response: ResponseView, reuse: bool) -> ResponseView {
    if reuse {
        response
    } else {
        response.last()
    }
}

/// How a request is concluded.
#[derive(Debug)]
pub struct Conclusion {
    /// What to send.
    pub bytes: Vec<u8>,
    /// Whether the connection carries on.
    pub reuse: bool,
}

/// What the bytes at hand say of the next request, and which of them are left.
pub open spec fn next_step(
    before: Seq<u8>,
    after: Seq<u8>,
    ending: Ending,
    limits: Limits,
    r: Next,
) -> bool {
    match super::head::next_head(
        before,
        0,
        ending,
        limits.max_head_bytes as int,
        limits.max_headers as int,
    ) {
        HeadStep::More => r is Receive && after == before,
        HeadStep::Hangup => r is Hangup && after == before,
        HeadStep::Reject(response) => after == before && (
        r matches Next::Reject(bytes) && bytes@ == super::response::rendered(
            MethodView::Get,
            Version::Http11,
            response,
            !response.close,
        )),
        HeadStep::Ready(head, next) => after == before.skip(next)
            && (r matches Next::Serve(h, body) && h@ == head && body.framing == head.framing
            && body.must_send_continue == head.expects_continue && !body.started
            && body.finished == (head.framing is Empty) && body.reader.wf()),
    }
}

/// The bytes at hand after more arrived.
pub open spec fn arrived(input: Seq<u8>, more: Seq<u8>) -> Seq<u8> {
    input + more
}

impl Connection {
    pub fn new() -> (r: Connection)
        ensures
            r.input@ == Seq::<u8>::empty(),
            r.ending == Ending::Open,
    {
        let input: Vec<u8> = Vec::new();
        assert(input@ =~= Seq::<u8>::empty());
        Connection { input, ending: Ending::Open }
    }

    /// Takes in bytes that arrived.
    pub fn received(&mut self, more: &Vec<u8>)
        ensures
            final(self).input@ == arrived(old(self).input@, more@),
            final(self).ending == old(self).ending,
    {
        append_between(&mut self.input, more, 0, more.len());
        assert(more@.subrange(0, more@.len() as int) =~= more@);
    }

    /// Notes that nothing more will arrive.
    pub fn ended(&mut self, how: Ending)
        ensures
            final(self).input@ == old(self).input@,
            final(self).ending == how,
    {
        self.ending = how;
    }

    /// What the bytes at hand say of the next request. A request that is ready
    /// has its head used up.
    pub fn next_request(&mut self, limits: &Limits) -> (r: Next)
        ensures
            final(self).ending == old(self).ending,
            next_step(old(self).input@, final(self).input@, old(self).ending, *limits, r),
    {
        match read_head(&self.input, 0, self.ending, limits.max_head_bytes, limits.max_headers) {
            HeadRead::More => Next::Receive,
            HeadRead::Hangup => Next::Hangup,
            HeadRead::Reject(response) => {
                let keep_alive = !response.closes();
                Next::Reject(render(&Method::Get, Version::Http11, &response, keep_alive))
            },
            HeadRead::Ready(head, next) => {
                let rest = bytes_between(&self.input, next, self.input.len());
                assert(rest@ =~= self.input@.skip(next as int));
                self.input = rest;
                let body = Body::new(head.framing, head.expects_continue);
                Next::Serve(head, body)
            },
        }
    }
}

/// Concludes a request. The connection is kept only where the peer asked for
/// it, the answer allows it, and it is known where the next request starts.
pub fn conclude(head: &Head, body_finished: bool, response: Response) -> (r: Conclusion)
    requires
        response@.tidy(),
    ensures
        r.reuse == reusable(head@, body_finished, response@),
        r.bytes@ == super::response::rendered(
            head@.method,
            head@.version,
            as_sent(response@, r.reuse),
            !as_sent(response@, r.reuse).close,
        ),
{
    let reuse = !head.wants_close && !response.closes() && body_finished;
    let sent = if reuse {
        response
    } else {
        response.closing()
    };
    let keep_alive = !sent.closes();
    let bytes = render(&head.method, head.version, &sent, keep_alive);
    Conclusion { bytes, reuse }
}

/// The answer for a handler that did not return one.
pub fn handler_failed() -> (r: Response)
    ensures
        r@ == super::response::plain(500, "Internal Server Error\n"@).last(),
        r@.tidy(),
{
    Response::new(500).with_body("text/plain", encode("Internal Server Error\n")).closing()
}

/// What tells a peer to send the body it is holding back.
pub fn continue_line() -> (r: Vec<u8>)
    ensures
        r@ == encode_utf8("HTTP/1.1 100 Continue\r\n\r\n"@),
{
    encode("HTTP/1.1 100 Continue\r\n\r\n")
}

/// How much a connection that is being closed reads and discards, so that the
/// peer sees the answer instead of a reset.
pub const LINGER_BYTES: usize = 65_536;

/// Takes a slot among `max` of which `live` are taken: how many are taken
/// then, or nothing where none is free.
pub fn claim_slot(live: usize, max: usize) -> (r: Option<usize>)
    ensures
        match r {
            Some(n) => live < max && n == after_claim(live as int, max as int),
            None => live >= max,
        },
{
    if live < max {
        Some(live + 1)
    } else {
        None
    }
}

/// How many slots are taken after one is given back. A slot that was claimed is
/// there to give back, whatever became of the connection that had it.
pub fn release_slot(live: usize) -> (r: usize)
    ensures
        r == after_release(live as int),
{
    if live > 0 {
        live - 1
    } else {
        0
    }
}

/// How many slots are taken after one is claimed, where one is free.
pub open spec fn after_claim(live: int, max: int) -> int {
    if live < max {
        live + 1
    } else {
        live
    }
}

/// How many slots are taken after one is given back.
pub open spec fn after_release(live: int) -> int {
    if live > 0 {
        live - 1
    } else {
        0
    }
}

/// How many slots are taken after these comings and goings: `true` is a claim,
/// `false` is a slot given back.
pub open spec fn slots_after(live: int, max: int, events: Seq<bool>) -> int
    decreases events.len(),
{
    if events.len() == 0 {
        live
    } else {
        let before = slots_after(live, max, events.drop_last());
        if events.last() {
            after_claim(before, max)
        } else {
            after_release(before)
        }
    }
}

/// However connections come and go, no more slots are taken than there are;
/// one is claimed exactly where one is free; and a slot that was claimed and
/// given back leaves as many free as before.
pub proof fn law_slots_stay_under_the_ceiling(live: int, max: int, events: Seq<bool>)
    requires
        0 <= live <= max,
    ensures
        0 <= slots_after(live, max, events) <= max,
        live < max ==> after_claim(live, max) == live + 1 && after_release(
            after_claim(live, max),
        ) == live,
        live == max ==> after_claim(live, max) == live,
    decreases events.len(),
{
    if events.len() > 0 {
        law_slots_stay_under_the_ceiling(live, max, events.drop_last());
    }
}

/// What waiting for a connection came to.
#[derive(Debug, Clone, Copy, PartialEq, Eq, Structural)]
pub enum Arrival {
    /// A peer connected.
    Peer,
    /// A signal came in between.
    Interrupted,
    /// It failed: out of descriptors, or a peer that left at once.
    Failed,
}

/// What to do about an arrival.
#[derive(Debug, Clone, Copy, PartialEq, Eq, Structural)]
pub enum Reception {
    /// Serve the peer; this many are being served then.
    Serve(usize),
    /// Tell the peer that there is no room.
    Refuse,
    /// Close the connection without a word: the peer could not understand one
    /// before a handshake.
    Close,
    /// Wait for the next one.
    Next,
    /// Wait for the next one after a pause.
    Pause,
}

/// Decides about an arrival. Nothing ends the waiting, and nothing makes it
/// spin.
pub fn receive(arrival: Arrival, live: usize, max: usize, tls: bool) -> (r: Reception)
    ensures
        r == (match arrival {
            Arrival::Interrupted => Reception::Next,
            Arrival::Failed => Reception::Pause,
            Arrival::Peer => if live < max {
                Reception::Serve((live + 1) as usize)
            } else if tls {
                Reception::Close
            } else {
                Reception::Refuse
            },
        }),
{
    match arrival {
        Arrival::Interrupted => Reception::Next,
        Arrival::Failed => Reception::Pause,
        Arrival::Peer => match claim_slot(live, max) {
            Some(n) => Reception::Serve(n),
            None => if tls {
                Reception::Close
            } else {
                Reception::Refuse
            },
        },
    }
}

/// What is left of the bytes that a closing connection discards, after some
/// were. Nothing the peer says makes it more.
pub fn linger(left: usize, discarded: usize) -> (r: usize)
    ensures
        r == if discarded >= left {
            0
        } else {
            left - discarded
        },
{
    if discarded >= left {
        0
    } else {
        left - discarded
    }
}

/// A connection is told to stay open exactly where it does.
pub proof fn law_the_answer_says_whether_the_connection_stays(
    head: HeadView,
    body_finished: bool,
    response: ResponseView,
)
    ensures
        ({
            let reuse = reusable(head, body_finished, response);
            !as_sent(response, reuse).close == reuse
        }),
{
}

/// A connection whose request's body was not read to its end carries no other
/// request.
pub proof fn law_an_unread_body_ends_the_connection(head: HeadView, response: ResponseView)
    ensures
        !reusable(head, false, response),
{
}

} // verus!
