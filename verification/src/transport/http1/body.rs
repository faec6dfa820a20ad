//! Request bodies, read on demand and only up to a ceiling.

use super::head::Framing;
use super::wire::{read_line, Ending, Line, LineView};
use crate::bytes::{append_between, decode};
use crate::text::{chars_between, chars_of, find_char, parse_number, trimmed_end_blanks};
use vstd::prelude::*;
use vstd::string::*;
use vstd::utf8::*;

verus! {

/// The longest that the line before a chunk, or a trailer, may be.
pub const CHUNK_LINE_BYTES: usize = 128;

/// How many trailer fields a chunked body may carry.
pub const MAX_TRAILERS: usize = 16;

/// Why a body could not be handed over.
#[derive(Debug, Clone, Copy, PartialEq, Eq, Structural)]
pub enum BodyError {
    /// Bigger than is accepted here. It is not read.
    TooLarge,
    /// Framed wrongly, or not UTF-8.
    Malformed,
    /// The peer stopped sending, or ran out of time.
    Incomplete,
}

/// Where the reading of a body stands.
#[derive(Debug, Clone, Copy, PartialEq, Eq, Structural)]
pub enum Stage {
    /// This many bytes, and no more.
    Exact(usize),
    /// The line with the size of the next chunk.
    Size,
    /// This many bytes of a chunk.
    Data(usize),
    /// The line break after a chunk.
    DataEnd,
    /// The trailer fields, of which this many have been read.
    Trailer(usize),
}

/// The size that the line before a chunk gives, in hexadecimal. What follows a
/// semicolon is not looked at.
pub open spec fn chunk_size(line: Seq<char>) -> Option<int> {
    let digits = crate::text::trim_end_where(
        line.take(crate::text::find(line, ';')),
        crate::text::blanks(),
    );
    if digits.len() > 16 {
        None
    } else {
        crate::text::parsed_number(digits, 16, usize::MAX as int)
    }
}

/// Reads the size of a chunk.
pub fn parse_chunk_size(line: &str) -> (r: Option<usize>)
    ensures
        match r {
            Some(n) => chunk_size(line@) == Some(n as int),
            None => chunk_size(line@) is None,
        },
{
    let s = chars_of(line);
    let end = find_char(&s, ';', 0);
    let front = chars_between(&s, 0, end);
    assert(front@ =~= s@.take(end as int));
    let digits = trimmed_end_blanks(&front);
    if digits.len() > 16 {
        return None;
    }
    match parse_number(&digits, 16, usize::MAX as u64) {
        Some(n) => Some(n as usize),
        None => None,
    }
}

/// What reading a body comes to.
pub enum Run {
    /// Not enough to tell.
    More,
    Fail(BodyError),
    /// The body, and where the next request starts.
    Done(Seq<u8>, int),
}

/// How much more a body may grow.
pub open spec fn room(limit: int, held: int) -> int {
    if limit >= held {
        limit - held
    } else {
        0
    }
}

/// What reading comes to, from a stage on, with part of the body already read.
pub open spec fn run(
    stage: Stage,
    body: Seq<u8>,
    bytes: Seq<u8>,
    at: int,
    ending: Ending,
    limit: int,
) -> Run
    decreases bytes.len() - at,
{
    match stage {
        Stage::Exact(n) => if bytes.len() - at >= n {
            Run::Done(body + bytes.subrange(at, at + n), at + n)
        } else if ending is Open {
            Run::More
        } else {
            Run::Fail(BodyError::Incomplete)
        },
        Stage::Size => match super::wire::line_at(bytes, at, ending, CHUNK_LINE_BYTES as int) {
            LineView::More => Run::More,
            LineView::Failed => Run::Fail(BodyError::Incomplete),
            LineView::Eof => Run::Fail(BodyError::Incomplete),
            LineView::TooLong => Run::Fail(BodyError::Malformed),
            LineView::Invalid => Run::Fail(BodyError::Malformed),
            LineView::Text(line, next) => match chunk_size(line) {
                None => Run::Fail(BodyError::Malformed),
                Some(n) => if !(at < next <= bytes.len()) {
                    Run::Fail(BodyError::Malformed)
                } else if n == 0 {
                    run(Stage::Trailer(0), body, bytes, next, ending, limit)
                } else if n > room(limit, body.len() as int) {
                    Run::Fail(BodyError::TooLarge)
                } else {
                    run(Stage::Data(n as usize), body, bytes, next, ending, limit)
                },
            },
        },
        Stage::Data(n) => if bytes.len() - at >= n && n > 0 {
            run(
                Stage::DataEnd,
                body + bytes.subrange(at, at + n),
                bytes,
                at + n,
                ending,
                limit,
            )
        } else if ending is Open && n > 0 {
            Run::More
        } else {
            Run::Fail(BodyError::Incomplete)
        },
        Stage::DataEnd => match super::wire::line_at(bytes, at, ending, 2) {
            LineView::More => Run::More,
            LineView::Failed => Run::Fail(BodyError::Incomplete),
            LineView::Eof => Run::Fail(BodyError::Incomplete),
            LineView::TooLong => Run::Fail(BodyError::Malformed),
            LineView::Invalid => Run::Fail(BodyError::Malformed),
            LineView::Text(line, next) => if line.len() > 0 || !(at < next <= bytes.len()) {
                Run::Fail(BodyError::Malformed)
            } else {
                run(Stage::Size, body, bytes, next, ending, limit)
            },
        },
        Stage::Trailer(k) => if k > MAX_TRAILERS {
            Run::Fail(BodyError::Malformed)
        } else {
            match super::wire::line_at(bytes, at, ending, CHUNK_LINE_BYTES as int) {
                LineView::More => Run::More,
                LineView::Failed => Run::Fail(BodyError::Incomplete),
                LineView::Eof => Run::Fail(BodyError::Incomplete),
                LineView::TooLong => Run::Fail(BodyError::Malformed),
                LineView::Invalid => Run::Fail(BodyError::Malformed),
                LineView::Text(line, next) => if !(at < next <= bytes.len()) {
                    Run::Fail(BodyError::Malformed)
                } else if line.len() == 0 {
                    Run::Done(body, next)
                } else {
                    run(Stage::Trailer((k + 1) as usize), body, bytes, next, ending, limit)
                },
            }
        },
    }
}

/// A body being read.
#[derive(Debug)]
pub struct BodyReader {
    pub stage: Stage,
    pub collected: Vec<u8>,
    pub limit: usize,
}

/// How far a read came.
#[derive(Debug, Clone, Copy, PartialEq, Eq)]
pub enum Poll {
    /// More bytes are needed; everything before this position is used up.
    More(usize),
    Fail(BodyError),
    /// The body is whole; the next request starts here.
    Done(usize),
}

impl BodyReader {
    /// What reading comes to from here.
    pub open spec fn outlook(&self, bytes: Seq<u8>, at: int, ending: Ending) -> Run {
        run(self.stage, self.collected@, bytes, at, ending, self.limit as int)
    }

    /// A reader that stands where it cannot read nothing.
    pub open spec fn wf(&self) -> bool {
        self.stage matches Stage::Data(n) ==> n > 0
    }

    /// Reads as far as the bytes go. A reader that needs more has used up what
    /// it could, and goes on from there to the same end.
    pub fn poll(&mut self, bytes: &Vec<u8>, at: usize, ending: Ending) -> (r: Poll)
        requires
            old(self).wf(),
            at <= bytes@.len(),
        ensures
            final(self).wf(),
            final(self).limit == old(self).limit,
            match r {
                Poll::Fail(e) => old(self).outlook(bytes@, at as int, ending) == Run::Fail(e),
                Poll::Done(next) => old(self).outlook(bytes@, at as int, ending) == Run::Done(
                    final(self).collected@,
                    next as int,
                ) && at <= next <= bytes@.len(),
                Poll::More(next) => {
                    &&& ending is Open
                    &&& old(self).outlook(bytes@, at as int, ending) is More
                    &&& at <= next <= bytes@.len()
                    &&& forall|more: Seq<u8>, e: Ending|
                        #[trigger] old(self).outlook(bytes@ + more, at as int, e)
                            == final(self).outlook(bytes@ + more, next as int, e)
                },
            },
    {
        let ghost start = *self;
        let mut pos: usize = at;
        loop
            invariant
                self.wf(),
                self.limit == start.limit,
                at <= pos <= bytes@.len(),
                start.outlook(bytes@, at as int, ending) == self.outlook(
                    bytes@,
                    pos as int,
                    ending,
                ),
                ending is Open ==> forall|more: Seq<u8>, e: Ending|
                    #[trigger] start.outlook(bytes@ + more, at as int, e) == self.outlook(
                        bytes@ + more,
                        pos as int,
                        e,
                    ),
                *old(self) == start,
            decreases bytes@.len() - pos,
        {
            let ghost here = *self;
            match self.stage {
                Stage::Exact(n) => {
                    if bytes.len() - pos >= n {
                        append_between(&mut self.collected, bytes, pos, pos + n);
                        return Poll::Done(pos + n);
                    }
                    if ending != Ending::Open {
                        return Poll::Fail(BodyError::Incomplete);
                    }
                    let end = bytes.len();
                    append_between(&mut self.collected, bytes, pos, end);
                    self.stage = Stage::Exact(n - (end - pos));
                    proof {
                        assert forall|more: Seq<u8>, e: Ending|
                            #[trigger] start.outlook(bytes@ + more, at as int, e) == self.outlook(
                            bytes@ + more,
                            end as int,
                            e,
                        ) by {
                            lemma_exact_in_parts(here, *self, bytes@, pos as int, more, e);
                        }
                    }
                    return Poll::More(end);
                },
                Stage::Data(n) => {
                    if bytes.len() - pos >= n {
                        append_between(&mut self.collected, bytes, pos, pos + n);
                        self.stage = Stage::DataEnd;
                        proof {
                            assert forall|more: Seq<u8>, e: Ending|
                                #[trigger] here.outlook(bytes@ + more, pos as int, e) == self.outlook(
                                bytes@ + more,
                                pos + n,
                                e,
                            ) by {
                                assert((bytes@ + more).subrange(pos as int, pos + n)
                                    =~= bytes@.subrange(pos as int, pos + n));
                            }
                        }
                        pos = pos + n;
                    } else {
                        if ending != Ending::Open {
                            return Poll::Fail(BodyError::Incomplete);
                        }
                        let end = bytes.len();
                        append_between(&mut self.collected, bytes, pos, end);
                        self.stage = Stage::Data(n - (end - pos));
                        proof {
                            assert forall|more: Seq<u8>, e: Ending|
                                #[trigger] start.outlook(bytes@ + more, at as int, e) == self.outlook(
                                bytes@ + more,
                                end as int,
                                e,
                            ) by {
                                lemma_data_in_parts(here, *self, bytes@, pos as int, more, e);
                            }
                        }
                        return Poll::More(end);
                    }
                },
                Stage::Size => {
                    match read_line(bytes, pos, ending, CHUNK_LINE_BYTES) {
                        Line::More => {
                            return Poll::More(pos);
                        },
                        Line::Failed | Line::Eof => {
                            return Poll::Fail(BodyError::Incomplete);
                        },
                        Line::TooLong | Line::Invalid => {
                            return Poll::Fail(BodyError::Malformed);
                        },
                        Line::Text(line, next) => {
                            match parse_chunk_size(line.as_str()) {
                                None => {
                                    return Poll::Fail(BodyError::Malformed);
                                },
                                Some(n) => {
                                    let left: usize = if self.limit >= self.collected.len() {
                                        self.limit - self.collected.len()
                                    } else {
                                        0
                                    };
                                    if n == 0 {
                                        self.stage = Stage::Trailer(0);
                                    } else if n > left {
                                        return Poll::Fail(BodyError::TooLarge);
                                    } else {
                                        self.stage = Stage::Data(n);
                                    }
                                },
                            }
                            proof {
                                lemma_line_step(here, *self, bytes@, pos as int, next as int);
                            }
                            pos = next;
                        },
                    }
                },
                Stage::DataEnd => {
                    match read_line(bytes, pos, ending, 2) {
                        Line::More => {
                            return Poll::More(pos);
                        },
                        Line::Failed | Line::Eof => {
                            return Poll::Fail(BodyError::Incomplete);
                        },
                        Line::TooLong | Line::Invalid => {
                            return Poll::Fail(BodyError::Malformed);
                        },
                        Line::Text(line, next) => {
                            if !line.as_str().is_empty() {
                                return Poll::Fail(BodyError::Malformed);
                            }
                            self.stage = Stage::Size;
                            proof {
                                lemma_line_step(here, *self, bytes@, pos as int, next as int);
                            }
                            pos = next;
                        },
                    }
                },
                Stage::Trailer(k) => {
                    if k > MAX_TRAILERS {
                        return Poll::Fail(BodyError::Malformed);
                    }
                    match read_line(bytes, pos, ending, CHUNK_LINE_BYTES) {
                        Line::More => {
                            return Poll::More(pos);
                        },
                        Line::Failed | Line::Eof => {
                            return Poll::Fail(BodyError::Incomplete);
                        },
                        Line::TooLong | Line::Invalid => {
                            return Poll::Fail(BodyError::Malformed);
                        },
                        Line::Text(line, next) => {
                            if line.as_str().is_empty() {
                                return Poll::Done(next);
                            }
                            self.stage = Stage::Trailer(k + 1);
                            proof {
                                lemma_line_step(here, *self, bytes@, pos as int, next as int);
                            }
                            pos = next;
                        },
                    }
                },
            }
        }
    }
}

/// A step over a whole line is the same step whatever comes after the line.
proof fn lemma_line_step(from: BodyReader, to: BodyReader, bytes: Seq<u8>, at: int, next: int)
    requires
        0 <= at < next <= bytes.len(),
        from.collected == to.collected,
        from.limit == to.limit,
        !(from.stage is Exact),
        !(from.stage is Data),
        ({
            let budget = if from.stage is DataEnd {
                2int
            } else {
                CHUNK_LINE_BYTES as int
            };
            let line = super::wire::line_at(bytes, at, Ending::Open, budget);
            &&& line matches LineView::Text(text, end) && end == next && (match from.stage {
                Stage::Size => chunk_size(text) matches Some(n) && if n == 0 {
                    to.stage == Stage::Trailer(0)
                } else {
                    n <= room(from.limit as int, from.collected@.len() as int) && to.stage
                        == Stage::Data(n as usize)
                },
                Stage::DataEnd => text.len() == 0 && to.stage == Stage::Size,
                Stage::Trailer(k) => k <= MAX_TRAILERS && text.len() > 0 && to.stage
                    == Stage::Trailer((k + 1) as usize),
                _ => false,
            })
        }),
    ensures
        forall|more: Seq<u8>, e: Ending|
            #[trigger] from.outlook(bytes + more, at, e) == to.outlook(
                bytes + more,
                next,
                e,
            ),
{
    let budget = if from.stage is DataEnd {
        2int
    } else {
        CHUNK_LINE_BYTES as int
    };
    assert forall|more: Seq<u8>, e: Ending|
        #[trigger] from.outlook(bytes + more, at, e) == to.outlook(
            bytes + more,
            next,
            e,
        ) by {
        super::wire::lemma_line_is_final(bytes, at, budget, more, e);
    }
}

/// Taking part of a body of known length leaves a shorter one.
proof fn lemma_exact_in_parts(
    from: BodyReader,
    to: BodyReader,
    bytes: Seq<u8>,
    at: int,
    more: Seq<u8>,
    e: Ending,
)
    requires
        0 <= at <= bytes.len(),
        from.stage matches Stage::Exact(n) && bytes.len() - at < n && to.stage == Stage::Exact(
            (n - (bytes.len() - at)) as usize,
        ),
        to.collected@ == from.collected@ + bytes.subrange(at, bytes.len() as int),
        from.limit == to.limit,
    ensures
        from.outlook(bytes + more, at, e) == to.outlook(bytes + more, bytes.len() as int, e),
{
    let all = bytes + more;
    let n = from.stage->Exact_0;
    let end = bytes.len() as int;
    if all.len() - at >= n {
        assert(from.collected@ + all.subrange(at, at + n) =~= to.collected@ + all.subrange(
            end,
            at + n,
        ));
    }
}

/// Taking part of a chunk leaves a shorter one.
proof fn lemma_data_in_parts(
    from: BodyReader,
    to: BodyReader,
    bytes: Seq<u8>,
    at: int,
    more: Seq<u8>,
    e: Ending,
)
    requires
        0 <= at <= bytes.len(),
        from.stage matches Stage::Data(n) && bytes.len() - at < n && to.stage == Stage::Data(
            (n - (bytes.len() - at)) as usize,
        ),
        to.collected@ == from.collected@ + bytes.subrange(at, bytes.len() as int),
        from.limit == to.limit,
    ensures
        from.outlook(bytes + more, at, e) == to.outlook(bytes + more, bytes.len() as int, e),
{
    let all = bytes + more;
    let n = from.stage->Data_0;
    let end = bytes.len() as int;
    if all.len() - at >= n {
        assert(from.collected@ + all.subrange(at, at + n) =~= to.collected@ + all.subrange(
            end,
            at + n,
        ));
    }
}

/// Reading that ends `k` bytes further on.
pub open spec fn run_later(r: Run, k: int) -> Run {
    match r {
        Run::Done(body, next) => Run::Done(body, next + k),
        other => other,
    }
}

/// Reading a body does not depend on what came before it.
#[verifier::spinoff_prover]
pub proof fn lemma_run_alone(
    stage: Stage,
    body: Seq<u8>,
    bytes: Seq<u8>,
    at: int,
    k: int,
    ending: Ending,
    limit: int,
)
    requires
        0 <= k <= at <= bytes.len(),
    ensures
        run(stage, body, bytes, at, ending, limit) == run_later(
            run(stage, body, bytes.skip(k), at - k, ending, limit),
            k,
        ),
    decreases bytes.len() - at,
{
    let rest = bytes.skip(k);
    match stage {
        Stage::Exact(n) => {
            if bytes.len() - at >= n {
                assert(rest.subrange(at - k, at - k + n) =~= bytes.subrange(at, at + n));
            }
        },
        Stage::Data(n) => {
            if bytes.len() - at >= n && n > 0 {
                assert(rest.subrange(at - k, at - k + n) =~= bytes.subrange(at, at + n));
                lemma_run_alone(
                    Stage::DataEnd,
                    body + bytes.subrange(at, at + n),
                    bytes,
                    at + n,
                    k,
                    ending,
                    limit,
                );
            }
        },
        Stage::Size => {
            super::wire::lemma_line_alone(bytes, at, k, ending, CHUNK_LINE_BYTES as int);
            if let LineView::Text(line, next) = super::wire::line_at(
                bytes,
                at,
                ending,
                CHUNK_LINE_BYTES as int,
            ) {
                if at < next <= bytes.len() {
                    lemma_run_alone(Stage::Trailer(0), body, bytes, next, k, ending, limit);
                    if let Some(n) = chunk_size(line) {
                        lemma_run_alone(
                            Stage::Data(n as usize),
                            body,
                            bytes,
                            next,
                            k,
                            ending,
                            limit,
                        );
                    }
                }
            }
        },
        Stage::DataEnd => {
            super::wire::lemma_line_alone(bytes, at, k, ending, 2);
            if let LineView::Text(line, next) = super::wire::line_at(bytes, at, ending, 2) {
                if at < next <= bytes.len() {
                    lemma_run_alone(Stage::Size, body, bytes, next, k, ending, limit);
                }
            }
        },
        Stage::Trailer(n) => {
            super::wire::lemma_line_alone(bytes, at, k, ending, CHUNK_LINE_BYTES as int);
            if let LineView::Text(line, next) = super::wire::line_at(
                bytes,
                at,
                ending,
                CHUNK_LINE_BYTES as int,
            ) {
                if at < next <= bytes.len() {
                    lemma_run_alone(
                        Stage::Trailer((n + 1) as usize),
                        body,
                        bytes,
                        next,
                        k,
                        ending,
                        limit,
                    );
                }
            }
        },
    }
}

/// What is still missing of a chunk that has begun.
pub open spec fn pending(stage: Stage) -> int {
    match stage {
        Stage::Data(n) => n as int,
        _ => 0,
    }
}

/// A chunked body is never longer than its ceiling, and never grows past it on
/// the way there.
pub proof fn law_a_chunked_body_stays_under_its_ceiling(
    stage: Stage,
    body: Seq<u8>,
    bytes: Seq<u8>,
    at: int,
    ending: Ending,
    limit: int,
)
    requires
        0 <= at <= bytes.len(),
        !(stage is Exact),
        body.len() + pending(stage) <= limit <= usize::MAX,
    ensures
        run(stage, body, bytes, at, ending, limit) matches Run::Done(whole, next) ==> body.len()
            <= whole.len() <= limit && at < next <= bytes.len(),
    decreases bytes.len() - at,
{
    match stage {
        Stage::Data(n) => {
            if bytes.len() - at >= n && n > 0 {
                let grown = body + bytes.subrange(at, at + n);
                assert(grown.len() == body.len() + n);
                law_a_chunked_body_stays_under_its_ceiling(
                    Stage::DataEnd,
                    grown,
                    bytes,
                    at + n,
                    ending,
                    limit,
                );
            }
        },
        Stage::Size => {
            if let LineView::Text(line, next) = super::wire::line_at(
                bytes,
                at,
                ending,
                CHUNK_LINE_BYTES as int,
            ) {
                if at < next <= bytes.len() {
                    law_a_chunked_body_stays_under_its_ceiling(
                        Stage::Trailer(0),
                        body,
                        bytes,
                        next,
                        ending,
                        limit,
                    );
                    lemma_chunk_size(line);
                    if let Some(n) = chunk_size(line) {
                        if n <= room(limit, body.len() as int) && n > 0 {
                            law_a_chunked_body_stays_under_its_ceiling(
                                Stage::Data(n as usize),
                                body,
                                bytes,
                                next,
                                ending,
                                limit,
                            );
                        }
                    }
                }
            }
        },
        Stage::DataEnd => {
            if let LineView::Text(line, next) = super::wire::line_at(bytes, at, ending, 2) {
                if at < next <= bytes.len() {
                    law_a_chunked_body_stays_under_its_ceiling(
                        Stage::Size,
                        body,
                        bytes,
                        next,
                        ending,
                        limit,
                    );
                }
            }
        },
        Stage::Trailer(n) => {
            if let LineView::Text(line, next) = super::wire::line_at(
                bytes,
                at,
                ending,
                CHUNK_LINE_BYTES as int,
            ) {
                if at < next <= bytes.len() && n <= MAX_TRAILERS {
                    law_a_chunked_body_stays_under_its_ceiling(
                        Stage::Trailer((n + 1) as usize),
                        body,
                        bytes,
                        next,
                        ending,
                        limit,
                    );
                }
            }
        },
        Stage::Exact(_) => {},
    }
}

/// A chunk's size is not negative.
proof fn lemma_chunk_size(line: Seq<char>)
    ensures
        chunk_size(line) matches Some(n) ==> 0 <= n <= usize::MAX,
{
    let digits = crate::text::trim_end_where(
        line.take(crate::text::find(line, ';')),
        crate::text::blanks(),
    );
    if crate::text::is_number(digits, 16) {
        crate::text::lemma_number_grows(digits, 16, 0);
    }
}

/// A request's body.
#[derive(Debug)]
pub struct Body {
    pub framing: Framing,
    /// Whether the peer waits to be told to send it.
    pub must_send_continue: bool,
    /// Whether every byte that the framing promised was read. Only then is it
    /// known where the next request starts.
    pub finished: bool,
    /// Whether reading it was begun.
    pub started: bool,
    pub reader: BodyReader,
}

/// What beginning to read a body comes to.
#[derive(Debug)]
pub enum BodyStart {
    /// All there is to it.
    Done(Result<String, BodyError>),
    /// Bytes are to be read, after telling the peer to send them where `true`.
    Read(bool),
}

/// What a body's bytes are as text.
pub open spec fn body_text(bytes: Seq<u8>) -> Result<Seq<char>, BodyError> {
    if valid_utf8(bytes) {
        Ok(decode_utf8(bytes))
    } else {
        Err(BodyError::Malformed)
    }
}

/// What reading a body came to.
#[derive(Debug)]
pub enum BodyPoll {
    /// More bytes are needed.
    More,
    Ready(Result<String, BodyError>),
}

/// The text that a body came to.
pub open spec fn text_view(r: Result<String, BodyError>) -> Result<Seq<char>, BodyError> {
    match r {
        Ok(s) => Ok(s@),
        Err(e) => Err(e),
    }
}

/// Where reading starts for this framing.
pub open spec fn first_stage(framing: Framing) -> Stage {
    match framing {
        Framing::Length(n) => Stage::Exact(n),
        _ => Stage::Size,
    }
}

/// What beginning to read a body does.
pub open spec fn started(before: Body, after: Body, limit: usize, r: BodyStart) -> bool {
    match r {
        BodyStart::Done(Ok(s)) => !before.started && before.framing is Empty && s@
            == Seq::<char>::empty() && after.finished
            && after.must_send_continue == before.must_send_continue,
        BodyStart::Done(Err(BodyError::Malformed)) => before.started && after
            == before,
        BodyStart::Done(Err(BodyError::TooLarge)) => !before.started && (
        before.framing matches Framing::Length(n) && n > limit)
            && after.finished == before.finished
            && after.must_send_continue == before.must_send_continue,
        BodyStart::Done(Err(BodyError::Incomplete)) => false,
        BodyStart::Read(send) => {
            &&& !before.started
            &&& !(before.framing is Empty)
            &&& (before.framing matches Framing::Length(n) ==> n <= limit)
            &&& send == before.must_send_continue
            &&& !after.must_send_continue
            &&& after.finished == before.finished
            &&& after.reader.stage == first_stage(before.framing)
            &&& after.reader.collected@ == Seq::<u8>::empty()
            &&& after.reader.limit == limit
        },
    }
}

/// What beginning to discard a body does.
pub open spec fn drained(before: Body, after: Body, limit: usize, r: bool) -> bool {
    &&& after.finished == before.finished
    &&& after.must_send_continue == before.must_send_continue
    &&& r == (!before.started && !before.finished && (before.framing matches Framing::Length(n) && n
        <= limit))
    &&& !r ==> after == before
    &&& r ==> after.started && after.reader.stage == first_stage(before.framing)
        && after.reader.collected@ == Seq::<u8>::empty()
}

impl Body {
    /// A body that is still on the wire.
    pub fn new(framing: Framing, expects_continue: bool) -> (r: Body)
        ensures
            r.framing == framing,
            r.must_send_continue == expects_continue,
            r.finished == (framing is Empty),
            !r.started,
            r.reader.wf(),
    {
        Body {
            framing,
            must_send_continue: expects_continue,
            finished: match framing {
                Framing::Empty => true,
                _ => false,
            },
            started: false,
            reader: BodyReader { stage: Stage::Size, collected: Vec::new(), limit: 0 },
        }
    }

    /// Begins to read the body. One that is declared longer than `limit` is
    /// refused without a byte being read, and without being asked for; a second
    /// attempt is refused too.
    pub fn start(&mut self, limit: usize) -> (r: BodyStart)
        requires
            old(self).reader.wf(),
        ensures
            final(self).reader.wf(),
            final(self).framing == old(self).framing,
            final(self).started,
            started(*old(self), *final(self), limit, r),
    {
        if self.started {
            return BodyStart::Done(Err(BodyError::Malformed));
        }
        self.started = true;
        let stage = match self.framing {
            Framing::Empty => {
                self.finished = true;
                let nothing = String::new();
                assert(nothing@ =~= Seq::<char>::empty());
                return BodyStart::Done(Ok(nothing));
            },
            Framing::Length(n) => {
                if n > limit {
                    return BodyStart::Done(Err(BodyError::TooLarge));
                }
                Stage::Exact(n)
            },
            Framing::Chunked => Stage::Size,
        };
        let send = self.must_send_continue;
        self.must_send_continue = false;
        let collected: Vec<u8> = Vec::new();
        assert(collected@ =~= Seq::<u8>::empty());
        self.reader = BodyReader { stage, collected, limit };
        BodyStart::Read(send)
    }

    /// Begins to discard a body that nobody asked for, where that is cheap: a
    /// declared length that would have been accepted. Says whether there is
    /// anything to discard.
    pub fn start_drain(&mut self, limit: usize) -> (r: bool)
        requires
            old(self).reader.wf(),
        ensures
            final(self).reader.wf(),
            final(self).framing == old(self).framing,
            drained(*old(self), *final(self), limit, r),
    {
        if self.started || self.finished {
            return false;
        }
        match self.framing {
            Framing::Length(n) => {
                if n > limit {
                    return false;
                }
                self.started = true;
                let collected: Vec<u8> = Vec::new();
                assert(collected@ =~= Seq::<u8>::empty());
                self.reader = BodyReader { stage: Stage::Exact(n), collected, limit };
                true
            },
            _ => false,
        }
    }

    /// Reads on. The bytes used up are taken off the front of `input`. Whatever
    /// arrives later, reading on comes to what reading in one go would.
    pub fn poll(&mut self, input: &mut Vec<u8>, ending: Ending) -> (r: BodyPoll)
        requires
            old(self).reader.wf(),
        ensures
            final(self).reader.wf(),
            final(self).framing == old(self).framing,
            final(self).started == old(self).started,
            final(self).must_send_continue == old(self).must_send_continue,
            match r {
                BodyPoll::More => {
                    &&& ending is Open
                    &&& old(self).reader.outlook(old(input)@, 0, ending) is More
                    &&& final(self).finished == old(self).finished
                    &&& forall|more: Seq<u8>, e: Ending|
                        same_end(
                            #[trigger] old(self).reader.outlook(old(input)@ + more, 0, e),
                            final(self).reader.outlook(final(input)@ + more, 0, e),
                            old(input)@.len() - final(input)@.len(),
                        )
                },
                BodyPoll::Ready(result) => match old(self).reader.outlook(old(input)@, 0, ending) {
                    Run::More => false,
                    Run::Fail(e) => text_view(result) == Err::<Seq<char>, BodyError>(e)
                        && final(self).finished == old(self).finished && final(input)@
                        == old(input)@,
                    Run::Done(body, next) => text_view(result) == body_text(body)
                        && final(self).finished && final(input)@ == old(input)@.skip(next),
                },
            },
    {
        let ghost before = input@;
        let ghost start = self.reader;
        match self.reader.poll(input, 0, ending) {
            Poll::More(next) => {
                let rest = crate::bytes::bytes_between(input, next, input.len());
                *input = rest;
                proof {
                    assert(input@ =~= before.skip(next as int));
                    assert forall|more: Seq<u8>, e: Ending|
                        same_end(
                            #[trigger] start.outlook(before + more, 0, e),
                            self.reader.outlook(input@ + more, 0, e),
                            next as int,
                        ) by {
                        assert(start.outlook(before + more, 0, e) == self.reader.outlook(
                            before + more,
                            next as int,
                            e,
                        ));
                        assert((before + more).skip(next as int) =~= input@ + more);
                        lemma_run_alone(
                            self.reader.stage,
                            self.reader.collected@,
                            before + more,
                            next as int,
                            next as int,
                            e,
                            self.reader.limit as int,
                        );
                    }
                }
                BodyPoll::More
            },
            Poll::Fail(e) => BodyPoll::Ready(Err(e)),
            Poll::Done(next) => {
                let rest = crate::bytes::bytes_between(input, next, input.len());
                *input = rest;
                assert(input@ =~= before.skip(next as int));
                self.finished = true;
                let whole = crate::bytes::bytes_between(
                    &self.reader.collected,
                    0,
                    self.reader.collected.len(),
                );
                assert(whole@ =~= self.reader.collected@);
                match decode(whole) {
                    Ok(s) => BodyPoll::Ready(Ok(s)),
                    Err(_) => BodyPoll::Ready(Err(BodyError::Malformed)),
                }
            },
        }
    }
}

/// Two readings that come to the same, the second having `k` bytes fewer ahead
/// of it.
pub open spec fn same_end(a: Run, b: Run, k: int) -> bool {
    a == run_later(b, k)
}

} // verus!
