//! Messages that are one line each, read in whatever pieces they arrive.
//!
//! Bytes are kept as they are and decoded only once a whole line is there, so
//! a character cut in two survives, and so does a wait that ran out halfway. A
//! line that is too long is skipped to its end, and the next one is read.

use crate::bytes::{append_between, decode, find_byte};
use crate::calendar::{describe_span, time_left, Span};
use crate::text::{decimal_text, join, join3};
use crate::types::{JsonRpcMessage, McpError, McpErrorView, MessageView};
use vstd::prelude::*;
use vstd::string::*;
use vstd::utf8::*;

verus! {

/// The largest message a transport reads unless told otherwise.
pub const MAX_MESSAGE_BYTES: usize = 8_388_608;

/// Reads lines out of bytes.
#[derive(Debug)]
pub struct LineReader {
    /// The part of a line that has arrived.
    partial: Vec<u8>,
    /// The longest line that is accepted, its line break counted.
    max_bytes: usize,
    /// What `max_bytes` becomes once this line has ended.
    next_max: usize,
    /// Whether this line is already too long, and is being skipped.
    overflowed: bool,
    /// Whether a deadline is set on the source.
    armed: bool,
}

/// What a [`LineReader`] is.
pub struct LineReaderView {
    pub partial: Seq<u8>,
    pub max_bytes: int,
    pub next_max: int,
    pub overflowed: bool,
    pub armed: bool,
}

impl View for LineReader {
    type V = LineReaderView;

    closed spec fn view(&self) -> LineReaderView {
        LineReaderView {
            partial: self.partial@,
            max_bytes: self.max_bytes as int,
            next_max: self.next_max as int,
            overflowed: self.overflowed,
            armed: self.armed,
        }
    }
}

/// What a line comes to, given all its bytes before the line break.
pub open spec fn line_message(line: Seq<u8>, max_bytes: int) -> Result<MessageView, McpErrorView> {
    let whole = line.push(10);
    if whole.len() > max_bytes {
        Err(
            McpErrorView::InvalidMessage(
                "message exceeds the "@ + crate::text::decimal(max_bytes) + " byte limit"@,
            ),
        )
    } else if !valid_utf8(whole) {
        Err(
            McpErrorView::InvalidMessage(
                "message is not UTF-8: "@ + crate::bytes::utf8_complaint(whole),
            ),
        )
    } else {
        crate::types::message_in(decode_utf8(whole))
    }
}

impl LineReaderView {
    /// The reader is between lines.
    pub open spec fn idle(self) -> bool {
        self.partial.len() == 0 && !self.overflowed
    }

    /// The reader never holds more than it accepts, and holds nothing of a line
    /// that it skips.
    pub open spec fn wf(self) -> bool {
        &&& 1 <= self.max_bytes <= usize::MAX
        &&& 1 <= self.next_max <= usize::MAX
        &&& self.partial.len() <= self.max_bytes
        &&& self.overflowed ==> self.partial.len() == 0
        &&& self.idle() ==> self.next_max == self.max_bytes
    }

    /// The reader with more of the same line.
    pub open spec fn grown(self, more: Seq<u8>) -> LineReaderView {
        if self.overflowed {
            self
        } else if self.partial.len() + more.len() > self.max_bytes {
            LineReaderView { partial: Seq::empty(), overflowed: true, ..self }
        } else {
            LineReaderView { partial: self.partial + more, ..self }
        }
    }

    /// The reader once its line has ended.
    pub open spec fn next_line(self) -> LineReaderView {
        LineReaderView {
            partial: Seq::empty(),
            overflowed: false,
            max_bytes: self.next_max,
            ..self
        }
    }

    /// What the line comes to that ends with these bytes and a line break.
    pub open spec fn ended_by(self, rest: Seq<u8>) -> Result<MessageView, McpErrorView> {
        if self.overflowed {
            Err(
                McpErrorView::InvalidMessage(
                    "message exceeds the "@ + crate::text::decimal(self.max_bytes)
                        + " byte limit"@,
                ),
            )
        } else {
            line_message(self.partial + rest, self.max_bytes)
        }
    }
}

impl LineReaderView {
    /// The reader with another ceiling, from its next line on. A ceiling of
    /// nothing would refuse every line, so it is raised to one byte.
    pub open spec fn bounded_by(self, max_bytes: usize) -> LineReaderView {
        let max = if max_bytes == 0 {
            1
        } else {
            max_bytes as int
        };
        LineReaderView {
            next_max: max,
            max_bytes: if self.idle() {
                max
            } else {
                self.max_bytes
            },
            ..self
        }
    }
}

/// The view of a decision on a read.
pub open spec fn prepared(r: Result<Arming, McpError>) -> Result<Arming, McpErrorView> {
    match r {
        Ok(a) => Ok(a),
        Err(e) => Err(e@),
    }
}

/// What is decided on a read: that the wait is over, or what to do about the
/// deadline of the source.
pub open spec fn ready_to_read(
    before: LineReaderView,
    after: LineReaderView,
    timeout: Option<Span>,
    deadline: Option<Span>,
    now: Span,
    r: Result<Arming, McpErrorView>,
) -> bool {
    let over = deadline matches Some(d) && d.total() <= now.total();
    match r {
        Err(e) => over && e == McpErrorView::Timeout(timed_out_words(timeout)) && after == before,
        Ok(arming) => !over && after == (LineReaderView { armed: deadline is Some, ..before })
            && arming == (if deadline is Some {
            Arming::Apply
        } else if before.armed {
            Arming::Clear
        } else {
            Arming::Leave
        }),
    }
}

/// What a [`Fed`] is, and the reader after it.
pub struct FedView {
    pub reader: LineReaderView,
    pub consumed: int,
    pub message: Option<Result<MessageView, McpErrorView>>,
}

impl LineReaderView {
    /// What taking in some bytes comes to. Only what comes before the first line
    /// break, and the line break, are used. No bytes at all is the end of the
    /// stream; what there is of a line then is no message.
    pub open spec fn fed(self, available: Seq<u8>) -> FedView {
        let end = crate::bytes::byte_from(available, 10, 0);
        if available.len() == 0 {
            FedView { reader: self, consumed: 0, message: Some(Err(McpErrorView::TransportClosed)) }
        } else if end == available.len() {
            FedView { reader: self.grown(available), consumed: end, message: None }
        } else {
            FedView {
                reader: self.next_line(),
                consumed: end + 1,
                message: Some(self.ended_by(available.take(end))),
            }
        }
    }
}

/// What taking in some bytes came to.
#[derive(Debug)]
pub struct Fed {
    /// How many of them were used.
    pub consumed: usize,
    /// The message that they ended, or why it is none.
    pub message: Option<Result<JsonRpcMessage, McpError>>,
}

/// What to do about the deadline of the source before a read.
#[derive(Debug, Clone, Copy, PartialEq, Eq, Structural)]
pub enum Arming {
    /// Set it.
    Apply,
    /// Take it off again. Failing to is no reason to fail the read.
    Clear,
    /// Leave the source alone.
    Leave,
}

/// Why a read of the source gave no bytes.
#[derive(Debug)]
pub enum ReadFailure {
    /// The deadline passed.
    Expired,
    /// A signal came in between.
    Interrupted,
    /// The peer went away.
    Disconnected,
    /// Anything else, in words.
    Other(String),
}

/// The words for a wait that ran out.
pub open spec fn timed_out_words(timeout: Option<Span>) -> Seq<char> {
    match timeout {
        Some(t) => "no message within "@ + crate::calendar::span_text(t),
        None => "no message"@,
    }
}

/// The error for a wait that ran out.
pub fn timed_out(timeout: Option<Span>) -> (r: McpError)
    ensures
        r@ == McpErrorView::Timeout(timed_out_words(timeout)),
{
    match timeout {
        Some(t) => McpError::Timeout(join("no message within ", describe_span(t).as_str())),
        None => McpError::Timeout("no message".to_owned()),
    }
}

/// What a read that failed means: an error, or nothing where it is to be tried
/// again.
pub fn after_failure(failure: ReadFailure, timeout: Option<Span>) -> (r: Option<McpError>)
    ensures
        match failure {
            ReadFailure::Expired => r matches Some(e) && e@ == McpErrorView::Timeout(
                timed_out_words(timeout),
            ),
            ReadFailure::Interrupted => r is None,
            ReadFailure::Disconnected => r matches Some(e) && e@ == McpErrorView::TransportClosed,
            ReadFailure::Other(why) => r matches Some(e) && e@ == McpErrorView::Io(why@),
        },
{
    match failure {
        ReadFailure::Expired => Some(timed_out(timeout)),
        ReadFailure::Interrupted => None,
        ReadFailure::Disconnected => Some(McpError::TransportClosed),
        ReadFailure::Other(why) => Some(McpError::Io(why)),
    }
}

impl LineReader {
    pub fn new() -> (r: LineReader)
        ensures
            r@.wf(),
            r@.idle(),
            r@.max_bytes == 8_388_608,
            !r@.armed,
    {
        LineReader::with_limit(MAX_MESSAGE_BYTES)
    }

    /// A reader with another ceiling. A ceiling of nothing would refuse every
    /// message, so it is raised to one byte.
    pub fn with_limit(max_bytes: usize) -> (r: LineReader)
        ensures
            r@.wf(),
            r@.idle(),
            r@.max_bytes == if max_bytes == 0 {
                1
            } else {
                max_bytes as int
            },
            !r@.armed,
    {
        let max: usize = if max_bytes == 0 {
            1
        } else {
            max_bytes
        };
        let r = LineReader {
            partial: Vec::new(),
            max_bytes: max,
            next_max: max,
            overflowed: false,
            armed: false,
        };
        assert(r@.partial =~= Seq::empty());
        r
    }

    /// The longest line that is accepted.
    pub fn limit(&self) -> (r: usize)
        ensures
            r == self@.max_bytes,
    {
        self.max_bytes
    }

    /// The part of a line that has arrived.
    pub fn held(&self) -> (r: &Vec<u8>)
        ensures
            r@ == self@.partial,
    {
        &self.partial
    }

    /// Changes the ceiling, from the next message on: one that has begun keeps
    /// the ceiling it began with.
    pub fn set_limit(&mut self, max_bytes: usize)
        requires
            old(self)@.wf(),
        ensures
            final(self)@.wf(),
            final(self)@ == old(self)@.bounded_by(max_bytes),
    {
        self.next_max = if max_bytes == 0 {
            1
        } else {
            max_bytes
        };
        if self.partial.len() == 0 && !self.overflowed {
            self.max_bytes = self.next_max;
        }
    }

    /// Decides on a read: whether the wait is over, and what to do about the
    /// deadline of the source where it is not.
    pub fn before_read(&mut self, timeout: Option<Span>, deadline: Option<Span>, now: Span) -> (r:
        Result<Arming, McpError>)
        requires
            old(self)@.wf(),
            now.wf(),
            deadline matches Some(d) ==> d.wf(),
        ensures
            final(self)@.wf(),
            ready_to_read(old(self)@, final(self)@, timeout, deadline, now, prepared(r)),
    {
        match deadline {
            Some(d) => {
                if time_left(now, d).is_none() {
                    return Err(timed_out(timeout));
                }
                self.armed = true;
                Ok(Arming::Apply)
            },
            None => {
                if self.armed {
                    self.armed = false;
                    Ok(Arming::Clear)
                } else {
                    Ok(Arming::Leave)
                }
            },
        }
    }

    /// Takes in bytes, up to the first line break. No bytes at all is the end
    /// of the stream; what there is of a line then is no message.
    pub fn feed(&mut self, available: &Vec<u8>) -> (r: Fed)
        requires
            old(self)@.wf(),
        ensures
            final(self)@.wf(),
            final(self)@ == old(self)@.fed(available@).reader,
            r.consumed == old(self)@.fed(available@).consumed,
            match r.message {
                Some(m) => old(self)@.fed(available@).message matches Some(expected)
                    && crate::types::agrees(m, expected),
                None => old(self)@.fed(available@).message is None,
            },
    {
        if available.len() == 0 {
            return Fed { consumed: 0, message: Some(Err(McpError::TransportClosed)) };
        }
        let ghost before = self@;
        let end = find_byte(available, 10, 0);
        let left: usize = self.max_bytes - self.partial.len();
        if end == available.len() {
            if !self.overflowed {
                if available.len() > left {
                    self.overflowed = true;
                    self.partial = Vec::new();
                    assert(self@.partial =~= Seq::empty());
                } else {
                    append_between(&mut self.partial, available, 0, available.len());
                    assert(available@.subrange(0, available@.len() as int) =~= available@);
                    assert(self@.partial =~= before.partial + available@);
                }
            }
            return Fed { consumed: end, message: None };
        }
        let ghost rest = available@.take(end as int);
        let too_long = self.overflowed || end >= left;
        let max = self.max_bytes;
        let mut line: Vec<u8> = Vec::new();
        if !too_long {
            append_between(&mut line, &self.partial, 0, self.partial.len());
            append_between(&mut line, available, 0, end + 1);
            proof {
                assert(line@ =~= (before.partial + rest).push(10));
            }
        }
        self.partial = Vec::new();
        self.overflowed = false;
        self.max_bytes = self.next_max;
        assert(self@.partial =~= Seq::empty());
        if too_long {
            return Fed {
                consumed: end + 1,
                message: Some(
                    Err(
                        McpError::InvalidMessage(
                            join3(
                                "message exceeds the ",
                                decimal_text(max as u64).as_str(),
                                " byte limit",
                            ),
                        ),
                    ),
                ),
            };
        }
        let message = match decode(line) {
            Ok(text) => JsonRpcMessage::parse(text.as_str()),
            Err(why) => Err(
                McpError::InvalidMessage(join("message is not UTF-8: ", why.as_str())),
            ),
        };
        Fed { consumed: end + 1, message: Some(message) }
    }
}

/// The bytes that carry a message: its text, and a line break. They are one
/// line, and a sound message is read back from it by every reader that accepts
/// a line this long.
pub fn frame(message: &JsonRpcMessage) -> (r: Vec<u8>)
    ensures
        r@ == encode_utf8(crate::types::message_text(message@)).push(10),
        crate::bytes::byte_from(r@, 10, 0) == r@.len() - 1,
        crate::types::sound(message@) ==> forall|max_bytes: int|
            r@.len() <= max_bytes ==> #[trigger] line_message(r@.drop_last(), max_bytes) == Ok::<
                MessageView,
                McpErrorView,
            >(message@),
{
    let text = message.to_text();
    let mut out = crate::bytes::encode(text.as_str());
    out.push(10);
    proof {
        lemma_no_line_break(text@);
        let body = encode_utf8(text@);
        assert(forall|k: int| 0 <= k < body.len() ==> out@[k] == body[k]);
        crate::bytes::lemma_byte_from_is(out@, 10, 0, out@.len() - 1);
        assert(out@.drop_last() =~= body);
        if crate::types::sound(message@) {
            crate::types::law_messages_are_read_back(message@);
            assert forall|max_bytes: int| out@.len() <= max_bytes implies #[trigger] line_message(
                out@.drop_last(),
                max_bytes,
            ) == Ok::<MessageView, McpErrorView>(message@) by {
                law_a_line_is_read_back(text@, max_bytes);
            }
        }
    }
    out
}

/// A byte of a character that is no line break is no line break.
proof fn lemma_no_break_in_scalar(c: u32)
    requires
        is_scalar(c),
        c != 10,
    ensures
        forall|k: int| 0 <= k < encode_scalar(c).len() ==> encode_scalar(c)[k] != 10,
{
    assert(has_width_1_encoding(c) ==> (c & 0x7F) as u8 != 10) by (bit_vector)
        requires
            c != 10,
    ;
    assert((0xC0 | ((c >> 6) & 0x1F) as u8) != 10) by (bit_vector);
    assert((0xE0 | ((c >> 12) & 0x0F) as u8) != 10) by (bit_vector);
    assert((0xF0 | ((c >> 18) & 0x7) as u8) != 10) by (bit_vector);
    assert((0x80 | (c & 0x3F) as u8) != 10) by (bit_vector);
    assert((0x80 | ((c >> 6) & 0x3F) as u8) != 10) by (bit_vector);
    assert((0x80 | ((c >> 12) & 0x3F) as u8) != 10) by (bit_vector);
}

/// A text without line breaks is encoded without them.
proof fn lemma_no_line_break(s: Seq<char>)
    requires
        crate::types::one_line(s),
    ensures
        forall|k: int| 0 <= k < encode_utf8(s).len() ==> encode_utf8(s)[k] != 10,
    decreases s.len(),
{
    if s.len() > 0 {
        char_is_scalar(s[0]);
        assert(s.contains(s[0]));
        char_u32_cast(s[0], s[0] as u32);
        char_u32_cast('\n', 10);
        lemma_no_break_in_scalar(s[0] as u32);
        let rest = s.drop_first();
        assert forall|k: int| 0 <= k < rest.len() implies rest[k] != '\n' by {
            assert(rest[k] == s[k + 1]);
            assert(s.contains(s[k + 1]));
        }
        lemma_no_line_break(rest);
        let front = encode_scalar(s[0] as u32);
        let back = encode_utf8(rest);
        assert forall|k: int| 0 <= k < encode_utf8(s).len() implies encode_utf8(s)[k] != 10 by {
            if k < front.len() {
                assert(encode_utf8(s)[k] == front[k]);
            } else {
                assert(encode_utf8(s)[k] == back[k - front.len()]);
            }
        }
    }
}

/// A text without line breaks that is sent as a line is read back as that
/// text, with its line break, wherever it is no longer than is accepted.
pub proof fn law_a_line_is_read_back(text: Seq<char>, max_bytes: int)
    requires
        encode_utf8(text).len() + 1 <= max_bytes,
    ensures
        line_message(encode_utf8(text), max_bytes) == crate::types::message_in(text.push('\n')),
{
    let whole = encode_utf8(text).push(10);
    let with_break = text.push('\n');
    lemma_encode_push(text);
    assert(encode_utf8(with_break) == whole);
    encode_utf8_valid_utf8(with_break);
    encode_utf8_decode_utf8(with_break);
}

/// A line break at the end of a text is one byte at the end of its encoding.
proof fn lemma_encode_push(s: Seq<char>)
    ensures
        encode_utf8(s.push('\n')) == encode_utf8(s).push(10),
    decreases s.len(),
{
    reveal_with_fuel(encode_utf8, 2);
    if s.len() == 0 {
        let one = s.push('\n');
        assert(one.drop_first() =~= Seq::<char>::empty());
        assert((10u32 & 0x7F) as u8 == 10u8) by (bit_vector);
        assert(one[0] as u32 == 10u32);
        assert(encode_utf8(one) =~= seq![10u8]);
        assert(encode_utf8(s).push(10) =~= seq![10u8]);
    } else {
        lemma_encode_push(s.drop_first());
        assert(s.push('\n').drop_first() =~= s.drop_first().push('\n'));
        assert(s.push('\n')[0] == s[0]);
        assert(encode_utf8(s.push('\n')) =~= encode_scalar(s[0] as u32) + encode_utf8(
            s.drop_first(),
        ).push(10));
        assert(encode_utf8(s).push(10) =~= encode_scalar(s[0] as u32) + encode_utf8(
            s.drop_first(),
        ).push(10));
    }
}

/// A line means the same in however many pieces it arrives: taking in its first
/// part and then the rest comes to what taking in both at once does.
pub proof fn law_lines_do_not_depend_on_how_they_arrive(
    reader: LineReaderView,
    a: Seq<u8>,
    b: Seq<u8>,
)
    requires
        reader.wf(),
    ensures
        reader.grown(a).wf() || a.len() == 0,
        reader.grown(a).grown(b) == reader.grown(a + b),
        reader.grown(a).ended_by(b) == reader.ended_by(a + b),
        reader.grown(a).next_line() == reader.next_line(),
{
    let whole = reader.partial + (a + b);
    assert(reader.partial + a + b =~= whole);
    assert(reader.grown(a).grown(b).partial =~= reader.grown(a + b).partial);
}

/// Whatever arrives, a reader holds no more than it accepts.
pub proof fn law_a_reader_holds_no_more_than_its_limit(reader: LineReaderView, more: Seq<u8>)
    requires
        reader.wf(),
    ensures
        reader.grown(more).partial.len() <= reader.max_bytes,
{
}

/// After a line that was too long, the reader is as good as new.
pub proof fn law_framing_recovers_after_a_line_that_is_too_long(
    reader: LineReaderView,
    rest: Seq<u8>,
    line: Seq<u8>,
)
    requires
        reader.wf(),
        reader.overflowed,
    ensures
        reader.ended_by(rest) is Err,
        reader.next_line().ended_by(line) == line_message(line, reader.next_max),
{
    assert(Seq::<u8>::empty() + line =~= line);
}

/// Bytes that arrive in pieces, put together.
pub open spec fn joined(pieces: Seq<Seq<u8>>) -> Seq<u8>
    decreases pieces.len(),
{
    if pieces.len() == 0 {
        Seq::empty()
    } else {
        pieces[0] + joined(pieces.drop_first())
    }
}

/// Lines, each with its line break, one after the other.
pub open spec fn written(lines: Seq<Seq<u8>>) -> Seq<u8>
    decreases lines.len(),
{
    if lines.len() == 0 {
        Seq::empty()
    } else {
        lines[0].push(10) + written(lines.drop_first())
    }
}

/// Whether no piece is empty: an empty one would be the end of the stream.
pub open spec fn none_empty(pieces: Seq<Seq<u8>>) -> bool {
    forall|i: int| 0 <= i < pieces.len() ==> (#[trigger] pieces[i]).len() > 0
}

/// Whether there is no line break in it.
pub open spec fn unbroken(s: Seq<u8>) -> bool {
    forall|k: int| 0 <= k < s.len() ==> #[trigger] s[k] != 10
}

/// A read of one message: the reader and what is left of the stream after it,
/// and the message, or why there is none.
pub struct Reading {
    pub reader: LineReaderView,
    pub pieces: Seq<Seq<u8>>,
    pub message: Result<MessageView, McpErrorView>,
}

impl LineReaderView {
    /// What reading a message from a stream comes to: its pieces are taken in
    /// until there is a message or an error. What a piece holds beyond that is
    /// for the next read.
    pub open spec fn read_from(self, pieces: Seq<Seq<u8>>) -> Reading
        decreases pieces.len(),
    {
        if pieces.len() == 0 {
            Reading {
                reader: self,
                pieces,
                message: self.fed(Seq::empty()).message->0,
            }
        } else {
            let f = self.fed(pieces[0]);
            let rest = pieces.drop_first();
            match f.message {
                None => f.reader.read_from(rest),
                Some(message) => Reading {
                    reader: f.reader,
                    pieces: if f.consumed < pieces[0].len() {
                        seq![pieces[0].skip(f.consumed)] + rest
                    } else {
                        rest
                    },
                    message,
                },
            }
        }
    }

    /// What the first `n` reads come to.
    pub open spec fn reads(self, pieces: Seq<Seq<u8>>, n: nat) -> Seq<
        Result<MessageView, McpErrorView>,
    >
        decreases n,
    {
        if n == 0 {
            Seq::empty()
        } else {
            let one = self.read_from(pieces);
            seq![one.message] + one.reader.reads(one.pieces, (n - 1) as nat)
        }
    }
}

/// What a read comes to, whatever the pieces: a line up to the first line
/// break of the stream, or its end.
proof fn lemma_read_from(reader: LineReaderView, pieces: Seq<Seq<u8>>)
    requires
        reader.wf(),
        none_empty(pieces),
    ensures
        ({
            let all = joined(pieces);
            let end = crate::bytes::byte_from(all, 10, 0);
            let one = reader.read_from(pieces);
            &&& none_empty(one.pieces)
            &&& 0 <= end <= all.len()
            &&& if end < all.len() {
                &&& one.message == reader.ended_by(all.take(end))
                &&& one.reader == reader.next_line()
                &&& joined(one.pieces) == all.skip(end + 1)
            } else {
                &&& one.message == Err::<MessageView, McpErrorView>(McpErrorView::TransportClosed)
                &&& one.reader.wf()
                &&& joined(one.pieces) == Seq::<u8>::empty()
            }
        }),
    decreases pieces.len(),
{
    let all = joined(pieces);
    if pieces.len() > 0 {
        let a = pieces[0];
        let rest = pieces.drop_first();
        let b = joined(rest);
        assert(a.len() > 0);
        assert(none_empty(rest)) by {
            assert forall|i: int| 0 <= i < rest.len() implies (#[trigger] rest[i]).len() > 0 by {
                assert(rest[i] == pieces[i + 1]);
            }
        }
        let end = crate::bytes::byte_from(a, 10, 0);
        crate::bytes::lemma_byte_from(a, 10, 0);
        if end < a.len() {
            assert(forall|k: int| 0 <= k < a.len() ==> all[k] == a[k]);
            crate::bytes::lemma_byte_from_is(all, 10, 0, end);
            assert(all.take(end) =~= a.take(end));
            let one = reader.read_from(pieces);
            if end + 1 < a.len() {
                assert(one.pieces.drop_first() =~= rest);
                assert(one.pieces[0] == a.skip(end + 1));
                assert(joined(one.pieces) =~= all.skip(end + 1));
                assert forall|i: int| 0 <= i < one.pieces.len() implies (
                #[trigger] one.pieces[i]).len() > 0 by {
                    if i > 0 {
                        assert(one.pieces[i] == rest[i - 1]);
                    }
                }
            } else {
                assert(joined(one.pieces) =~= all.skip(end + 1));
            }
        } else {
            let grown = reader.grown(a);
            let at = crate::bytes::byte_from(b, 10, 0);
            lemma_read_from(grown, rest);
            crate::bytes::lemma_byte_from(b, 10, 0);
            let whole = a.len() + at;
            assert forall|k: int| 0 <= k < whole implies all[k] != 10 by {
                if k < a.len() {
                    assert(all[k] == a[k]);
                } else {
                    assert(all[k] == b[k - a.len()]);
                }
            }
            assert(whole < all.len() ==> all[whole] == b[at]);
            crate::bytes::lemma_byte_from_is(all, 10, 0, whole);
            if at < b.len() {
                assert(all.take(whole) =~= a + b.take(at));
                law_lines_do_not_depend_on_how_they_arrive(reader, a, b.take(at));
                assert(all.skip(whole + 1) =~= b.skip(at + 1));
            }
        }
    }
}

/// A whole stream is read line by line, in order, however it arrives. Each line
/// comes to the message that it is, or to why it is none, whatever the lines
/// before it came to; once they are used up, every read says that the stream is
/// at its end, and what follows the last line break is no message.
pub proof fn law_a_stream_is_read_line_by_line(
    reader: LineReaderView,
    lines: Seq<Seq<u8>>,
    tail: Seq<u8>,
    pieces: Seq<Seq<u8>>,
    n: nat,
)
    requires
        reader.wf(),
        reader.idle(),
        forall|i: int| 0 <= i < lines.len() ==> unbroken(#[trigger] lines[i]),
        unbroken(tail),
        none_empty(pieces),
        joined(pieces) == written(lines) + tail,
    ensures
        reader.reads(pieces, n) == Seq::new(
            n,
            |k: int|
                if k < lines.len() {
                    line_message(lines[k], reader.max_bytes)
                } else {
                    Err::<MessageView, McpErrorView>(McpErrorView::TransportClosed)
                },
        ),
    decreases n,
{
    let expected = Seq::new(
        n,
        |k: int|
            if k < lines.len() {
                line_message(lines[k], reader.max_bytes)
            } else {
                Err::<MessageView, McpErrorView>(McpErrorView::TransportClosed)
            },
    );
    if n == 0 {
        assert(reader.reads(pieces, n) =~= expected);
    } else {
        let all = joined(pieces);
        let one = reader.read_from(pieces);
        let m = (n - 1) as nat;
        lemma_read_from(reader, pieces);
        if lines.len() == 0 {
            assert(all =~= tail);
            crate::bytes::lemma_byte_from_is(all, 10, 0, all.len() as int);
            lemma_after_the_end(one.reader, one.pieces, m);
            assert(reader.reads(pieces, n) =~= expected);
        } else {
            let line = lines[0];
            let rest = lines.drop_first();
            assert(unbroken(lines[0]));
            assert(forall|k: int| 0 <= k < line.len() ==> all[k] == line[k]);
            assert(all[line.len() as int] == 10);
            crate::bytes::lemma_byte_from_is(all, 10, 0, line.len() as int);
            assert(all.take(line.len() as int) =~= line);
            assert(all.skip(line.len() as int + 1) =~= written(rest) + tail);
            assert(reader.partial + line =~= line);
            assert forall|i: int| 0 <= i < rest.len() implies unbroken(#[trigger] rest[i]) by {
                assert(rest[i] == lines[i + 1]);
            }
            law_a_stream_is_read_line_by_line(one.reader, rest, tail, one.pieces, m);
            assert(reader.reads(pieces, n) =~= expected);
        }
    }
}

/// Every read at the end of a stream says so.
proof fn lemma_after_the_end(reader: LineReaderView, pieces: Seq<Seq<u8>>, n: nat)
    requires
        reader.wf(),
        none_empty(pieces),
        joined(pieces) == Seq::<u8>::empty(),
    ensures
        reader.reads(pieces, n) == Seq::new(
            n,
            |k: int| Err::<MessageView, McpErrorView>(McpErrorView::TransportClosed),
        ),
    decreases n,
{
    if n > 0 {
        let one = reader.read_from(pieces);
        lemma_read_from(reader, pieces);
        lemma_after_the_end(one.reader, one.pieces, (n - 1) as nat);
    }
    assert(reader.reads(pieces, n) =~= Seq::new(
        n,
        |k: int| Err::<MessageView, McpErrorView>(McpErrorView::TransportClosed),
    ));
}

} // verus!
