//! What a body in chunks is: the chunks, one after the other.

use super::body::{BodyError, Run, Stage, CHUNK_LINE_BYTES};
use super::wire::{Ending, LineView};
use vstd::prelude::*;
use vstd::string::*;
use vstd::utf8::*;

verus! {

/// A chunk, with the line that gives its size.
pub struct Chunk {
    pub line: Seq<char>,
    pub data: Seq<u8>,
}

/// A chunk whose line says how long it is.
pub open spec fn fits(c: Chunk) -> bool {
    &&& c.data.len() > 0
    &&& super::body::chunk_size(c.line) == Some(c.data.len() as int)
    &&& super::wire::is_head_text(encode_utf8(c.line))
    &&& encode_utf8(c.line).len() + 2 <= CHUNK_LINE_BYTES
}

/// A line on the wire.
pub open spec fn line_bytes(line: Seq<char>) -> Seq<u8> {
    encode_utf8(line) + seq![13u8, 10u8]
}

/// Chunks on the wire, and the end of them.
pub open spec fn wire(chunks: Seq<Chunk>) -> Seq<u8>
    decreases chunks.len(),
{
    if chunks.len() == 0 {
        line_bytes("0"@) + line_bytes(""@)
    } else {
        line_bytes(chunks[0].line) + chunks[0].data + line_bytes(""@) + wire(chunks.skip(1))
    }
}

/// What the chunks hold.
pub open spec fn payload(chunks: Seq<Chunk>) -> Seq<u8>
    decreases chunks.len(),
{
    if chunks.len() == 0 {
        Seq::empty()
    } else {
        chunks[0].data + payload(chunks.skip(1))
    }
}

/// A line that was put on the wire is the line that is read there.
pub(crate) proof fn lemma_line_is_read(
    before: Seq<u8>,
    line: Seq<char>,
    after: Seq<u8>,
    ending: Ending,
    budget: int,
)
    requires
        super::wire::is_head_text(encode_utf8(line)),
        encode_utf8(line).len() + 2 <= budget,
    ensures
        super::wire::line_at(
            before + line_bytes(line) + after,
            before.len() as int,
            ending,
            budget,
        ) == LineView::Text(line, (before.len() + line_bytes(line).len()) as int),
{
    let text = encode_utf8(line);
    let bytes = before + line_bytes(line) + after;
    let at = before.len() as int;
    let end = at + text.len() + 1;
    assert(bytes[end] == 10);
    assert forall|k: int| at <= k < end implies bytes[k] != 10 by {
        if k < end - 1 {
            assert(bytes[k] == text[k - at]);
            assert(super::wire::is_head_byte(text[k - at]));
        } else {
            assert(bytes[k] == 13);
        }
    }
    crate::bytes::lemma_byte_from_is(bytes, 10, at, end);
    let whole = bytes.subrange(at, end);
    assert(whole.last() == 13);
    assert(super::wire::without_cr(whole) =~= text);
    encode_utf8_decode_utf8(line);
}

/// An empty line, and the line that says that no chunk follows.
proof fn lemma_ends()
    ensures
        encode_utf8(""@).len() == 0,
        super::wire::is_head_text(encode_utf8(""@)),
        encode_utf8("0"@).len() == 1,
        super::wire::is_head_text(encode_utf8("0"@)),
        super::body::chunk_size("0"@) == Some(0int),
{
    reveal_strlit("");
    reveal_strlit("0");
    assert(""@ =~= Seq::<char>::empty());
    assert("0"@ =~= seq!['0']);
    assert(is_ascii_chars(""@));
    is_ascii_chars_encode_utf8(""@);
    assert(is_ascii_chars("0"@));
    is_ascii_chars_encode_utf8("0"@);
    encode_utf8_valid_utf8(""@);
    encode_utf8_valid_utf8("0"@);
    assert(encode_utf8("0"@)[0] == 48);
    crate::text::lemma_find_from("0"@, ';', 0);
    assert(crate::text::find("0"@, ';') == 1);
    assert("0"@.take(1) =~= "0"@);
    assert(crate::text::trim_end_where("0"@, crate::text::blanks()) =~= "0"@);
    reveal_with_fuel(crate::text::number, 3);
    assert("0"@.drop_last() =~= Seq::<char>::empty());
}

/// What is read where no chunk follows.
proof fn lemma_end_is_read(
    body: Seq<u8>,
    before: Seq<u8>,
    after: Seq<u8>,
    ending: Ending,
    limit: int,
)
    ensures
        super::body::run(
            Stage::Size,
            body,
            before + line_bytes("0"@) + line_bytes(""@) + after,
            before.len() as int,
            ending,
            limit,
        ) == Run::Done(
            body,
            (before.len() + line_bytes("0"@).len() + line_bytes(""@).len()) as int,
        ),
{
    lemma_ends();
    reveal_strlit("");
    assert(""@ =~= Seq::<char>::empty());
    let zero = line_bytes("0"@);
    let end = line_bytes(""@);
    let bytes = before + zero + end + after;
    lemma_line_is_read(before, "0"@, end + after, ending, 128);
    assert(before + zero + (end + after) =~= bytes);
    lemma_line_is_read(before + zero, ""@, after, ending, 128);
    let at = before.len() as int;
    lemma_last_chunk(body, bytes, at, at + zero.len(), "0"@, ending, limit);
}

/// What is read of a chunk: its data, and then what follows.
proof fn lemma_chunk_is_read(
    body: Seq<u8>,
    before: Seq<u8>,
    c: Chunk,
    tail: Seq<u8>,
    ending: Ending,
    limit: int,
)
    requires
        fits(c),
        body.len() + c.data.len() <= limit <= usize::MAX,
    ensures
        ({
            let done = before + line_bytes(c.line) + c.data + line_bytes(""@);
            super::body::run(Stage::Size, body, done + tail, before.len() as int, ending, limit)
                == super::body::run(
                Stage::Size,
                body + c.data,
                done + tail,
                done.len() as int,
                ending,
                limit,
            )
        }),
{
    lemma_ends();
    reveal_strlit("");
    assert(""@ =~= Seq::<char>::empty());
    let first = line_bytes(c.line);
    let end = line_bytes(""@);
    let upto = before + first + c.data;
    let bytes = upto + end + tail;
    lemma_line_is_read(before, c.line, c.data + end + tail, ending, 128);
    assert(before + first + (c.data + end + tail) =~= bytes);
    lemma_line_is_read(upto, ""@, tail, ending, 2);
    let at = before.len() as int;
    let next = at + first.len();
    let n = c.data.len() as int;
    assert(bytes.subrange(next, next + n) =~= c.data);
    lemma_one_chunk(body, bytes, at, next, n, c.line, ending, limit);
}

/// What is read of chunks that come after other bytes.
proof fn lemma_chunks_are_read(
    body: Seq<u8>,
    before: Seq<u8>,
    chunks: Seq<Chunk>,
    after: Seq<u8>,
    ending: Ending,
    limit: int,
)
    requires
        forall|i: int| 0 <= i < chunks.len() ==> fits(#[trigger] chunks[i]),
        body.len() + payload(chunks).len() <= limit <= usize::MAX,
    ensures
        super::body::run(
            Stage::Size,
            body,
            before + wire(chunks) + after,
            before.len() as int,
            ending,
            limit,
        ) == Run::Done(body + payload(chunks), (before.len() + wire(chunks).len()) as int),
    decreases chunks.len(),
{
    let bytes = before + wire(chunks) + after;
    if chunks.len() == 0 {
        lemma_end_is_read(body, before, after, ending, limit);
        assert(before + line_bytes("0"@) + line_bytes(""@) + after =~= bytes);
        assert(body + payload(chunks) =~= body);
    } else {
        let c = chunks[0];
        let rest = chunks.skip(1);
        assert(fits(c));
        let done = before + line_bytes(c.line) + c.data + line_bytes(""@);
        lemma_chunk_is_read(body, before, c, wire(rest) + after, ending, limit);
        assert(done + (wire(rest) + after) =~= bytes);
        assert(done + wire(rest) + after =~= bytes);
        assert forall|i: int| 0 <= i < rest.len() implies fits(#[trigger] rest[i]) by {
            assert(rest[i] == chunks[i + 1]);
        }
        lemma_chunks_are_read(body + c.data, done, rest, after, ending, limit);
        assert(body + c.data + payload(rest) =~= body + payload(chunks));
    }
}

/// What reading the end of the chunks comes to.
proof fn lemma_last_chunk(
    body: Seq<u8>,
    bytes: Seq<u8>,
    at: int,
    next: int,
    line: Seq<char>,
    ending: Ending,
    limit: int,
)
    requires
        0 <= at < next,
        next + 2 <= bytes.len(),
        super::body::chunk_size(line) == Some(0int),
        super::wire::line_at(bytes, at, ending, 128) == LineView::Text(line, next),
        super::wire::line_at(bytes, next, ending, 128) == LineView::Text(Seq::empty(), next + 2),
    ensures
        super::body::run(Stage::Size, body, bytes, at, ending, limit) == Run::Done(body, next + 2),
{
    reveal_with_fuel(super::body::run, 3);
}

/// What reading one chunk comes to.
proof fn lemma_one_chunk(
    body: Seq<u8>,
    bytes: Seq<u8>,
    at: int,
    next: int,
    n: int,
    line: Seq<char>,
    ending: Ending,
    limit: int,
)
    requires
        0 <= at < next <= bytes.len(),
        0 < n,
        next + n + 2 <= bytes.len(),
        body.len() + n <= limit <= usize::MAX,
        super::body::chunk_size(line) == Some(n),
        super::wire::line_at(bytes, at, ending, 128) == LineView::Text(line, next),
        super::wire::line_at(bytes, next + n, ending, 2) == LineView::Text(
            Seq::empty(),
            next + n + 2,
        ),
    ensures
        super::body::run(Stage::Size, body, bytes, at, ending, limit) == super::body::run(
            Stage::Size,
            body + bytes.subrange(next, next + n),
            bytes,
            next + n + 2,
            ending,
            limit,
        ),
{
    reveal_with_fuel(super::body::run, 4);
}

/// What is read of chunks that hold more than is accepted.
proof fn lemma_chunks_are_refused(
    body: Seq<u8>,
    before: Seq<u8>,
    chunks: Seq<Chunk>,
    after: Seq<u8>,
    ending: Ending,
    limit: int,
)
    requires
        forall|i: int| 0 <= i < chunks.len() ==> fits(#[trigger] chunks[i]),
        body.len() <= limit <= usize::MAX,
        body.len() + payload(chunks).len() > limit,
    ensures
        super::body::run(
            Stage::Size,
            body,
            before + wire(chunks) + after,
            before.len() as int,
            ending,
            limit,
        ) == Run::Fail(BodyError::TooLarge),
    decreases chunks.len(),
{
    let bytes = before + wire(chunks) + after;
    let c = chunks[0];
    let rest = chunks.skip(1);
    assert(fits(c));
    if body.len() + c.data.len() <= limit {
        let done = before + line_bytes(c.line) + c.data + line_bytes(""@);
        lemma_chunk_is_read(body, before, c, wire(rest) + after, ending, limit);
        assert(done + (wire(rest) + after) =~= bytes);
        assert(done + wire(rest) + after =~= bytes);
        assert forall|i: int| 0 <= i < rest.len() implies fits(#[trigger] rest[i]) by {
            assert(rest[i] == chunks[i + 1]);
        }
        lemma_chunks_are_refused(body + c.data, done, rest, after, ending, limit);
    } else {
        let first = line_bytes(c.line);
        let tail = c.data + line_bytes(""@) + wire(rest) + after;
        lemma_line_is_read(before, c.line, tail, ending, 128);
        assert(before + first + tail =~= bytes);
    }
}

/// Chunks that hold more than is accepted are refused, however small each of
/// them is.
pub proof fn law_small_chunks_do_not_add_up_to_a_large_body(
    chunks: Seq<Chunk>,
    after: Seq<u8>,
    ending: Ending,
    limit: int,
)
    requires
        forall|i: int| 0 <= i < chunks.len() ==> fits(#[trigger] chunks[i]),
        0 <= limit < payload(chunks).len(),
        limit <= usize::MAX,
    ensures
        super::body::run(Stage::Size, Seq::empty(), wire(chunks) + after, 0, ending, limit)
            == Run::Fail(BodyError::TooLarge),
{
    lemma_chunks_are_refused(Seq::empty(), Seq::empty(), chunks, after, ending, limit);
    assert(Seq::<u8>::empty() + wire(chunks) + after =~= wire(chunks) + after);
}

/// A body in chunks is what the chunks hold, however it was cut, whatever
/// follows it, and wherever it is no longer than is accepted.
pub proof fn law_chunks_are_put_together(
    chunks: Seq<Chunk>,
    after: Seq<u8>,
    ending: Ending,
    limit: int,
)
    requires
        forall|i: int| 0 <= i < chunks.len() ==> fits(#[trigger] chunks[i]),
        payload(chunks).len() <= limit <= usize::MAX,
    ensures
        super::body::run(Stage::Size, Seq::empty(), wire(chunks) + after, 0, ending, limit)
            == Run::Done(payload(chunks), wire(chunks).len() as int),
{
    lemma_chunks_are_read(Seq::empty(), Seq::empty(), chunks, after, ending, limit);
    assert(Seq::<u8>::empty() + wire(chunks) + after =~= wire(chunks) + after);
    assert(Seq::<u8>::empty() + payload(chunks) =~= payload(chunks));
}

} // verus!
