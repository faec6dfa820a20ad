//! Lines off the wire.

use crate::bytes::{bytes_between, decode, find_byte};
use vstd::prelude::*;
use vstd::utf8::*;

verus! {

/// What is known of the bytes still to come.
#[derive(Debug, Clone, Copy, PartialEq, Eq, Structural)]
pub enum Ending {
    /// More may come.
    Open,
    /// The peer closed its side.
    Closed,
    /// Reading failed, or took too long.
    Failed,
}

/// One line, charged against a budget.
#[derive(Debug)]
pub enum Line {
    /// Whether there is a line is not known yet.
    More,
    /// Reading failed before the line ended.
    Failed,
    /// The peer closed its side before the line ended.
    Eof,
    /// The budget ran out before the line ended.
    TooLong,
    /// The line is not text that a head may hold.
    Invalid,
    /// The line, and where the next one starts.
    Text(String, usize),
}

/// What a [`Line`] is.
pub enum LineView {
    More,
    Failed,
    Eof,
    TooLong,
    Invalid,
    Text(Seq<char>, int),
}

impl View for Line {
    type V = LineView;

    open spec fn view(&self) -> LineView {
        match *self {
            Line::More => LineView::More,
            Line::Failed => LineView::Failed,
            Line::Eof => LineView::Eof,
            Line::TooLong => LineView::TooLong,
            Line::Invalid => LineView::Invalid,
            Line::Text(s, next) => LineView::Text(s@, next as int),
        }
    }
}

/// A byte that a head may hold: anything but control characters.
pub open spec fn is_head_byte(b: u8) -> bool {
    b == 9 || (0x20 <= b && b < 0x7f) || b >= 0x80
}

/// Bytes that are text fit for a head.
pub open spec fn is_head_text(s: Seq<u8>) -> bool {
    valid_utf8(s) && forall|k: int| 0 <= k < s.len() ==> is_head_byte(#[trigger] s[k])
}

/// A line without the carriage return that may end it.
pub open spec fn without_cr(s: Seq<u8>) -> Seq<u8> {
    if s.len() > 0 && s.last() == 13 {
        s.drop_last()
    } else {
        s
    }
}

/// The line that starts at `at` and is no longer than `budget`, its line break
/// counted.
pub open spec fn line_at(bytes: Seq<u8>, at: int, ending: Ending, budget: int) -> LineView {
    let end = crate::bytes::byte_from(bytes, 10, at);
    if budget <= 0 {
        LineView::TooLong
    } else if end < bytes.len() && end + 1 - at <= budget {
        let line = without_cr(bytes.subrange(at, end));
        if is_head_text(line) {
            LineView::Text(decode_utf8(line), end + 1)
        } else {
            LineView::Invalid
        }
    } else if bytes.len() - at >= budget {
        LineView::TooLong
    } else {
        match ending {
            Ending::Open => LineView::More,
            Ending::Failed => LineView::Failed,
            Ending::Closed => LineView::Eof,
        }
    }
}

fn all_head_bytes(s: &Vec<u8>) -> (r: bool)
    ensures
        r == forall|k: int| 0 <= k < s@.len() ==> is_head_byte(#[trigger] s@[k]),
{
    let mut i: usize = 0;
    while i < s.len()
        invariant
            i <= s@.len(),
            forall|k: int| 0 <= k < i ==> is_head_byte(#[trigger] s@[k]),
        decreases s@.len() - i,
    {
        let b: u8 = s[i];
        if !(b == 9 || (0x20 <= b && b < 0x7f) || b >= 0x80) {
            return false;
        }
        i = i + 1;
    }
    true
}

/// Reads the line that starts at `at`.
pub fn read_line(bytes: &Vec<u8>, at: usize, ending: Ending, budget: usize) -> (r: Line)
    requires
        at <= bytes@.len(),
    ensures
        r@ == line_at(bytes@, at as int, ending, budget as int),
        r matches Line::Text(_, next) ==> at < next <= bytes@.len() && next - at <= budget,
{
    if budget == 0 {
        return Line::TooLong;
    }
    let end = find_byte(bytes, 10, at);
    if end < bytes.len() && end - at < budget {
        let stop: usize = if end > at && bytes[end - 1] == 13 {
            end - 1
        } else {
            end
        };
        let line = bytes_between(bytes, at, stop);
        proof {
            let whole = bytes@.subrange(at as int, end as int);
            if end > at {
                assert(whole.last() == bytes@[end as int - 1]);
            }
            assert(line@ =~= without_cr(whole));
        }
        if !all_head_bytes(&line) {
            return Line::Invalid;
        }
        match decode(line) {
            Ok(s) => Line::Text(s, end + 1),
            Err(_) => Line::Invalid,
        }
    } else if bytes.len() - at >= budget {
        Line::TooLong
    } else {
        match ending {
            Ending::Open => Line::More,
            Ending::Failed => Line::Failed,
            Ending::Closed => Line::Eof,
        }
    }
}

/// A line that could be told apart without knowing what comes next stays what
/// it was, whatever comes next.
pub proof fn lemma_line_is_final(
    bytes: Seq<u8>,
    at: int,
    budget: int,
    more: Seq<u8>,
    ending: Ending,
)
    requires
        0 <= at <= bytes.len(),
        !(line_at(bytes, at, Ending::Open, budget) is More),
    ensures
        line_at(bytes + more, at, ending, budget) == line_at(bytes, at, Ending::Open, budget),
{
    let all = bytes + more;
    let end = crate::bytes::byte_from(bytes, 10, at);
    crate::bytes::lemma_byte_from(bytes, 10, at);
    crate::bytes::lemma_byte_from(all, 10, at);
    assert(forall|k: int| 0 <= k < bytes.len() ==> all[k] == bytes[k]);
    if end < bytes.len() {
        crate::bytes::lemma_byte_from_is(all, 10, at, end);
        assert(all.subrange(at, end) =~= bytes.subrange(at, end));
    } else {
        let later = crate::bytes::byte_from(all, 10, at);
        assert(later >= bytes.len()) by {
            if later < bytes.len() {
                assert(bytes[later] == 10);
            }
        }
    }
}

/// A line that starts `k` bytes further on.
pub open spec fn line_later(line: LineView, k: int) -> LineView {
    match line {
        LineView::Text(text, next) => LineView::Text(text, next + k),
        other => other,
    }
}

/// A line does not depend on what came before it.
pub proof fn lemma_line_alone(bytes: Seq<u8>, at: int, k: int, ending: Ending, budget: int)
    requires
        0 <= k <= at <= bytes.len(),
    ensures
        line_at(bytes, at, ending, budget) == line_later(
            line_at(bytes.skip(k), at - k, ending, budget),
            k,
        ),
{
    let rest = bytes.skip(k);
    crate::bytes::lemma_byte_from(bytes, 10, at);
    let end = crate::bytes::byte_from(bytes, 10, at);
    assert(forall|j: int| at - k <= j < rest.len() ==> rest[j] == bytes[j + k]);
    crate::bytes::lemma_byte_from_is(rest, 10, at - k, end - k);
    assert(rest.subrange(at - k, end - k) =~= bytes.subrange(at, end));
}

} // verus!
