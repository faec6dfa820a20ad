//! Handing out a long list a page at a time.

use crate::text::{chars_between, chars_of, decimal_text, join, parse_number, same_text, text_between};
use crate::types::{McpError, McpErrorView};
use vstd::prelude::*;
use vstd::string::*;

verus! {

/// How many items a page has unless configured otherwise.
pub const DEFAULT_PAGE_SIZE: usize = 50;

/// Where a page starts, and how long it may be.
#[derive(Debug, Clone, Copy, PartialEq, Eq, Structural)]
pub struct PageState {
    pub offset: usize,
    pub page_size: usize,
}

/// The cursor for the page that starts at `offset`.
pub open spec fn cursor(offset: int) -> Seq<char> {
    "offset-"@ + crate::text::decimal(offset)
}

/// Where the page starts that a cursor stands for.
pub open spec fn offset_of(c: Seq<char>) -> Option<int> {
    if c.len() >= 7 && c.take(7) == "offset-"@ {
        crate::text::parsed_number(c.skip(7), 10, usize::MAX as int)
    } else {
        None
    }
}

/// The page that a request asks for: the first one where it gives no cursor.
pub open spec fn page_at(c: Option<Seq<char>>) -> Result<int, McpErrorView> {
    match c {
        None => Ok(0),
        Some(c) => match offset_of(c) {
            Some(n) => Ok(n),
            None => Err(McpErrorView::InvalidParams("Invalid cursor: "@ + c)),
        },
    }
}

/// Where a page ends. A page is never empty for want of room.
pub open spec fn page_end(offset: int, page_size: int, len: int) -> int {
    let size = if page_size < 1 {
        1
    } else {
        page_size
    };
    if offset >= len {
        len
    } else if len - offset <= size {
        len
    } else {
        offset + size
    }
}

/// The items of a page.
pub open spec fn page<T>(all: Seq<T>, offset: int, page_size: int) -> Seq<T> {
    if offset >= all.len() {
        Seq::empty()
    } else {
        all.subrange(offset, page_end(offset, page_size, all.len() as int))
    }
}

/// The cursor for the page after this one, where there is one.
pub open spec fn next_cursor(offset: int, page_size: int, len: int) -> Option<Seq<char>> {
    let end = page_end(offset, page_size, len);
    if end < len {
        Some(cursor(end))
    } else {
        None
    }
}

impl PageState {
    /// Reads a cursor.
    pub fn from_cursor(cursor: Option<&str>, page_size: usize) -> (r: Result<PageState, McpError>)
        ensures
            ({
                let asked = page_at(
                    match cursor {
                        Some(c) => Some(c@),
                        None => None,
                    },
                );
                match r {
                    Ok(state) => asked == Ok::<int, McpErrorView>(state.offset as int)
                        && state.page_size == page_size,
                    Err(e) => asked == Err::<int, McpErrorView>(e@),
                }
            }),
    {
        let c = match cursor {
            None => {
                return Ok(PageState { offset: 0, page_size });
            },
            Some(c) => c,
        };
        let s = chars_of(c);
        if s.len() >= 7 {
            assert(s@.subrange(0, 7) =~= s@.take(7));
            if same_text(text_between(&s, 0, 7).as_str(), "offset-") {
                let digits = chars_between(&s, 7, s.len());
                assert(digits@ =~= s@.skip(7));
                match parse_number(&digits, 10, usize::MAX as u64) {
                    Some(n) => {
                        return Ok(PageState { offset: n as usize, page_size });
                    },
                    None => {},
                }
            }
        }
        Err(McpError::InvalidParams(join("Invalid cursor: ", c)))
    }
}

/// The end of a page of a list of this length, and the cursor for the one
/// after it.
pub fn paginate(len: usize, state: &PageState) -> (r: (usize, usize, Option<String>))
    ensures
        r.0 <= r.1 <= len,
        r.0 == if state.offset >= len {
            len
        } else {
            state.offset
        },
        r.1 == page_end(state.offset as int, state.page_size as int, len as int),
        match r.2 {
            Some(c) => next_cursor(state.offset as int, state.page_size as int, len as int) == Some(
                c@,
            ),
            None => next_cursor(state.offset as int, state.page_size as int, len as int) is None,
        },
{
    let size: usize = if state.page_size < 1 {
        1
    } else {
        state.page_size
    };
    if state.offset >= len {
        return (len, len, None);
    }
    if len - state.offset <= size {
        return (state.offset, len, None);
    }
    let end: usize = state.offset + size;
    (state.offset, end, Some(join("offset-", decimal_text(end as u64).as_str())))
}

/// A number written in decimal is read back.
pub proof fn lemma_decimal_is_read_back(n: int)
    requires
        0 <= n,
    ensures
        crate::text::is_number(crate::text::decimal(n), 10),
        crate::text::number(crate::text::decimal(n), 10) == n,
    decreases n,
{
    let s = crate::text::decimal(n);
    if n < 10 {
        assert(s.drop_last() =~= Seq::<char>::empty());
        assert(s.last() == crate::text::digit_char(n));
        assert(crate::text::number(s.drop_last(), 10) == 0);
    } else {
        lemma_decimal_is_read_back(n / 10);
        let front = crate::text::decimal(n / 10);
        assert(s.drop_last() =~= front);
        assert(s.last() == crate::text::digit_char(n % 10));
        assert forall|k: int| 0 <= k < s.len() implies crate::text::digit(#[trigger] s[k]) < 10 by {
            if k < front.len() {
                assert(s[k] == front[k]);
            }
        }
    }
}

/// A cursor that was handed out leads where it was meant to.
pub proof fn law_cursors_are_read_back(offset: int)
    requires
        0 <= offset <= usize::MAX,
    ensures
        page_at(Some(cursor(offset))) == Ok::<int, McpErrorView>(offset),
{
    reveal_strlit("offset-");
    let c = cursor(offset);
    assert(c.take(7) =~= "offset-"@);
    assert(c.skip(7) =~= crate::text::decimal(offset));
    lemma_decimal_is_read_back(offset);
}

/// Following the cursors, a client sees every item once, in order: each page
/// starts where the one before it ended, and the last one ends the list.
pub proof fn law_pages_cover_the_list<T>(all: Seq<T>, offset: int, page_size: int)
    requires
        0 <= offset < all.len(),
    ensures
        ({
            let end = page_end(offset, page_size, all.len() as int);
            &&& offset < end <= all.len()
            &&& all.take(offset) + page(all, offset, page_size) == all.take(end)
            &&& next_cursor(offset, page_size, all.len() as int) is None <==> end == all.len()
        }),
{
    let end = page_end(offset, page_size, all.len() as int);
    assert(all.take(offset) + page(all, offset, page_size) =~= all.take(end));
}

} // verus!
