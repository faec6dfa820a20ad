//! HTTP/1.1: how requests are framed, and how answers are written.

use crate::transport::http1::body::{Body, BodyError, BodyStart, Run, Stage};
use crate::transport::http1::connection::{
    claim_slot, conclude, linger, receive, release_slot, Arrival, Conclusion, Limits, Next,
    Reception,
};
use crate::transport::http1::head::{Framing, Head, HeadStep};
use crate::transport::http1::response::{MethodView, Response, ResponseView, Version};
use crate::transport::http1::wire::{Ending, LineView};
use vstd::prelude::*;
use vstd::string::*;
use vstd::utf8::*;

verus! {

/// A head may hold any byte but control characters, of which the tab is no harm.
pub proof fn law_a_head_holds_no_control_characters(b: u8)
    ensures
        crate::transport::http1::wire::is_head_byte(b) <==> b == 9 || (b >= 32 && b != 127),
{
}

/// A token holds any visible character of ASCII but the separators.
pub proof fn law_a_token_holds_no_separators(c: char)
    ensures
        crate::transport::http1::response::is_token_char(c) <==> '\u{21}' <= c && c <= '\u{7e}' && c
            != '(' && c != ')' && c != '<' && c != '>' && c != '@' && c != ',' && c != ';' && c
            != ':' && c != '\\' && c != '"' && c != '/' && c != '[' && c != ']' && c != '?' && c
            != '=' && c != '{' && c != '}',
{
}

/// The methods that are told apart, by their names in capitals.
pub proof fn law_methods_are_told_apart(token: Seq<char>)
    ensures
        ({
            let m = crate::transport::http1::response::method_of(token);
            &&& m is Get <==> token == "GET"@
            &&& m is Head <==> token == "HEAD"@
            &&& m is Post <==> token == "POST"@
            &&& m is Delete <==> token == "DELETE"@
            &&& m matches MethodView::Other(s) ==> s == token
        }),
{
    crate::laws::words::lemma_http_methods_differ();
}

/// A request line is a method, a target and a version, with one space between
/// each two. Other versions than 1.0 and 1.1 are not spoken.
pub proof fn law_request_lines_have_three_words(
    method: Seq<char>,
    target: Seq<char>,
    version: Seq<char>,
)
    requires
        !method.contains(' '),
        !target.contains(' '),
        !version.contains(' '),
    ensures
        ({
            let r = crate::transport::http1::head::request_line(
                method.push(' ') + (target.push(' ') + version),
            );
            let good = crate::transport::http1::response::token_ok(method) && target.len() > 0;
            &&& good && version == "HTTP/1.1"@ ==> r == Ok::<_, ResponseView>(
                (
                    crate::transport::http1::response::method_of(method),
                    target,
                    Version::Http11,
                ),
            )
            &&& good && version == "HTTP/1.0"@ ==> r == Ok::<_, ResponseView>(
                (
                    crate::transport::http1::response::method_of(method),
                    target,
                    Version::Http10,
                ),
            )
            &&& good && version != "HTTP/1.1"@ && version != "HTTP/1.0"@ ==> (r matches Err(x)
                && x.status == 505 && x.close)
            &&& !good ==> (r matches Err(x) && x.status == 400 && x.close)
        }),
{
    crate::laws::words::lemma_versions_differ();
    let rest = target.push(' ') + version;
    crate::laws::texts::law_a_text_is_cut_at_every_occurrence(method, ' ', rest);
    crate::laws::texts::law_a_text_is_cut_at_every_occurrence(target, ' ', version);
    crate::laws::texts::law_a_text_is_cut_at_every_occurrence(version, ' ', version);
    let words = crate::text::split(method.push(' ') + rest, ' ');
    assert(words =~= seq![method, target, version]);
    assert(words[0] == method && words[1] == target && words[2] == version);
    lemma_refusals();
}

/// What a refusal is.
proof fn lemma_refusals()
    ensures
        forall|why: Seq<char>|
            (#[trigger] crate::transport::http1::response::refused(why)).status == 400
                && crate::transport::http1::response::refused(why).close,
        forall|status: u16, why: Seq<char>|
            (#[trigger] crate::transport::http1::response::bare(status, why)).status == status
                && crate::transport::http1::response::bare(status, why).last().close
                && crate::transport::http1::response::bare(status, why).last().status == status,
        crate::transport::http1::response::head_too_long().status == 431,
        crate::transport::http1::response::head_too_long().close,
{
}

/// A header line is a name, a colon and a value; blanks round the value are not
/// part of it. A line that begins with a blank, has no colon, or whose name is
/// no token, is refused.
pub proof fn law_header_lines_have_a_name_and_a_value(
    name: Seq<char>,
    front: Seq<char>,
    value: Seq<char>,
    back: Seq<char>,
    line: Seq<char>,
)
    requires
        crate::transport::http1::response::token_ok(name),
        forall|k: int| 0 <= k < front.len() ==> (#[trigger] front[k]) == ' ' || front[k] == '\t',
        forall|k: int| 0 <= k < back.len() ==> (#[trigger] back[k]) == ' ' || back[k] == '\t',
        value.len() > 0 ==> value[0] != ' ' && value[0] != '\t' && value.last() != ' '
            && value.last() != '\t',
    ensures
        crate::transport::http1::head::header_field(name.push(':') + (front + value + back)) == Ok::<
            (Seq<char>, Seq<char>),
            ResponseView,
        >((name, value)),
        !line.contains(':') || (line.len() > 0 && (line[0] == ' ' || line[0] == '\t'))
            ==> crate::transport::http1::head::header_field(line) is Err,
{
    let s = name.push(':') + (front + value + back);
    let n = name.len() as int;
    assert forall|k: int| 0 <= k < n implies (#[trigger] s[k]) != ':' && s[k] != ' ' && s[k]
        != '\t' by {
        assert(crate::transport::http1::response::is_token_char(name[k]));
    }
    assert(s[n] == ':');
    crate::laws::texts::law_the_first_is_found(s, ':', n);
    crate::laws::texts::law_the_first_is_found(line, ':', 0);
    assert(s.take(n) =~= name);
    assert(s.skip(n + 1) =~= front + (value + back));
    assert(s[0] == name[0]);
    lemma_blanks_before(front, value + back);
    lemma_blanks_after(value, back);
}

proof fn lemma_blanks_before(front: Seq<char>, s: Seq<char>)
    requires
        forall|k: int| 0 <= k < front.len() ==> (#[trigger] front[k]) == ' ' || front[k] == '\t',
    ensures
        crate::text::trim_start_where(front + s, crate::text::blanks())
            == crate::text::trim_start_where(s, crate::text::blanks()),
    decreases front.len(),
{
    if front.len() == 0 {
        assert(front + s =~= s);
    } else {
        assert((front + s)[0] == front[0]);
        assert((front + s).skip(1) =~= front.skip(1) + s);
        assert forall|k: int| 0 <= k < front.skip(1).len() implies (#[trigger] front.skip(1)[k])
            == ' ' || front.skip(1)[k] == '\t' by {
            assert(front[k + 1] == ' ' || front[k + 1] == '\t');
        }
        lemma_blanks_before(front.skip(1), s);
    }
}

proof fn lemma_blanks_end(s: Seq<char>, back: Seq<char>)
    requires
        forall|k: int| 0 <= k < back.len() ==> (#[trigger] back[k]) == ' ' || back[k] == '\t',
    ensures
        crate::text::trim_end_where(s + back, crate::text::blanks()) == crate::text::trim_end_where(
            s,
            crate::text::blanks(),
        ),
    decreases back.len(),
{
    if back.len() == 0 {
        assert(s + back =~= s);
    } else {
        assert((s + back).last() == back[back.len() - 1]);
        assert((s + back).drop_last() =~= s + back.drop_last());
        lemma_blanks_end(s, back.drop_last());
    }
}

proof fn lemma_blanks_after(value: Seq<char>, back: Seq<char>)
    requires
        forall|k: int| 0 <= k < back.len() ==> (#[trigger] back[k]) == ' ' || back[k] == '\t',
        value.len() > 0 ==> value[0] != ' ' && value[0] != '\t' && value.last() != ' '
            && value.last() != '\t',
    ensures
        crate::text::trim_blanks(value + back) == value,
{
    if value.len() == 0 {
        assert(value + back =~= back + value);
        lemma_blanks_before(back, value);
        assert(crate::text::trim_blanks(value) =~= value);
    } else {
        assert((value + back)[0] == value[0]);
        lemma_blanks_end(value, back);
    }
}

/// Whether a field has this name, in whatever case.
pub open spec fn called(field: (Seq<char>, Seq<char>), name: Seq<char>) -> bool {
    crate::text::lower_all(field.0) == crate::text::lower_all(name)
}

/// Whether a request has no field of this name.
pub open spec fn unnamed(headers: Seq<(Seq<char>, Seq<char>)>, name: Seq<char>) -> bool {
    forall|k: int| 0 <= k < headers.len() ==> !called(#[trigger] headers[k], name)
}

/// How the fields that frame a body come out, where they do not contradict one
/// another.
proof fn lemma_frames(
    headers: Seq<(Seq<char>, Seq<char>)>,
    from: int,
    encoding: Option<Seq<char>>,
    length: Option<Seq<char>>,
    e: Option<Seq<char>>,
    l: Option<Seq<char>>,
)
    requires
        0 <= from <= headers.len(),
        encoding is Some ==> e == encoding && forall|k: int|
            from <= k < headers.len() ==> !called(#[trigger] headers[k], "transfer-encoding"@),
        forall|k: int|
            from <= k < headers.len() && called(#[trigger] headers[k], "transfer-encoding"@)
                ==> encoding is None && e == Some(headers[k].1),
        forall|j: int, k: int|
            from <= j < k < headers.len() && called(#[trigger] headers[j], "transfer-encoding"@)
                ==> !called(#[trigger] headers[k], "transfer-encoding"@),
        forall|k: int|
            from <= k < headers.len() && called(#[trigger] headers[k], "content-length"@) ==> l
                == Some(headers[k].1),
        length is Some ==> l == length,
        encoding is None && (forall|k: int|
            from <= k < headers.len() ==> !called(#[trigger] headers[k], "transfer-encoding"@))
            ==> e is None,
        length is None && (forall|k: int|
            from <= k < headers.len() ==> !called(#[trigger] headers[k], "content-length"@))
            ==> l is None,
    ensures
        crate::transport::http1::head::framing_fields(headers, from, encoding, length) == Ok::<
            _,
            ResponseView,
        >((e, l)),
    decreases headers.len() - from,
{
    reveal_strlit("transfer-encoding");
    reveal_strlit("content-length");
    assert(crate::text::lower_all("transfer-encoding"@).len() == 17);
    assert(crate::text::lower_all("content-length"@).len() == 14);
    if from < headers.len() {
        let (name, value) = headers[from];
        let te = called(headers[from], "transfer-encoding"@);
        let cl = called(headers[from], "content-length"@);
        let e2 = if te {
            Some(value)
        } else {
            encoding
        };
        let l2 = if cl {
            Some(value)
        } else {
            length
        };
        lemma_frames(headers, from + 1, e2, l2, e, l);
    }
}

/// A request without a length or an encoding has no body. One that gives a
/// length, once or several times alike, has a body that long; a length is made of
/// digits alone.
pub proof fn law_a_length_frames_a_body(
    headers: Seq<(Seq<char>, Seq<char>)>,
    value: Seq<char>,
    n: int,
)
    requires
        unnamed(headers, "transfer-encoding"@),
        forall|k: int|
            0 <= k < headers.len() && called(#[trigger] headers[k], "content-length"@) ==> headers[k].1
                == value,
        0 <= n <= usize::MAX,
    ensures
        unnamed(headers, "content-length"@) ==> crate::transport::http1::head::framing(headers)
            == Ok::<Framing, ResponseView>(Framing::Empty),
        !unnamed(headers, "content-length"@) && value == crate::text::decimal(n) ==> (
        crate::transport::http1::head::framing(headers) matches Ok(f) && if n == 0 {
            f is Empty
        } else {
            f == Framing::Length(n as usize)
        }),
        !unnamed(headers, "content-length"@) && (value.len() == 0 || exists|k: int|
            0 <= k < value.len() && !('0' <= (#[trigger] value[k]) && value[k] <= '9')) ==> (
        crate::transport::http1::head::framing(headers) matches Err(x) && x.status == 400
            && x.close),
{
    let none = None::<Seq<char>>;
    crate::laws::texts::law_decimals_are_written_and_read(n);
    lemma_refusals();
    if unnamed(headers, "content-length"@) {
        lemma_frames(headers, 0, none, none, none, none);
    } else {
        lemma_frames(headers, 0, none, none, none, Some(value));
        if value.len() == 0 || exists|k: int|
            0 <= k < value.len() && !('0' <= (#[trigger] value[k]) && value[k] <= '9') {
            if crate::text::is_number(value, 10) {
                let k = choose|k: int|
                    0 <= k < value.len() && !('0' <= (#[trigger] value[k]) && value[k] <= '9');
                assert(crate::text::digit(value[k]) < 10);
            }
        }
    }
}

/// A request that gives an encoding and no length has a body in chunks where the
/// encoding is that, in whatever case; no other is understood.
pub proof fn law_an_encoding_frames_a_body(
    headers: Seq<(Seq<char>, Seq<char>)>,
    i: int,
)
    requires
        unnamed(headers, "content-length"@),
        0 <= i < headers.len(),
        called(headers[i], "transfer-encoding"@),
        forall|k: int|
            0 <= k < headers.len() && k != i ==> !called(
                #[trigger] headers[k],
                "transfer-encoding"@,
            ),
    ensures
        crate::text::lower_all(headers[i].1) == crate::text::lower_all("chunked"@)
            ==> crate::transport::http1::head::framing(headers) == Ok::<Framing, ResponseView>(
            Framing::Chunked,
        ),
        crate::text::lower_all(headers[i].1) != crate::text::lower_all("chunked"@) ==> (
        crate::transport::http1::head::framing(headers) matches Err(x) && x.status == 501
            && x.close),
{
    lemma_refusals();
    lemma_frames(headers, 0, None, None, Some(headers[i].1), None);
}

/// A list with commas holds what one of its parts is, in whatever case and
/// without the white space round it.
pub proof fn law_a_list_holds_its_parts(a: Seq<char>, b: Seq<char>, token: Seq<char>)
    requires
        !a.contains(','),
    ensures
        crate::transport::http1::head::token_in(a, token) <==> crate::text::lower_all(
            crate::text::trim(a),
        ) == crate::text::lower_all(token),
        crate::transport::http1::head::token_in(a.push(',') + b, token) <==> (
        crate::transport::http1::head::token_in(a, token)
            || crate::transport::http1::head::token_in(b, token)),
{
    crate::laws::texts::law_a_text_is_cut_at_every_occurrence(a, ',', b);
    let whole = a.push(',') + b;
    let pa = crate::text::split(a, ',');
    let pb = crate::text::split(b, ',');
    let pw = crate::text::split(whole, ',');
    assert(pa[0] == a);
    assert(pw[0] == a);
    assert(forall|k: int| 0 <= k < pb.len() ==> pw[k + 1] == #[trigger] pb[k]);
    if crate::transport::http1::head::token_in(whole, token) {
        let k = choose|k: int|
            0 <= k < pw.len() && crate::text::same_ignoring_case(
                crate::text::trim(#[trigger] pw[k]),
                token,
            );
        if k > 0 {
            assert(pw[k] == pb[k - 1]);
        }
    }
    if crate::transport::http1::head::token_in(b, token) {
        let k = choose|k: int|
            0 <= k < pb.len() && crate::text::same_ignoring_case(
                crate::text::trim(#[trigger] pb[k]),
                token,
            );
        assert(pw[k + 1] == pb[k]);
    }
    if crate::transport::http1::head::token_in(a, token) {
        let k = choose|k: int|
            0 <= k < pa.len() && crate::text::same_ignoring_case(
                crate::text::trim(#[trigger] pa[k]),
                token,
            );
        assert(pa[k] == a);
    }
}

/// A connection ends after a request of version 1.1 that says `close`, and after
/// one of version 1.0 that does not say `keep-alive`.
pub proof fn law_connections_end_when_asked(headers: Seq<(Seq<char>, Seq<char>)>)
    ensures
        ({
            let said = crate::transport::http1::head::header_value(headers, "connection"@);
            &&& said matches Some(v) ==> crate::transport::http1::head::close_asked(
                Version::Http11,
                headers,
            ) == crate::transport::http1::head::token_in(v, "close"@)
            &&& said matches Some(v) ==> crate::transport::http1::head::close_asked(
                Version::Http10,
                headers,
            ) == !crate::transport::http1::head::token_in(v, "keep-alive"@)
            &&& said is None ==> !crate::transport::http1::head::close_asked(
                Version::Http11,
                headers,
            )
            &&& said is None ==> crate::transport::http1::head::close_asked(
                Version::Http10,
                headers,
            )
        }),
{
    reveal_strlit("");
    reveal_strlit("close");
    reveal_strlit("keep-alive");
    let e = ""@;
    assert(e =~= Seq::<char>::empty());
    assert(!e.contains(','));
    law_a_list_holds_its_parts(e, e, "close"@);
    law_a_list_holds_its_parts(e, e, "keep-alive"@);
    assert(crate::text::trim(e) =~= e);
    assert(crate::text::lower_all(e).len() == 0);
    assert(crate::text::lower_all("close"@).len() == 5);
    assert(crate::text::lower_all("keep-alive"@).len() == 10);
}

/// A peer waits to be told to send its body where it says so in version 1.1; no
/// other expectation is met.
pub proof fn law_peers_wait_where_they_say_so(
    version: Version,
    headers: Seq<(Seq<char>, Seq<char>)>,
)
    ensures
        match crate::transport::http1::head::header_value(headers, "expect"@) {
            None => crate::transport::http1::head::continue_asked(version, headers) == Ok::<
                bool,
                ResponseView,
            >(false),
            Some(v) => if crate::text::lower_all(v) == crate::text::lower_all("100-continue"@) {
                crate::transport::http1::head::continue_asked(version, headers) == Ok::<
                    bool,
                    ResponseView,
                >(version == Version::Http11)
            } else {
                crate::transport::http1::head::continue_asked(version, headers) matches Err(x)
                    && x.status == 417 && x.close
            },
        },
{
    lemma_refusals();
}

/// A body of a given length is that many bytes from where it starts, and no
/// more; where they do not all come, there is no body.
pub proof fn law_a_body_is_as_long_as_it_says(
    n: usize,
    bytes: Seq<u8>,
    ending: Ending,
    limit: int,
)
    ensures
        bytes.len() >= n ==> crate::transport::http1::body::run(
            Stage::Exact(n),
            Seq::empty(),
            bytes,
            0,
            ending,
            limit,
        ) == Run::Done(bytes.take(n as int), n as int),
        bytes.len() < n && ending is Open ==> crate::transport::http1::body::run(
            Stage::Exact(n),
            Seq::empty(),
            bytes,
            0,
            ending,
            limit,
        ) is More,
        bytes.len() < n && !(ending is Open) ==> crate::transport::http1::body::run(
            Stage::Exact(n),
            Seq::empty(),
            bytes,
            0,
            ending,
            limit,
        ) == Run::Fail(BodyError::Incomplete),
{
    if bytes.len() >= n {
        assert(Seq::<u8>::empty() + bytes.subrange(0, n as int) =~= bytes.take(n as int));
    }
}

/// The size of a chunk is what its digits write in hexadecimal; what follows a
/// semicolon is not looked at, and neither are blanks before it.
pub proof fn law_chunk_sizes_are_hexadecimal(digits: Seq<char>, blanks: Seq<char>, rest: Seq<char>)
    requires
        0 < digits.len() <= 15,
        forall|k: int| 0 <= k < digits.len() ==> crate::text::digit(#[trigger] digits[k]) < 16,
        forall|k: int| 0 <= k < blanks.len() ==> (#[trigger] blanks[k]) == ' ' || blanks[k] == '\t',
        crate::text::number(digits, 16) <= usize::MAX,
    ensures
        crate::transport::http1::body::chunk_size(digits) == Some(crate::text::number(digits, 16)),
        crate::transport::http1::body::chunk_size(digits + blanks + (seq![';'] + rest)) == Some(
            crate::text::number(digits, 16),
        ),
{
    let n = digits.len() as int;
    let m = n + blanks.len();
    let line = digits + blanks + (seq![';'] + rest);
    assert forall|k: int| 0 <= k < m implies (#[trigger] line[k]) != ';' by {
        if k < n {
            assert(line[k] == digits[k]);
            assert(crate::text::digit(digits[k]) < 16);
        } else {
            assert(line[k] == blanks[k - n]);
        }
    }
    assert(line[m] == ';');
    crate::laws::texts::law_the_first_is_found(line, ';', m);
    assert(!digits.contains(';')) by {
        if digits.contains(';') {
            let k = choose|k: int| 0 <= k < digits.len() && digits[k] == ';';
            assert(crate::text::digit(digits[k]) < 16);
        }
    }
    crate::laws::texts::law_the_first_is_found(digits, ';', 0);
    assert(line.take(m) =~= digits + blanks);
    assert(digits.take(n) =~= digits);
    lemma_blanks_end(digits, blanks);
    assert(crate::text::digit(digits[n - 1]) < 16);
    assert(digits.last() == digits[n - 1]);
    assert(crate::text::trim_end_where(digits, crate::text::blanks()) == digits);
}

/// A line is what comes before its line break, and before the carriage return
/// that may stand in front of that, where it is no longer than it may be; where
/// it does not end in time it is too long, and where it has not ended yet, more
/// is needed unless no more will come.
pub proof fn law_lines_end_at_their_breaks(
    line: Seq<u8>,
    rest: Seq<u8>,
    ending: Ending,
    budget: int,
)
    requires
        forall|k: int| 0 <= k < line.len() ==> (#[trigger] line[k]) != 10,
        line.len() > 0 ==> line.last() != 13,
        budget > 0,
    ensures
        ({
            let plain = line.push(10) + rest;
            let with_return = line.push(13).push(10) + rest;
            let text = crate::transport::http1::wire::is_head_text(line);
            &&& line.len() + 1 <= budget ==> crate::transport::http1::wire::line_at(
                plain,
                0,
                ending,
                budget,
            ) == (if text {
                LineView::Text(decode_utf8(line), line.len() as int + 1)
            } else {
                LineView::Invalid
            })
            &&& line.len() + 2 <= budget ==> crate::transport::http1::wire::line_at(
                with_return,
                0,
                ending,
                budget,
            ) == (if text {
                LineView::Text(decode_utf8(line), line.len() as int + 2)
            } else {
                LineView::Invalid
            })
            &&& line.len() + 1 > budget ==> crate::transport::http1::wire::line_at(
                plain,
                0,
                ending,
                budget,
            ) is TooLong
            &&& line.len() < budget ==> crate::transport::http1::wire::line_at(
                line,
                0,
                ending,
                budget,
            ) == (match ending {
                Ending::Open => LineView::More,
                Ending::Closed => LineView::Eof,
                Ending::Failed => LineView::Failed,
            })
        }),
{
    let n = line.len() as int;
    let plain = line.push(10) + rest;
    let with_return = line.push(13).push(10) + rest;
    assert(forall|k: int| 0 <= k < n ==> plain[k] == line[k]);
    assert(plain[n] == 10);
    crate::bytes::lemma_byte_from_is(plain, 10, 0, n);
    assert forall|k: int| 0 <= k < n + 1 implies with_return[k] != 10 by {
        if k < n {
            assert(with_return[k] == line[k]);
        }
    }
    assert(with_return[n + 1] == 10);
    crate::bytes::lemma_byte_from_is(with_return, 10, 0, n + 1);
    crate::bytes::lemma_byte_from_is(line, 10, 0, n);
    assert(plain.subrange(0, n) =~= line);
    assert(with_return.subrange(0, n + 1) =~= line.push(13));
    assert(line.push(13).drop_last() =~= line);
}

/// An answer is written as its version and status, its header fields in order,
/// how long it is, whether the connection stays, and its body. There is no body
/// in the answer to `HEAD` or with a status that has none, and then nothing is
/// said of its length.
pub proof fn law_answers_are_written_whole(
    method: MethodView,
    version: Version,
    r: ResponseView,
    keep_alive: bool,
)
    ensures
        crate::transport::http1::response::rendered(method, version, r, keep_alive) == encode_utf8(
            (match version {
                Version::Http10 => "HTTP/1.0"@,
                Version::Http11 => "HTTP/1.1"@,
            }) + " "@ + crate::text::decimal(r.status as int) + " "@
                + crate::transport::http1::response::phrase(r.status) + "\r\n"@
                + crate::transport::http1::response::header_lines(r.headers) + (if r.status == 204
                || r.status == 304 {
                ""@
            } else {
                "Content-Length: "@ + crate::text::decimal(r.body.len() as int) + "\r\n"@
            }) + (if keep_alive {
                "Connection: keep-alive\r\n\r\n"@
            } else {
                "Connection: close\r\n\r\n"@
            }),
        ) + (if r.status == 204 || r.status == 304 || method == MethodView::Head {
            Seq::<u8>::empty()
        } else {
            r.body
        }),
{
    reveal_strlit("");
    reveal_strlit(": ");
    reveal_strlit("\r\n");
    reveal_strlit("Content-Length");
    reveal_strlit("Content-Length: ");
    reveal_strlit("Connection");
    reveal_strlit("keep-alive");
    reveal_strlit("close");
    reveal_strlit("Connection: keep-alive\r\n\r\n");
    reveal_strlit("Connection: close\r\n\r\n");
    assert("Content-Length"@ + ": "@ =~= "Content-Length: "@);
    assert("Connection"@ + ": "@ + "keep-alive"@ + "\r\n"@ + "\r\n"@
        =~= "Connection: keep-alive\r\n\r\n"@);
    assert("Connection"@ + ": "@ + "close"@ + "\r\n"@ + "\r\n"@
        =~= "Connection: close\r\n\r\n"@);
    let first = crate::transport::http1::response::status_line(version, r.status);
    let lines = crate::transport::http1::response::header_lines(r.headers);
    let length = if r.status == 204 || r.status == 304 {
        ""@
    } else {
        "Content-Length: "@ + crate::text::decimal(r.body.len() as int) + "\r\n"@
    };
    let kept = if keep_alive {
        "Connection: keep-alive\r\n\r\n"@
    } else {
        "Connection: close\r\n\r\n"@
    };
    assert(crate::transport::http1::response::closing_lines(r, keep_alive) =~= length + kept);
    assert(first + lines + (length + kept) =~= first + lines + length + kept);
    assert(crate::transport::http1::response::response_head(version, r, keep_alive) =~= first
        + lines + length + kept);
}

/// Header fields are written in order, each on a line of its own.
pub proof fn law_header_fields_are_written_in_order(
    a: Seq<(Seq<char>, Seq<char>)>,
    name: Seq<char>,
    value: Seq<char>,
    b: Seq<(Seq<char>, Seq<char>)>,
)
    ensures
        crate::transport::http1::response::header_lines(a + seq![(name, value)] + b)
            == crate::transport::http1::response::header_lines(a) + name + ": "@ + value + "\r\n"@
            + crate::transport::http1::response::header_lines(b),
        crate::transport::http1::response::header_lines(Seq::empty()) == Seq::<char>::empty(),
    decreases b.len(),
{
    let all = a + seq![(name, value)] + b;
    let whole = crate::transport::http1::response::header_lines(a) + name + ": "@ + value + "\r\n"@
        + crate::transport::http1::response::header_lines(b);
    if b.len() == 0 {
        assert(all.drop_last() =~= a);
        assert(all.last() == (name, value));
        assert(crate::transport::http1::response::header_lines(all) =~= whole);
    } else {
        law_header_fields_are_written_in_order(a, name, value, b.drop_last());
        assert(all.drop_last() =~= a + seq![(name, value)] + b.drop_last());
        assert(all.last() == b.last());
        assert(crate::transport::http1::response::header_lines(all) =~= whole);
    }
}

/// The words for each status that is used.
pub proof fn law_statuses_have_their_words()
    ensures
        crate::transport::http1::response::phrase(200) == "OK"@,
        crate::transport::http1::response::phrase(202) == "Accepted"@,
        crate::transport::http1::response::phrase(204) == "No Content"@,
        crate::transport::http1::response::phrase(400) == "Bad Request"@,
        crate::transport::http1::response::phrase(401) == "Unauthorized"@,
        crate::transport::http1::response::phrase(403) == "Forbidden"@,
        crate::transport::http1::response::phrase(404) == "Not Found"@,
        crate::transport::http1::response::phrase(405) == "Method Not Allowed"@,
        crate::transport::http1::response::phrase(408) == "Request Timeout"@,
        crate::transport::http1::response::phrase(413) == "Payload Too Large"@,
        crate::transport::http1::response::phrase(417) == "Expectation Failed"@,
        crate::transport::http1::response::phrase(431) == "Request Header Fields Too Large"@,
        crate::transport::http1::response::phrase(500) == "Internal Server Error"@,
        crate::transport::http1::response::phrase(501) == "Not Implemented"@,
        crate::transport::http1::response::phrase(503) == "Service Unavailable"@,
        crate::transport::http1::response::phrase(505) == "HTTP Version Not Supported"@,
{
}

/// A connection carries on exactly where the peer did not ask for its end, the
/// answer does not end it, and the body of the request was read; and the peer is
/// told which.
pub proof fn law_connections_carry_on_for_cause(
    head: Head,
    finished: bool,
    response: Response,
    r: Conclusion,
)
    requires
        response@.tidy(),
        call_ensures(conclude, (&head, finished, response), r),
    ensures
        r.reuse <==> !head.wants_close && !response@.close && finished,
        r.bytes@ == crate::transport::http1::response::rendered(
            head@.method,
            head@.version,
            ResponseView { close: !r.reuse, ..response@ },
            r.reuse,
        ),
{
    if r.reuse {
        assert((ResponseView { close: !r.reuse, ..response@ }) == response@);
    }
}

/// A peer is served exactly where a slot is free; otherwise it is told so, or
/// the connection is closed where it could not be told. Failing to wait ends
/// nothing.
pub proof fn law_peers_are_served_while_there_is_room(
    arrival: Arrival,
    live: usize,
    max: usize,
    tls: bool,
    r: Reception,
)
    requires
        call_ensures(receive, (arrival, live, max, tls), r),
    ensures
        arrival == Arrival::Peer && live < max ==> (r matches Reception::Serve(n) && n == live + 1),
        arrival == Arrival::Peer && live >= max && !tls ==> r is Refuse,
        arrival == Arrival::Peer && live >= max && tls ==> r is Close,
        arrival == Arrival::Interrupted ==> r is Next,
        arrival == Arrival::Failed ==> r is Pause,
{
}

/// A response has the status it was made with, and each header field that was
/// added to it and keeps to its line, in order. A body goes with its kind.
pub proof fn law_responses_keep_what_they_are_given(
    r: ResponseView,
    status: u16,
    name: Seq<char>,
    value: Seq<char>,
    body: Seq<u8>,
)
    ensures
        ResponseView::empty(status).status == status,
        ResponseView::empty(status).headers.len() == 0,
        ResponseView::empty(status).body.len() == 0,
        !ResponseView::empty(status).close,
        crate::transport::http1::response::token_ok(name) && (forall|k: int|
            0 <= k < value.len() ==> (#[trigger] value[k]) == '\t' || value[k] >= ' ') ==> r.header(
            name,
            value,
        ).headers == r.headers.push((name, value)),
        (exists|k: int| 0 <= k < value.len() && (#[trigger] value[k]) != '\t' && value[k] < ' ')
            ==> r.header(name, value) == r,
        r.header(name, value).status == r.status,
        r.header(name, value).body == r.body,
        r.header(name, value).close == r.close,
        r.with(value, body).body == body,
        r.with(value, body).status == r.status,
        r.with(value, body).close == r.close,
        r.last().close,
        r.last().status == r.status,
        r.last().body == r.body,
        r.last().headers == r.headers,
{
}

/// A body is read once: one that is longer than is accepted is refused before a
/// byte of it is asked for, and one that is not is read whole from its first
/// byte, after the peer is told to send it where it waits for that.
pub proof fn law_a_body_is_read_once(before: Body, after: Body, limit: usize, r: BodyStart)
    requires
        crate::transport::http1::body::started(before, after, limit, r),
    ensures
        before.started ==> (r matches BodyStart::Done(Err(BodyError::Malformed))) && after
            == before,
        !before.started && before.framing is Empty ==> (r matches BodyStart::Done(Ok(s))
            && s@.len() == 0),
        !before.started && (before.framing matches Framing::Length(n) && n > limit) ==> (
        r matches BodyStart::Done(Err(BodyError::TooLarge))),
        !before.started && (before.framing matches Framing::Length(n) && n <= limit) ==> (
        r matches BodyStart::Read(send) && send == before.must_send_continue) && after.reader.stage
            == Stage::Exact(before.framing->Length_0) && after.reader.collected@.len() == 0
            && !after.must_send_continue,
        !before.started && before.framing is Chunked ==> (r matches BodyStart::Read(send) && send
            == before.must_send_continue) && after.reader.stage == Stage::Size
            && after.reader.collected@.len() == 0 && after.reader.limit == limit
            && !after.must_send_continue,
{
    match r {
        BodyStart::Done(Err(e)) => {
            match e {
                BodyError::Malformed => {},
                BodyError::TooLarge => {},
                BodyError::Incomplete => {},
            }
        },
        _ => {},
    }
}

/// A body that nobody asked for is discarded exactly where it says how long it
/// is, and that is no more than would have been accepted.
pub proof fn law_a_short_body_is_discarded(before: Body, after: Body, limit: usize, r: bool)
    requires
        crate::transport::http1::body::drained(before, after, limit, r),
    ensures
        r <==> !before.started && !before.finished && before.framing is Length
            && before.framing->Length_0 <= limit,
        r ==> after.reader.stage == Stage::Exact(before.framing->Length_0) && after.started,
        !r ==> after == before,
{
}

/// On a connection, a request whose head is whole is served with what its head
/// says, and its head is used up; one that makes no sense is answered and the
/// bytes are left; and more is read, or the connection ended, as the bytes say.
pub proof fn law_a_connection_serves_what_is_whole(
    before: Seq<u8>,
    after: Seq<u8>,
    ending: Ending,
    limits: Limits,
    r: Next,
)
    requires
        crate::transport::http1::connection::next_step(before, after, ending, limits, r),
    ensures
        ({
            let step = crate::transport::http1::head::next_head(
                before,
                0,
                ending,
                limits.max_head_bytes as int,
                limits.max_headers as int,
            );
            &&& step is More <==> r is Receive
            &&& step is Hangup <==> r is Hangup
            &&& step is Reject <==> r is Reject
            &&& step matches HeadStep::Ready(head, next) ==> (r matches Next::Serve(h, body) && h@
                == head && body.framing == head.framing && body.must_send_continue
                == head.expects_continue && !body.started && (body.finished <==> head.framing
                == Framing::Empty)) && after == before.skip(next)
            &&& !(step is Ready) ==> after == before
        }),
{
}

/// A slot is claimed exactly where one is free, and is there again once it is
/// given back. What a connection discards at its end is taken off what it may.
pub proof fn law_slots_are_counted(
    live: usize,
    max: usize,
    claimed: Option<usize>,
    released: usize,
    left: usize,
    discarded: usize,
    rest: usize,
)
    requires
        call_ensures(claim_slot, (live, max), claimed),
        call_ensures(release_slot, (live,), released),
        call_ensures(linger, (left, discarded), rest),
    ensures
        claimed is Some <==> live < max,
        claimed matches Some(n) ==> n == live + 1,
        live > 0 ==> released == live - 1,
        live == 0 ==> released == 0,
        discarded <= left ==> rest == left - discarded,
        discarded > left ==> rest == 0,
{
}

/// What arrives comes after what is there.
pub proof fn law_bytes_arrive_in_order(input: Seq<u8>, more: Seq<u8>)
    ensures
        ({
            let all = crate::transport::http1::connection::arrived(input, more);
            &&& all.len() == input.len() + more.len()
            &&& forall|k: int| 0 <= k < input.len() ==> #[trigger] all[k] == input[k]
            &&& forall|k: int| 0 <= k < more.len() ==> all[input.len() + k] == #[trigger] more[k]
        }),
{
}

/// An empty line before a request is passed over.
pub proof fn law_empty_lines_before_a_request_are_passed_over(
    rest: Seq<u8>,
    ending: Ending,
    budget: int,
)
    requires
        budget >= 2,
    ensures
        crate::transport::http1::head::first_line(seq![13u8, 10u8] + rest, 0, ending, budget)
            == crate::transport::http1::head::first_line(
            seq![13u8, 10u8] + rest,
            2,
            ending,
            budget - 2,
        ),
{
    let none = Seq::<u8>::empty();
    let bytes = seq![13u8, 10u8] + rest;
    law_lines_end_at_their_breaks(none, rest, ending, budget);
    assert(none.push(13).push(10) + rest =~= bytes);
    assert(valid_utf8(none));
    assert(decode_utf8(none) =~= Seq::<char>::empty());
}

/// Fields after the last chunk are passed over, up to sixteen of them, and the
/// empty line after them ends the body, which they are no part of.
pub proof fn law_trailers_are_passed_over(
    k: usize,
    body: Seq<u8>,
    bytes: Seq<u8>,
    at: int,
    ending: Ending,
    limit: int,
    line: Seq<char>,
    next: int,
)
    requires
        crate::transport::http1::wire::line_at(bytes, at, ending, 128) == LineView::Text(
            line,
            next,
        ),
        at < next <= bytes.len(),
    ensures
        k <= 16 && line.len() > 0 ==> crate::transport::http1::body::run(
            Stage::Trailer(k),
            body,
            bytes,
            at,
            ending,
            limit,
        ) == crate::transport::http1::body::run(
            Stage::Trailer((k + 1) as usize),
            body,
            bytes,
            next,
            ending,
            limit,
        ),
        k <= 16 && line.len() == 0 ==> crate::transport::http1::body::run(
            Stage::Trailer(k),
            body,
            bytes,
            at,
            ending,
            limit,
        ) == Run::Done(body, next),
        k > 16 ==> crate::transport::http1::body::run(
            Stage::Trailer(k),
            body,
            bytes,
            at,
            ending,
            limit,
        ) == Run::Fail(BodyError::Malformed),
{
}

/// A body is text, or it is none.
pub proof fn law_a_body_is_text(bytes: Seq<u8>)
    ensures
        valid_utf8(bytes) ==> crate::transport::http1::body::body_text(bytes) == Ok::<
            Seq<char>,
            BodyError,
        >(decode_utf8(bytes)),
        !valid_utf8(bytes) ==> crate::transport::http1::body::body_text(bytes) == Err::<
            Seq<char>,
            BodyError,
        >(BodyError::Malformed),
{
}

} // verus!
