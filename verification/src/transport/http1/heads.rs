//! What a request's head is on the wire, and that it is read as it was
//! written.

use super::chunks::lemma_line_is_read;
use super::head::{Fields, HeadStep};
use super::response::Version;
use super::wire::Ending;
use vstd::prelude::*;
use vstd::string::*;
use vstd::utf8::*;

verus! {

/// A request line.
pub open spec fn request_text(method: Seq<char>, target: Seq<char>) -> Seq<char> {
    method + " "@ + target + " HTTP/1.1"@
}

/// A header line.
pub open spec fn field_text(field: (Seq<char>, Seq<char>)) -> Seq<char> {
    field.0 + ": "@ + field.1
}

/// A header field that can be written down: its name is a token, its value has
/// no blanks at its ends, and both are text that a head may hold.
pub open spec fn field_fits(field: (Seq<char>, Seq<char>)) -> bool {
    &&& super::response::token_ok(field.0)
    &&& crate::text::trim_blanks(field.1) == field.1
    &&& super::wire::is_head_text(encode_utf8(field_text(field)))
}

/// A request line that can be written down.
pub open spec fn request_fits(method: Seq<char>, target: Seq<char>) -> bool {
    &&& super::response::token_ok(method)
    &&& target.len() > 0
    &&& !target.contains(' ')
    &&& super::wire::is_head_text(encode_utf8(request_text(method, target)))
}

/// Header fields on the wire, and the empty line after them.
pub open spec fn fields_wire(fields: Seq<(Seq<char>, Seq<char>)>) -> Seq<u8>
    decreases fields.len(),
{
    if fields.len() == 0 {
        super::chunks::line_bytes(""@)
    } else {
        super::chunks::line_bytes(field_text(fields[0])) + fields_wire(fields.skip(1))
    }
}

/// A head on the wire.
pub open spec fn head_wire(
    method: Seq<char>,
    target: Seq<char>,
    fields: Seq<(Seq<char>, Seq<char>)>,
) -> Seq<u8> {
    super::chunks::line_bytes(request_text(method, target)) + fields_wire(fields)
}

/// A token holds neither blanks nor a colon.
proof fn lemma_token(s: Seq<char>)
    requires
        super::response::token_ok(s),
    ensures
        forall|k: int|
            0 <= k < s.len() ==> (#[trigger] s[k]) != ' ' && s[k] != ':' && s[k] != '\t',
{
    assert forall|k: int| 0 <= k < s.len() implies (#[trigger] s[k]) != ' ' && s[k] != ':' && s[k]
        != '\t' by {
        assert(super::response::is_token_char(s[k]));
    }
}

/// A header line is read as the field it was written for.
proof fn lemma_field_is_read(field: (Seq<char>, Seq<char>))
    requires
        field_fits(field),
    ensures
        super::head::header_field(field_text(field)) == Ok::<
            (Seq<char>, Seq<char>),
            super::response::ResponseView,
        >(field),
        field_text(field).len() > 0,
{
    reveal_strlit(": ");
    let line = field_text(field);
    let n = field.0.len() as int;
    lemma_token(field.0);
    assert(line[0] == field.0[0]);
    assert forall|k: int| 0 <= k < n implies line[k] != ':' by {
        assert(line[k] == field.0[k]);
    }
    assert(line[n] == ':');
    crate::text::lemma_find_from_is(line, ':', 0, n);
    assert(line.take(n) =~= field.0);
    let value = line.skip(n + 1);
    assert(value[0] == ' ');
    assert(value.skip(1) =~= field.1);
    assert(crate::text::trim_start_where(value, crate::text::blanks())
        == crate::text::trim_start_where(field.1, crate::text::blanks()));
}

/// A request line is read as the three words it was written with.
proof fn lemma_request_is_read(method: Seq<char>, target: Seq<char>)
    requires
        request_fits(method, target),
    ensures
        super::head::request_line(request_text(method, target)) == Ok::<
            (super::response::MethodView, Seq<char>, Version),
            super::response::ResponseView,
        >((super::response::method_of(method), target, Version::Http11)),
        request_text(method, target).len() > 0,
{
    reveal_strlit(" ");
    reveal_strlit(" HTTP/1.1");
    reveal_strlit("HTTP/1.1");
    let line = request_text(method, target);
    lemma_token(method);
    let n = method.len() as int;
    assert forall|k: int| 0 <= k < n implies line[k] != ' ' by {
        assert(line[k] == method[k]);
    }
    assert(line[n] == ' ');
    crate::text::lemma_find_from_is(line, ' ', 0, n);
    assert(line.take(n) =~= method);
    let rest = line.skip(n + 1);
    let m = target.len() as int;
    assert forall|k: int| 0 <= k < m implies rest[k] != ' ' by {
        assert(rest[k] == target[k]);
        assert(target.contains(target[k]));
    }
    assert(rest[m] == ' ');
    crate::text::lemma_find_from_is(rest, ' ', 0, m);
    assert(rest.take(m) =~= target);
    let last = rest.skip(m + 1);
    assert(last =~= "HTTP/1.1"@);
    assert forall|k: int| 0 <= k < last.len() implies last[k] != ' ' by {
        assert(last[k] == "HTTP/1.1"@[k]);
    }
    crate::text::lemma_find_from_is(last, ' ', 0, last.len() as int);
    reveal_with_fuel(crate::text::split, 4);
    let words = crate::text::split(line, ' ');
    assert(words =~= seq![method, target, last]);
}

/// What an empty line is.
proof fn lemma_empty_line()
    ensures
        encode_utf8(""@).len() == 0,
        super::wire::is_head_text(encode_utf8(""@)),
        ""@.len() == 0,
{
    reveal_strlit("");
    assert(is_ascii_chars(""@));
    is_ascii_chars_encode_utf8(""@);
    encode_utf8_valid_utf8(""@);
}

/// Header fields are read as they were written, beside those already read.
proof fn lemma_fields_are_read(
    before: Seq<u8>,
    fields: Seq<(Seq<char>, Seq<char>)>,
    after: Seq<u8>,
    ending: Ending,
    budget: int,
    max: int,
    read: Seq<(Seq<char>, Seq<char>)>,
)
    requires
        forall|i: int| 0 <= i < fields.len() ==> field_fits(#[trigger] fields[i]),
        fields_wire(fields).len() <= budget,
        read.len() + fields.len() <= max,
    ensures
        super::head::header_block(
            before + fields_wire(fields) + after,
            before.len() as int,
            ending,
            budget,
            max,
            read,
        ) == Fields::All(read + fields, (before.len() + fields_wire(fields).len()) as int),
    decreases fields.len(),
{
    let bytes = before + fields_wire(fields) + after;
    let at = before.len() as int;
    if fields.len() == 0 {
        lemma_empty_line();
        lemma_line_is_read(before, ""@, after, ending, budget);
        assert(read + fields =~= read);
    } else {
        let field = fields[0];
        assert(field_fits(field));
        let line = field_text(field);
        let first = super::chunks::line_bytes(line);
        let rest = fields.skip(1);
        lemma_line_is_read(before, line, fields_wire(rest) + after, ending, budget);
        assert(before + first + (fields_wire(rest) + after) =~= bytes);
        lemma_field_is_read(field);
        assert forall|i: int| 0 <= i < rest.len() implies field_fits(#[trigger] rest[i]) by {
            assert(rest[i] == fields[i + 1]);
        }
        lemma_fields_are_read(
            before + first,
            rest,
            after,
            ending,
            budget - first.len(),
            max,
            read.push(field),
        );
        assert(before + first + fields_wire(rest) + after =~= bytes);
        assert(read.push(field) + rest =~= read + fields);
    }
}

/// A head that is no longer than is accepted is read as it was written,
/// whatever follows it: the same method, target and header fields, and where
/// its body starts. What is then made of it depends on them alone.
pub proof fn law_heads_are_read_back(
    method: Seq<char>,
    target: Seq<char>,
    fields: Seq<(Seq<char>, Seq<char>)>,
    after: Seq<u8>,
    ending: Ending,
    max_bytes: int,
    max_headers: int,
)
    requires
        request_fits(method, target),
        forall|i: int| 0 <= i < fields.len() ==> field_fits(#[trigger] fields[i]),
        head_wire(method, target, fields).len() <= max_bytes,
        fields.len() <= max_headers,
    ensures
        super::head::next_head(
            head_wire(method, target, fields) + after,
            0,
            ending,
            max_bytes,
            max_headers,
        ) == (match super::head::head_of(
            super::response::method_of(method),
            target,
            Version::Http11,
            fields,
        ) {
            Ok(head) => HeadStep::Ready(head, head_wire(method, target, fields).len() as int),
            Err(r) => HeadStep::Reject(r),
        }),
{
    let line = request_text(method, target);
    let first = super::chunks::line_bytes(line);
    let bytes = head_wire(method, target, fields) + after;
    lemma_request_is_read(method, target);
    lemma_line_is_read(Seq::empty(), line, fields_wire(fields) + after, ending, max_bytes);
    assert(Seq::<u8>::empty() + first + (fields_wire(fields) + after) =~= bytes);
    lemma_fields_are_read(
        first,
        fields,
        after,
        ending,
        max_bytes - first.len(),
        max_headers,
        Seq::empty(),
    );
    assert(first + fields_wire(fields) + after =~= bytes);
    assert(Seq::<(Seq<char>, Seq<char>)>::empty() + fields =~= fields);
}

} // verus!
