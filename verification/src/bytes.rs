//! Bytes and the text they encode.

use vstd::prelude::*;
use vstd::string::*;
use vstd::utf8::*;

verus! {

/// The words in which the standard library says why bytes are not UTF-8.
pub uninterp spec fn utf8_complaint(bytes: Seq<u8>) -> Seq<char>;

/// Decodes UTF-8 with `String::from_utf8`: the text the bytes encode, or, where
/// they are not UTF-8, the words of the error, which depend on the bytes alone.
#[verifier::external_body]
pub(crate) fn decode(bytes: Vec<u8>) -> (r: Result<String, String>)
    ensures
        match r {
            Ok(s) => valid_utf8(bytes@) && s@ == decode_utf8(bytes@),
            Err(why) => !valid_utf8(bytes@) && why@ == utf8_complaint(bytes@),
        },
{
    String::from_utf8(bytes).map_err(|e| e.to_string())
}

/// The UTF-8 encoding of a text.
pub fn encode(s: &str) -> (r: Vec<u8>)
    ensures
        r@ == encode_utf8(s@),
{
    s.as_bytes_vec()
}

/// The position of the first `b` at or after `from`, or the length.
pub open spec fn byte_from(s: Seq<u8>, b: u8, from: int) -> int
    decreases s.len() - from,
{
    if from >= s.len() {
        s.len() as int
    } else if s[from] == b {
        from
    } else {
        byte_from(s, b, from + 1)
    }
}

/// What `byte_from` finds.
pub proof fn lemma_byte_from(s: Seq<u8>, b: u8, from: int)
    requires
        0 <= from <= s.len(),
    ensures
        from <= byte_from(s, b, from) <= s.len(),
        byte_from(s, b, from) < s.len() ==> s[byte_from(s, b, from)] == b,
        forall|k: int| from <= k < byte_from(s, b, from) ==> s[k] != b,
    decreases s.len() - from,
{
    if from < s.len() && s[from] != b {
        lemma_byte_from(s, b, from + 1);
    }
}

/// `byte_from` is the only position with its property.
pub proof fn lemma_byte_from_is(s: Seq<u8>, b: u8, from: int, at: int)
    requires
        0 <= from <= at <= s.len(),
        at < s.len() ==> s[at] == b,
        forall|k: int| from <= k < at ==> s[k] != b,
    ensures
        byte_from(s, b, from) == at,
{
    lemma_byte_from(s, b, from);
}

/// Where the first `b` at or after `from` is.
pub fn find_byte(s: &Vec<u8>, b: u8, from: usize) -> (r: usize)
    requires
        from <= s@.len(),
    ensures
        r == byte_from(s@, b, from as int),
        from <= r <= s@.len(),
        r < s@.len() ==> s@[r as int] == b,
        forall|k: int| from <= k < r ==> s@[k] != b,
{
    let mut i: usize = from;
    while i < s.len()
        invariant
            from <= i <= s@.len(),
            byte_from(s@, b, from as int) == byte_from(s@, b, i as int),
            forall|k: int| from <= k < i ==> s@[k] != b,
        decreases s@.len() - i,
    {
        if s[i] == b {
            return i;
        }
        i = i + 1;
    }
    i
}

/// The bytes between two positions.
pub fn bytes_between(s: &Vec<u8>, from: usize, to: usize) -> (r: Vec<u8>)
    requires
        from <= to <= s@.len(),
    ensures
        r@ == s@.subrange(from as int, to as int),
{
    let mut out: Vec<u8> = Vec::new();
    append_between(&mut out, s, from, to);
    assert(out@ =~= s@.subrange(from as int, to as int));
    out
}

/// Adds the bytes between two positions to the end of `out`.
pub fn append_between(out: &mut Vec<u8>, s: &Vec<u8>, from: usize, to: usize)
    requires
        from <= to <= s@.len(),
    ensures
        final(out)@ == old(out)@ + s@.subrange(from as int, to as int),
{
    let mut i: usize = from;
    let ghost before = out@;
    assert(before + s@.subrange(from as int, from as int) =~= before);
    while i < to
        invariant
            from <= i <= to <= s@.len(),
            out@ == before + s@.subrange(from as int, i as int),
        decreases to - i,
    {
        out.push(s[i]);
        i = i + 1;
        assert(out@ =~= before + s@.subrange(from as int, i as int));
    }
}

} // verus!
