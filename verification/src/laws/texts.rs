//! Texts, and how they are cut, joined and compared.

use vstd::prelude::*;
use vstd::string::*;

verus! {

/// The lower-case form of a text is as long, and differs from it in its ASCII
/// capitals only, each of which becomes the small letter with its place in the
/// alphabet.
pub proof fn law_only_capitals_are_lowered(s: Seq<char>, k: int)
    requires
        0 <= k < s.len(),
    ensures
        crate::text::lower_all(s).len() == s.len(),
        'A' <= s[k] && s[k] <= 'Z' ==> crate::text::lower_all(s)[k] as int == s[k] as int + 32,
        !('A' <= s[k] && s[k] <= 'Z') ==> crate::text::lower_all(s)[k] == s[k],
{
}

/// A character is found where it first is, and past the end where it is not.
pub proof fn law_the_first_is_found(s: Seq<char>, c: char, i: int)
    ensures
        0 <= i < s.len() && s[i] == c && (forall|k: int| 0 <= k < i ==> (#[trigger] s[k]) != c)
            ==> crate::text::find(s, c) == i,
        !s.contains(c) ==> crate::text::find(s, c) == s.len(),
{
    crate::text::lemma_find_from(s, c, 0);
    let at = crate::text::find(s, c);
    if at < s.len() {
        assert(s.contains(s[at]));
    }
}

/// Trimming takes white space off both ends and leaves the rest as it is: what
/// neither begins nor ends with white space is left alone.
pub proof fn law_trimming_takes_space_off_the_ends(
    front: Seq<char>,
    s: Seq<char>,
    back: Seq<char>,
)
    requires
        crate::transport::spelling::all_space(front),
        crate::transport::spelling::all_space(back),
        s.len() > 0 ==> !crate::text::is_space(s[0]) && !crate::text::is_space(s.last()),
    ensures
        crate::text::trim(front + s + back) == s,
{
    assert(front + s + back =~= front + (s + back));
    crate::transport::spelling::lemma_space_before(front, s + back);
    crate::transport::spelling::lemma_space_after_trimmed(s, back);
    if s.len() == 0 {
        assert(crate::text::trim(s) =~= s);
    }
}

/// White space is the space, the line breaks and tabs of ASCII, and the spaces
/// of Unicode; no other character of ASCII is.
pub proof fn law_ascii_space(c: char)
    requires
        c <= '\u{7f}',
    ensures
        crate::text::is_space(c) <==> c == ' ' || c == '\t' || c == '\n' || c == '\r' || c
            == '\u{b}' || c == '\u{c}',
        crate::text::is_blank(c) <==> c == ' ' || c == '\t',
{
}

/// A text is cut at every occurrence of a character: at the first one, and what
/// follows in the same way. A text without it is not cut.
pub proof fn law_a_text_is_cut_at_every_occurrence(a: Seq<char>, c: char, b: Seq<char>)
    requires
        !a.contains(c),
    ensures
        crate::text::split(a.push(c) + b, c) == seq![a] + crate::text::split(b, c),
        crate::text::split(a, c) == seq![a],
{
    let s = a.push(c) + b;
    law_the_first_is_found(a, c, 0);
    assert forall|k: int| 0 <= k < a.len() implies (#[trigger] s[k]) != c by {
        assert(a.contains(a[k]));
    }
    assert(s[a.len() as int] == c);
    law_the_first_is_found(s, c, a.len() as int);
    assert(s.take(a.len() as int) =~= a);
    assert(s.skip(a.len() as int + 1) =~= b);
}

/// Joined texts have what is put between them between each two, and nowhere
/// else.
pub proof fn law_joined_texts_have_it_in_between(
    s: Seq<Seq<char>>,
    between: Seq<char>,
    last: Seq<char>,
)
    ensures
        crate::text::joined(Seq::empty(), between) == Seq::<char>::empty(),
        crate::text::joined(seq![last], between) == last,
        s.len() > 0 ==> crate::text::joined(s.push(last), between) == crate::text::joined(
            s,
            between,
        ) + between + last,
{
    assert(s.push(last).drop_last() =~= s);
}

/// A number in decimal has no other characters than digits and no zero too many
/// in front, and is the number that its digits write, each worth ten times the
/// one after it.
pub proof fn law_decimals_are_written_and_read(n: int)
    requires
        0 <= n,
    ensures
        ({
            let s = crate::text::decimal(n);
            &&& s.len() > 0
            &&& forall|k: int| 0 <= k < s.len() ==> '0' <= (#[trigger] s[k]) && s[k] <= '9'
            &&& n < 10 ==> s.len() == 1 && s[0] as int == '0' as int + n
            &&& n >= 10 ==> s.drop_last() == crate::text::decimal(n / 10) && s.last() as int
                == '0' as int + n % 10
            &&& n > 0 ==> s[0] != '0'
            &&& forall|max: int| #[trigger]
                crate::text::parsed_number(s, 10, max) == (if n <= max {
                    Some(n)
                } else {
                    None
                })
        }),
    decreases n,
{
    crate::pagination::lemma_decimal_is_read_back(n);
    let s = crate::text::decimal(n);
    assert forall|k: int| 0 <= k < s.len() implies '0' <= (#[trigger] s[k]) && s[k] <= '9' by {
        assert(crate::text::digit(s[k]) < 10);
    }
    if n >= 10 {
        law_decimals_are_written_and_read(n / 10);
        assert(s.drop_last() =~= crate::text::decimal(n / 10));
        assert(s[0] == s.drop_last()[0]);
    }
}

/// Digits stand for their numbers: the ten of decimal, and the letters up to `f`
/// in either case beyond them. A text is a number exactly where it is not empty
/// and has nothing but digits in it, and a further digit adds itself to the rest
/// moved up by one place.
pub proof fn law_digits_make_numbers(s: Seq<char>, c: char, base: int, max: int)
    requires
        2 <= base <= 16,
    ensures
        '0' <= c && c <= '9' ==> crate::text::digit(c) == c as int - '0' as int,
        'a' <= c && c <= 'f' ==> crate::text::digit(c) == c as int - 'a' as int + 10,
        'A' <= c && c <= 'F' ==> crate::text::digit(c) == c as int - 'A' as int + 10,
        !('0' <= c && c <= '9') && !('a' <= c && c <= 'f') && !('A' <= c && c <= 'F')
            ==> crate::text::digit(c) >= base,
        crate::text::number(s.push(c), base) == crate::text::number(s, base) * base
            + crate::text::digit(c),
        crate::text::number(Seq::empty(), base) == 0,
        s.len() == 0 ==> crate::text::parsed_number(s, base, max) is None,
        (exists|k: int| 0 <= k < s.len() && crate::text::digit(#[trigger] s[k]) >= base)
            ==> crate::text::parsed_number(s, base, max) is None,
        s.len() > 0 && (forall|k: int| 0 <= k < s.len() ==> crate::text::digit(#[trigger] s[k]) < base)
            && crate::text::number(s, base) <= max ==> crate::text::parsed_number(s, base, max)
            == Some(crate::text::number(s, base)),
        crate::text::parsed_number(s, base, max) matches Some(n) ==> n <= max,
{
    assert(s.push(c).drop_last() =~= s);
}

/// Bytes in hexadecimal are two small digits for each, the higher half first.
pub proof fn law_bytes_are_two_digits_each(b: Seq<u8>, x: u8)
    ensures
        crate::tasks::hex(b).len() == 2 * b.len(),
        crate::tasks::hex(b.push(x)).len() == crate::tasks::hex(b).len() + 2,
        crate::tasks::hex(b.push(x)).take(crate::tasks::hex(b).len() as int) == crate::tasks::hex(b),
        ({
            let s = crate::tasks::hex(b.push(x));
            let n = crate::tasks::hex(b).len() as int;
            &&& crate::text::digit(s[n]) * 16 + crate::text::digit(s[n + 1]) == x
            &&& !('A' <= s[n] && s[n] <= 'F') && !('A' <= s[n + 1] && s[n + 1] <= 'F')
        }),
    decreases b.len(),
{
    let s = b.push(x);
    assert(s.drop_last() =~= b);
    if b.len() > 0 {
        law_bytes_are_two_digits_each(b.drop_last(), b.last());
        assert(b.drop_last().push(b.last()) =~= b);
    }
    assert(crate::tasks::hex(s).take(crate::tasks::hex(b).len() as int) =~= crate::tasks::hex(b));
}

} // verus!
