//! Text as sequences of characters: the few string operations the protocol
//! code is built from, each with a mathematical description.

use vstd::prelude::*;
use vstd::string::*;

verus! {

/// `String::push` appends one character.
pub assume_specification[ std::string::String::push ](s: &mut std::string::String, c: char)
    ensures
        final(s)@ == old(s)@.push(c),
;

/// The ASCII lower-case form of a character.
pub open spec fn lower(c: char) -> char {
    if 'A' <= c && c <= 'Z' {
        (c as u8 + 32) as u8 as char
    } else {
        c
    }
}

/// Every character in its ASCII lower-case form.
pub open spec fn lower_all(s: Seq<char>) -> Seq<char> {
    s.map_values(|c: char| lower(c))
}

/// Equality that ignores the case of ASCII letters.
pub open spec fn same_ignoring_case(a: Seq<char>, b: Seq<char>) -> bool {
    lower_all(a) == lower_all(b)
}

/// The position of the first `c` at or after `from`, or the length.
pub open spec fn find_from(s: Seq<char>, c: char, from: int) -> int
    decreases s.len() - from,
{
    if from >= s.len() {
        s.len() as int
    } else if s[from] == c {
        from
    } else {
        find_from(s, c, from + 1)
    }
}

/// The position of the first `c`, or the length where there is none.
pub open spec fn find(s: Seq<char>, c: char) -> int {
    find_from(s, c, 0)
}

/// The characters of `s`, one by one.
pub fn chars_of(s: &str) -> (r: Vec<char>)
    ensures
        r@ == s@,
{
    let mut out: Vec<char> = Vec::new();
    for c in it: s.chars()
        invariant
            out@ == it.seq().take(it.index() as int),
            it.seq() == s@,
    {
        out.push(c);
        proof {
            assert(out@ =~= it.seq().take(it.index() as int + 1));
        }
    }
    assert(out@ =~= s@);
    out
}

/// The text between two positions.
pub fn text_between(s: &Vec<char>, from: usize, to: usize) -> (r: String)
    requires
        from <= to <= s@.len(),
    ensures
        r@ == s@.subrange(from as int, to as int),
{
    let mut out = String::new();
    let mut i: usize = from;
    while i < to
        invariant
            from <= i <= to <= s@.len(),
            out@ == s@.subrange(from as int, i as int),
        decreases to - i,
    {
        out.push(s[i]);
        i = i + 1;
        assert(out@ =~= s@.subrange(from as int, i as int));
    }
    out
}

pub fn lower_char(c: char) -> (r: char)
    ensures
        r == lower(c),
{
    if 'A' <= c && c <= 'Z' {
        ((c as u8) + 32) as char
    } else {
        c
    }
}

pub fn find_char(s: &Vec<char>, c: char, from: usize) -> (r: usize)
    requires
        from <= s@.len(),
    ensures
        r == find_from(s@, c, from as int),
        from <= r <= s@.len(),
{
    let mut i: usize = from;
    while i < s.len()
        invariant
            from <= i <= s@.len(),
            find_from(s@, c, from as int) == find_from(s@, c, i as int),
        decreases s@.len() - i,
    {
        if s[i] == c {
            return i;
        }
        i = i + 1;
    }
    i
}

/// The White_Space characters of Unicode.
pub open spec fn is_space(c: char) -> bool {
    ||| '\u{9}' <= c && c <= '\u{d}'
    ||| c == ' '
    ||| c == '\u{85}'
    ||| c == '\u{a0}'
    ||| c == '\u{1680}'
    ||| '\u{2000}' <= c && c <= '\u{200a}'
    ||| c == '\u{2028}'
    ||| c == '\u{2029}'
    ||| c == '\u{202f}'
    ||| c == '\u{205f}'
    ||| c == '\u{3000}'
}

/// A space or a horizontal tab: the padding a header field may carry.
pub open spec fn is_blank(c: char) -> bool {
    c == ' ' || c == '\t'
}

/// `s` without the characters at its start that `drop` holds of.
pub open spec fn trim_start_where(s: Seq<char>, drop: spec_fn(char) -> bool) -> Seq<char>
    decreases s.len(),
{
    if s.len() > 0 && drop(s[0]) {
        trim_start_where(s.skip(1), drop)
    } else {
        s
    }
}

/// `s` without the characters at its end that `drop` holds of.
pub open spec fn trim_end_where(s: Seq<char>, drop: spec_fn(char) -> bool) -> Seq<char>
    decreases s.len(),
{
    if s.len() > 0 && drop(s.last()) {
        trim_end_where(s.drop_last(), drop)
    } else {
        s
    }
}

/// White space, as a predicate to trim by.
pub open spec fn spaces() -> spec_fn(char) -> bool {
    |c: char| is_space(c)
}

/// Blanks, as a predicate to trim by.
pub open spec fn blanks() -> spec_fn(char) -> bool {
    |c: char| is_blank(c)
}

/// `s` without white space at either end.
pub open spec fn trim(s: Seq<char>) -> Seq<char> {
    trim_end_where(trim_start_where(s, spaces()), spaces())
}

/// `s` without blanks at either end.
pub open spec fn trim_blanks(s: Seq<char>) -> Seq<char> {
    trim_end_where(trim_start_where(s, blanks()), blanks())
}

/// The pieces of `s` between the occurrences of `c`.
pub open spec fn split(s: Seq<char>, c: char) -> Seq<Seq<char>>
    decreases s.len(),
{
    let i = find(s, c);
    if 0 <= i < s.len() {
        seq![s.take(i)] + split(s.skip(i + 1), c)
    } else {
        seq![s]
    }
}

/// What `find_from` finds.
pub proof fn lemma_find_from(s: Seq<char>, c: char, from: int)
    requires
        0 <= from <= s.len(),
    ensures
        from <= find_from(s, c, from) <= s.len(),
        find_from(s, c, from) < s.len() ==> s[find_from(s, c, from)] == c,
        forall|k: int| from <= k < find_from(s, c, from) ==> s[k] != c,
    decreases s.len() - from,
{
    if from < s.len() && s[from] != c {
        lemma_find_from(s, c, from + 1);
    }
}

/// `find_from` is the only position with its property.
pub proof fn lemma_find_from_is(s: Seq<char>, c: char, from: int, at: int)
    requires
        0 <= from <= at <= s.len(),
        at < s.len() ==> s[at] == c,
        forall|k: int| from <= k < at ==> s[k] != c,
    ensures
        find_from(s, c, from) == at,
{
    lemma_find_from(s, c, from);
}

pub fn space(c: char) -> (r: bool)
    ensures
        r == is_space(c),
{
    ('\u{9}' <= c && c <= '\u{d}') || c == ' ' || c == '\u{85}' || c == '\u{a0}' || c == '\u{1680}'
        || ('\u{2000}' <= c && c <= '\u{200a}') || c == '\u{2028}' || c == '\u{2029}' || c
        == '\u{202f}' || c == '\u{205f}' || c == '\u{3000}'
}

/// Trims white space.
pub fn trimmed(s: &Vec<char>) -> (r: Vec<char>)
    ensures
        r@ == trim(s@),
{
    let mut lo: usize = 0;
    assert(s@.skip(0) =~= s@);
    while lo < s.len() && space(s[lo])
        invariant
            lo <= s@.len(),
            trim_start_where(s@, spaces()) == trim_start_where(s@.skip(lo as int), spaces()),
        decreases s@.len() - lo,
    {
        assert(s@.skip(lo as int).skip(1) =~= s@.skip(lo as int + 1));
        lo = lo + 1;
        assert(s@.skip(lo as int - 1)[0] == s@[lo as int - 1]);
    }
    proof {
        if lo < s@.len() {
            assert(s@.skip(lo as int)[0] == s@[lo as int]);
        }
        assert(trim_start_where(s@, spaces()) == s@.skip(lo as int));
    }
    let mut hi: usize = s.len();
    assert(s@.subrange(lo as int, hi as int) =~= s@.skip(lo as int));
    while hi > lo && space(s[hi - 1])
        invariant
            lo <= hi <= s@.len(),
            trim(s@) == trim_end_where(s@.subrange(lo as int, hi as int), spaces()),
        decreases hi,
    {
        assert(s@.subrange(lo as int, hi as int).last() == s@[hi as int - 1]);
        assert(s@.subrange(lo as int, hi as int).drop_last() =~= s@.subrange(
            lo as int,
            hi as int - 1,
        ));
        hi = hi - 1;
    }
    proof {
        if hi > lo {
            assert(s@.subrange(lo as int, hi as int).last() == s@[hi as int - 1]);
        }
    }
    chars_between(s, lo, hi)
}

/// Trims blanks.
pub fn trimmed_blanks(s: &Vec<char>) -> (r: Vec<char>)
    ensures
        r@ == trim_blanks(s@),
{
    let mut lo: usize = 0;
    assert(s@.skip(0) =~= s@);
    while lo < s.len() && (s[lo] == ' ' || s[lo] == '\t')
        invariant
            lo <= s@.len(),
            trim_start_where(s@, blanks()) == trim_start_where(s@.skip(lo as int), blanks()),
        decreases s@.len() - lo,
    {
        assert(s@.skip(lo as int).skip(1) =~= s@.skip(lo as int + 1));
        lo = lo + 1;
        assert(s@.skip(lo as int - 1)[0] == s@[lo as int - 1]);
    }
    proof {
        if lo < s@.len() {
            assert(s@.skip(lo as int)[0] == s@[lo as int]);
        }
        assert(trim_start_where(s@, blanks()) == s@.skip(lo as int));
    }
    let rest = chars_between(s, lo, s.len());
    assert(rest@ =~= s@.skip(lo as int));
    trimmed_end_blanks(&rest)
}

/// Trims blanks at the end only.
pub fn trimmed_end_blanks(s: &Vec<char>) -> (r: Vec<char>)
    ensures
        r@ == trim_end_where(s@, blanks()),
{
    let mut hi: usize = s.len();
    assert(s@.take(hi as int) =~= s@);
    while hi > 0 && (s[hi - 1] == ' ' || s[hi - 1] == '\t')
        invariant
            hi <= s@.len(),
            trim_end_where(s@, blanks()) == trim_end_where(s@.take(hi as int), blanks()),
        decreases hi,
    {
        assert(s@.take(hi as int).last() == s@[hi as int - 1]);
        assert(s@.take(hi as int).drop_last() =~= s@.take(hi as int - 1));
        hi = hi - 1;
    }
    proof {
        if hi > 0 {
            assert(s@.take(hi as int).last() == s@[hi as int - 1]);
        }
        assert(s@.take(hi as int) =~= s@.subrange(0, hi as int));
    }
    chars_between(s, 0, hi)
}

/// The characters between two positions.
pub fn chars_between(s: &Vec<char>, from: usize, to: usize) -> (r: Vec<char>)
    requires
        from <= to <= s@.len(),
    ensures
        r@ == s@.subrange(from as int, to as int),
{
    let mut out: Vec<char> = Vec::new();
    let mut i: usize = from;
    while i < to
        invariant
            from <= i <= to <= s@.len(),
            out@ == s@.subrange(from as int, i as int),
        decreases to - i,
    {
        out.push(s[i]);
        i = i + 1;
        assert(out@ =~= s@.subrange(from as int, i as int));
    }
    out
}

/// The text made of these characters.
pub fn text_of(s: &Vec<char>) -> (r: String)
    ensures
        r@ == s@,
{
    let r = text_between(s, 0, s.len());
    assert(s@.subrange(0, s@.len() as int) =~= s@);
    r
}

/// Whether two texts are the same, character for character.
pub fn same_chars(a: &Vec<char>, b: &Vec<char>) -> (r: bool)
    ensures
        r == (a@ == b@),
{
    if a.len() != b.len() {
        return false;
    }
    let mut i: usize = 0;
    while i < a.len()
        invariant
            i <= a@.len(),
            a@.len() == b@.len(),
            forall|k: int| 0 <= k < i ==> a@[k] == b@[k],
        decreases a@.len() - i,
    {
        if a[i] != b[i] {
            assert(a@[i as int] != b@[i as int]);
            return false;
        }
        i = i + 1;
    }
    assert(a@ =~= b@);
    true
}

/// Whether two texts are the same, character for character.
pub fn same_text(a: &str, b: &str) -> (r: bool)
    ensures
        r == (a@ == b@),
{
    same_chars(&chars_of(a), &chars_of(b))
}

/// Every character in its ASCII lower-case form.
pub fn lower_chars(s: &Vec<char>) -> (r: Vec<char>)
    ensures
        r@ == lower_all(s@),
{
    let mut out: Vec<char> = Vec::new();
    let mut i: usize = 0;
    while i < s.len()
        invariant
            i <= s@.len(),
            out@ == lower_all(s@.take(i as int)),
        decreases s@.len() - i,
    {
        out.push(lower_char(s[i]));
        i = i + 1;
        assert(out@ =~= lower_all(s@.take(i as int)));
    }
    assert(s@.take(i as int) =~= s@);
    out
}

/// Equality that ignores the case of ASCII letters.
pub fn same_chars_ignoring_case(a: &Vec<char>, b: &Vec<char>) -> (r: bool)
    ensures
        r == same_ignoring_case(a@, b@),
{
    same_chars(&lower_chars(a), &lower_chars(b))
}

/// Equality that ignores the case of ASCII letters.
pub fn same_text_ignoring_case(a: &str, b: &str) -> (r: bool)
    ensures
        r == same_ignoring_case(a@, b@),
{
    same_chars_ignoring_case(&chars_of(a), &chars_of(b))
}

/// The value of a digit in bases up to sixteen; anything else is out of range.
pub open spec fn digit(c: char) -> int {
    if '0' <= c && c <= '9' {
        c as int - '0' as int
    } else if 'a' <= c && c <= 'f' {
        c as int - 'a' as int + 10
    } else if 'A' <= c && c <= 'F' {
        c as int - 'A' as int + 10
    } else {
        16
    }
}

/// A non-empty run of digits.
pub open spec fn is_number(s: Seq<char>, base: int) -> bool {
    s.len() > 0 && forall|k: int| 0 <= k < s.len() ==> digit(#[trigger] s[k]) < base
}

/// The number a run of digits writes, most significant digit first.
pub open spec fn number(s: Seq<char>, base: int) -> int
    decreases s.len(),
{
    if s.len() == 0 {
        0
    } else {
        number(s.drop_last(), base) * base + digit(s.last())
    }
}

/// The number `s` writes, where it writes one no greater than `max`.
pub open spec fn parsed_number(s: Seq<char>, base: int, max: int) -> Option<int> {
    if is_number(s, base) && number(s, base) <= max {
        Some(number(s, base))
    } else {
        None
    }
}

/// The character for a decimal digit.
pub open spec fn digit_char(d: int) -> char {
    (d + '0' as int) as u8 as char
}

/// A number in decimal.
pub open spec fn decimal(n: int) -> Seq<char>
    decreases n,
{
    if n < 10 {
        seq![digit_char(n)]
    } else {
        decimal(n / 10).push(digit_char(n % 10))
    }
}

/// A longer run of digits never writes a smaller number.
pub proof fn lemma_number_grows(s: Seq<char>, base: int, n: int)
    requires
        2 <= base <= 16,
        0 <= n <= s.len(),
        forall|k: int| 0 <= k < s.len() ==> digit(#[trigger] s[k]) < base,
    ensures
        0 <= number(s.take(n), base) <= number(s, base),
    decreases s.len(),
{
    if s.len() == 0 {
        assert(s.take(n) =~= s);
    } else if n == s.len() {
        assert(s.take(n) =~= s);
        assert(forall|k: int| 0 <= k < s.drop_last().len() ==> s.drop_last()[k] == s[k]);
        lemma_number_grows(s.drop_last(), base, n - 1);
        assert(s.drop_last().take(n - 1) =~= s.drop_last());
        let p = number(s.drop_last(), base);
        assert(p * base >= 0) by (nonlinear_arith)
            requires
                p >= 0,
                base >= 2,
        ;
    } else {
        assert(s.drop_last().take(n) =~= s.take(n));
        assert(forall|k: int| 0 <= k < s.drop_last().len() ==> s.drop_last()[k] == s[k]);
        lemma_number_grows(s.drop_last(), base, n);
        let p = number(s.drop_last(), base);
        assert(p * base >= p) by (nonlinear_arith)
            requires
                p >= 0,
                base >= 2,
        ;
    }
}

pub fn digit_of(c: char) -> (r: u64)
    ensures
        r == digit(c),
        r <= 16,
{
    if '0' <= c && c <= '9' {
        ((c as u32) - ('0' as u32)) as u64
    } else if 'a' <= c && c <= 'f' {
        ((c as u32) - ('a' as u32)) as u64 + 10
    } else if 'A' <= c && c <= 'F' {
        ((c as u32) - ('A' as u32)) as u64 + 10
    } else {
        16
    }
}

/// Reads a run of digits as a number no greater than `max`.
pub fn parse_number(s: &Vec<char>, base: u64, max: u64) -> (r: Option<u64>)
    requires
        2 <= base <= 16,
    ensures
        match r {
            Some(n) => parsed_number(s@, base as int, max as int) == Some(n as int),
            None => parsed_number(s@, base as int, max as int) is None,
        },
{
    if s.len() == 0 {
        return None;
    }
    let mut i: usize = 0;
    while i < s.len()
        invariant
            i <= s@.len(),
            2 <= base <= 16,
            forall|k: int| 0 <= k < i ==> digit(#[trigger] s@[k]) < base,
        decreases s@.len() - i,
    {
        if digit_of(s[i]) >= base {
            return None;
        }
        i = i + 1;
    }
    let mut value: u64 = 0;
    let mut j: usize = 0;
    assert(s@.take(0) =~= Seq::<char>::empty());
    while j < s.len()
        invariant
            j <= s@.len(),
            2 <= base <= 16,
            s@.len() > 0,
            forall|k: int| 0 <= k < s@.len() ==> digit(#[trigger] s@[k]) < base,
            value == number(s@.take(j as int), base as int),
            value <= max,
        decreases s@.len() - j,
    {
        assert(0 <= value * base <= 0xffff_ffff_ffff_ffff * 16) by (nonlinear_arith)
            requires
                0 <= value <= 0xffff_ffff_ffff_ffff,
                2 <= base <= 16,
        ;
        let next: u128 = (value as u128) * (base as u128) + (digit_of(s[j]) as u128);
        proof {
            assert(s@.take(j as int + 1).drop_last() =~= s@.take(j as int));
            assert(s@.take(j as int + 1).last() == s@[j as int]);
            lemma_number_grows(s@, base as int, j as int + 1);
        }
        if next > max as u128 {
            return None;
        }
        value = next as u64;
        j = j + 1;
    }
    assert(s@.take(j as int) =~= s@);
    Some(value)
}

/// A number in decimal.
pub fn decimal_text(n: u64) -> (r: String)
    ensures
        r@ == decimal(n as int),
    decreases n,
{
    let last: char = (((n % 10) as u8) + 48u8) as char;
    if n < 10 {
        let mut r = String::new();
        r.push(last);
        assert(r@ =~= seq![digit_char(n as int)]);
        r
    } else {
        let mut r = decimal_text(n / 10);
        r.push(last);
        r
    }
}

/// Searching a suffix is searching from where it starts.
pub proof fn lemma_find_in_suffix(s: Seq<char>, c: char, from: int)
    requires
        0 <= from <= s.len(),
    ensures
        find(s.skip(from), c) == find_from(s, c, from) - from,
{
    lemma_find_from(s, c, from);
    lemma_find_from_is(s.skip(from), c, 0, find_from(s, c, from) - from);
}

/// The texts of a list.
pub open spec fn views(v: Seq<Vec<char>>) -> Seq<Seq<char>> {
    v.map_values(|x: Vec<char>| x@)
}

/// The texts of a list of pairs.
pub open spec fn pairs(v: Seq<(String, String)>) -> Seq<(Seq<char>, Seq<char>)> {
    v.map_values(|p: (String, String)| (p.0@, p.1@))
}

/// The pieces between the occurrences of `c`.
pub fn split_chars(s: &Vec<char>, c: char) -> (r: Vec<Vec<char>>)
    ensures
        views(r@) == split(s@, c),
{
    let mut out: Vec<Vec<char>> = Vec::new();
    let mut start: usize = 0;
    assert(s@.skip(0) =~= s@);
    assert(views(out@) + split(s@, c) =~= split(s@, c));
    loop
        invariant_except_break
            start <= s@.len(),
            split(s@, c) == views(out@) + split(s@.skip(start as int), c),
        ensures
            views(out@) == split(s@, c),
        decreases s@.len() - start,
    {
        let i = find_char(s, c, start);
        let ghost before = views(out@);
        let ghost rest = s@.skip(start as int);
        proof {
            lemma_find_in_suffix(s@, c, start as int);
            assert(rest.take(i - start) =~= s@.subrange(start as int, i as int));
        }
        out.push(chars_between(s, start, i));
        assert(views(out@) =~= before.push(s@.subrange(start as int, i as int)));
        if i == s.len() {
            proof {
                assert(rest.take(i - start) =~= rest);
                assert(views(out@) =~= split(s@, c));
            }
            break;
        }
        proof {
            assert(rest.skip(i - start + 1) =~= s@.skip(i as int + 1));
            assert(views(out@) + split(s@.skip(i as int + 1), c) =~= split(s@, c));
        }
        start = i + 1;
    }
    out
}

/// Whether `s` ends with `tail`.
pub fn ends_with(s: &Vec<char>, tail: &Vec<char>) -> (r: bool)
    ensures
        r == (s@.len() >= tail@.len() && s@.skip(s@.len() - tail@.len()) == tail@),
{
    if s.len() < tail.len() {
        return false;
    }
    let cut = s.len() - tail.len();
    let end = chars_between(s, cut, s.len());
    assert(end@ =~= s@.skip(cut as int));
    same_chars(&end, tail)
}

/// The texts of a list.
pub open spec fn texts(v: Seq<String>) -> Seq<Seq<char>> {
    v.map_values(|s: String| s@)
}

/// The texts, with something between them.
pub open spec fn joined(s: Seq<Seq<char>>, between: Seq<char>) -> Seq<char>
    decreases s.len(),
{
    if s.len() == 0 {
        Seq::empty()
    } else if s.len() == 1 {
        s[0]
    } else {
        joined(s.drop_last(), between) + between + s.last()
    }
}

/// The texts, with something between them.
pub fn join_all(v: &Vec<String>, between: &str) -> (r: String)
    ensures
        r@ == joined(texts(v@), between@),
{
    let ghost all = texts(v@);
    let mut out = String::new();
    let mut i: usize = 0;
    assert(out@ =~= Seq::<char>::empty());
    while i < v.len()
        invariant
            i <= v@.len(),
            all == texts(v@),
            out@ == joined(all.take(i as int), between@),
        decreases v@.len() - i,
    {
        proof {
            let next = all.take(i as int + 1);
            assert(next.drop_last() =~= all.take(i as int));
            assert(next.last() == v@[i as int]@);
        }
        if i > 0 {
            out.append(between);
        }
        out.append(v[i].as_str());
        proof {
            if i == 0 {
                assert(out@ =~= v@[0]@);
            }
        }
        i = i + 1;
    }
    assert(all.take(i as int) =~= all);
    out
}

/// Two texts, one after the other.
pub fn join(a: &str, b: &str) -> (r: String)
    ensures
        r@ == a@ + b@,
{
    let mut out = a.to_owned();
    out.append(b);
    out
}

/// Three texts, one after the other.
pub fn join3(a: &str, b: &str, c: &str) -> (r: String)
    ensures
        r@ == a@ + b@ + c@,
{
    let mut out = a.to_owned();
    out.append(b);
    out.append(c);
    out
}

} // verus!
