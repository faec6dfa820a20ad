//! What the spelling of an origin does not change.

use crate::transport::origin::{
    find_last, host_and_port, is_bare_authority, is_letter, is_port, is_scheme, is_scheme_char,
    no_brackets, normalized, scheme_end, without_slash,
};
use vstd::prelude::*;
use vstd::string::*;

verus! {

/// Whether two texts differ in nothing but the case of ASCII letters.
pub open spec fn alike(a: Seq<char>, b: Seq<char>) -> bool {
    &&& a.len() == b.len()
    &&& forall|k: int|
        0 <= k < a.len() ==> crate::text::lower(#[trigger] a[k]) == crate::text::lower(b[k])
}

/// Characters with one lower case are the same, or both letters.
proof fn lemma_alike_chars(x: char, y: char)
    requires
        crate::text::lower(x) == crate::text::lower(y),
    ensures
        x == y || (is_letter(x) && is_letter(y)),
        is_letter(x) == is_letter(y),
        is_scheme_char(x) == is_scheme_char(y),
        crate::text::is_space(x) == crate::text::is_space(y),
{
}

proof fn lemma_alike_parts(a: Seq<char>, b: Seq<char>)
    requires
        alike(a, b),
    ensures
        crate::text::lower_all(a) == crate::text::lower_all(b),
        forall|i: int| 0 <= i <= a.len() ==> alike(#[trigger] a.take(i), b.take(i)),
        forall|i: int| 0 <= i <= a.len() ==> alike(#[trigger] a.skip(i), b.skip(i)),
        forall|k: int|
            0 <= k < a.len() ==> {
                &&& (#[trigger] a[k] == b[k] || (is_letter(a[k]) && is_letter(b[k])))
                &&& is_letter(a[k]) == is_letter(b[k])
                &&& is_scheme_char(a[k]) == is_scheme_char(b[k])
                &&& crate::text::is_space(a[k]) == crate::text::is_space(b[k])
            },
{
    assert(crate::text::lower_all(a) =~= crate::text::lower_all(b));
    assert forall|k: int| 0 <= k < a.len() implies {
        &&& (#[trigger] a[k] == b[k] || (is_letter(a[k]) && is_letter(b[k])))
        &&& is_letter(a[k]) == is_letter(b[k])
        &&& is_scheme_char(a[k]) == is_scheme_char(b[k])
        &&& crate::text::is_space(a[k]) == crate::text::is_space(b[k])
    } by {
        lemma_alike_chars(a[k], b[k]);
    }
}

proof fn lemma_alike_trim_start(a: Seq<char>, b: Seq<char>)
    requires
        alike(a, b),
    ensures
        alike(
            crate::text::trim_start_where(a, crate::text::spaces()),
            crate::text::trim_start_where(b, crate::text::spaces()),
        ),
    decreases a.len(),
{
    lemma_alike_parts(a, b);
    if a.len() > 0 && crate::text::is_space(a[0]) {
        assert(alike(a.skip(1), b.skip(1)));
        lemma_alike_trim_start(a.skip(1), b.skip(1));
    }
}

proof fn lemma_alike_trim_end(a: Seq<char>, b: Seq<char>)
    requires
        alike(a, b),
    ensures
        alike(
            crate::text::trim_end_where(a, crate::text::spaces()),
            crate::text::trim_end_where(b, crate::text::spaces()),
        ),
    decreases a.len(),
{
    lemma_alike_parts(a, b);
    if a.len() > 0 {
        let n = a.len() - 1;
        assert(a[n] == a.last() && b[n] == b.last());
        if crate::text::is_space(a.last()) {
            assert(alike(a.drop_last(), b.drop_last()));
            lemma_alike_trim_end(a.drop_last(), b.drop_last());
        }
    }
}

proof fn lemma_alike_scheme_end(a: Seq<char>, b: Seq<char>, from: int)
    requires
        alike(a, b),
        0 <= from,
    ensures
        scheme_end(a, from) == scheme_end(b, from),
    decreases a.len() - from,
{
    lemma_alike_parts(a, b);
    if from + 3 <= a.len() {
        assert(a[from] == ':' <==> b[from] == ':');
        assert(a[from + 1] == '/' <==> b[from + 1] == '/');
        assert(a[from + 2] == '/' <==> b[from + 2] == '/');
        lemma_alike_scheme_end(a, b, from + 1);
    }
}

proof fn lemma_alike_find_last(a: Seq<char>, b: Seq<char>, to: int)
    requires
        alike(a, b),
        0 <= to <= a.len(),
    ensures
        find_last(a, ']', to) == find_last(b, ']', to),
        -1 <= find_last(a, ']', to) < a.len() || to == 0,
    decreases to,
{
    lemma_alike_parts(a, b);
    if to > 0 {
        assert(a[to - 1] == ']' <==> b[to - 1] == ']');
        lemma_alike_find_last(a, b, to - 1);
    }
}

proof fn lemma_alike_no_brackets(a: Seq<char>, b: Seq<char>, from: int, to: int)
    requires
        alike(a, b),
        0 <= from,
        to <= a.len(),
        no_brackets(a, from, to),
    ensures
        no_brackets(b, from, to),
{
    lemma_alike_parts(a, b);
    assert forall|k: int| from <= k < to implies (#[trigger] b[k]) != '[' && b[k] != ']' by {
        assert(a[k] != '[' && a[k] != ']');
    }
}

/// A port of digits is the same in every case.
proof fn lemma_alike_port(a: Option<Seq<char>>, b: Option<Seq<char>>)
    requires
        a is Some == b is Some,
        a is Some ==> alike(a->0, b->0),
        is_port(a),
    ensures
        a == b,
{
    if let Some(p) = a {
        let q = b->0;
        lemma_alike_parts(p, q);
        assert forall|k: int| 0 <= k < p.len() implies p[k] == q[k] by {
            assert(crate::text::digit(p[k]) < 10);
        }
        assert(p =~= q);
    }
}

proof fn lemma_alike_host_and_port(a: Seq<char>, b: Seq<char>)
    requires
        alike(a, b),
        a.len() > 0,
    ensures
        match (host_and_port(a), host_and_port(b)) {
            (Some((h, p)), Some((i, q))) => alike(h, i) && p is Some == q is Some && (p is Some
                ==> alike(p->0, q->0)),
            (None, None) => true,
            _ => false,
        },
{
    lemma_alike_parts(a, b);
    lemma_alike_find_last(a, b, a.len() as int);
    let close = find_last(a, ']', a.len() as int);
    assert(a[0] == '[' <==> b[0] == '[');
    assert(alike(b, a));
    if close >= 0 {
        if no_brackets(a, 1, close) {
            lemma_alike_no_brackets(a, b, 1, close);
        }
        if no_brackets(b, 1, close) {
            lemma_alike_no_brackets(b, a, 1, close);
        }
        let s = a.skip(close + 1);
        let t = b.skip(close + 1);
        assert(alike(s, t));
        lemma_alike_parts(s, t);
        assert(alike(a.take(close + 1), b.take(close + 1)));
        if s.len() > 0 {
            assert(s[0] == ':' <==> t[0] == ':');
            assert(alike(s.skip(1), t.skip(1)));
        }
    } else {
        if no_brackets(a, 0, a.len() as int) {
            lemma_alike_no_brackets(a, b, 0, a.len() as int);
        }
        if no_brackets(b, 0, a.len() as int) {
            lemma_alike_no_brackets(b, a, 0, a.len() as int);
        }
        let colon = crate::text::find(a, ':');
        crate::text::lemma_find_from(a, ':', 0);
        assert forall|k: int| 0 <= k < colon implies b[k] != ':' by {
            assert(a[k] != ':');
        }
        assert(colon < a.len() ==> a[colon] == b[colon]);
        crate::text::lemma_find_from_is(b, ':', 0, colon);
        if colon < a.len() {
            assert(alike(a.take(colon), b.take(colon)));
            assert(alike(a.skip(colon + 1), b.skip(colon + 1)));
        }
    }
}

/// The case of letters does not matter: origins that differ in nothing else
/// have one normal form.
pub proof fn law_case_does_not_matter(a: Seq<char>, b: Seq<char>)
    requires
        crate::text::same_ignoring_case(a, b),
    ensures
        normalized(a) == normalized(b),
{
    reveal_strlit("null");
    let la = crate::text::lower_all(a);
    let lb = crate::text::lower_all(b);
    assert(la.len() == a.len() && lb.len() == b.len());
    assert forall|k: int| 0 <= k < a.len() implies crate::text::lower(#[trigger] a[k])
        == crate::text::lower(b[k]) by {
        assert(la[k] == lb[k]);
    }
    lemma_alike_trim_start(a, b);
    lemma_alike_trim_end(
        crate::text::trim_start_where(a, crate::text::spaces()),
        crate::text::trim_start_where(b, crate::text::spaces()),
    );
    let o = crate::text::trim(a);
    let p = crate::text::trim(b);
    lemma_alike_parts(o, p);
    lemma_alike_scheme_end(o, p, 0);
    crate::transport::origin::lemma_scheme_end(o, 0);
    let at = scheme_end(o, 0);
    if o.len() > 0 && at >= 0 && !crate::text::same_ignoring_case(o, "null"@) {
        let s = o.take(at);
        let t = p.take(at);
        assert(alike(s, t));
        lemma_alike_parts(s, t);
        assert(is_scheme(s) == is_scheme(t)) by {
            if is_scheme(s) {
                assert forall|k: int| 0 <= k < t.len() implies is_scheme_char(
                    #[trigger] t[k],
                ) by {
                    assert(is_scheme_char(s[k]));
                }
                assert(is_letter(s[0]) == is_letter(t[0]));
            }
            if is_scheme(t) {
                assert forall|k: int| 0 <= k < s.len() implies is_scheme_char(
                    #[trigger] s[k],
                ) by {
                    assert(is_scheme_char(t[k]));
                }
                assert(is_letter(s[0]) == is_letter(t[0]));
            }
        }
        let x = o.skip(at + 3);
        let y = p.skip(at + 3);
        assert(alike(x, y));
        lemma_alike_parts(x, y);
        let u = without_slash(x);
        let v = without_slash(y);
        if x.len() > 0 {
            let n = x.len() - 1;
            assert(x[n] == '/' <==> y[n] == '/');
            assert(alike(u, v));
        }
        lemma_alike_parts(u, v);
        assert(is_bare_authority(u) == is_bare_authority(v)) by {
            if is_bare_authority(u) {
                assert forall|k: int| 0 <= k < v.len() implies (#[trigger] v[k]) != '/' && v[k]
                    != '?' && v[k] != '#' && v[k] != '@' && !crate::text::is_space(v[k]) by {
                    assert(u[k] != '/');
                }
            }
            if is_bare_authority(v) {
                assert forall|k: int| 0 <= k < u.len() implies (#[trigger] u[k]) != '/' && u[k]
                    != '?' && u[k] != '#' && u[k] != '@' && !crate::text::is_space(u[k]) by {
                    assert(v[k] != '/');
                }
            }
        }
        if u.len() > 0 {
            lemma_alike_host_and_port(u, v);
            match (host_and_port(u), host_and_port(v)) {
                (Some((h, m)), Some((i, n))) => {
                    lemma_alike_parts(h, i);
                    if is_port(m) {
                        lemma_alike_port(m, n);
                    }
                    if is_port(n) {
                        assert(n is Some ==> alike(n->0, m->0));
                        lemma_alike_port(n, m);
                    }
                },
                _ => {},
            }
        }
    }
}

/// Whether this is nothing but white space.
pub open spec fn all_space(s: Seq<char>) -> bool {
    forall|k: int| 0 <= k < s.len() ==> crate::text::is_space(#[trigger] s[k])
}

pub proof fn lemma_space_before(front: Seq<char>, s: Seq<char>)
    requires
        all_space(front),
    ensures
        crate::text::trim_start_where(front + s, crate::text::spaces())
            == crate::text::trim_start_where(s, crate::text::spaces()),
    decreases front.len(),
{
    if front.len() == 0 {
        assert(front + s =~= s);
    } else {
        assert(crate::text::is_space(front[0]));
        assert((front + s)[0] == front[0]);
        assert((front + s).skip(1) =~= front.skip(1) + s);
        assert(all_space(front.skip(1))) by {
            assert forall|k: int| 0 <= k < front.skip(1).len() implies crate::text::is_space(
                #[trigger] front.skip(1)[k],
            ) by {
                assert(crate::text::is_space(front[k + 1]));
            }
        }
        lemma_space_before(front.skip(1), s);
    }
}

proof fn lemma_space_after(s: Seq<char>, back: Seq<char>)
    requires
        all_space(back),
    ensures
        crate::text::trim_end_where(s + back, crate::text::spaces()) == crate::text::trim_end_where(
            s,
            crate::text::spaces(),
        ),
    decreases back.len(),
{
    if back.len() == 0 {
        assert(s + back =~= s);
    } else {
        let n = back.len() - 1;
        assert(crate::text::is_space(back[n]));
        assert((s + back).last() == back[n]);
        assert((s + back).drop_last() =~= s + back.drop_last());
        lemma_space_after(s, back.drop_last());
    }
}

pub proof fn lemma_space_after_trimmed(s: Seq<char>, back: Seq<char>)
    requires
        all_space(back),
    ensures
        crate::text::trim(s + back) == crate::text::trim(s),
    decreases s.len(),
{
    if s.len() == 0 {
        assert(s + back =~= back + s);
        lemma_space_before(back, s);
    } else if crate::text::is_space(s[0]) {
        assert((s + back)[0] == s[0]);
        assert((s + back).skip(1) =~= s.skip(1) + back);
        lemma_space_after_trimmed(s.skip(1), back);
    } else {
        assert((s + back)[0] == s[0]);
        lemma_space_after(s, back);
    }
}

/// White space round an origin does not matter.
pub proof fn law_space_does_not_matter(front: Seq<char>, s: Seq<char>, back: Seq<char>)
    requires
        all_space(front),
        all_space(back),
    ensures
        normalized(front + s + back) == normalized(s),
{
    assert(front + s + back =~= front + (s + back));
    lemma_space_before(front, s + back);
    lemma_space_after_trimmed(s, back);
}

proof fn lemma_trim_length(s: Seq<char>)
    ensures
        crate::text::trim_start_where(s, crate::text::spaces()).len() <= s.len(),
        crate::text::trim_end_where(s, crate::text::spaces()).len() <= s.len(),
    decreases s.len(),
{
    if s.len() > 0 {
        lemma_trim_length(s.skip(1));
        lemma_trim_length(s.drop_last());
    }
}

/// What is trimmed stays so with something after it that is no white space.
proof fn lemma_trimmed_with(s: Seq<char>, more: Seq<char>)
    requires
        crate::text::trim(s) == s,
        more.len() > 0,
        !crate::text::is_space(more[0]),
        !crate::text::is_space(more.last()),
    ensures
        crate::text::trim(s + more) == s + more,
{
    let t = s + more;
    if s.len() > 0 {
        if crate::text::is_space(s[0]) {
            lemma_trim_length(s.skip(1));
            lemma_trim_length(crate::text::trim_start_where(s, crate::text::spaces()));
        }
        assert(t[0] == s[0]);
    } else {
        assert(t[0] == more[0]);
    }
    assert(t.last() == more.last());
}

/// Where the scheme ends, with slashes at the end of the whole.
proof fn lemma_scheme_end_with(s: Seq<char>, t: Seq<char>, from: int)
    requires
        0 <= from,
        s.len() > 0,
        s.last() != '/',
        t == s.push('/') || t == s.push('/').push('/'),
    ensures
        scheme_end(s, from) >= 0 ==> scheme_end(t, from) == scheme_end(s, from),
        scheme_end(s, from) < 0 ==> scheme_end(t, from) < 0 || (t.len() == s.len() + 2 && scheme_end(
            t,
            from,
        ) == s.len() - 1),
    decreases t.len() - from,
{
    assert(forall|k: int| 0 <= k < s.len() ==> t[k] == s[k]);
    if from + 3 <= t.len() {
        lemma_scheme_end_with(s, t, from + 1);
    }
}

/// One slash at the end of an origin does not matter, and two are not an
/// origin.
pub proof fn law_one_slash_does_not_matter(s: Seq<char>)
    requires
        crate::text::trim(s) == s,
        s.len() > 0 ==> s.last() != '/',
    ensures
        normalized(s + "/"@) == normalized(s),
        normalized(s + "//"@) is None,
{
    reveal_strlit("/");
    reveal_strlit("//");
    reveal_strlit("null");
    let one = s + "/"@;
    let two = s + "//"@;
    lemma_trimmed_with(s, "/"@);
    lemma_trimmed_with(s, "//"@);
    assert(one =~= s.push('/'));
    assert(two =~= s.push('/').push('/'));
    if s.len() == 0 {
        assert(scheme_end(one, 0) < 0);
        assert(scheme_end(two, 0) < 0);
    } else {
        lemma_scheme_end_with(s, one, 0);
        lemma_scheme_end_with(s, two, 0);
        crate::transport::origin::lemma_scheme_end(s, 0);
        crate::transport::origin::lemma_scheme_end(two, 0);
        let at = scheme_end(s, 0);
        let lower = crate::text::lower_all(one);
        let null = crate::text::lower_all("null"@);
        if lower == null {
            assert(lower[lower.len() - 1] == crate::text::lower('/'));
            assert(null[3] == crate::text::lower('l'));
        }
        if at >= 0 {
            lemma_scheme_end_is_colon(s, 0);
            let low = crate::text::lower_all(s);
            assert(low[at] == crate::text::lower(':'));
            if low == null {
                assert(null.len() == 4);
                assert(null[at] == crate::text::lower("null"@[at]));
            }
            let rest = s.skip(at + 3);
            if rest.len() == 0 {
                assert(s.last() == s[at + 2]);
            }
            assert(rest.last() == s.last());
            assert(one.take(at) =~= s.take(at));
            assert(one.skip(at + 3) =~= rest.push('/'));
            assert(without_slash(rest.push('/')) =~= rest);
            assert(two.skip(at + 3) =~= rest.push('/').push('/'));
            let u = without_slash(two.skip(at + 3));
            assert(u =~= rest.push('/'));
            assert(u[rest.len() as int] == '/');
            assert(!is_bare_authority(u));
        } else {
            let end = scheme_end(two, 0);
            if end >= 0 {
                assert(two.skip(end + 3) =~= Seq::empty());
            }
        }
    }
}

proof fn lemma_scheme_end_is_colon(s: Seq<char>, from: int)
    requires
        0 <= from,
        scheme_end(s, from) >= 0,
    ensures
        scheme_end(s, from) + 3 <= s.len(),
        s[scheme_end(s, from)] == ':',
        s[scheme_end(s, from) + 2] == '/',
    decreases s.len() - from,
{
    if !(s[from] == ':' && s[from + 1] == '/' && s[from + 2] == '/') {
        lemma_scheme_end_is_colon(s, from + 1);
    }
}

/// However an origin is spelled, in whatever case, with a slash at its end or
/// white space round it, its normal form is one.
pub proof fn law_spellings_of_an_origin_agree(s: Seq<char>, other: Seq<char>)
    requires
        crate::text::trim(s) == s,
        s.len() > 0 ==> s.last() != '/',
        crate::text::same_ignoring_case(s, other),
    ensures
        normalized(other) == normalized(s),
        normalized(s + "/"@) == normalized(s),
        normalized(" "@ + s + " "@) == normalized(s),
        normalized(s + "//"@) is None,
{
    reveal_strlit(" ");
    law_case_does_not_matter(s, other);
    law_one_slash_does_not_matter(s);
    law_space_does_not_matter(" "@, s, " "@);
}

} // verus!
