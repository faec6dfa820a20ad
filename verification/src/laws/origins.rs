//! Where a request comes from.

use crate::transport::origin::OriginPolicy;
use vstd::prelude::*;
use vstd::string::*;

verus! {

/// Where a scheme ends: at the first `://`.
pub proof fn lemma_scheme_end_at(s: Seq<char>, from: int)
    requires
        0 <= from,
    ensures
        ({
            let at = crate::transport::origin::scheme_end(s, from);
            if at < 0 {
                at == -1 && forall|k: int|
                    from <= k && k + 3 <= s.len() ==> !((#[trigger] s[k]) == ':' && s[k + 1] == '/'
                        && s[k + 2] == '/')
            } else {
                &&& from <= at && at + 3 <= s.len()
                &&& s[at] == ':' && s[at + 1] == '/' && s[at + 2] == '/'
                &&& forall|k: int|
                    from <= k < at ==> !((#[trigger] s[k]) == ':' && s[k + 1] == '/' && s[k + 2]
                        == '/')
            }
        }),
    decreases s.len() - from,
{
    if from + 3 <= s.len() && !(s[from] == ':' && s[from + 1] == '/' && s[from + 2] == '/') {
        lemma_scheme_end_at(s, from + 1);
    }
}

/// A letter, a digit, or one of the three signs that a scheme may hold.
pub open spec fn scheme_char(c: char) -> bool {
    ('a' <= c && c <= 'z') || ('A' <= c && c <= 'Z') || ('0' <= c && c <= '9') || c == '+' || c
        == '-' || c == '.'
}

/// Whether a text can be a scheme.
pub open spec fn scheme_like(s: Seq<char>) -> bool {
    &&& s.len() > 0
    &&& ('a' <= s[0] && s[0] <= 'z') || ('A' <= s[0] && s[0] <= 'Z')
    &&& forall|k: int| 0 <= k < s.len() ==> scheme_char(#[trigger] s[k])
}

/// Whether a text can be a host name: nothing in it that ends an authority, and
/// no bracket, colon or white space.
pub open spec fn host_like(s: Seq<char>) -> bool {
    &&& s.len() > 0
    &&& forall|k: int|
        0 <= k < s.len() ==> (#[trigger] s[k]) != '/' && s[k] != '?' && s[k] != '#' && s[k] != '@'
            && s[k] != '[' && s[k] != ']' && s[k] != ':' && !crate::text::is_space(s[k])
}

/// An origin is a scheme and a host, with or without a port, and is normal in
/// lower case. The port is part of it.
pub proof fn law_an_origin_is_scheme_host_and_port(
    scheme: Seq<char>,
    host: Seq<char>,
    port: int,
)
    requires
        scheme_like(scheme),
        host_like(host),
        0 <= port <= 65535,
    ensures
        crate::transport::origin::normalized(scheme + "://"@ + host) == Some(
            crate::text::lower_all(scheme) + "://"@ + crate::text::lower_all(host),
        ),
        crate::transport::origin::normalized(
            scheme + "://"@ + host + ":"@ + crate::text::decimal(port),
        ) == Some(
            crate::text::lower_all(scheme) + "://"@ + crate::text::lower_all(host) + ":"@
                + crate::text::decimal(port),
        ),
{
    reveal_strlit("://");
    reveal_strlit(":");
    reveal_strlit("null");
    let p = crate::text::decimal(port);
    crate::laws::texts::law_decimals_are_written_and_read(port);
    let front = scheme + "://"@;
    let n = scheme.len() as int;
    let plain = front + host;
    let full = front + host + ":"@ + p;
    let after = host + ":"@ + p;
    assert(crate::transport::origin::is_scheme(scheme));
    lemma_bare(host, after, p);
    lemma_split_up(scheme, host, plain);
    assert(full =~= front + after);
    lemma_split_up(scheme, after, full);
    // Without a port.
    crate::transport::origin::lemma_find_last(host, ']', host.len() as int);
    let c = crate::transport::origin::find_last(host, ']', host.len() as int);
    assert(c < 0) by {
        if c >= 0 {
            assert(host[c] == ']');
        }
    }
    crate::laws::texts::law_the_first_is_found(host, ':', 0);
    assert(!host.contains(':')) by {
        if host.contains(':') {
            let k = choose|k: int| 0 <= k < host.len() && host[k] == ':';
            assert(host[k] != ':');
        }
    }
    assert(crate::transport::origin::host_and_port(host) == Some((host, None::<Seq<char>>)));
    // With one.
    crate::transport::origin::lemma_find_last(after, ']', after.len() as int);
    let c2 = crate::transport::origin::find_last(after, ']', after.len() as int);
    assert(c2 < 0) by {
        if c2 >= 0 {
            if c2 < host.len() {
                assert(after[c2] == host[c2]);
            } else if c2 > host.len() {
                assert(after[c2] == p[c2 - host.len() - 1]);
            }
        }
    }
    assert forall|k: int| 0 <= k < after.len() implies (#[trigger] after[k]) != '[' && after[k]
        != ']' by {
        if k < host.len() {
            assert(after[k] == host[k]);
        } else if k > host.len() {
            assert(after[k] == p[k - host.len() - 1]);
        }
    }
    assert forall|k: int| 0 <= k < host.len() implies (#[trigger] after[k]) != ':' by {
        assert(after[k] == host[k]);
    }
    assert(after[host.len() as int] == ':');
    crate::laws::texts::law_the_first_is_found(after, ':', host.len() as int);
    assert(after.take(host.len() as int) =~= host);
    assert(after.skip(host.len() as int + 1) =~= p);
    assert(crate::text::parsed_number(p, 10, 65535) == Some(port));
    assert(crate::transport::origin::host_and_port(after) == Some((host, Some(p))));
}

/// An authority with nothing in it that it may not hold.
proof fn lemma_bare(host: Seq<char>, after: Seq<char>, p: Seq<char>)
    requires
        host_like(host),
        after == host + ":"@ + p,
        p.len() > 0,
        forall|k: int| 0 <= k < p.len() ==> '0' <= (#[trigger] p[k]) && p[k] <= '9',
    ensures
        crate::transport::origin::is_bare_authority(host),
        crate::transport::origin::is_bare_authority(after),
        crate::transport::origin::without_slash(host) == host,
        crate::transport::origin::without_slash(after) == after,
{
    reveal_strlit(":");
    assert(host[host.len() - 1] != '/');
    assert forall|k: int| 0 <= k < after.len() implies (#[trigger] after[k]) != '/' && after[k]
        != '?' && after[k] != '#' && after[k] != '@' && !crate::text::is_space(after[k]) by {
        if k < host.len() {
            assert(after[k] == host[k]);
        } else if k > host.len() {
            assert(after[k] == p[k - host.len() - 1]);
        }
    }
    assert(after[after.len() - 1] != '/');
}

/// What comes before and after `://`.
proof fn lemma_split_up(scheme: Seq<char>, rest: Seq<char>, whole: Seq<char>)
    requires
        scheme_like(scheme),
        rest.len() > 0,
        !crate::text::is_space(rest.last()),
        whole == scheme + "://"@ + rest,
    ensures
        crate::text::trim(whole) == whole,
        crate::transport::origin::scheme_end(whole, 0) == scheme.len(),
        whole.take(scheme.len() as int) == scheme,
        whole.skip(scheme.len() as int + 3) == rest,
        !crate::text::same_ignoring_case(whole, "null"@),
{
    reveal_strlit("://");
    reveal_strlit("null");
    let n = scheme.len() as int;
    assert(whole[0] == scheme[0]);
    assert(whole.last() == rest.last());
    let none = Seq::<char>::empty();
    crate::laws::texts::law_trimming_takes_space_off_the_ends(none, whole, none);
    assert(none + whole + none =~= whole);
    assert forall|k: int| 0 <= k < n implies whole[k] != ':' by {
        assert(whole[k] == scheme[k]);
        assert(scheme_char(scheme[k]));
    }
    assert(whole[n] == ':' && whole[n + 1] == '/' && whole[n + 2] == '/');
    crate::transport::origin::lemma_scheme_end_is(whole, 0, n);
    assert(whole.take(n) =~= scheme);
    assert(whole.skip(n + 3) =~= rest);
    if crate::text::same_ignoring_case(whole, "null"@) {
        let a = crate::text::lower_all(whole);
        let b = crate::text::lower_all("null"@);
        assert(a.len() == whole.len() && b.len() == 4);
        assert(a[n] == crate::text::lower(':'));
        assert(b[n] == crate::text::lower("null"@[n]));
    }
}

/// What has a path, a query, a fragment, a user or white space after its host is
/// no origin; nor is what has no scheme, or a port that is no number of sixteen
/// bits.
pub proof fn law_more_than_an_origin_is_none(
    scheme: Seq<char>,
    rest: Seq<char>,
    k: int,
    s: Seq<char>,
    host: Seq<char>,
    port: Seq<char>,
)
    requires
        scheme_like(scheme),
        0 <= k < rest.len() - 1,
        rest[k] == '/' || rest[k] == '?' || rest[k] == '#' || rest[k] == '@'
            || crate::text::is_space(rest[k]),
        !crate::text::is_space(rest.last()),
        host_like(host),
        crate::text::parsed_number(port, 10, 65535) is None,
        port.len() > 0,
        !crate::text::is_space(port.last()),
        port.last() != '/',
    ensures
        crate::transport::origin::normalized(scheme + "://"@ + rest) is None,
        !(exists|at: int|
            0 <= at && at + 3 <= s.len() && (#[trigger] s[at]) == ':' && s[at + 1] == '/' && s[at
                + 2] == '/') ==> crate::transport::origin::normalized(s) is None,
        !port.contains('[') && !port.contains(']') ==> crate::transport::origin::normalized(
            scheme + "://"@ + (host + ":"@ + port),
        ) is None,
{
    reveal_strlit("://");
    reveal_strlit(":");
    lemma_split_up(scheme, rest, scheme + "://"@ + rest);
    let u = crate::transport::origin::without_slash(rest);
    assert(u[k] == rest[k]);
    assert(!crate::transport::origin::is_bare_authority(u));
    let t = crate::text::trim(s);
    lemma_scheme_end_at(t, 0);
    let at = crate::transport::origin::scheme_end(t, 0);
    if at >= 0 {
        lemma_trim_is_inside(s);
        let from = choose|from: int|
            0 <= from && from + t.len() <= s.len() && #[trigger] s.subrange(from, from + t.len())
                == t;
        assert(t[at] == s[from + at] && t[at + 1] == s[from + at + 1] && t[at + 2] == s[from + at
            + 2]);
    }
    if !port.contains('[') && !port.contains(']') {
        let after = host + ":"@ + port;
        lemma_split_up(scheme, after, scheme + "://"@ + after);
        assert(after.last() == port.last());
        assert forall|k: int| 0 <= k < after.len() implies (#[trigger] after[k]) != '[' && after[k]
            != ']' by {
            if k < host.len() {
                assert(after[k] == host[k]);
            } else if k > host.len() {
                assert(after[k] == port[k - host.len() - 1]);
                assert(port.contains(port[k - host.len() - 1]));
            }
        }
        crate::transport::origin::lemma_find_last(after, ']', after.len() as int);
        let c = crate::transport::origin::find_last(after, ']', after.len() as int);
        if c >= 0 {
            assert(after[c] == ']');
        }
        assert forall|k: int| 0 <= k < host.len() implies (#[trigger] after[k]) != ':' by {
            assert(after[k] == host[k]);
        }
        assert(after[host.len() as int] == ':');
        crate::laws::texts::law_the_first_is_found(after, ':', host.len() as int);
        assert(after.take(host.len() as int) =~= host);
        assert(after.skip(host.len() as int + 1) =~= port);
    }
}

/// What is trimmed is a part of what it was.
proof fn lemma_trim_is_inside(s: Seq<char>)
    ensures
        exists|from: int|
            0 <= from && from + crate::text::trim(s).len() <= s.len() && #[trigger] s.subrange(
                from,
                from + crate::text::trim(s).len(),
            ) == crate::text::trim(s),
{
    let a = crate::text::trim_start_where(s, crate::text::spaces());
    let from = lemma_start_is_inside(s);
    let len = lemma_end_is_inside(a);
    let t = crate::text::trim(s);
    assert(s.subrange(from, from + t.len()) =~= t);
}

proof fn lemma_start_is_inside(s: Seq<char>) -> (from: int)
    ensures
        0 <= from <= s.len(),
        crate::text::trim_start_where(s, crate::text::spaces()) == s.skip(from),
    decreases s.len(),
{
    if s.len() > 0 && crate::text::is_space(s[0]) {
        let k = lemma_start_is_inside(s.skip(1));
        assert(s.skip(1).skip(k) =~= s.skip(k + 1));
        k + 1
    } else {
        assert(s.skip(0) =~= s);
        0
    }
}

proof fn lemma_end_is_inside(s: Seq<char>) -> (to: int)
    ensures
        0 <= to <= s.len(),
        crate::text::trim_end_where(s, crate::text::spaces()) == s.take(to),
    decreases s.len(),
{
    if s.len() > 0 && crate::text::is_space(s.last()) {
        let k = lemma_end_is_inside(s.drop_last());
        assert(s.drop_last().take(k) =~= s.take(k));
        k
    } else {
        assert(s.take(s.len() as int) =~= s);
        s.len() as int
    }
}

/// The host of a normal origin is found in it, without port or brackets.
pub proof fn law_the_host_is_found(
    scheme: Seq<char>,
    host: Seq<char>,
    port: Option<Seq<char>>,
    inner: Seq<char>,
)
    requires
        scheme_like(scheme),
        host_like(host),
        !inner.contains(']'),
    ensures
        crate::transport::origin::host_in(
            scheme + "://"@ + host + (match port {
                Some(p) => ":"@ + p,
                None => Seq::empty(),
            }),
        ) == Some(host),
        crate::transport::origin::host_in(
            scheme + "://"@ + ("["@ + inner + "]"@) + (match port {
                Some(p) => ":"@ + p,
                None => Seq::empty(),
            }),
        ) == Some(inner),
{
    reveal_strlit("://");
    reveal_strlit(":");
    reveal_strlit("[");
    reveal_strlit("]");
    let tail = match port {
        Some(p) => ":"@ + p,
        None => Seq::empty(),
    };
    let n = scheme.len() as int;
    let a = scheme + "://"@ + host + tail;
    assert forall|k: int| 0 <= k < n implies a[k] != ':' by {
        assert(a[k] == scheme[k]);
        assert(scheme_char(scheme[k]));
    }
    assert(a[n] == ':' && a[n + 1] == '/' && a[n + 2] == '/');
    crate::transport::origin::lemma_scheme_end_is(a, 0, n);
    let rest = a.skip(n + 3);
    assert(rest =~= host + tail);
    assert(rest[0] == host[0]);
    assert forall|k: int| 0 <= k < host.len() implies (#[trigger] rest[k]) != ':' by {
        assert(rest[k] == host[k]);
    }
    crate::text::lemma_find_from_is(rest, ':', 0, host.len() as int);
    assert(rest.take(host.len() as int) =~= host);
    let boxed = "["@ + inner + "]"@;
    let b = scheme + "://"@ + boxed + tail;
    assert forall|k: int| 0 <= k < n implies b[k] != ':' by {
        assert(b[k] == scheme[k]);
        assert(scheme_char(scheme[k]));
    }
    assert(b[n] == ':' && b[n + 1] == '/' && b[n + 2] == '/');
    crate::transport::origin::lemma_scheme_end_is(b, 0, n);
    let more = b.skip(n + 3);
    let m = inner.len() as int;
    assert(more =~= boxed + tail);
    assert(more[0] == '[');
    assert forall|k: int| 0 <= k < m + 1 implies (#[trigger] more[k]) != ']' by {
        if k > 0 {
            assert(more[k] == inner[k - 1]);
            assert(inner.contains(inner[k - 1]));
        }
    }
    assert(more[m + 1] == ']');
    crate::text::lemma_find_from_is(more, ']', 0, m + 1);
    assert(more.subrange(1, m + 1) =~= inner);
}

/// A number that a dotted address may hold in one place.
pub proof fn lemma_octet(n: int)
    requires
        0 <= n <= 255,
    ensures
        crate::transport::origin::is_octet(crate::text::decimal(n)),
        crate::text::number(crate::text::decimal(n), 10) == n,
        !crate::text::decimal(n).contains('.'),
{
    crate::laws::texts::law_decimals_are_written_and_read(n);
    crate::pagination::lemma_decimal_is_read_back(n);
    reveal_with_fuel(crate::text::decimal, 4);
    let s = crate::text::decimal(n);
    if s.contains('.') {
        let k = choose|k: int| 0 <= k < s.len() && s[k] == '.';
        assert('0' <= s[k]);
    }
}

/// A dotted address with four numbers is one of this machine exactly where the
/// first of them is 127.
pub proof fn law_dotted_addresses_of_this_machine(a: int, b: int, c: int, d: int)
    requires
        0 <= a <= 255,
        0 <= b <= 255,
        0 <= c <= 255,
        0 <= d <= 255,
    ensures
        ({
            let host = crate::text::decimal(a).push('.') + (crate::text::decimal(b).push('.') + (
            crate::text::decimal(c).push('.') + crate::text::decimal(d)));
            &&& crate::transport::origin::is_ipv4(host)
            &&& crate::transport::origin::octet(host, 0) == a
            &&& a == 127 ==> crate::transport::origin::is_loopback(host)
        }),
{
    lemma_octet(a);
    lemma_octet(b);
    lemma_octet(c);
    lemma_octet(d);
    let sa = crate::text::decimal(a);
    let sb = crate::text::decimal(b);
    let sc = crate::text::decimal(c);
    let sd = crate::text::decimal(d);
    let tail = sc.push('.') + sd;
    let rest = sb.push('.') + tail;
    crate::laws::texts::law_a_text_is_cut_at_every_occurrence(sa, '.', rest);
    crate::laws::texts::law_a_text_is_cut_at_every_occurrence(sb, '.', tail);
    crate::laws::texts::law_a_text_is_cut_at_every_occurrence(sc, '.', sd);
    crate::laws::texts::law_a_text_is_cut_at_every_occurrence(sd, '.', sd);
    let host = sa.push('.') + rest;
    assert(crate::text::split(host, '.') =~= seq![sa, sb, sc, sd]);
    let parts = crate::text::split(host, '.');
    assert(parts[0] == sa && parts[1] == sb && parts[2] == sc && parts[3] == sd);
}

/// A name is one of this machine exactly where it is `localhost` or is under it.
/// A name is what holds a letter beyond `f`, and so is no address.
pub proof fn law_names_of_this_machine(host: Seq<char>, k: int)
    requires
        0 <= k < host.len(),
        'g' <= host[k] && host[k] <= 'z',
        !host.contains(':'),
    ensures
        crate::transport::origin::is_loopback(host) <==> host == "localhost"@ || (host.len() >= 10
            && host.skip(host.len() - 10) == ".localhost"@),
{
    if crate::transport::origin::is_ipv4(host) {
        lemma_piece_of(host, '.', k);
        let parts = crate::text::split(host, '.');
        let (i, j) = choose|i: int, j: int|
            0 <= i < parts.len() && 0 <= j < parts[i].len() && #[trigger] parts[i][j] == host[k];
        assert(crate::transport::origin::is_octet(parts[i]));
        assert(crate::text::digit(parts[i][j]) < 10);
    }
    if crate::transport::origin::ipv6(host) is Some {
        lemma_no_gap(host, 0);
        let whole = crate::transport::origin::groups(host, true);
        crate::laws::texts::law_a_text_is_cut_at_every_occurrence(host, ':', host);
        let parts = crate::text::split(host, ':');
        assert(parts[0] == host);
        assert(whole is Some);
        if !crate::transport::origin::is_ipv4(host) {
            assert(crate::transport::origin::is_group(parts[0]));
            assert(crate::text::digit(host[k]) < 16);
        }
    }
}

/// A text without colons has no gap in it.
proof fn lemma_no_gap(s: Seq<char>, from: int)
    requires
        !s.contains(':'),
        0 <= from,
    ensures
        crate::transport::origin::gap_at(s, from) == -1,
    decreases s.len() - from,
{
    if from + 2 <= s.len() {
        assert(s.contains(s[from]));
        lemma_no_gap(s, from + 1);
    }
}

/// A character that is not cut at is in one of the pieces.
proof fn lemma_piece_of(s: Seq<char>, c: char, k: int)
    requires
        0 <= k < s.len(),
        s[k] != c,
    ensures
        exists|i: int, j: int|
            0 <= i < crate::text::split(s, c).len() && 0 <= j < crate::text::split(s, c)[i].len()
                && #[trigger] crate::text::split(s, c)[i][j] == s[k],
    decreases s.len(),
{
    let at = crate::text::find(s, c);
    crate::text::lemma_find_from(s, c, 0);
    let all = crate::text::split(s, c);
    if at < s.len() {
        if k < at {
            assert(all[0][k] == s[k]);
        } else {
            let rest = s.skip(at + 1);
            lemma_piece_of(rest, c, k - at - 1);
            let parts = crate::text::split(rest, c);
            let (i, j) = choose|i: int, j: int|
                0 <= i < parts.len() && 0 <= j < parts[i].len() && #[trigger] parts[i][j] == rest[k
                    - at - 1];
            assert(all[i + 1] == parts[i]);
            assert(all[i + 1][j] == s[k]);
        }
    } else {
        assert(all[0] == s);
        assert(all[0][k] == s[k]);
    }
}

/// Of the addresses with colons, the one that is all zeros but for a last one is
/// this machine, in its short form and in its long form.
pub proof fn law_the_address_with_colons_of_this_machine(s: Seq<int>, host: Seq<char>)
    ensures
        crate::transport::origin::ipv6(host) == Some(s) && s.len() == 8 && s[7] == 1 && (forall|
            k: int,
        |
            0 <= k < 7 ==> #[trigger] s[k] == 0) ==> crate::transport::origin::is_loopback(host),
        crate::transport::origin::ipv6(host) matches Some(g) ==> g.len() == 8,
        crate::transport::origin::is_loopback("::1"@),
{
    if crate::transport::origin::ipv6(host) == Some(s) && s.len() == 8 && s[7] == 1 && (forall|
        k: int,
    |
        0 <= k < 7 ==> #[trigger] s[k] == 0) {
        assert(s =~= seq![0int, 0, 0, 0, 0, 0, 0, 1]);
    }
    reveal_strlit("::1");
    let h = "::1"@;
    assert(h.len() == 3 && h[0] == ':' && h[1] == ':' && h[2] == '1');
    assert(crate::transport::origin::gap_at(h, 0) == 0);
    assert(h.take(0) =~= Seq::empty());
    let one = h.skip(2);
    assert(one =~= seq!['1']);
    assert(!one.contains(':'));
    crate::laws::texts::law_a_text_is_cut_at_every_occurrence(one, ':', one);
    let parts = crate::text::split(one, ':');
    assert(parts =~= seq![one]);
    assert(!one.contains('.'));
    crate::laws::texts::law_a_text_is_cut_at_every_occurrence(one, '.', one);
    assert(crate::text::split(one, '.').len() == 1);
    assert(!crate::transport::origin::is_ipv4(one));
    assert(one[0] == '1');
    assert(crate::transport::origin::is_group(one));
    assert(parts.skip(1) =~= Seq::empty());
    reveal_with_fuel(crate::text::number, 2);
    assert(one.drop_last() =~= Seq::empty());
    assert(crate::text::number(one, 16) == 1);
    reveal_with_fuel(crate::transport::origin::groups_of, 2);
    assert(crate::transport::origin::groups(one, true)->0 =~= seq![1int]);
    assert(crate::transport::origin::ipv6(h)->0 =~= seq![0int, 0, 0, 0, 0, 0, 0, 1]);
}

/// Lower case changes nothing about what a scheme or a host may hold.
proof fn lemma_lowered(scheme: Seq<char>, host: Seq<char>)
    requires
        scheme_like(scheme),
        host_like(host),
    ensures
        scheme_like(crate::text::lower_all(scheme)),
        host_like(crate::text::lower_all(host)),
{
    let ls = crate::text::lower_all(scheme);
    let lh = crate::text::lower_all(host);
    assert forall|k: int| 0 <= k < ls.len() implies scheme_char(#[trigger] ls[k]) by {
        assert(scheme_char(scheme[k]));
    }
    assert(scheme_char(scheme[0]));
    assert forall|k: int| 0 <= k < lh.len() implies (#[trigger] lh[k]) != '/' && lh[k] != '?'
        && lh[k] != '#' && lh[k] != '@' && lh[k] != '[' && lh[k] != ']' && lh[k] != ':'
        && !crate::text::is_space(lh[k]) by {
        assert(host[k] != '/');
    }
}

/// The usual policy lets a page in exactly where its host, in whatever case, is
/// this machine; its scheme and its port do not matter.
pub proof fn law_the_usual_policy_lets_this_machine_in(
    scheme: Seq<char>,
    host: Seq<char>,
    port: int,
)
    requires
        scheme_like(scheme),
        host_like(host),
        0 <= port <= 65535,
    ensures
        crate::transport::origin::allowed(OriginPolicy::Loopback, scheme + "://"@ + host)
            <==> crate::transport::origin::is_loopback(crate::text::lower_all(host)),
        crate::transport::origin::allowed(
            OriginPolicy::Loopback,
            scheme + "://"@ + host + ":"@ + crate::text::decimal(port),
        ) <==> crate::transport::origin::is_loopback(crate::text::lower_all(host)),
        crate::transport::origin::allowed(OriginPolicy::Any, scheme),
{
    let p = crate::text::decimal(port);
    let ls = crate::text::lower_all(scheme);
    let lh = crate::text::lower_all(host);
    law_an_origin_is_scheme_host_and_port(scheme, host, port);
    lemma_lowered(scheme, host);
    let none = Seq::<char>::empty();
    assert(!none.contains(']'));
    law_the_host_is_found(ls, lh, None, none);
    law_the_host_is_found(ls, lh, Some(p), none);
    assert(ls + "://"@ + lh + none =~= ls + "://"@ + lh);
    assert(ls + "://"@ + lh + (":"@ + p) =~= ls + "://"@ + lh + ":"@ + p);
}

/// A list with one origin lets a page in exactly where it has that scheme and
/// that host, in whatever case, and that port.
pub proof fn law_a_list_lets_in_what_is_on_it(
    list: Vec<String>,
    scheme: Seq<char>,
    host: Seq<char>,
    port: int,
    scheme2: Seq<char>,
    host2: Seq<char>,
    port2: int,
)
    requires
        scheme_like(scheme),
        host_like(host),
        0 <= port <= 65535,
        scheme_like(scheme2),
        host_like(host2),
        0 <= port2 <= 65535,
        list@.len() == 1,
        list@[0]@ == scheme + "://"@ + host + ":"@ + crate::text::decimal(port),
    ensures
        crate::transport::origin::allowed(
            OriginPolicy::Allowlist(list),
            scheme2 + "://"@ + host2 + ":"@ + crate::text::decimal(port2),
        ) <==> crate::text::lower_all(scheme) == crate::text::lower_all(scheme2)
            && crate::text::lower_all(host) == crate::text::lower_all(host2) && port == port2,
        !crate::transport::origin::allowed(
            OriginPolicy::Allowlist(list),
            scheme2 + "://"@ + host2,
        ),
{
    law_an_origin_is_scheme_host_and_port(scheme, host, port);
    law_an_origin_is_scheme_host_and_port(scheme2, host2, port2);
    lemma_lowered(scheme, host);
    lemma_lowered(scheme2, host2);
    let a = crate::text::lower_all(scheme);
    let b = crate::text::lower_all(scheme2);
    let h = crate::text::lower_all(host);
    let i = crate::text::lower_all(host2);
    let p = crate::text::decimal(port);
    let q = crate::text::decimal(port2);
    let x = a + "://"@ + h + ":"@ + p;
    let y = b + "://"@ + i + ":"@ + q;
    let z = b + "://"@ + i;
    lemma_same_parts(a, h, port, b, i, port2);
    lemma_on_the_list(list, x, scheme2 + "://"@ + host2 + ":"@ + q, y);
    lemma_on_the_list(list, x, scheme2 + "://"@ + host2, z);
}

/// A list of one origin.
proof fn lemma_on_the_list(list: Vec<String>, entry: Seq<char>, origin: Seq<char>, normal: Seq<char>)
    requires
        list@.len() == 1,
        crate::transport::origin::normalized(list@[0]@) == Some(entry),
        crate::transport::origin::normalized(origin) == Some(normal),
    ensures
        crate::transport::origin::allowed(OriginPolicy::Allowlist(list), origin) <==> entry
            == normal,
{
    let policy = OriginPolicy::Allowlist(list);
    if entry == normal {
        assert(crate::transport::origin::normalized(policy->Allowlist_0@[0]@)
            == crate::transport::origin::normalized(origin));
    }
}

/// Origins are the same where their parts are.
proof fn lemma_same_parts(
    a: Seq<char>,
    h: Seq<char>,
    port: int,
    b: Seq<char>,
    i: Seq<char>,
    port2: int,
)
    requires
        scheme_like(a),
        host_like(h),
        scheme_like(b),
        host_like(i),
        0 <= port,
        0 <= port2,
    ensures
        ({
            let x = a + "://"@ + h + ":"@ + crate::text::decimal(port);
            let y = b + "://"@ + i + ":"@ + crate::text::decimal(port2);
            let z = b + "://"@ + i;
            (x == y <==> a == b && h == i && port == port2) && x != z
        }),
{
    let p = crate::text::decimal(port);
    let q = crate::text::decimal(port2);
    let x = a + "://"@ + h + ":"@ + p;
    let y = b + "://"@ + i + ":"@ + q;
    let z = b + "://"@ + i;
    lemma_parts(a, h, Some(p), x);
    lemma_parts(b, i, Some(q), y);
    lemma_parts(b, i, None, z);
    crate::pagination::lemma_decimal_is_read_back(port);
    crate::pagination::lemma_decimal_is_read_back(port2);
}

/// The parts of a normal origin can be read off it.
proof fn lemma_parts(scheme: Seq<char>, host: Seq<char>, port: Option<Seq<char>>, whole: Seq<char>)
    requires
        scheme_like(scheme),
        host_like(host),
        whole == (match port {
            Some(p) => scheme + "://"@ + host + ":"@ + p,
            None => scheme + "://"@ + host,
        }),
    ensures
        ({
            let n = crate::text::find(whole, ':');
            let rest = whole.skip(n + 3);
            let m = crate::text::find(rest, ':');
            &&& n == scheme.len()
            &&& whole.take(n) == scheme
            &&& m == host.len()
            &&& rest.take(m) == host
            &&& match port {
                Some(p) => m < rest.len() && rest.skip(m + 1) == p,
                None => m == rest.len(),
            }
        }),
{
    reveal_strlit("://");
    reveal_strlit(":");
    let n = scheme.len() as int;
    let m = host.len() as int;
    assert forall|k: int| 0 <= k < n implies (#[trigger] whole[k]) != ':' by {
        assert(whole[k] == scheme[k]);
        assert(scheme_char(scheme[k]));
    }
    assert(whole[n] == ':');
    crate::text::lemma_find_from_is(whole, ':', 0, n);
    assert(whole.take(n) =~= scheme);
    let rest = whole.skip(n + 3);
    assert forall|k: int| 0 <= k < m implies (#[trigger] rest[k]) != ':' by {
        assert(rest[k] == host[k]);
    }
    crate::text::lemma_find_from_is(rest, ':', 0, m);
    assert(rest.take(m) =~= host);
    match port {
        Some(p) => {
            assert(rest[m] == ':');
            assert(rest.skip(m + 1) =~= p);
        },
        None => {
            assert(rest =~= host);
        },
    }
}

/// What a page is let in by is its policy, and what an origin comes to is its
/// normal form.
pub proof fn law_policies_are_kept_to(
    policy: OriginPolicy,
    origin: &str,
    r: bool,
    n: Option<String>,
    loopback: bool,
)
    requires
        call_ensures(OriginPolicy::is_allowed, (&policy, origin), r),
        call_ensures(crate::transport::origin::normalize_origin, (origin,), n),
        call_ensures(crate::transport::origin::is_loopback_host, (origin,), loopback),
    ensures
        policy is Any ==> r,
        r <==> crate::transport::origin::allowed(policy, origin@),
        match n {
            Some(s) => crate::transport::origin::normalized(origin@) == Some(s@),
            None => crate::transport::origin::normalized(origin@) is None,
        },
        !(policy is Any) && n is None ==> !r,
        loopback <==> crate::transport::origin::is_loopback(origin@),
{
}

/// Every origin that is put on a list is let in by it.
pub proof fn law_what_is_listed_is_let_in(origins: &[&str], r: OriginPolicy, k: int)
    requires
        call_ensures(OriginPolicy::allowlist, (origins,), r),
        0 <= k < origins@.len(),
        crate::transport::origin::normalized(origins@[k]@) is Some,
    ensures
        crate::transport::origin::allowed(r, origins@[k]@),
        r matches OriginPolicy::Allowlist(list) && list@.len() == origins@.len(),
{
    let list = r->Allowlist_0;
    crate::transport::origin::law_normalizing_again_changes_nothing(origins@[k]@);
    assert(crate::transport::origin::normalized(list@[k]@) == crate::transport::origin::normalized(
        origins@[k]@,
    ));
}

/// A group of an address with colons: up to four hexadecimal digits.
pub open spec fn group_like(s: Seq<char>) -> bool {
    &&& 0 < s.len() <= 4
    &&& forall|k: int|
        0 <= k < s.len() ==> ('0' <= (#[trigger] s[k]) && s[k] <= '9') || ('a' <= s[k] && s[k]
            <= 'f') || ('A' <= s[k] && s[k] <= 'F')
}

/// Groups are read one by one.
proof fn lemma_groups(parts: Seq<Seq<char>>, dotted: bool)
    requires
        forall|k: int| 0 <= k < parts.len() ==> group_like(#[trigger] parts[k]),
    ensures
        crate::transport::origin::groups_of(parts, dotted) == Some(
            Seq::new(parts.len(), |k: int| crate::text::number(parts[k], 16)),
        ),
    decreases parts.len(),
{
    let all = Seq::new(parts.len(), |k: int| crate::text::number(parts[k], 16));
    if parts.len() == 0 {
        assert(all =~= Seq::<int>::empty());
    } else {
        let one = parts[0];
        let rest = parts.skip(1);
        assert(group_like(parts[0]));
        assert(!one.contains('.')) by {
            if one.contains('.') {
                let k = choose|k: int| 0 <= k < one.len() && one[k] == '.';
                assert(one[k] == '.');
            }
        }
        crate::laws::texts::law_a_text_is_cut_at_every_occurrence(one, '.', one);
        assert(!crate::transport::origin::is_ipv4(one));
        assert(crate::transport::origin::is_group(one));
        assert forall|k: int| 0 <= k < rest.len() implies group_like(#[trigger] rest[k]) by {
            assert(group_like(parts[k + 1]));
        }
        lemma_groups(rest, dotted);
        assert(seq![crate::text::number(one, 16)] + Seq::new(
            rest.len(),
            |k: int| crate::text::number(rest[k], 16),
        ) =~= all);
    }
}

proof fn lemma_gap_at(s: Seq<char>, from: int, at: int)
    requires
        0 <= from <= at,
        at + 2 <= s.len(),
        s[at] == ':' && s[at + 1] == ':',
        forall|k: int| from <= k < at ==> !((#[trigger] s[k]) == ':' && s[k + 1] == ':'),
    ensures
        crate::transport::origin::gap_at(s, from) == at,
    decreases at - from,
{
    if from < at {
        lemma_gap_at(s, from + 1, at);
    }
}

proof fn lemma_gap_nowhere(s: Seq<char>, from: int)
    requires
        0 <= from,
        forall|k: int| 0 <= k < s.len() - 1 ==> !((#[trigger] s[k]) == ':' && s[k + 1] == ':'),
    ensures
        crate::transport::origin::gap_at(s, from) == -1,
    decreases s.len() - from,
{
    if from + 2 <= s.len() {
        lemma_gap_nowhere(s, from + 1);
    }
}

/// An address with colons is its eight groups; two colons in a row, once, stand
/// for as many groups of zero as are missing.
pub proof fn law_addresses_with_colons_are_read(
    s: Seq<char>,
    a: Seq<char>,
    b: Seq<char>,
    host: Seq<char>,
)
    requires
        forall|k: int| 0 <= k < s.len() - 1 ==> !((#[trigger] s[k]) == ':' && s[k + 1] == ':'),
        s.len() > 0,
        forall|k: int|
            0 <= k < crate::text::split(s, ':').len() ==> group_like(
                #[trigger] crate::text::split(s, ':')[k],
            ),
        a.len() > 0 ==> a.last() != ':',
        forall|k: int| 0 <= k < a.len() - 1 ==> !((#[trigger] a[k]) == ':' && a[k + 1] == ':'),
        forall|k: int|
            0 <= k < crate::text::split(a, ':').len() && a.len() > 0 ==> group_like(
                #[trigger] crate::text::split(a, ':')[k],
            ),
        forall|k: int|
            0 <= k < crate::text::split(b, ':').len() && b.len() > 0 ==> group_like(
                #[trigger] crate::text::split(b, ':')[k],
            ),
        host == a + "::"@ + b,
    ensures
        crate::text::split(s, ':').len() == 8 ==> crate::transport::origin::ipv6(s) == Some(
            Seq::new(8, |k: int| crate::text::number(crate::text::split(s, ':')[k], 16)),
        ),
        crate::text::split(s, ':').len() != 8 ==> crate::transport::origin::ipv6(s) is None,
        ({
            let n = if a.len() == 0 {
                0
            } else {
                crate::text::split(a, ':').len()
            };
            let m = if b.len() == 0 {
                0
            } else {
                crate::text::split(b, ':').len()
            };
            &&& n + m > 7 ==> crate::transport::origin::ipv6(host) is None
            &&& n + m <= 7 ==> (crate::transport::origin::ipv6(host) matches Some(g) && g.len() == 8
                && (forall|k: int|
                0 <= k < n ==> #[trigger] g[k] == crate::text::number(
                    crate::text::split(a, ':')[k],
                    16,
                )) && (forall|k: int| n <= k < 8 - m ==> #[trigger] g[k] == 0) && (forall|k: int|
                0 <= k < m ==> g[8 - m + k] == crate::text::number(
                    #[trigger] crate::text::split(b, ':')[k],
                    16,
                )))
        }),
{
    reveal_strlit("::");
    lemma_gap_nowhere(s, 0);
    lemma_groups(crate::text::split(s, ':'), true);
    if crate::text::split(s, ':').len() == 8 {
        assert(crate::transport::origin::ipv6(s)->0 =~= Seq::new(
            8,
            |k: int| crate::text::number(crate::text::split(s, ':')[k], 16),
        ));
    }
    let at = a.len() as int;
    assert(host[at] == ':' && host[at + 1] == ':');
    assert forall|k: int| 0 <= k < at implies !((#[trigger] host[k]) == ':' && host[k + 1]
        == ':') by {
        assert(host[k] == a[k]);
        if k + 1 < at {
            assert(host[k + 1] == a[k + 1]);
        }
    }
    lemma_gap_at(host, 0, at);
    assert(host.take(at) =~= a);
    assert(host.skip(at + 2) =~= b);
    if a.len() > 0 {
        lemma_groups(crate::text::split(a, ':'), false);
    }
    if b.len() > 0 {
        lemma_groups(crate::text::split(b, ':'), true);
    }
}

} // verus!
