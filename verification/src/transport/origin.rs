//! `Origin` header validation for the Streamable HTTP transport.
//!
//! A page on a hostile site can re-point its own host name at `127.0.0.1` and
//! then talk to a local server through the victim's browser. Browsers always
//! say where such a request came from, so a server that looks at the `Origin`
//! header can refuse it. Only a header that is present is looked at: clients
//! that are not browsers send none, and they are not how the attack works.

use crate::text::{
    chars_between, chars_of, ends_with, find_char, lower_chars, parse_number,
    same_chars_ignoring_case, same_text, space, split_chars, text_of, trimmed,
};
use vstd::prelude::*;
use vstd::string::*;

verus! {

/// Which `Origin` header values the HTTP server accepts.
#[derive(Debug, Clone, PartialEq, Eq)]
pub enum OriginPolicy {
    /// Only origins whose host is a loopback address: `localhost`, anything
    /// under `.localhost`, `127.0.0.0/8` or `::1`. The host is what counts: any
    /// port and any scheme is fine, `http` and `https` among them.
    Loopback,
    /// Only the listed origins, normalized and compared exactly, port and all.
    Allowlist(Vec<String>),
    /// Every origin, `null` among them.
    Any,
}

/// The position of the first `://`, or -1.
pub open spec fn scheme_end(s: Seq<char>, from: int) -> int
    decreases s.len() - from,
{
    if from + 3 > s.len() {
        -1
    } else if s[from] == ':' && s[from + 1] == '/' && s[from + 2] == '/' {
        from
    } else {
        scheme_end(s, from + 1)
    }
}

/// The position of the last `c` before `to`, or -1.
pub open spec fn find_last(s: Seq<char>, c: char, to: int) -> int
    decreases to,
{
    if to <= 0 {
        -1
    } else if s[to - 1] == c {
        to - 1
    } else {
        find_last(s, c, to - 1)
    }
}

pub open spec fn is_letter(c: char) -> bool {
    ('a' <= c && c <= 'z') || ('A' <= c && c <= 'Z')
}

/// What may stand in a URI scheme.
pub open spec fn is_scheme_char(c: char) -> bool {
    is_letter(c) || ('0' <= c && c <= '9') || c == '+' || c == '-' || c == '.'
}

/// A URI scheme: a letter, then letters, digits, `+`, `-` and `.`.
pub open spec fn is_scheme(s: Seq<char>) -> bool {
    &&& s.len() > 0
    &&& is_letter(s[0])
    &&& forall|k: int| 0 <= k < s.len() ==> is_scheme_char(#[trigger] s[k])
}

/// An authority with no path, query, fragment, user information or white space
/// in it.
pub open spec fn is_bare_authority(s: Seq<char>) -> bool {
    &&& s.len() > 0
    &&& forall|k: int|
        0 <= k < s.len() ==> (#[trigger] s[k]) != '/' && s[k] != '?' && s[k] != '#' && s[k] != '@'
            && !crate::text::is_space(s[k])
}

/// Whether there is no bracket between two positions.
pub open spec fn no_brackets(s: Seq<char>, from: int, to: int) -> bool {
    forall|k: int| from <= k < to ==> (#[trigger] s[k]) != '[' && s[k] != ']'
}

/// The host of an authority and what follows its `:`, where it has one. A host
/// in brackets may hold colons of its own. Brackets come as one pair, round the
/// whole host, or not at all.
pub open spec fn host_and_port(s: Seq<char>) -> Option<(Seq<char>, Option<Seq<char>>)> {
    let close = find_last(s, ']', s.len() as int);
    if close >= 0 {
        let tail = s.skip(close + 1);
        if s[0] != '[' || !no_brackets(s, 1, close) {
            None
        } else if tail.len() == 0 {
            Some((s.take(close + 1), None))
        } else if tail[0] == ':' {
            Some((s.take(close + 1), Some(tail.skip(1))))
        } else {
            None
        }
    } else if !no_brackets(s, 0, s.len() as int) {
        None
    } else {
        let colon = crate::text::find(s, ':');
        if colon < s.len() {
            Some((s.take(colon), Some(s.skip(colon + 1))))
        } else {
            Some((s, None))
        }
    }
}

/// A port that is absent, or a number that fits in sixteen bits.
pub open spec fn is_port(port: Option<Seq<char>>) -> bool {
    match port {
        None => true,
        Some(p) => crate::text::parsed_number(p, 10, 65535) is Some,
    }
}

/// An origin written out.
pub open spec fn origin_text(
    scheme: Seq<char>,
    host: Seq<char>,
    port: Option<Seq<char>>,
) -> Seq<char> {
    let front = crate::text::lower_all(scheme) + "://"@ + crate::text::lower_all(host);
    match port {
        None => front,
        Some(p) => front + ":"@ + p,
    }
}

/// What follows the scheme, without the one slash that may end it.
pub open spec fn without_slash(s: Seq<char>) -> Seq<char> {
    if s.len() > 0 && s.last() == '/' {
        s.drop_last()
    } else {
        s
    }
}

/// The form `scheme://host[:port]` of an origin, scheme and host in lower
/// case, or nothing where `origin` is no origin. The opaque `null` is none.
pub open spec fn normalized(origin: Seq<char>) -> Option<Seq<char>> {
    let o = crate::text::trim(origin);
    let at = scheme_end(o, 0);
    if o.len() == 0 || crate::text::same_ignoring_case(o, "null"@) || at < 0 {
        None
    } else {
        let scheme = o.take(at);
        let authority = without_slash(o.skip(at + 3));
        if !is_scheme(scheme) || !is_bare_authority(authority) {
            None
        } else {
            match host_and_port(authority) {
                None => None,
                Some((host, port)) => if host.len() == 0 || !is_port(port) {
                    None
                } else {
                    Some(origin_text(scheme, host, port))
                },
            }
        }
    }
}

/// The host of a normalized origin, without brackets.
pub open spec fn host_in(origin: Seq<char>) -> Option<Seq<char>> {
    let at = scheme_end(origin, 0);
    if at < 0 {
        None
    } else {
        let rest = origin.skip(at + 3);
        if rest.len() > 0 && rest[0] == '[' {
            let close = crate::text::find(rest, ']');
            if close < rest.len() {
                Some(rest.subrange(1, close))
            } else {
                None
            }
        } else {
            Some(rest.take(crate::text::find(rest, ':')))
        }
    }
}

/// One decimal number of a dotted address: no more than 255, and no zero in
/// front.
pub open spec fn is_octet(s: Seq<char>) -> bool {
    &&& s.len() <= 3
    &&& crate::text::parsed_number(s, 10, 255) is Some
    &&& (s.len() > 1 ==> s[0] != '0')
}

/// A dotted IPv4 address.
pub open spec fn is_ipv4(s: Seq<char>) -> bool {
    let parts = crate::text::split(s, '.');
    &&& parts.len() == 4
    &&& forall|k: int| 0 <= k < 4 ==> is_octet(#[trigger] parts[k])
}

/// The number in one place of a dotted address.
pub open spec fn octet(s: Seq<char>, k: int) -> int {
    crate::text::number(crate::text::split(s, '.')[k], 10)
}

/// One group of an IPv6 address: up to four hexadecimal digits.
pub open spec fn is_group(s: Seq<char>) -> bool {
    s.len() <= 4 && crate::text::is_number(s, 16)
}

/// The groups that a list of parts denotes, where it denotes any. The last
/// part may be a dotted address, worth two groups, where `dotted` allows it.
pub open spec fn groups_of(parts: Seq<Seq<char>>, dotted: bool) -> Option<Seq<int>>
    decreases parts.len(),
{
    if parts.len() == 0 {
        Some(Seq::empty())
    } else if parts.len() == 1 && dotted && is_ipv4(parts[0]) {
        Some(
            seq![
                octet(parts[0], 0) * 256 + octet(parts[0], 1),
                octet(parts[0], 2) * 256 + octet(parts[0], 3),
            ],
        )
    } else if !is_group(parts[0]) {
        None
    } else {
        match groups_of(parts.skip(1), dotted) {
            None => None,
            Some(rest) => Some(seq![crate::text::number(parts[0], 16)] + rest),
        }
    }
}

/// The groups that a run of text between colons denotes.
pub open spec fn groups(s: Seq<char>, dotted: bool) -> Option<Seq<int>> {
    if s.len() == 0 {
        Some(Seq::empty())
    } else {
        groups_of(crate::text::split(s, ':'), dotted)
    }
}

/// The position of the first `::`, or -1.
pub open spec fn gap_at(s: Seq<char>, from: int) -> int
    decreases s.len() - from,
{
    if from + 2 > s.len() {
        -1
    } else if s[from] == ':' && s[from + 1] == ':' {
        from
    } else {
        gap_at(s, from + 1)
    }
}

/// The eight groups of an IPv6 address. One `::` stands for one or more
/// groups of zero.
pub open spec fn ipv6(s: Seq<char>) -> Option<Seq<int>> {
    let gap = gap_at(s, 0);
    if gap < 0 {
        match groups(s, true) {
            Some(g) => if g.len() == 8 {
                Some(g)
            } else {
                None
            },
            None => None,
        }
    } else {
        match (groups(s.take(gap), false), groups(s.skip(gap + 2), true)) {
            (Some(head), Some(tail)) => if head.len() + tail.len() <= 7 {
                Some(head + Seq::new((8 - head.len() - tail.len()) as nat, |k: int| 0int) + tail)
            } else {
                None
            },
            _ => None,
        }
    }
}

/// A host name or address that names this machine.
pub open spec fn is_loopback(host: Seq<char>) -> bool {
    ||| host == "localhost"@
    ||| host.len() >= 10 && host.skip(host.len() - 10) == ".localhost"@
    ||| is_ipv4(host) && octet(host, 0) == 127
    ||| ipv6(host) == Some(seq![0int, 0, 0, 0, 0, 0, 0, 1])
}

/// Whether a policy accepts the value of an `Origin` header.
pub open spec fn allowed(policy: OriginPolicy, origin: Seq<char>) -> bool {
    match policy {
        OriginPolicy::Any => true,
        OriginPolicy::Allowlist(list) => normalized(origin) is Some && exists|k: int|
            0 <= k < list@.len() && normalized((#[trigger] list@[k])@) == normalized(origin),
        OriginPolicy::Loopback => normalized(origin) is Some && host_in(
            normalized(origin)->0,
        ) is Some && is_loopback(host_in(normalized(origin)->0)->0),
    }
}

impl Default for OriginPolicy {
    fn default() -> (r: Self)
        ensures
            r is Loopback,
    {
        OriginPolicy::Loopback
    }
}

impl OriginPolicy {
    /// A policy that accepts exactly these origins. An entry that is no origin
    /// is kept as it is, and matches nothing.
    pub fn allowlist(origins: &[&str]) -> (r: Self)
        ensures
            r matches OriginPolicy::Allowlist(list) && list@.len() == origins@.len() && forall|k: int|
                0 <= k < list@.len() ==> (#[trigger] list@[k])@ == (match normalized(origins@[k]@) {
                    Some(n) => n,
                    None => origins@[k]@,
                }),
    {
        let mut list: Vec<String> = Vec::new();
        let mut i: usize = 0;
        while i < origins.len()
            invariant
                i <= origins@.len(),
                list@.len() == i,
                forall|k: int|
                    0 <= k < i ==> (#[trigger] list@[k])@ == (match normalized(origins@[k]@) {
                        Some(n) => n,
                        None => origins@[k]@,
                    }),
            decreases origins@.len() - i,
        {
            let entry = match normalize_origin(origins[i]) {
                Some(n) => n,
                None => origins[i].to_owned(),
            };
            list.push(entry);
            i = i + 1;
        }
        OriginPolicy::Allowlist(list)
    }

    /// Whether the value of an `Origin` header that was sent is acceptable.
    pub fn is_allowed(&self, origin: &str) -> (r: bool)
        ensures
            r == allowed(*self, origin@),
    {
        match self {
            OriginPolicy::Any => true,
            OriginPolicy::Allowlist(list) => match normalize_origin(origin) {
                Some(n) => lists_origin(list, n.as_str()),
                None => false,
            },
            OriginPolicy::Loopback => match normalize_origin(origin) {
                Some(n) => match host_of(n.as_str()) {
                    Some(host) => is_loopback_host(host.as_str()),
                    None => false,
                },
                None => false,
            },
        }
    }
}

/// Whether a list holds an origin with this normal form.
fn lists_origin(list: &Vec<String>, n: &str) -> (r: bool)
    ensures
        r == exists|k: int|
            0 <= k < list@.len() && normalized((#[trigger] list@[k])@) == Some(n@),
{
    let mut i: usize = 0;
    while i < list.len()
        invariant
            i <= list@.len(),
            forall|k: int| 0 <= k < i ==> normalized((#[trigger] list@[k])@) != Some(n@),
        decreases list@.len() - i,
    {
        if let Some(entry) = normalize_origin(list[i].as_str()) {
            if same_text(entry.as_str(), n) {
                return true;
            }
        }
        i = i + 1;
    }
    false
}

/// Whether a list holds this text.
pub fn contains_text(list: &Vec<String>, text: &str) -> (r: bool)
    ensures
        r == exists|k: int| 0 <= k < list@.len() && (#[trigger] list@[k])@ == text@,
{
    let mut i: usize = 0;
    while i < list.len()
        invariant
            i <= list@.len(),
            forall|k: int| 0 <= k < i ==> (#[trigger] list@[k])@ != text@,
        decreases list@.len() - i,
    {
        if same_text(list[i].as_str(), text) {
            return true;
        }
        i = i + 1;
    }
    false
}

/// Where the first `://` is.
pub fn find_scheme_end(s: &Vec<char>) -> (r: Option<usize>)
    ensures
        match r {
            Some(i) => scheme_end(s@, 0) == i && i + 3 <= s@.len(),
            None => scheme_end(s@, 0) == -1,
        },
{
    let mut i: usize = 0;
    while s.len() >= 3 && i <= s.len() - 3
        invariant
            i <= s@.len(),
            s@.len() >= 3 ==> i <= s@.len() - 2,
            s@.len() < 3 ==> i == 0,
            scheme_end(s@, 0) == scheme_end(s@, i as int),
        decreases s@.len() - i,
    {
        if s[i] == ':' && s[i + 1] == '/' && s[i + 2] == '/' {
            return Some(i);
        }
        i = i + 1;
    }
    None
}

pub fn is_scheme_text(s: &Vec<char>) -> (r: bool)
    ensures
        r == is_scheme(s@),
{
    if s.len() == 0 {
        return false;
    }
    let first = s[0];
    if !(('a' <= first && first <= 'z') || ('A' <= first && first <= 'Z')) {
        return false;
    }
    let mut i: usize = 0;
    while i < s.len()
        invariant
            i <= s@.len(),
            forall|k: int| 0 <= k < i ==> is_scheme_char(#[trigger] s@[k]),
        decreases s@.len() - i,
    {
        let c = s[i];
        if !(('a' <= c && c <= 'z') || ('A' <= c && c <= 'Z') || ('0' <= c && c <= '9') || c == '+'
            || c == '-' || c == '.') {
            return false;
        }
        i = i + 1;
    }
    true
}

fn is_bare_authority_text(s: &Vec<char>) -> (r: bool)
    ensures
        r == is_bare_authority(s@),
{
    let mut i: usize = 0;
    while i < s.len()
        invariant
            i <= s@.len(),
            forall|k: int|
                0 <= k < i ==> (#[trigger] s@[k]) != '/' && s@[k] != '?' && s@[k] != '#' && s@[k]
                    != '@' && !crate::text::is_space(s@[k]),
        decreases s@.len() - i,
    {
        let c = s[i];
        if c == '/' || c == '?' || c == '#' || c == '@' || space(c) {
            return false;
        }
        i = i + 1;
    }
    s.len() > 0
}

fn free_of_brackets(s: &Vec<char>, from: usize, to: usize) -> (r: bool)
    requires
        to <= s@.len(),
    ensures
        r == no_brackets(s@, from as int, to as int),
{
    let mut i: usize = from;
    while i < to
        invariant
            from <= i,
            to <= s@.len(),
            from <= to ==> i <= to,
            forall|k: int| from <= k < i && k < to ==> (#[trigger] s@[k]) != '[' && s@[k] != ']',
        decreases to - i,
    {
        if s[i] == '[' || s[i] == ']' {
            return false;
        }
        i = i + 1;
    }
    true
}

/// Splits an authority into its host and what follows the host's `:`.
fn split_authority(s: &Vec<char>) -> (r: Option<(Vec<char>, Option<Vec<char>>)>)
    ensures
        match r {
            None => host_and_port(s@) is None,
            Some((host, port)) => host_and_port(s@) == Some(
                (
                    host@,
                    match port {
                        Some(p) => Some(p@),
                        None => None,
                    },
                ),
            ),
        },
{
    let mut to: usize = s.len();
    while to > 0 && s[to - 1] != ']'
        invariant
            to <= s@.len(),
            find_last(s@, ']', s@.len() as int) == find_last(s@, ']', to as int),
        decreases to,
    {
        to = to - 1;
    }
    if to > 0 {
        if s[0] != '[' || !free_of_brackets(s, 1, to - 1) {
            return None;
        }
        let host = chars_between(s, 0, to);
        assert(host@ =~= s@.take(to as int));
        if to == s.len() {
            return Some((host, None));
        }
        assert(s@.skip(to as int)[0] == s@[to as int]);
        if s[to] != ':' {
            return None;
        }
        let port = chars_between(s, to + 1, s.len());
        assert(port@ =~= s@.skip(to as int).skip(1));
        Some((host, Some(port)))
    } else {
        if !free_of_brackets(s, 0, s.len()) {
            return None;
        }
        let colon = find_char(s, ':', 0);
        let host = chars_between(s, 0, colon);
        assert(host@ =~= s@.take(colon as int));
        if colon == s.len() {
            assert(host@ =~= s@);
            return Some((host, None));
        }
        let port = chars_between(s, colon + 1, s.len());
        assert(port@ =~= s@.skip(colon as int + 1));
        Some((host, Some(port)))
    }
}

/// Normalizes the value of an `Origin` header into `scheme://host[:port]`.
pub fn normalize_origin(origin: &str) -> (r: Option<String>)
    ensures
        match r {
            Some(n) => normalized(origin@) == Some(n@),
            None => normalized(origin@) is None,
        },
{
    let o = trimmed(&chars_of(origin));
    if o.len() == 0 || same_chars_ignoring_case(&o, &chars_of("null")) {
        return None;
    }
    let at: usize = match find_scheme_end(&o) {
        Some(i) => i,
        None => {
            return None;
        },
    };
    let scheme = chars_between(&o, 0, at);
    assert(scheme@ =~= o@.take(at as int));
    let end: usize = if o.len() > at + 3 && o[o.len() - 1] == '/' {
        o.len() - 1
    } else {
        o.len()
    };
    let authority = chars_between(&o, at + 3, end);
    proof {
        let rest = o@.skip(at + 3);
        if rest.len() > 0 {
            assert(rest.last() == o@.last());
        }
        assert(authority@ =~= without_slash(rest));
    }
    if !is_scheme_text(&scheme) || !is_bare_authority_text(&authority) {
        return None;
    }
    let (host, port) = match split_authority(&authority) {
        Some(pair) => pair,
        None => {
            return None;
        },
    };
    if host.len() == 0 {
        return None;
    }
    let mut n = text_of(&lower_chars(&scheme));
    n.append("://");
    n.append(text_of(&lower_chars(&host)).as_str());
    if let Some(p) = port {
        if parse_number(&p, 10, 65535).is_none() {
            return None;
        }
        n.append(":");
        n.append(text_of(&p).as_str());
    }
    Some(n)
}

/// The host of a normalized origin, without brackets.
pub fn host_of(normalized: &str) -> (r: Option<String>)
    ensures
        match r {
            Some(h) => host_in(normalized@) == Some(h@),
            None => host_in(normalized@) is None,
        },
{
    let s = chars_of(normalized);
    let end = s.len();
    let at: usize = match find_scheme_end(&s) {
        Some(i) => i,
        None => {
            return None;
        },
    };
    let rest = chars_between(&s, at + 3, end);
    assert(rest@ =~= s@.skip(at + 3));
    if rest.len() > 0 && rest[0] == '[' {
        let close = find_char(&rest, ']', 0);
        if close == rest.len() {
            return None;
        }
        proof {
            crate::text::lemma_find_from(rest@, ']', 0);
        }
        Some(text_of(&chars_between(&rest, 1, close)))
    } else {
        let colon = find_char(&rest, ':', 0);
        assert(rest@.subrange(0, colon as int) =~= rest@.take(colon as int));
        Some(text_of(&chars_between(&rest, 0, colon)))
    }
}

fn octet_value(s: &Vec<char>) -> (r: Option<u64>)
    ensures
        match r {
            Some(n) => is_octet(s@) && n == crate::text::number(s@, 10) && n <= 255,
            None => !is_octet(s@),
        },
{
    if s.len() > 3 || (s.len() > 1 && s[0] == '0') {
        return None;
    }
    parse_number(s, 10, 255)
}

/// Reads a dotted address.
fn parse_ipv4(s: &Vec<char>) -> (r: Option<Vec<u64>>)
    ensures
        match r {
            Some(v) => is_ipv4(s@) && v@.len() == 4 && forall|k: int|
                0 <= k < 4 ==> (#[trigger] v@[k]) == octet(s@, k) && v@[k] <= 255,
            None => !is_ipv4(s@),
        },
{
    let parts = split_chars(s, '.');
    let ghost pieces = crate::text::split(s@, '.');
    assert(crate::text::views(parts@).len() == parts@.len());
    if parts.len() != 4 {
        return None;
    }
    let mut v: Vec<u64> = Vec::new();
    let mut i: usize = 0;
    while i < 4
        invariant
            i <= 4,
            parts@.len() == 4,
            pieces == crate::text::split(s@, '.'),
            crate::text::views(parts@) == pieces,
            v@.len() == i,
            forall|k: int| 0 <= k < i ==> is_octet(#[trigger] pieces[k]),
            forall|k: int| 0 <= k < i ==> (#[trigger] v@[k]) == octet(s@, k) && v@[k] <= 255,
        decreases 4 - i,
    {
        assert(pieces[i as int] == parts@[i as int]@);
        match octet_value(&parts[i]) {
            Some(n) => v.push(n),
            None => {
                return None;
            },
        }
        i = i + 1;
    }
    Some(v)
}

/// A list of group values as numbers.
pub open spec fn values(v: Seq<u64>) -> Seq<int> {
    v.map_values(|x: u64| x as int)
}

/// Reads the groups between colons.
fn parse_groups(s: &Vec<char>, dotted: bool) -> (r: Option<Vec<u64>>)
    ensures
        match r {
            Some(v) => groups(s@, dotted) == Some(values(v@)),
            None => groups(s@, dotted) is None,
        },
{
    let mut out: Vec<u64> = Vec::new();
    if s.len() == 0 {
        assert(values(out@) =~= Seq::<int>::empty());
        return Some(out);
    }
    let parts = split_chars(s, ':');
    let ghost pieces = crate::text::split(s@, ':');
    assert(crate::text::views(parts@).len() == parts@.len());
    let mut i: usize = 0;
    assert(pieces.skip(0) =~= pieces);
    proof {
        if let Some(g) = groups_of(pieces, dotted) {
            assert(values(out@) + g =~= g);
        }
    }
    while i < parts.len()
        invariant
            s@.len() > 0,
            i <= parts@.len(),
            parts@.len() == pieces.len(),
            pieces == crate::text::split(s@, ':'),
            crate::text::views(parts@) == pieces,
            match groups_of(pieces.skip(i as int), dotted) {
                Some(g) => groups(s@, dotted) == Some(values(out@) + g),
                None => groups(s@, dotted) is None,
            },
        decreases parts@.len() - i,
    {
        assert(pieces[i as int] == parts@[i as int]@);
        assert(pieces.skip(i as int)[0] == pieces[i as int]);
        assert(pieces.skip(i as int).skip(1) =~= pieces.skip(i as int + 1));
        let ghost before = values(out@);
        if dotted && i + 1 == parts.len() {
            if let Some(v) = parse_ipv4(&parts[i]) {
                let high: u64 = v[0] * 256 + v[1];
                let low: u64 = v[2] * 256 + v[3];
                out.push(high);
                out.push(low);
                assert(values(out@) =~= before + seq![high as int, low as int]);
                return Some(out);
            }
        }
        if parts[i].len() > 4 {
            return None;
        }
        match parse_number(&parts[i], 16, 65535) {
            Some(n) => {
                out.push(n);
                proof {
                    if let Some(g) = groups_of(pieces.skip(i as int + 1), dotted) {
                        assert(values(out@) + g =~= before + (seq![n as int] + g));
                    }
                }
            },
            None => {
                proof {
                    let part = parts@[i as int]@;
                    if crate::text::is_number(part, 16) {
                        lemma_short_number(part);
                    }
                }
                return None;
            },
        }
        i = i + 1;
    }
    assert(values(out@) + Seq::<int>::empty() =~= values(out@));
    Some(out)
}

/// Four hexadecimal digits fit in sixteen bits.
proof fn lemma_short_number(s: Seq<char>)
    requires
        forall|k: int| 0 <= k < s.len() ==> crate::text::digit(#[trigger] s[k]) < 16,
    ensures
        s.len() == 0 ==> crate::text::number(s, 16) == 0,
        s.len() == 1 ==> crate::text::number(s, 16) <= 15,
        s.len() == 2 ==> crate::text::number(s, 16) <= 255,
        s.len() == 3 ==> crate::text::number(s, 16) <= 4095,
        s.len() == 4 ==> crate::text::number(s, 16) <= 65535,
    decreases s.len(),
{
    if s.len() > 0 {
        assert(forall|k: int| 0 <= k < s.drop_last().len() ==> s.drop_last()[k] == s[k]);
        lemma_short_number(s.drop_last());
    }
}

/// Whether the text is the loopback address of IPv6.
fn is_ipv6_loopback(s: &Vec<char>) -> (r: bool)
    ensures
        r == (ipv6(s@) == Some(seq![0int, 0, 0, 0, 0, 0, 0, 1])),
{
    let mut gap: usize = 0;
    while s.len() >= 2 && gap <= s.len() - 2 && !(s[gap] == ':' && s[gap + 1] == ':')
        invariant
            s@.len() >= 2 ==> gap <= s@.len() - 1,
            s@.len() < 2 ==> gap == 0,
            gap_at(s@, 0) == gap_at(s@, gap as int),
        decreases s@.len() - gap,
    {
        gap = gap + 1;
    }
    let ghost one = seq![0int, 0, 0, 0, 0, 0, 0, 1];
    let mut all: Vec<u64> = Vec::new();
    if s.len() < 2 || gap > s.len() - 2 {
        match parse_groups(s, true) {
            Some(g) => {
                all = g;
            },
            None => {
                return false;
            },
        }
        if all.len() != 8 {
            return false;
        }
        assert(ipv6(s@) == Some(values(all@)));
    } else {
        let left = chars_between(s, 0, gap);
        let right = chars_between(s, gap + 2, s.len());
        assert(left@ =~= s@.take(gap as int));
        assert(right@ =~= s@.skip(gap as int + 2));
        let (mut head, mut tail) = match (parse_groups(&left, false), parse_groups(&right, true)) {
            (Some(h), Some(t)) => (h, t),
            _ => {
                return false;
            },
        };
        let ghost h = values(head@);
        let ghost t = values(tail@);
        assert(h.len() == head@.len() && t.len() == tail@.len());
        if head.len() > 7 || tail.len() > 7 || head.len() + tail.len() > 7 {
            return false;
        }
        let ghost zeros = (8 - h.len() - t.len()) as nat;
        let ghost filled = h + Seq::new(zeros, |k: int| 0int) + t;
        assert(ipv6(s@) == Some(filled));
        let from = head.len();
        let to = 8 - tail.len();
        while head.len() < to
            invariant
                from <= head@.len() <= to,
                to == 8 - t.len(),
                from == h.len(),
                forall|k: int| 0 <= k < from ==> head@[k] as int == h[k],
                forall|k: int| from <= k < head@.len() ==> head@[k] == 0,
            decreases to - head@.len(),
        {
            head.push(0);
        }
        head.append(&mut tail);
        all = head;
        assert(values(all@) =~= filled);
    }
    let ghost got = values(all@);
    assert(forall|k: int| 0 <= k < 8 ==> got[k] == all@[k] as int);
    let r = all[0] == 0 && all[1] == 0 && all[2] == 0 && all[3] == 0 && all[4] == 0 && all[5] == 0
        && all[6] == 0 && all[7] == 1;
    proof {
        if r {
            assert(got =~= one);
        } else if got == one {
            assert(one[0] == 0 && one[7] == 1);
        }
    }
    r
}

/// Whether this host name or address names this machine.
pub fn is_loopback_host(host: &str) -> (r: bool)
    ensures
        r == is_loopback(host@),
{
    let s = chars_of(host);
    proof {
        reveal_strlit(".localhost");
    }
    if same_text(host, "localhost") || ends_with(&s, &chars_of(".localhost")) {
        return true;
    }
    if let Some(v) = parse_ipv4(&s) {
        if v[0] == 127 {
            return true;
        }
    }
    is_ipv6_loopback(&s)
}

/// What `find_last` finds.
pub proof fn lemma_find_last(s: Seq<char>, c: char, to: int)
    requires
        0 <= to <= s.len(),
    ensures
        -1 <= find_last(s, c, to) < to || to == 0,
        find_last(s, c, to) >= 0 ==> s[find_last(s, c, to)] == c,
        find_last(s, c, to) >= -1,
        forall|k: int| find_last(s, c, to) < k < to ==> s[k] != c,
    decreases to,
{
    if to > 0 && s[to - 1] != c {
        lemma_find_last(s, c, to - 1);
    }
}

/// The first `://` is where no `:` comes before it.
pub proof fn lemma_scheme_end_is(s: Seq<char>, from: int, at: int)
    requires
        0 <= from <= at,
        at + 3 <= s.len(),
        forall|k: int| from <= k < at ==> s[k] != ':',
        s[at] == ':',
        s[at + 1] == '/',
        s[at + 2] == '/',
    ensures
        scheme_end(s, from) == at,
    decreases at - from,
{
    if from < at {
        lemma_scheme_end_is(s, from + 1, at);
    }
}

/// Where `scheme_end` finds something, it is a `://`.
pub proof fn lemma_scheme_end(s: Seq<char>, from: int)
    requires
        0 <= from,
    ensures
        scheme_end(s, from) == -1 || (from <= scheme_end(s, from) && scheme_end(s, from) + 3
            <= s.len()),
    decreases s.len() - from,
{
    if from + 3 <= s.len() && !(s[from] == ':' && s[from + 1] == '/' && s[from + 2] == '/') {
        lemma_scheme_end(s, from + 1);
    }
}

/// The host and port of an authority that is already in lower case, with a
/// port that is a number, are found again in it.
proof fn lemma_host_and_port_again(a: Seq<char>, host: Seq<char>, port: Option<Seq<char>>)
    requires
        a.len() > 0,
        host_and_port(a) == Some((host, port)),
        host.len() > 0,
        is_port(port),
    ensures
        host_and_port(
            match port {
                None => crate::text::lower_all(host),
                Some(p) => crate::text::lower_all(host) + ":"@ + p,
            },
        ) == Some((crate::text::lower_all(host), port)),
        forall|k: int| 0 <= k < host.len() ==> a.contains(#[trigger] host[k]),
{
    reveal_strlit(":");
    let lh = crate::text::lower_all(host);
    let b = match port {
        None => lh,
        Some(p) => lh + ":"@ + p,
    };
    let close = find_last(a, ']', a.len() as int);
    lemma_find_last(a, ']', a.len() as int);
    lemma_find_last(b, ']', b.len() as int);
    crate::text::lemma_find_from(a, ':', 0);
    assert forall|k: int| 0 <= k < host.len() implies a.contains(#[trigger] host[k]) by {
        assert(host[k] == a[k]);
    }
    if let Some(p) = port {
        assert(forall|k: int| 0 <= k < p.len() ==> crate::text::digit(#[trigger] p[k]) < 10);
        assert(forall|k: int| 0 <= k < p.len() ==> p[k] == b[lh.len() + 1 + k]);
        assert(b[lh.len() as int] == ':');
    }
    assert(forall|k: int| 0 <= k < lh.len() ==> b[k] == lh[k]);
    assert(forall|k: int| 0 <= k < lh.len() ==> lh[k] == crate::text::lower(host[k]));
    if close >= 0 {
        assert(host =~= a.take(close + 1));
        assert(b[close] == ']');
        assert forall|k: int| close < k < b.len() implies b[k] != ']' by {
            if port is Some && k > lh.len() {
                assert(b[k] == port->0[k - lh.len() - 1]);
            }
        }
        assert(find_last(b, ']', b.len() as int) == close);
        assert(b.take(close + 1) =~= lh);
        if let Some(p) = port {
            assert(b.skip(close + 1).skip(1) =~= p);
        }
        assert(b[0] == '[');
    } else {
        assert forall|k: int| 0 <= k < b.len() implies b[k] != ']' by {
            if k < lh.len() {
                assert(host[k] == a[k]);
            } else if port is Some && k > lh.len() {
                assert(b[k] == port->0[k - lh.len() - 1]);
            }
        }
        assert(find_last(b, ']', b.len() as int) == -1);
        assert forall|k: int| 0 <= k < lh.len() implies b[k] != ':' by {
            assert(host[k] == a[k]);
        }
        crate::text::lemma_find_from_is(b, ':', 0, lh.len() as int);
        if let Some(p) = port {
            assert(b.take(lh.len() as int) =~= lh);
            assert(b.skip(lh.len() as int + 1) =~= p);
        }
    }
}

/// Normalizing twice is normalizing once.
pub proof fn law_normalizing_again_changes_nothing(origin: Seq<char>)
    requires
        normalized(origin) is Some,
    ensures
        normalized(normalized(origin)->0) == normalized(origin),
{
    reveal_strlit("://");
    reveal_strlit(":");
    reveal_strlit("null");
    let o = crate::text::trim(origin);
    let at = scheme_end(o, 0);
    lemma_scheme_end(o, 0);
    let scheme = o.take(at);
    let authority = without_slash(o.skip(at + 3));
    let (host, port) = host_and_port(authority)->0;
    let ls = crate::text::lower_all(scheme);
    let lh = crate::text::lower_all(host);
    let b = match port {
        None => lh,
        Some(p) => lh + ":"@ + p,
    };
    let n = normalized(origin)->0;
    assert(n =~= ls + "://"@ + b);
    lemma_host_and_port_again(authority, host, port);
    assert forall|k: int| 0 <= k < ls.len() implies is_scheme_char(#[trigger] ls[k]) && ls[k]
        == n[k] by {
        assert(is_scheme_char(scheme[k]));
    }
    assert forall|k: int| 0 <= k < b.len() implies (#[trigger] b[k]) != '/' && b[k] != '?' && b[k]
        != '#' && b[k] != '@' && !crate::text::is_space(b[k]) by {
        if k < lh.len() {
            assert(b[k] == lh[k] && lh[k] == crate::text::lower(host[k]));
            assert(authority.contains(host[k]));
            let j = choose|j: int| 0 <= j < authority.len() && authority[j] == host[k];
            assert(authority[j] != '/');
        } else if k > lh.len() {
            assert(b[k] == port->0[k - lh.len() - 1]);
            assert(crate::text::digit(port->0[k - lh.len() - 1]) < 10);
        }
    }
    assert(n.last() == b.last());
    assert(is_letter(scheme[0]));
    assert(is_letter(ls[0]));
    assert(n[0] == ls[0]);
    assert(crate::text::trim_start_where(n, crate::text::spaces()) == n);
    assert(crate::text::trim(n) == n);
    assert(crate::text::lower_all(n).len() == n.len());
    assert(crate::text::lower_all("null"@).len() == 4);
    assert(!crate::text::same_ignoring_case(n, "null"@));
    let m = ls.len() as int;
    assert(n[m] == ':' && n[m + 1] == '/' && n[m + 2] == '/');
    lemma_scheme_end_is(n, 0, m);
    assert(n.take(m) =~= ls);
    assert(n.skip(m + 3) =~= b);
    assert(without_slash(b) == b);
    assert(crate::text::lower_all(ls) =~= ls);
    assert(crate::text::lower_all(lh) =~= lh);
}

/// The opaque origin names no host, so nothing but [`OriginPolicy::Any`] lets
/// it in.
pub proof fn law_opaque_origin_is_refused(policy: OriginPolicy, origin: Seq<char>)
    requires
        crate::text::same_ignoring_case(crate::text::trim(origin), "null"@),
    ensures
        allowed(policy, origin) == (policy is Any),
{
}

/// An origin that was put on an allowlist, as it is or in its normal form, is
/// allowed by it, in every spelling with the same normal form.
pub proof fn law_listed_origin_is_allowed(list: Vec<String>, entry: Seq<char>, k: int, origin: Seq<char>)
    requires
        0 <= k < list@.len(),
        list@[k]@ == entry || normalized(entry) == Some(list@[k]@),
        normalized(entry) is Some,
        normalized(origin) == normalized(entry),
    ensures
        allowed(OriginPolicy::Allowlist(list), origin),
{
    let policy = OriginPolicy::Allowlist(list);
    law_normalizing_again_changes_nothing(entry);
    assert(normalized(policy->Allowlist_0@[k]@) == normalized(origin));
}

} // verus!
