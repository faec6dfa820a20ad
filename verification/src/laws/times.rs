//! Dates, times and lengths of time.

use crate::calendar::{time_left, Span, Timestamp};
use vstd::prelude::*;
use vstd::string::*;

verus! {

/// Every fourth year has a day more, but of those that begin a century only
/// every fourth; February has it. April, June, September and November have
/// thirty days, and the other months thirty-one.
pub proof fn law_months_have_their_days(y: int)
    ensures
        crate::calendar::month_days(y, 1) == 31,
        crate::calendar::month_days(y, 3) == 31,
        crate::calendar::month_days(y, 4) == 30,
        crate::calendar::month_days(y, 5) == 31,
        crate::calendar::month_days(y, 6) == 30,
        crate::calendar::month_days(y, 7) == 31,
        crate::calendar::month_days(y, 8) == 31,
        crate::calendar::month_days(y, 9) == 30,
        crate::calendar::month_days(y, 10) == 31,
        crate::calendar::month_days(y, 11) == 30,
        crate::calendar::month_days(y, 12) == 31,
        y % 4 != 0 ==> crate::calendar::month_days(y, 2) == 28,
        y % 400 == 0 ==> crate::calendar::month_days(y, 2) == 29,
        y % 4 == 0 && y % 100 != 0 ==> crate::calendar::month_days(y, 2) == 29,
        y % 100 == 0 && y % 400 != 0 ==> crate::calendar::month_days(y, 2) == 28,
{
}

/// Days are counted from the first of January 1970, and each day is the day
/// before it and one more: in its month, or as the first of the next month or
/// year.
pub proof fn law_days_follow_one_another(y: int, m: int, d: int)
    requires
        crate::calendar::is_date(y, m, d),
    ensures
        crate::calendar::day_number(1970, 1, 1) == 0,
        d < crate::calendar::month_days(y, m) ==> crate::calendar::day_number(y, m, d + 1)
            == crate::calendar::day_number(y, m, d) + 1,
        d == crate::calendar::month_days(y, m) && m < 12 ==> crate::calendar::day_number(
            y,
            m + 1,
            1,
        ) == crate::calendar::day_number(y, m, d) + 1,
        d == 31 && m == 12 ==> crate::calendar::day_number(y + 1, 1, 1)
            == crate::calendar::day_number(y, m, d) + 1,
{
    reveal_with_fuel(crate::calendar::days_before_month, 13);
    crate::calendar::lemma_year_length(y);
}

/// Two digits of a number.
pub open spec fn two_digits(s: Seq<char>, at: int, n: int) -> bool {
    s[at] as int == '0' as int + n / 10 && s[at + 1] as int == '0' as int + n % 10
}

/// A moment is written as its date and its time of day, each part with all its
/// digits, in UTC.
pub proof fn law_moments_are_written_as_date_and_time(
    t: Timestamp,
    y: int,
    m: int,
    d: int,
    hour: int,
    minute: int,
    second: int,
)
    requires
        crate::calendar::is_date(y, m, d),
        1970 <= y <= 9999,
        0 <= hour < 24,
        0 <= minute < 60,
        0 <= second < 60,
        t.secs == crate::calendar::day_number(y, m, d) * 86_400 + hour * 3600 + minute * 60
            + second,
        t.secs >= 0,
    ensures
        ({
            let s = crate::calendar::stamp(t);
            &&& s.len() == 20
            &&& s[0] as int == '0' as int + y / 1000
            &&& s[1] as int == '0' as int + (y / 100) % 10
            &&& two_digits(s, 2, y % 100)
            &&& s[4] == '-'
            &&& two_digits(s, 5, m)
            &&& s[7] == '-'
            &&& two_digits(s, 8, d)
            &&& s[10] == 'T'
            &&& two_digits(s, 11, hour)
            &&& s[13] == ':'
            &&& two_digits(s, 14, minute)
            &&& s[16] == ':'
            &&& two_digits(s, 17, second)
            &&& s[19] == 'Z'
        }),
{
    reveal_strlit("-");
    reveal_strlit("T");
    reveal_strlit(":");
    reveal_strlit("Z");
    let day = crate::calendar::day_number(y, m, d);
    let rest = hour * 3600 + minute * 60 + second;
    assert(t.secs as int / 86_400 == day && t.secs as int % 86_400 == rest) by (nonlinear_arith)
        requires
            t.secs as int == day * 86_400 + rest,
            0 <= rest < 86_400,
    ;
    let date = crate::calendar::date_of(day);
    assert(crate::calendar::day_number((y, m, d).0, (y, m, d).1, (y, m, d).2) == day);
    assert(crate::calendar::is_date(date.0, date.1, date.2) && crate::calendar::day_number(
        date.0,
        date.1,
        date.2,
    ) == day);
    crate::calendar::law_a_day_has_one_date(date.0, date.1, date.2, y, m, d);
    assert(rest / 3600 == hour && (rest % 3600) / 60 == minute && rest % 60 == second);
    lemma_two(m);
    lemma_two(d);
    lemma_two(hour);
    lemma_two(minute);
    lemma_two(second);
    lemma_four(y);
}

proof fn lemma_two(n: int)
    requires
        0 <= n < 100,
    ensures
        crate::calendar::padded(n, 2).len() == 2,
        two_digits(crate::calendar::padded(n, 2), 0, n),
{
    reveal_with_fuel(crate::text::decimal, 3);
}

proof fn lemma_four(n: int)
    requires
        1000 <= n < 10_000,
    ensures
        ({
            let s = crate::calendar::padded(n, 4);
            &&& s.len() == 4
            &&& s[0] as int == '0' as int + n / 1000
            &&& s[1] as int == '0' as int + (n / 100) % 10
            &&& two_digits(s, 2, n % 100)
        }),
{
    reveal_with_fuel(crate::text::decimal, 5);
}

/// A length of time in whole seconds, milliseconds, microseconds or nanoseconds
/// is written as that many of them.
pub proof fn law_lengths_of_time_are_written_in_their_unit(n: u64)
    ensures
        n > 0 ==> crate::calendar::span_text(Span { secs: n, nanos: 0 }) == crate::text::decimal(
            n as int,
        ) + "s"@,
        0 < n < 1000 ==> crate::calendar::span_text(
            Span { secs: 0, nanos: (n * 1_000_000) as u32 },
        ) == crate::text::decimal(n as int) + "ms"@,
        0 < n < 1000 ==> crate::calendar::span_text(Span { secs: 0, nanos: (n * 1000) as u32 })
            == crate::text::decimal(n as int) + "\u{b5}s"@,
        n < 1000 ==> crate::calendar::span_text(Span { secs: 0, nanos: n as u32 })
            == crate::text::decimal(n as int) + "ns"@,
{
    let none = Seq::<char>::empty();
    let d = crate::text::decimal(n as int);
    assert(d + none =~= d);
}

/// What is left of a wait is what lies between now and its end, and nothing once
/// that has come.
pub proof fn law_what_is_left_of_a_wait(now: Span, deadline: Span, r: Option<Span>)
    requires
        now.wf(),
        deadline.wf(),
        call_ensures(time_left, (now, deadline), r),
    ensures
        deadline.secs > now.secs || (deadline.secs == now.secs && deadline.nanos > now.nanos) ==> (
        r matches Some(t) && t.secs * 1_000_000_000 + t.nanos == (deadline.secs - now.secs)
            * 1_000_000_000 + deadline.nanos - now.nanos),
        deadline.secs < now.secs || (deadline.secs == now.secs && deadline.nanos <= now.nanos)
            ==> r is None,
{
}

/// A length of time with tenths of its unit is written with one digit after the
/// point.
pub proof fn law_lengths_of_time_have_fractions(n: u64, tenth: u32)
    requires
        0 < n < 1000,
        1 <= tenth <= 9,
    ensures
        crate::calendar::span_text(Span { secs: n, nanos: (tenth * 100_000_000) as u32 })
            == crate::text::decimal(n as int) + "."@ + seq![
            crate::text::digit_char(tenth as int),
        ] + "s"@,
        crate::calendar::span_text(
            Span { secs: 0, nanos: (n * 1_000_000 + tenth * 100_000) as u32 },
        ) == crate::text::decimal(n as int) + "."@ + seq![
            crate::text::digit_char(tenth as int),
        ] + "ms"@,
{
    let t = tenth as int;
    let d = crate::text::decimal(n as int);
    lemma_tenths(t, 9);
    lemma_tenths(t, 6);
    assert(power_of_ten(8) == 100_000_000 && power_of_ten(5) == 100_000) by {
        reveal_with_fuel(power_of_ten, 10);
    }
    let one = seq![crate::text::digit_char(t)];
    let m = n * 1_000_000 + tenth * 100_000;
    assert(m as int / 1_000_000 == n && m as int % 1_000_000 == t * 100_000);
    assert(crate::calendar::fraction(t * 100_000_000, 9) == "."@ + one);
    assert(crate::calendar::fraction(t * 100_000, 6) == "."@ + one);
    assert(d + ("."@ + one) + "s"@ =~= d + "."@ + one + "s"@);
    assert(d + ("."@ + one) + "ms"@ =~= d + "."@ + one + "ms"@);
}

/// A power of ten.
pub open spec fn power_of_ten(k: int) -> int
    decreases k,
{
    if k <= 0 {
        1
    } else {
        10 * power_of_ten(k - 1)
    }
}

/// A digit with zeros after it is written without them.
proof fn lemma_tenths(t: int, width: int)
    requires
        1 <= t <= 9,
        1 <= width <= 9,
    ensures
        crate::text::trim_end_where(
            crate::calendar::zero_padded(t * power_of_ten(width - 1), width),
            |c: char| c == '0',
        ) == seq![crate::text::digit_char(t)],
        t * power_of_ten(width - 1) > 0,
    decreases width,
{
    let zero = |c: char| c == '0';
    let s = crate::calendar::zero_padded(t * power_of_ten(width - 1), width);
    if width == 1 {
        assert(crate::calendar::zero_padded(t / 10, 0) =~= Seq::<char>::empty());
        assert(s =~= seq![crate::text::digit_char(t)]);
        assert(s.last() != '0');
    } else {
        lemma_tenths(t, width - 1);
        let p = power_of_ten(width - 2);
        assert(power_of_ten(width - 1) == 10 * p);
        assert(t * (10 * p) == 10 * (t * p)) by (nonlinear_arith);
        assert((10 * (t * p)) / 10 == t * p && (10 * (t * p)) % 10 == 0);
        let front = crate::calendar::zero_padded(t * p, width - 1);
        assert(s == front.push(crate::text::digit_char(0)));
        assert(crate::text::digit_char(0) == '0');
        assert(s.last() == '0');
        assert(s.drop_last() =~= front);
    }
}

} // verus!
