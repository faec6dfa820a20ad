//! Dates, and how a moment is written down.

use crate::text::decimal_text;
use vstd::prelude::*;
use vstd::string::*;

verus! {

/// A moment: seconds since the start of 1970 in UTC, and nanoseconds after
/// that second.
#[derive(Debug, Clone, Copy, PartialEq, Eq)]
pub struct Timestamp {
    pub secs: i64,
    pub nanos: u32,
}

impl Timestamp {
    /// Nanoseconds since the start of 1970.
    pub open spec fn total(self) -> int {
        self.secs * 1_000_000_000 + self.nanos
    }

    /// The start of a second.
    pub fn from_secs(secs: i64) -> (r: Timestamp)
        ensures
            r.secs == secs,
            r.nanos == 0,
    {
        Timestamp { secs, nanos: 0 }
    }
}

/// A length of time.
#[derive(Debug, Clone, Copy, PartialEq, Eq, Structural)]
pub struct Span {
    pub secs: u64,
    /// Nanoseconds beside the seconds, less than a second's worth.
    pub nanos: u32,
}

impl Span {
    /// Nanoseconds in all.
    pub open spec fn total(self) -> int {
        self.secs * 1_000_000_000 + self.nanos
    }

    /// The nanoseconds are less than a second.
    pub open spec fn wf(self) -> bool {
        self.nanos < 1_000_000_000
    }

    pub fn from_secs(secs: u64) -> (r: Span)
        ensures
            r == (Span { secs, nanos: 0 }),
    {
        Span { secs, nanos: 0 }
    }

    pub fn from_millis(millis: u64) -> (r: Span)
        ensures
            r.wf(),
            r.total() == millis * 1_000_000,
    {
        Span { secs: millis / 1000, nanos: ((millis % 1000) as u32) * 1_000_000 }
    }
}

/// Leap years of the Gregorian calendar.
pub open spec fn is_leap(y: int) -> bool {
    y % 4 == 0 && (y % 100 != 0 || y % 400 == 0)
}

/// How many days a month has.
pub open spec fn month_days(y: int, m: int) -> int {
    if m == 2 {
        if is_leap(y) {
            29
        } else {
            28
        }
    } else if m == 4 || m == 6 || m == 9 || m == 11 {
        30
    } else {
        31
    }
}

/// Days from the start of year 1 to the start of year `y`.
pub open spec fn days_before_year(y: int) -> int {
    365 * (y - 1) + (y - 1) / 4 - (y - 1) / 100 + (y - 1) / 400
}

/// Days from the start of year `y` to the start of its month `m`.
pub open spec fn days_before_month(y: int, m: int) -> int
    decreases m,
{
    if m <= 1 {
        0
    } else {
        days_before_month(y, m - 1) + month_days(y, m - 1)
    }
}

/// A date that exists.
pub open spec fn is_date(y: int, m: int, d: int) -> bool {
    1 <= m <= 12 && 1 <= d <= month_days(y, m)
}

/// Days from 1 January 1970 to a date.
pub open spec fn day_number(y: int, m: int, d: int) -> int {
    days_before_year(y) + days_before_month(y, m) + (d - 1) - 719_162
}

/// Days from the first of March of a year that is a multiple of 400 to the
/// first of March `n` years later, for up to 400 years.
pub open spec fn march_start(n: int) -> int {
    365 * n + n / 4 - n / 100
}

/// Whether the last day of February ends the March-based year `n` of a
/// 400-year era: whether `n + 1` is a leap year.
pub open spec fn ends_in_leap_day(n: int) -> bool {
    n == 399 || ((n + 1) % 4 == 0 && (n + 1) % 100 != 0)
}

/// The year that a day of an era falls in.
proof fn lemma_year_of_era(doe: int, yoe: int)
    requires
        0 <= doe < 146_097,
        yoe == (doe - doe / 1_460 + doe / 36_524 - doe / 146_096) / 365,
    ensures
        0 <= yoe <= 399,
        0 <= doe - march_start(yoe) <= 365,
        doe - march_start(yoe) == 365 ==> ends_in_leap_day(yoe),
{
    let century = doe / 36_524;
    assert(0 <= century <= 4);
    if century == 0 {
        assert(doe / 146_096 == 0);
        assert(yoe / 100 == 0);
    } else if century == 1 {
        assert(doe / 146_096 == 0);
        assert(yoe / 100 == 1);
    } else if century == 2 {
        assert(doe / 146_096 == 0);
        assert(yoe / 100 == 2);
    } else if century == 3 {
        assert(doe / 146_096 == 0);
        assert(yoe / 100 == 3);
    } else {
        assert(doe == 146_096);
        assert(doe / 146_096 == 1);
        assert(doe / 1_460 == 100);
        assert(yoe == 399);
        assert(march_start(399) == 145_731);
    }
}

/// The date of a day counted from the first of March.
proof fn lemma_march_date(y: int, doy: int, mp: int, d: int, m: int, year: int)
    requires
        0 <= doy <= 365,
        doy == 365 ==> is_leap(y + 1),
        mp == (5 * doy + 2) / 153,
        d == doy - (153 * mp + 2) / 5 + 1,
        m == if mp < 10 {
            mp + 3
        } else {
            mp - 9
        },
        year == if m <= 2 {
            y + 1
        } else {
            y
        },
    ensures
        0 <= mp <= 11,
        is_date(year, m, d),
        day_number(year, m, d) == days_before_year(y) + days_before_month(y, 3) + doy - 719_162,
{
    reveal_with_fuel(days_before_month, 13);
    assert(0 <= mp <= 11);
    assert(days_before_year(y + 1) == days_before_year(y) + 365 + if is_leap(y) {
        1int
    } else {
        0int
    }) by {
        lemma_year_length(y);
    }
    if mp < 6 {
        if mp == 0 {
        } else if mp == 1 {
        } else if mp == 2 {
        } else if mp == 3 {
        } else if mp == 4 {
        } else {
        }
    } else {
        if mp == 6 {
        } else if mp == 7 {
        } else if mp == 8 {
        } else if mp == 9 {
        } else if mp == 10 {
        } else {
        }
    }
}

proof fn lemma_fourth(y: int)
    ensures
        y / 4 == (y - 1) / 4 + if y % 4 == 0 {
            1int
        } else {
            0int
        },
{
}

proof fn lemma_hundredth(y: int)
    ensures
        y / 100 == (y - 1) / 100 + if y % 100 == 0 {
            1int
        } else {
            0int
        },
{
}

proof fn lemma_four_hundredth(y: int)
    ensures
        y / 400 == (y - 1) / 400 + if y % 400 == 0 {
            1int
        } else {
            0int
        },
{
}

proof fn lemma_centuries(y: int)
    ensures
        y % 100 == 0 ==> y % 4 == 0,
        y % 400 == 0 ==> y % 100 == 0,
{
}

/// A year has 365 days, or 366.
pub(crate) proof fn lemma_year_length(y: int)
    ensures
        days_before_year(y + 1) == days_before_year(y) + 365 + if is_leap(y) {
            1int
        } else {
            0int
        },
{
    lemma_fourth(y);
    lemma_hundredth(y);
    lemma_four_hundredth(y);
    lemma_centuries(y);
}

/// Eras are 400 years long.
proof fn lemma_era_division(era: int, yoe: int)
    requires
        0 <= yoe <= 399,
    ensures
        (yoe + era * 400) / 4 == yoe / 4 + era * 100,
        (yoe + era * 400) / 100 == yoe / 100 + era * 4,
        (yoe + era * 400) / 400 == era,
        (yoe + era * 400 + 1) % 4 == (yoe + 1) % 4,
        (yoe + era * 400 + 1) % 100 == (yoe + 1) % 100,
        yoe == 399 ==> (yoe + era * 400 + 1) % 400 == 0,
{
}

/// The years before a year, and the leap day in it, counted together.
proof fn lemma_leap_days(y: int)
    ensures
        days_before_year(y) + days_before_month(y, 3) == 365 * y - 306 + y / 4 - y / 100 + y / 400,
{
    lemma_year_length(y);
    reveal_with_fuel(days_before_month, 4);
}

/// Where the first of March of a year lies, by era.
proof fn lemma_march_first(era: int, yoe: int)
    requires
        0 <= yoe <= 399,
    ensures
        days_before_year(yoe + era * 400) + days_before_month(yoe + era * 400, 3) == march_start(
            yoe,
        ) + era * 146_097 - 306,
        ends_in_leap_day(yoe) ==> is_leap(yoe + era * 400 + 1),
{
    lemma_era_division(era, yoe);
    lemma_leap_days(yoe + era * 400);
}

/// The date that lies this many days after 1 January 1970.
pub fn civil_from_days(days: i64) -> (r: (i64, u32, u32))
    requires
        days <= i64::MAX - 719_468,
    ensures
        is_date(r.0 as int, r.1 as int, r.2 as int),
        day_number(r.0 as int, r.1 as int, r.2 as int) == days,
{
    let z: i64 = days + 719_468;
    let era: i64 = if z >= 0 {
        z / 146_097
    } else {
        -((-z + 146_096) / 146_097)
    };
    let doe: i64 = z - era * 146_097;
    let yoe: i64 = (doe - doe / 1_460 + doe / 36_524 - doe / 146_096) / 365;
    proof {
        lemma_year_of_era(doe as int, yoe as int);
        lemma_march_first(era as int, yoe as int);
    }
    let y: i64 = yoe + era * 400;
    let doy: i64 = doe - (365 * yoe + yoe / 4 - yoe / 100);
    let mp: i64 = (5 * doy + 2) / 153;
    let d: i64 = doy - (153 * mp + 2) / 5 + 1;
    let m: i64 = if mp < 10 {
        mp + 3
    } else {
        mp - 9
    };
    let year: i64 = if m <= 2 {
        y + 1
    } else {
        y
    };
    proof {
        lemma_march_date(y as int, doy as int, mp as int, d as int, m as int, year as int);
    }
    (year, m as u32, d as u32)
}

/// A number in decimal with zeros in front, at least `width` characters long.
pub open spec fn padded(n: int, width: int) -> Seq<char> {
    let digits = crate::text::decimal(n);
    if digits.len() < width {
        Seq::new((width - digits.len()) as nat, |k: int| '0') + digits
    } else {
        digits
    }
}

/// A date and a time of day in the form of ISO 8601, in UTC.
pub open spec fn date_time(y: int, m: int, d: int, second_of_day: int) -> Seq<char> {
    padded(y, 4) + "-"@ + padded(m, 2) + "-"@ + padded(d, 2) + "T"@ + padded(
        second_of_day / 3600,
        2,
    ) + ":"@ + padded((second_of_day % 3600) / 60, 2) + ":"@ + padded(second_of_day % 60, 2) + "Z"@
}

/// Seconds since the start of 1970, or zero before it.
pub open spec fn epoch_seconds(t: Timestamp) -> int {
    if t.secs < 0 {
        0
    } else {
        t.secs as int
    }
}

fn pad(n: u64, width: usize) -> (r: String)
    requires
        width <= 4,
    ensures
        r@ == padded(n as int, width as int),
{
    let digits = decimal_text(n);
    let len: usize = digits.as_str().unicode_len();
    let mut out = String::new();
    let mut i: usize = len;
    while i < width
        invariant
            len == digits@.len(),
            i >= len,
            len < width ==> i <= width,
            len >= width ==> i == len,
            out@ == Seq::new((i - len) as nat, |k: int| '0'),
        decreases width - i,
    {
        out.push('0');
        i = i + 1;
        assert(out@ =~= Seq::new((i - len) as nat, |k: int| '0'));
    }
    out.append(digits.as_str());
    assert(out@ =~= padded(n as int, width as int));
    out
}

/// The date of a day counted from 1 January 1970.
pub open spec fn date_of(day: int) -> (int, int, int) {
    choose|t: (int, int, int)|
        is_date(t.0, t.1, t.2) && #[trigger] day_number(t.0, t.1, t.2) == day
}

/// A moment in the form of ISO 8601, in UTC and to the second.
pub open spec fn stamp(t: Timestamp) -> Seq<char> {
    let date = date_of(epoch_seconds(t) / 86_400);
    date_time(date.0, date.1, date.2, epoch_seconds(t) % 86_400)
}

/// A moment in the form of ISO 8601, in UTC and to the second.
pub fn iso8601(time: Timestamp) -> (r: String)
    ensures
        r@ == stamp(time),
        ({
            let day = epoch_seconds(time) / 86_400;
            let date = date_of(day);
            is_date(date.0, date.1, date.2) && day_number(date.0, date.1, date.2) == day
        }),
{
    let total: i64 = if time.secs < 0 {
        0
    } else {
        time.secs
    };
    let days: i64 = total / 86_400;
    let second: u64 = (total % 86_400) as u64;
    let (y, m, d) = civil_from_days(days);
    proof {
        lemma_year_not_negative(y as int, m as int, d as int);
    }
    let mut out = pad(y as u64, 4);
    out.append("-");
    out.append(pad(m as u64, 2).as_str());
    out.append("-");
    out.append(pad(d as u64, 2).as_str());
    out.append("T");
    out.append(pad(second / 3600, 2).as_str());
    out.append(":");
    out.append(pad((second % 3600) / 60, 2).as_str());
    out.append(":");
    out.append(pad(second % 60, 2).as_str());
    out.append("Z");
    proof {
        let day = epoch_seconds(time) / 86_400;
        let t = (y as int, m as int, d as int);
        assert(day_number(t.0, t.1, t.2) == day);
        let date = date_of(day);
        law_a_day_has_one_date(t.0, t.1, t.2, date.0, date.1, date.2);
    }
    out
}

/// A day that is not before 1970 lies in a year that is not before 1970.
pub(crate) proof fn lemma_year_not_negative(y: int, m: int, d: int)
    requires
        is_date(y, m, d),
        day_number(y, m, d) >= 0,
    ensures
        y >= 1970,
{
    reveal_with_fuel(days_before_month, 13);
    if y < 1970 {
        lemma_years_grow(y + 1, 1970);
        lemma_year_length(y);
        lemma_month_in_year(y, m, d);
    }
}

/// Every day of a year comes before the next year.
pub(crate) proof fn lemma_month_in_year(y: int, m: int, d: int)
    requires
        is_date(y, m, d),
    ensures
        0 <= days_before_month(y, m) + (d - 1) < days_before_year(y + 1) - days_before_year(y),
{
    reveal_with_fuel(days_before_month, 13);
    lemma_year_length(y);
}

/// Later years start later.
pub(crate) proof fn lemma_years_grow(a: int, b: int)
    requires
        a <= b,
    ensures
        days_before_year(a) <= days_before_year(b),
    decreases b - a,
{
    if a < b {
        lemma_years_grow(a, b - 1);
        lemma_year_length(b - 1);
    }
}

/// Two dates on the same day are the same date.
pub proof fn law_a_day_has_one_date(y: int, m: int, d: int, y2: int, m2: int, d2: int)
    requires
        is_date(y, m, d),
        is_date(y2, m2, d2),
        day_number(y, m, d) == day_number(y2, m2, d2),
    ensures
        y == y2 && m == m2 && d == d2,
{
    lemma_month_in_year(y, m, d);
    lemma_month_in_year(y2, m2, d2);
    if y < y2 {
        lemma_years_grow(y + 1, y2);
    } else if y2 < y {
        lemma_years_grow(y2 + 1, y);
    }
    if m < m2 {
        lemma_months_grow(y, m + 1, m2);
    } else if m2 < m {
        lemma_months_grow(y, m2 + 1, m);
    }
    reveal_with_fuel(days_before_month, 2);
}

/// Later months of a year start later.
pub(crate) proof fn lemma_months_grow(y: int, a: int, b: int)
    requires
        1 <= a <= b <= 13,
    ensures
        days_before_month(y, a) <= days_before_month(y, b),
    decreases b - a,
{
    if a < b {
        lemma_months_grow(y, a, b - 1);
    }
}

/// What is left of a wait: the time from `now` to `deadline`, or nothing where
/// that is not in the future.
pub fn time_left(now: Span, deadline: Span) -> (r: Option<Span>)
    requires
        now.wf(),
        deadline.wf(),
    ensures
        match r {
            Some(left) => left.wf() && left.total() == deadline.total() - now.total()
                && left.total() > 0,
            None => deadline.total() <= now.total(),
        },
{
    if deadline.secs < now.secs || (deadline.secs == now.secs && deadline.nanos <= now.nanos) {
        return None;
    }
    if deadline.nanos >= now.nanos {
        Some(Span { secs: deadline.secs - now.secs, nanos: deadline.nanos - now.nanos })
    } else {
        Some(
            Span {
                secs: deadline.secs - now.secs - 1,
                nanos: 1_000_000_000 - now.nanos + deadline.nanos,
            },
        )
    }
}

/// A fraction after the point, without the zeros that end it.
pub open spec fn fraction(n: int, width: int) -> Seq<char> {
    if n == 0 {
        Seq::empty()
    } else {
        "."@ + crate::text::trim_end_where(zero_padded(n, width), |c: char| c == '0')
    }
}

/// The last `width` digits of a number, with zeros in front.
pub open spec fn zero_padded(n: int, width: int) -> Seq<char>
    decreases width,
{
    if width <= 0 {
        Seq::empty()
    } else {
        zero_padded(n / 10, width - 1).push(crate::text::digit_char(n % 10))
    }
}

/// A length of time in its largest unit that leaves a whole part.
pub open spec fn span_text(t: Span) -> Seq<char> {
    let n = t.nanos as int;
    if t.secs > 0 {
        crate::text::decimal(t.secs as int) + fraction(n, 9) + "s"@
    } else if n >= 1_000_000 {
        crate::text::decimal(n / 1_000_000) + fraction(n % 1_000_000, 6) + "ms"@
    } else if n >= 1_000 {
        crate::text::decimal(n / 1_000) + fraction(n % 1_000, 3) + "\u{b5}s"@
    } else {
        crate::text::decimal(n) + "ns"@
    }
}

/// The last `width` digits of a number, with zeros in front.
fn digits_of(n: u32, width: usize) -> (r: Vec<char>)
    ensures
        r@ == zero_padded(n as int, width as int),
    decreases width,
{
    if width == 0 {
        let r: Vec<char> = Vec::new();
        assert(r@ =~= Seq::<char>::empty());
        r
    } else {
        let mut r = digits_of(n / 10, width - 1);
        r.push((((n % 10) as u8) + 48u8) as char);
        r
    }
}

/// A fraction after the point, without the zeros that end it.
fn fraction_text(n: u32, width: usize) -> (r: String)
    ensures
        r@ == fraction(n as int, width as int),
{
    if n == 0 {
        let r = String::new();
        assert(r@ =~= Seq::<char>::empty());
        return r;
    }
    let digits = digits_of(n, width);
    let ghost zero = |c: char| c == '0';
    let mut end: usize = digits.len();
    assert(digits@.take(end as int) =~= digits@);
    while end > 0 && digits[end - 1] == '0'
        invariant
            end <= digits@.len(),
            zero == (|c: char| c == '0'),
            crate::text::trim_end_where(digits@, zero) == crate::text::trim_end_where(
                digits@.take(end as int),
                zero,
            ),
        decreases end,
    {
        assert(digits@.take(end as int).last() == digits@[end as int - 1]);
        assert(digits@.take(end as int).drop_last() =~= digits@.take(end as int - 1));
        end = end - 1;
    }
    proof {
        if end > 0 {
            assert(digits@.take(end as int).last() == digits@[end as int - 1]);
        }
        assert(digits@.take(end as int) =~= digits@.subrange(0, end as int));
    }
    crate::text::join(".", crate::text::text_between(&digits, 0, end).as_str())
}

/// A length of time in words.
pub fn describe_span(t: Span) -> (r: String)
    ensures
        r@ == span_text(t),
{
    if t.secs > 0 {
        crate::text::join3(
            decimal_text(t.secs).as_str(),
            fraction_text(t.nanos, 9).as_str(),
            "s",
        )
    } else if t.nanos >= 1_000_000 {
        crate::text::join3(
            decimal_text((t.nanos / 1_000_000) as u64).as_str(),
            fraction_text(t.nanos % 1_000_000, 6).as_str(),
            "ms",
        )
    } else if t.nanos >= 1_000 {
        crate::text::join3(
            decimal_text((t.nanos / 1_000) as u64).as_str(),
            fraction_text(t.nanos % 1_000, 3).as_str(),
            "\u{b5}s",
        )
    } else {
        crate::text::join(decimal_text(t.nanos as u64).as_str(), "ns")
    }
}

} // verus!
