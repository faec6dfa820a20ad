//! Moments that are written down sort as the moments do.

use vstd::prelude::*;
use vstd::string::*;

verus! {

/// The order of two texts is that of what follows a beginning they share.
proof fn lemma_shared_beginning(p: Seq<char>, x: Seq<char>, y: Seq<char>)
    ensures
        crate::order::text_before(p + x, p + y) == crate::order::text_before(x, y),
    decreases p.len(),
{
    if p.len() == 0 {
        assert(p + x =~= x);
        assert(p + y =~= y);
    } else {
        lemma_shared_beginning(p.skip(1), x, y);
        assert((p + x).skip(1) =~= p.skip(1) + x);
        assert((p + y).skip(1) =~= p.skip(1) + y);
    }
}

/// The order of two beginnings of the same length is that of the texts.
proof fn lemma_beginnings_decide(a: Seq<char>, b: Seq<char>, x: Seq<char>, y: Seq<char>)
    requires
        a.len() == b.len(),
        crate::order::text_before(a, b),
    ensures
        crate::order::text_before(a + x, b + y),
    decreases a.len(),
{
    if a.len() > 0 && a[0] == b[0] {
        lemma_beginnings_decide(a.skip(1), b.skip(1), x, y);
        assert((a + x).skip(1) =~= a.skip(1) + x);
        assert((b + y).skip(1) =~= b.skip(1) + y);
    }
}

/// Ten to this power.
spec fn power_of_ten(width: int) -> int
    decreases width,
{
    if width <= 0 {
        1
    } else {
        10 * power_of_ten(width - 1)
    }
}

/// Larger digits are larger characters.
proof fn lemma_digits_grow(m: int, n: int)
    requires
        0 <= m < n < 10,
    ensures
        crate::text::digit_char(m) < crate::text::digit_char(n),
{
}

/// Numbers of the same width sort as numbers do.
proof fn lemma_digits_sort(m: int, n: int, width: int)
    requires
        0 <= m < n < power_of_ten(width),
        width >= 0,
    ensures
        crate::order::text_before(
            crate::calendar::zero_padded(m, width),
            crate::calendar::zero_padded(n, width),
        ),
    decreases width,
{
    if width > 0 {
        let p = crate::calendar::zero_padded(m / 10, width - 1);
        let q = crate::calendar::zero_padded(n / 10, width - 1);
        let x = seq![crate::text::digit_char(m % 10)];
        let y = seq![crate::text::digit_char(n % 10)];
        lemma_width(m / 10, width - 1);
        lemma_width(n / 10, width - 1);
        assert(crate::calendar::zero_padded(m, width) =~= p + x);
        assert(crate::calendar::zero_padded(n, width) =~= q + y);
        if m / 10 < n / 10 {
            lemma_digits_sort(m / 10, n / 10, width - 1);
            lemma_beginnings_decide(p, q, x, y);
        } else {
            assert(m / 10 == n / 10);
            lemma_digits_grow(m % 10, n % 10);
            lemma_shared_beginning(p, x, y);
        }
    }
}

/// A number of a width is that wide.
proof fn lemma_width(n: int, width: int)
    requires
        width >= 0,
    ensures
        crate::calendar::zero_padded(n, width).len() == width,
    decreases width,
{
    if width > 0 {
        lemma_width(n / 10, width - 1);
    }
}

/// A number that fits its width is as wide as that.
proof fn lemma_padded(n: int, width: int)
    requires
        0 <= n < power_of_ten(width),
        width >= 1,
    ensures
        crate::calendar::padded(n, width) == crate::calendar::zero_padded(n, width),
    decreases width,
{
    lemma_width(n, width);
    let digits = crate::text::decimal(n);
    if width == 1 {
        assert(power_of_ten(0) == 1);
        assert(crate::calendar::zero_padded(n / 10, 0) =~= Seq::empty());
        assert(crate::calendar::padded(n, 1) =~= crate::calendar::zero_padded(n, 1));
    } else {
        assert(n / 10 < power_of_ten(width - 1));
        lemma_padded(n / 10, width - 1);
        let front = crate::calendar::padded(n / 10, width - 1);
        let last = crate::text::digit_char(n % 10);
        if n < 10 {
            assert(n / 10 == 0);
            assert(crate::text::decimal(0) =~= seq![crate::text::digit_char(0)]);
            assert(crate::text::digit_char(0) == '0');
            assert(crate::calendar::padded(n, width) =~= front.push(last));
        } else {
            assert(digits == crate::text::decimal(n / 10).push(last));
            assert(crate::calendar::padded(n, width) =~= front.push(last));
        }
    }
}

/// Numbers that are padded to the same width sort as numbers do.
proof fn lemma_padded_sort(m: int, n: int, width: int)
    requires
        0 <= m <= n < power_of_ten(width),
        width >= 1,
    ensures
        m < n ==> crate::order::text_before(
            crate::calendar::padded(m, width),
            crate::calendar::padded(n, width),
        ),
        crate::calendar::padded(m, width).len() == width,
        crate::calendar::padded(n, width).len() == width,
{
    lemma_padded(m, width);
    lemma_padded(n, width);
    lemma_width(m, width);
    lemma_width(n, width);
    if m < n {
        lemma_digits_sort(m, n, width);
    }
}

/// One step of comparing two texts part by part: a part decides where it
/// differs, and what follows decides where it does not.
proof fn lemma_part(m: int, n: int, width: int, x: Seq<char>, y: Seq<char>)
    requires
        0 <= m <= n < power_of_ten(width),
        width >= 1,
        m == n ==> crate::order::text_before(x, y),
    ensures
        crate::order::text_before(
            crate::calendar::padded(m, width) + x,
            crate::calendar::padded(n, width) + y,
        ),
{
    lemma_padded_sort(m, n, width);
    if m < n {
        lemma_beginnings_decide(
            crate::calendar::padded(m, width),
            crate::calendar::padded(n, width),
            x,
            y,
        );
    } else {
        lemma_shared_beginning(crate::calendar::padded(m, width), x, y);
    }
}

/// The seconds, and what comes after them.
spec fn tail_seconds(s: int) -> Seq<char> {
    crate::calendar::padded(s % 60, 2) + "Z"@
}

spec fn tail_minutes(s: int) -> Seq<char> {
    crate::calendar::padded((s % 3600) / 60, 2) + (":"@ + tail_seconds(s))
}

spec fn tail_hours(s: int) -> Seq<char> {
    crate::calendar::padded(s / 3600, 2) + (":"@ + tail_minutes(s))
}

spec fn tail_day(d: int, s: int) -> Seq<char> {
    crate::calendar::padded(d, 2) + ("T"@ + tail_hours(s))
}

spec fn tail_month(m: int, d: int, s: int) -> Seq<char> {
    crate::calendar::padded(m, 2) + ("-"@ + tail_day(d, s))
}

proof fn lemma_regroup(a: Seq<char>, b: Seq<char>, c: Seq<char>)
    ensures
        (a + b) + c == a + (b + c),
{
    assert((a + b) + c =~= a + (b + c));
}

/// A date and time, part by part from the left.
proof fn lemma_parts(y: int, m: int, d: int, s: int)
    ensures
        crate::calendar::date_time(y, m, d, s) == crate::calendar::padded(y, 4) + ("-"@
            + tail_month(m, d, s)),
{
    let year = crate::calendar::padded(y, 4);
    let to_month = year + "-"@ + crate::calendar::padded(m, 2);
    let to_day = to_month + "-"@ + crate::calendar::padded(d, 2);
    let to_hours = to_day + "T"@ + crate::calendar::padded(s / 3600, 2);
    let to_minutes = to_hours + ":"@ + crate::calendar::padded((s % 3600) / 60, 2);
    lemma_regroup(to_minutes + ":"@, crate::calendar::padded(s % 60, 2), "Z"@);
    lemma_regroup(to_minutes, ":"@, tail_seconds(s));
    lemma_regroup(
        to_hours + ":"@,
        crate::calendar::padded((s % 3600) / 60, 2),
        ":"@ + tail_seconds(s),
    );
    lemma_regroup(to_hours, ":"@, tail_minutes(s));
    lemma_regroup(
        to_day + "T"@,
        crate::calendar::padded(s / 3600, 2),
        ":"@ + tail_minutes(s),
    );
    lemma_regroup(to_day, "T"@, tail_hours(s));
    lemma_regroup(to_month + "-"@, crate::calendar::padded(d, 2), "T"@ + tail_hours(s));
    lemma_regroup(to_month, "-"@, tail_day(d, s));
    lemma_regroup(year + "-"@, crate::calendar::padded(m, 2), "-"@ + tail_day(d, s));
    lemma_regroup(year, "-"@, tail_month(m, d, s));
}

/// Times of the same day sort by the second.
proof fn lemma_times_sort(a: int, b: int)
    requires
        0 <= a < b < 86_400,
    ensures
        crate::order::text_before(tail_hours(a), tail_hours(b)),
{
    reveal_with_fuel(power_of_ten, 3);
    if a / 3600 == b / 3600 {
        if (a % 3600) / 60 == (b % 3600) / 60 {
            assert(a % 60 < b % 60);
            lemma_part(a % 60, b % 60, 2, "Z"@, "Z"@);
            lemma_shared_beginning(":"@, tail_seconds(a), tail_seconds(b));
        }
        lemma_part(
            (a % 3600) / 60,
            (b % 3600) / 60,
            2,
            ":"@ + tail_seconds(a),
            ":"@ + tail_seconds(b),
        );
        lemma_shared_beginning(":"@, tail_minutes(a), tail_minutes(b));
    }
    lemma_part(a / 3600, b / 3600, 2, ":"@ + tail_minutes(a), ":"@ + tail_minutes(b));
}

/// Dates sort by the day, and by the second on the same day.
proof fn lemma_date_times_sort(
    a: (int, int, int),
    s: int,
    b: (int, int, int),
    t: int,
)
    requires
        crate::calendar::is_date(a.0, a.1, a.2),
        crate::calendar::is_date(b.0, b.1, b.2),
        0 <= a.0 <= b.0 <= 9999,
        a.0 == b.0 ==> a.1 <= b.1,
        a.0 == b.0 && a.1 == b.1 ==> a.2 <= b.2,
        0 <= s < 86_400,
        0 <= t < 86_400,
        a == b ==> s < t,
    ensures
        crate::order::text_before(
            crate::calendar::date_time(a.0, a.1, a.2, s),
            crate::calendar::date_time(b.0, b.1, b.2, t),
        ),
{
    reveal_with_fuel(power_of_ten, 5);
    if a.0 == b.0 {
        if a.1 == b.1 {
            if a.2 == b.2 {
                lemma_times_sort(s, t);
                lemma_shared_beginning("T"@, tail_hours(s), tail_hours(t));
            }
            lemma_part(a.2, b.2, 2, "T"@ + tail_hours(s), "T"@ + tail_hours(t));
            lemma_shared_beginning("-"@, tail_day(a.2, s), tail_day(b.2, t));
        }
        lemma_part(a.1, b.1, 2, "-"@ + tail_day(a.2, s), "-"@ + tail_day(b.2, t));
        lemma_shared_beginning("-"@, tail_month(a.1, a.2, s), tail_month(b.1, b.2, t));
    }
    lemma_part(
        a.0,
        b.0,
        4,
        "-"@ + tail_month(a.1, a.2, s),
        "-"@ + tail_month(b.1, b.2, t),
    );
    lemma_parts(a.0, a.1, a.2, s);
    lemma_parts(b.0, b.1, b.2, t);
}

/// Every day from 1970 on has a date.
proof fn lemma_a_day_has_a_date(day: int)
    requires
        day >= 0,
    ensures
        ({
            let t = crate::calendar::date_of(day);
            crate::calendar::is_date(t.0, t.1, t.2) && crate::calendar::day_number(t.0, t.1, t.2)
                == day
        }),
    decreases day,
{
    let t = if day == 0 {
        reveal_with_fuel(crate::calendar::days_before_month, 2);
        (1970int, 1int, 1int)
    } else {
        lemma_a_day_has_a_date(day - 1);
        let p = crate::calendar::date_of(day - 1);
        if p.2 < crate::calendar::month_days(p.0, p.1) {
            (p.0, p.1, p.2 + 1)
        } else if p.1 < 12 {
            reveal_with_fuel(crate::calendar::days_before_month, 2);
            (p.0, p.1 + 1, 1int)
        } else {
            crate::calendar::lemma_year_length(p.0);
            reveal_with_fuel(crate::calendar::days_before_month, 13);
            (p.0 + 1, 1int, 1int)
        }
    };
    assert(crate::calendar::is_date(t.0, t.1, t.2));
    assert(crate::calendar::day_number(t.0, t.1, t.2) == day);
}

/// Later days have later dates.
proof fn lemma_dates_follow_days(a: (int, int, int), b: (int, int, int))
    requires
        crate::calendar::is_date(a.0, a.1, a.2),
        crate::calendar::is_date(b.0, b.1, b.2),
        crate::calendar::day_number(a.0, a.1, a.2) <= crate::calendar::day_number(b.0, b.1, b.2),
    ensures
        a.0 <= b.0,
        a.0 == b.0 ==> a.1 <= b.1,
        a.0 == b.0 && a.1 == b.1 ==> a.2 <= b.2,
{
    crate::calendar::lemma_month_in_year(a.0, a.1, a.2);
    crate::calendar::lemma_month_in_year(b.0, b.1, b.2);
    if b.0 < a.0 {
        crate::calendar::lemma_years_grow(b.0 + 1, a.0);
    } else if a.0 == b.0 && b.1 < a.1 {
        crate::calendar::lemma_months_grow(a.0, b.1 + 1, a.1);
        reveal_with_fuel(crate::calendar::days_before_month, 2);
    }
}

/// A later moment has a later stamp, up to the end of the year 9999, so that
/// what is sorted by its stamp is sorted by time.
pub proof fn law_stamps_sort_by_time(
    a: crate::calendar::Timestamp,
    b: crate::calendar::Timestamp,
)
    requires
        0 <= a.secs < b.secs < 253_402_300_800,
    ensures
        crate::order::text_before(crate::calendar::stamp(a), crate::calendar::stamp(b)),
{
    let i = a.secs as int / 86_400;
    let j = b.secs as int / 86_400;
    lemma_a_day_has_a_date(i);
    lemma_a_day_has_a_date(j);
    let x = crate::calendar::date_of(i);
    let y = crate::calendar::date_of(j);
    crate::calendar::lemma_year_not_negative(x.0, x.1, x.2);
    lemma_dates_follow_days(x, y);
    reveal_with_fuel(crate::calendar::days_before_month, 13);
    assert(crate::calendar::day_number(9999, 12, 31) == 2_932_896);
    lemma_dates_follow_days(y, (9999int, 12int, 31int));
    lemma_date_times_sort(x, a.secs as int % 86_400, y, b.secs as int % 86_400);
}

} // verus!
