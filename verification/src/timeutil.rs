//! Just enough date handling to answer "which forecast slot is happening now".

use vstd::prelude::*;
use crate::number::{is_sign, without_sign};
use crate::text::{
    chars_of, digit, digit_value, digits_value, is_ascii_char, is_digit, is_digit_run, piece, trim,
    trimmed,
};

verus! {

// ------------------------------------------------------------------ the calendar

/// A leap year of the Gregorian calendar, carried on before its adoption.
pub open spec fn is_leap(y: int) -> bool {
    y % 4 == 0 && (y % 100 != 0 || y % 400 == 0)
}

pub open spec fn days_in_year(y: int) -> int {
    if is_leap(y) {
        366
    } else {
        365
    }
}

pub open spec fn days_in_month(y: int, m: int) -> int {
    if m == 2 {
        if is_leap(y) {
            29
        } else {
            28
        }
    } else if m == 4 || m == 6 || m == 9 || m == 11 {
        30
    } else {
        31
    }
}

/// Days from 1 January 1970 to 1 January of year `y`.
pub open spec fn year_start(y: int) -> int
    decreases
            if y >= 1970 {
                y - 1970
            } else {
                1970 - y
            },
{
    if y > 1970 {
        year_start(y - 1) + days_in_year(y - 1)
    } else if y < 1970 {
        year_start(y + 1) - days_in_year(y)
    } else {
        0
    }
}

/// Days of the year that lie before month `m`.
pub open spec fn days_before_month(y: int, m: int) -> int
    decreases m,
{
    if m <= 1 {
        0
    } else {
        days_before_month(y, m - 1) + days_in_month(y, m - 1)
    }
}

/// Days from 1 January 1970 to the `d`th day of month `m` of year `y`.
pub open spec fn epoch_day(y: int, m: int, d: int) -> int {
    year_start(y) + days_before_month(y, m) + d - 1
}

/// Leap years among the years 1 to `y`.
spec fn leaps(y: int) -> int {
    y / 4 - y / 100 + y / 400
}

proof fn leaps_step(y: int)
    ensures
        leaps(y) - leaps(y - 1) == days_in_year(y) - 365,
{
}

proof fn year_start_closed(y: int)
    ensures
        year_start(y) == 365 * (y - 1970) + leaps(y - 1) - 477,
    decreases
            if y >= 1970 {
                y - 1970
            } else {
                1970 - y
            },
{
    if y > 1970 {
        year_start_closed(y - 1);
        leaps_step(y - 1);
    } else if y < 1970 {
        year_start_closed(y + 1);
        leaps_step(y);
    }
}

proof fn month_table(y: int, m: int)
    requires
        1 <= m <= 12,
    ensures
        days_before_month(y, m) == (if m <= 2 {
            31 * (m - 1)
        } else {
            days_in_year(y) - 306 + (153 * (m - 3) + 2) / 5
        }),
{
    reveal_with_fuel(days_before_month, 13);
}

/// Days since 1 January 1970 for a date of the Gregorian calendar. Years are counted from
/// March, which puts the leap day last, in eras of 400 years.
///
/// The bounds on year and day only keep the count within 64 bits.
pub fn days_from_civil(y: i64, m: i64, d: i64) -> (r: i64)
    requires
        1 <= m <= 12,
        -25_000_000_000_000_000 <= y <= 25_000_000_000_000_000,
        -25_000_000_000_000_000 <= d <= 25_000_000_000_000_000,
    ensures
        r == epoch_day(y as int, m as int, d as int),
{
    let ghost year = y as int;
    let y: i64 = if m <= 2 {
        y - 1
    } else {
        y
    };
    let era: i64 = (if y >= 0 {
        y
    } else {
        y - 399
    }) / 400;
    assert(era == y as int / 400);
    let yoe: i64 = y - era * 400;
    let mp: i64 = (m + 9) % 12;
    let doy: i64 = (153 * mp + 2) / 5 + d - 1;
    let doe: i64 = yoe * 365 + yoe / 4 - yoe / 100 + doy;
    proof {
        assert(y as int / 4 == era * 100 + yoe as int / 4);
        assert(y as int / 100 == era * 4 + yoe as int / 100);
        assert(era * 146_097 + doe == 365 * y + leaps(y as int) + doy);
        year_start_closed(year);
        leaps_step(year);
        month_table(year, m as int);
    }
    era * 146_097 + doe - 719_468
}

// ------------------------------------------------------------------ timestamps

/// The whole number that `s` spells: digits after an optional sign.
pub open spec fn signed_value(s: Seq<char>) -> Option<int> {
    if is_digit_run(without_sign(s)) {
        let n = digits_value(without_sign(s)) as int;
        Some(
            if s[0] == '-' {
                -n
            } else {
                n
            },
        )
    } else {
        None
    }
}

/// The six fields of a timestamp, and the places between them that hold any ASCII
/// character: `YYYY-MM-DDThh:mm:ss`.
pub open spec fn has_clock(s: Seq<char>) -> bool {
    &&& s.len() >= 19
    &&& signed_value(s.subrange(0, 4)) is Some
    &&& signed_value(s.subrange(5, 7)) is Some
    &&& signed_value(s.subrange(8, 10)) is Some
    &&& signed_value(s.subrange(11, 13)) is Some
    &&& signed_value(s.subrange(14, 16)) is Some
    &&& signed_value(s.subrange(17, 19)) is Some
    &&& is_ascii_char(s[4])
    &&& is_ascii_char(s[7])
    &&& is_ascii_char(s[10])
    &&& is_ascii_char(s[13])
    &&& is_ascii_char(s[16])
}

pub open spec fn year_of(s: Seq<char>) -> int {
    signed_value(s.subrange(0, 4))->0
}

pub open spec fn month_of(s: Seq<char>) -> int {
    signed_value(s.subrange(5, 7))->0
}

pub open spec fn day_of(s: Seq<char>) -> int {
    signed_value(s.subrange(8, 10))->0
}

/// Seconds from midnight to what the clock fields say.
pub open spec fn seconds_of(s: Seq<char>) -> int {
    signed_value(s.subrange(11, 13))->0 * 3600 + signed_value(s.subrange(14, 16))->0 * 60
        + signed_value(s.subrange(17, 19))->0
}

pub open spec fn digits_in(s: Seq<char>) -> Seq<char> {
    s.filter(|c: char| is_digit(c))
}

/// How many milliseconds ahead of UTC the clock runs, as the text after it says: "+07:00",
/// "-0300". Anything else, "Z" or nothing included, says UTC.
pub open spec fn offset_ms(rest: Seq<char>) -> int {
    if rest.len() > 0 && is_sign(rest[0]) {
        let digits = digits_in(rest.skip(1));
        if digits.len() >= 4 {
            let ahead = (digits_value(digits.subrange(0, 2)) * 3600 + digits_value(
                digits.subrange(2, 4),
            ) * 60) * 1000;
            if rest[0] == '-' {
                -ahead
            } else {
                ahead as int
            }
        } else {
            0
        }
    } else {
        0
    }
}

/// Milliseconds since the Unix epoch for a timestamp, if it is one.
pub open spec fn instant_ms(s: Seq<char>) -> Option<int> {
    if has_clock(s) && 1 <= month_of(s) <= 12 && 1 <= day_of(s) <= 31 {
        Some(
            (epoch_day(year_of(s), month_of(s), day_of(s)) * 86_400 + seconds_of(s)) * 1000
                - offset_ms(trim(s.skip(19))),
        )
    } else {
        None
    }
}

proof fn digits_value_bound(s: Seq<char>)
    requires
        crate::text::all_digits(s),
    ensures
        s.len() <= 4 ==> digits_value(s) <= 9999,
        s.len() <= 2 ==> digits_value(s) <= 99,
{
    reveal_with_fuel(digits_value, 5);
}

/// The number in a field of at most four characters.
fn field(v: &Vec<char>, from: usize, to: usize) -> (r: Option<i64>)
    requires
        from < to <= v@.len(),
        to - from <= 4,
    ensures
        match signed_value(v@.subrange(from as int, to as int)) {
            Some(n) => r matches Some(k) && k == n && -9999 <= k <= 9999,
            None => r is None,
        },
{
    let ghost s = v@.subrange(from as int, to as int);
    let ghost run = without_sign(s);
    let start: usize = if v[from] == '+' || v[from] == '-' {
        from + 1
    } else {
        from
    };
    assert(run =~= v@.subrange(start as int, to as int));
    if start == to {
        return None;
    }
    let mut n: i64 = 0;
    let mut i: usize = start;
    assert(run.take(0) =~= Seq::empty());
    while i < to
        invariant
            from <= start <= i <= to <= v@.len(),
            start < to,
            to - from <= 4,
            s == v@.subrange(from as int, to as int),
            run == v@.subrange(start as int, to as int),
            run == without_sign(s),
            crate::text::all_digits(run.take(i - start)),
            n == digits_value(run.take(i - start)),
            0 <= n <= 9999,
        decreases to - i,
    {
        let c = v[i];
        assert(run[i - start] == c);
        if !digit(c) {
            return None;
        }
        let d: i64 = (c as i64) - 48;
        assert(run.take(i + 1 - start).drop_last() =~= run.take(i - start));
        n = n * 10 + d;
        i += 1;
        proof {
            assert forall|k: int| 0 <= k < i - start implies is_digit(#[trigger] run.take(i - start)[k]) by {
                assert(k < i - 1 - start ==> run.take(i - 1 - start)[k] == run[k]);
            }
            digits_value_bound(run.take(i - start));
        }
    }
    assert(run.take(i - start) =~= run);
    assert(s[0] == v@[from as int]);
    if v[from] == '-' {
        Some(-n)
    } else {
        Some(n)
    }
}

fn ascii(c: char) -> (r: bool)
    ensures
        r == is_ascii_char(c),
{
    (c as u32) < 128
}

/// The ASCII digits among the characters from `from` on.
fn digits_from(v: &Vec<char>, from: usize) -> (r: Vec<char>)
    requires
        from <= v@.len(),
    ensures
        r@ == digits_in(v@.skip(from as int)),
        crate::text::all_digits(r@),
{
    let mut r: Vec<char> = Vec::new();
    let mut i: usize = from;
    let ghost rest = v@.skip(from as int);
    proof {
        reveal(Seq::filter);
        assert(r@ =~= digits_in(rest.take(0)));
    }
    while i < v.len()
        invariant
            from <= i <= v@.len(),
            rest == v@.skip(from as int),
            r@ == digits_in(rest.take(i - from)),
            crate::text::all_digits(r@),
        decreases v@.len() - i,
    {
        let c = v[i];
        proof {
            reveal(Seq::filter);
            assert(rest.take(i + 1 - from).drop_last() =~= rest.take(i - from));
            assert(rest[i - from] == c);
        }
        if digit(c) {
            r.push(c);
        }
        i += 1;
    }
    assert(rest.take(i - from) =~= rest);
    r
}

fn offset(rest: &str) -> (r: i64)
    ensures
        r == offset_ms(rest@),
        -362_340_000 <= r <= 362_340_000,
{
    let v = chars_of(rest);
    if v.len() == 0 || (v[0] != '+' && v[0] != '-') {
        return 0;
    }
    let digits = digits_from(&v, 1);
    if digits.len() < 4 {
        return 0;
    }
    let ghost oh = digits@.subrange(0, 2);
    let ghost om = digits@.subrange(2, 4);
    proof {
        reveal_with_fuel(digits_value, 3);
        assert(oh.drop_last() =~= digits@.subrange(0, 1));
        assert(om.drop_last() =~= digits@.subrange(2, 3));
        assert(digits@.subrange(0, 1).drop_last() =~= Seq::empty());
        assert(digits@.subrange(2, 3).drop_last() =~= Seq::empty());
        assert(is_digit(digits@[0]) && is_digit(digits@[1]) && is_digit(digits@[2]) && is_digit(
            digits@[3],
        ));
    }
    let hours: i64 = ((digits[0] as i64) - 48) * 10 + ((digits[1] as i64) - 48);
    let minutes: i64 = ((digits[2] as i64) - 48) * 10 + ((digits[3] as i64) - 48);
    assert(hours == digits_value(oh));
    assert(minutes == digits_value(om));
    let ahead: i64 = (hours * 3600 + minutes * 60) * 1000;
    if v[0] == '-' {
        -ahead
    } else {
        ahead
    }
}

proof fn epoch_day_bound(y: int, m: int, d: int)
    requires
        -9999 <= y <= 9999,
        1 <= m <= 12,
        1 <= d <= 31,
    ensures
        -5_000_000 <= epoch_day(y, m, d) <= 5_000_000,
{
    year_start_closed(y);
    month_table(y, m);
}

/// Milliseconds since the Unix epoch for an ISO 8601 UTC timestamp.
///
/// Accepts `2026-09-16T04:00:00Z`, `2026-09-16T04:00:00+00:00` and the space-separated
/// `2026-09-16 04:00:00` that BMKG also emits. A non-zero offset is honoured.
pub fn iso_to_epoch_ms(s: &str) -> (r: Option<i64>)
    ensures
        match instant_ms(s@) {
            Some(ms) => r matches Some(k) && k == ms,
            None => r is None,
        },
{
    let v = chars_of(s);
    if v.len() < 19 {
        return None;
    }
    let (y, mo, d) = match (field(&v, 0, 4), field(&v, 5, 7), field(&v, 8, 10)) {
        (Some(y), Some(mo), Some(d)) => (y, mo, d),
        _ => return None,
    };
    let (h, mi, sec) = match (field(&v, 11, 13), field(&v, 14, 16), field(&v, 17, 19)) {
        (Some(h), Some(mi), Some(sec)) => (h, mi, sec),
        _ => return None,
    };
    if !(ascii(v[4]) && ascii(v[7]) && ascii(v[10]) && ascii(v[13]) && ascii(v[16])) {
        return None;
    }
    if mo < 1 || mo > 12 || d < 1 || d > 31 {
        return None;
    }
    proof {
        epoch_day_bound(y as int, mo as int, d as int);
        assert(v@.subrange(19, v@.len() as int) =~= v@.skip(19));
    }
    let ms: i64 = (days_from_civil(y, mo, d) * 86_400 + h * 3600 + mi * 60 + sec) * 1000;
    let len: usize = v.len();
    let rest = trimmed(piece(&v, 19, len).as_str());
    Some(ms - offset(rest.as_str()))
}

// ------------------------------------------------------------------ laws

/// The day after a day of the calendar.
pub open spec fn next_day(y: int, m: int, d: int) -> (int, int, int) {
    if d < days_in_month(y, m) {
        (y, m, d + 1)
    } else if m < 12 {
        (y, m + 1, 1)
    } else {
        (y + 1, 1, 1)
    }
}

/// Days are counted from 1 January 1970 without gap or repeat: that day is day 0, and the next
/// calendar day is always one day later, across the ends of months, years and leap years.
pub proof fn next_calendar_day_is_one_later(y: int, m: int, d: int)
    requires
        1 <= m <= 12,
        1 <= d <= days_in_month(y, m),
    ensures
        ({
            let (y2, m2, d2) = next_day(y, m, d);
            epoch_day(y2, m2, d2) == epoch_day(y, m, d) + 1
        }),
        epoch_day(1970, 1, 1) == 0,
{
    if m == 12 {
        month_table(y, 12);
        month_table(y + 1, 1);
        year_start_closed(y);
        year_start_closed(y + 1);
        leaps_step(y);
    }
}

/// The calendar repeats after 400 years, which are 146,097 days.
pub proof fn the_calendar_repeats_after_400_years(y: int, m: int, d: int)
    requires
        1 <= m <= 12,
    ensures
        epoch_day(y + 400, m, d) == epoch_day(y, m, d) + 146_097,
        days_in_month(y + 400, m) == days_in_month(y, m),
{
    year_start_closed(y);
    year_start_closed(y + 400);
    leaps_in_400_years(y - 1);
    months_repeat(y, m);
    leap_years_repeat(y);
}

proof fn leap_years_repeat(y: int)
    ensures
        is_leap(y + 400) == is_leap(y),
{
}

proof fn leaps_in_400_years(y: int)
    ensures
        leaps(y + 400) == leaps(y) + 97,
{
    assert((y + 400) / 4 == y / 4 + 100);
    assert((y + 400) / 100 == y / 100 + 4);
    assert((y + 400) / 400 == y / 400 + 1);
}

proof fn months_repeat(y: int, m: int)
    ensures
        days_before_month(y + 400, m) == days_before_month(y, m),
    decreases m,
{
    if m > 1 {
        months_repeat(y, m - 1);
        leap_years_repeat(y);
    }
}

proof fn leaps_grow(a: int, b: int)
    requires
        a <= b,
    ensures
        leaps(a) <= leaps(b),
    decreases b - a,
{
    if a < b {
        leaps_grow(a, b - 1);
        leaps_step(b);
    }
}

/// The date comes before the other on the calendar.
pub open spec fn is_earlier(y1: int, m1: int, d1: int, y2: int, m2: int, d2: int) -> bool {
    y1 < y2 || (y1 == y2 && (m1 < m2 || (m1 == m2 && d1 < d2)))
}

/// Later dates count higher, so slots can be ordered by what is counted.
pub proof fn later_dates_count_higher(y1: int, m1: int, d1: int, y2: int, m2: int, d2: int)
    requires
        1 <= m1 <= 12,
        1 <= d1 <= days_in_month(y1, m1),
        1 <= m2 <= 12,
        1 <= d2 <= days_in_month(y2, m2),
        is_earlier(y1, m1, d1, y2, m2, d2),
    ensures
        epoch_day(y1, m1, d1) < epoch_day(y2, m2, d2),
{
    month_table(y1, m1);
    month_table(y2, m2);
    if y1 < y2 {
        year_start_closed(y1);
        year_start_closed(y2);
        leaps_step(y1);
        leaps_grow(y1, y2 - 1);
    } else if m1 < m2 {
        month_table(y1, m1 + 1);
    }
}

/// Whether `T`, a space or another ASCII character stands between date and time makes no
/// difference.
pub proof fn date_and_time_may_be_parted_by_any_ascii(s: Seq<char>, c: char)
    requires
        s.len() >= 19,
        is_ascii_char(s[10]),
        is_ascii_char(c),
    ensures
        instant_ms(s.update(10, c)) == instant_ms(s),
{
    let t = s.update(10, c);
    assert(t.subrange(0, 4) =~= s.subrange(0, 4));
    assert(t.subrange(5, 7) =~= s.subrange(5, 7));
    assert(t.subrange(8, 10) =~= s.subrange(8, 10));
    assert(t.subrange(11, 13) =~= s.subrange(11, 13));
    assert(t.subrange(14, 16) =~= s.subrange(14, 16));
    assert(t.subrange(17, 19) =~= s.subrange(17, 19));
    assert(t.skip(19) =~= s.skip(19));
}

/// A clock that runs ahead of UTC reaches a reading that much earlier: whatever follows the
/// clock fields only moves the instant by its offset.
pub proof fn an_offset_is_taken_off(clock: Seq<char>, rest: Seq<char>)
    requires
        clock.len() == 19,
    ensures
        instant_ms(clock + rest) == (match instant_ms(clock) {
            Some(ms) => Some(ms - offset_ms(trim(rest))),
            None => None,
        }),
{
    let s = clock + rest;
    assert(s.subrange(0, 4) =~= clock.subrange(0, 4));
    assert(s.subrange(5, 7) =~= clock.subrange(5, 7));
    assert(s.subrange(8, 10) =~= clock.subrange(8, 10));
    assert(s.subrange(11, 13) =~= clock.subrange(11, 13));
    assert(s.subrange(14, 16) =~= clock.subrange(14, 16));
    assert(s.subrange(17, 19) =~= clock.subrange(17, 19));
    assert(s.skip(19) =~= rest);
    assert(clock.skip(19) =~= Seq::empty());
}

/// `+hh:mm` and `+hhmm` say the same: hours and minutes ahead of UTC, or behind it after a
/// minus sign.
pub proof fn offsets_read_as_hours_and_minutes(sign: char, h1: char, h2: char, m1: char, m2: char)
    requires
        is_sign(sign),
        is_digit(h1),
        is_digit(h2),
        is_digit(m1),
        is_digit(m2),
    ensures
        ({
            let minutes = (digit_value(h1) * 10 + digit_value(h2)) * 60 + digit_value(m1) * 10
                + digit_value(m2);
            let ms = if sign == '-' {
                -(minutes * 60_000)
            } else {
                (minutes * 60_000) as int
            };
            &&& offset_ms(seq![sign, h1, h2, ':', m1, m2]) == ms
            &&& offset_ms(seq![sign, h1, h2, m1, m2]) == ms
        }),
{
    reveal(Seq::filter);
    let p = |c: char| is_digit(c);
    let a = seq![h1, h2, ':', m1, m2];
    let b = seq![h1, h2, m1, m2];
    assert(seq![sign, h1, h2, ':', m1, m2].skip(1) =~= a);
    assert(seq![sign, h1, h2, m1, m2].skip(1) =~= b);
    let e = Seq::<char>::empty();
    assert(e.filter(p) =~= e);
    assert(e.push(h1).drop_last() =~= e);
    assert(e.push(h1).filter(p) =~= e.push(h1));
    assert(e.push(h1).push(h2).drop_last() =~= e.push(h1));
    assert(e.push(h1).push(h2).filter(p) =~= e.push(h1).push(h2));
    let hh = e.push(h1).push(h2);
    assert(hh.push(':').drop_last() =~= hh);
    assert(hh.push(':').filter(p) =~= hh);
    assert(hh.push(':').push(m1).drop_last() =~= hh.push(':'));
    assert(hh.push(':').push(m1).filter(p) =~= hh.push(m1));
    assert(a.drop_last() =~= hh.push(':').push(m1));
    assert(a.filter(p) =~= b);
    assert(hh.push(m1).drop_last() =~= hh);
    assert(hh.push(m1).filter(p) =~= hh.push(m1));
    assert(b.drop_last() =~= hh.push(m1));
    assert(b.filter(p) =~= b);
    assert(b.subrange(0, 2) =~= hh);
    let mm = e.push(m1).push(m2);
    assert(b.subrange(2, 4) =~= mm);
    reveal_with_fuel(digits_value, 3);
    assert(e.push(m1).drop_last() =~= e);
    assert(mm.drop_last() =~= e.push(m1));
}

/// Without a signed offset the clock shows UTC, as it does with `Z` or nothing after it.
pub proof fn without_an_offset_it_is_utc(clock: Seq<char>, rest: Seq<char>)
    requires
        clock.len() == 19,
        trim(rest).len() == 0 || !is_sign(trim(rest)[0]),
    ensures
        instant_ms(clock + rest) == instant_ms(clock),
{
    an_offset_is_taken_off(clock, rest);
}

} // verus!
