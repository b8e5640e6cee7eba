//! The Gregorian calendar, from 1970 on.

use vstd::prelude::*;

verus! {

/// A calendar date.
#[derive(Debug, Clone, Copy, PartialEq, Eq, Structural)]
pub struct Date {
    pub year: u64,
    pub month: u64,
    pub day: u64,
}

/// Whether a year has 366 days.
pub open spec fn is_leap(y: int) -> bool {
    y % 4 == 0 && (y % 100 != 0 || y % 400 == 0)
}

/// The days of a month.
pub open spec fn days_in_month(y: int, m: int) -> int {
    if m == 2 {
        if is_leap(y) {
            29
        } else {
            28
        }
    } else if m == 4 || m == 6 || m == 9 || m == 11 {
        30
    } else {
        31
    }
}

/// The days of a year.
pub open spec fn days_in_year(y: int) -> int {
    if is_leap(y) {
        366
    } else {
        365
    }
}

/// The days from the beginning of 1970 to the beginning of a year.
pub open spec fn days_before_year(y: int) -> int
    decreases y - 1970,
{
    if y <= 1970 {
        0
    } else {
        days_before_year(y - 1) + days_in_year(y - 1)
    }
}

/// The days from the beginning of a year to the beginning of a month.
pub open spec fn days_before_month(y: int, m: int) -> int
    decreases m,
{
    if m <= 1 {
        0
    } else {
        days_before_month(y, m - 1) + days_in_month(y, m - 1)
    }
}

/// Whether a date exists.
pub open spec fn is_date(d: Date) -> bool {
    &&& 1970 <= d.year
    &&& 1 <= d.month <= 12
    &&& 1 <= d.day <= days_in_month(d.year as int, d.month as int)
}

/// The days from the first of January 1970 to a date.
pub open spec fn day_number(d: Date) -> int {
    days_before_year(d.year as int) + days_before_month(d.year as int, d.month as int) + d.day - 1
}

/// The date on a given day, counted from the first of January 1970.
pub open spec fn date_at(days: int) -> Date {
    choose|d: Date| is_date(d) && day_number(d) == days
}

/// The day of the month `n` years after `d`: the same one, except that the 29th of
/// February becomes the 28th where the year has no 29th.
pub open spec fn day_years_later(d: Date, n: nat) -> int {
    if d.day > days_in_month(d.year + n, d.month as int) {
        28
    } else {
        d.day as int
    }
}

/// The days from the first of January 1970 to the date `n` years after `d`.
pub open spec fn day_number_later(d: Date, n: nat) -> int {
    days_before_year(d.year + n) + days_before_month(d.year + n, d.month as int) + day_years_later(
        d,
        n,
    ) - 1
}

/// The time `n` years after a time in seconds: the same time of the day, on the same
/// day of the same month.
pub open spec fn seconds_later(secs: nat, n: nat) -> int {
    day_number_later(date_at((secs / 86_400) as int), n) * 86_400 + secs % 86_400
}

// ---------------------------------------------------------------------------
// Counting days
// ---------------------------------------------------------------------------

/// The leap years up to and including a year, by the rule of the calendar.
spec fn leap_years(y: int) -> int {
    y / 4 - y / 100 + y / 400
}

proof fn leap_years_step(y: int)
    requires
        y >= 1,
    ensures
        leap_years(y) == leap_years(y - 1) + (if is_leap(y) {
            1int
        } else {
            0int
        }),
{
    assert(y % 400 == 0 ==> y % 100 == 0);
    assert(y % 100 == 0 ==> y % 4 == 0);
}

/// The days before a year in closed form.
proof fn days_before_year_formula(y: int)
    requires
        y >= 1970,
    ensures
        days_before_year(y) == 365 * (y - 1970) + leap_years(y - 1) - 477,
    decreases y,
{
    if y > 1970 {
        days_before_year_formula(y - 1);
        leap_years_step(y - 1);
    } else {
        assert(leap_years(1969) == 477);
    }
}

/// The years have the days that they have.
proof fn days_before_year_step(y: int)
    requires
        y >= 1970,
    ensures
        days_before_year(y + 1) == days_before_year(y) + days_in_year(y),
        days_before_year(y) >= 365 * (y - 1970),
{
    days_before_year_formula(y);
    assert(leap_years(y - 1) >= 477) by {
        leap_years_grow(1969, y - 1);
        assert(leap_years(1969) == 477);
    }
}

proof fn leap_years_grow(a: int, b: int)
    requires
        1 <= a <= b,
    ensures
        leap_years(a) <= leap_years(b),
    decreases b - a,
{
    if a < b {
        leap_years_grow(a, b - 1);
        leap_years_step(b);
    }
}

/// A year begins where its twelve months before it end.
proof fn months_fill_the_year(y: int)
    ensures
        days_before_month(y, 13) == days_in_year(y),
        days_before_month(y, 2) == 31,
{
    reveal_with_fuel(days_before_month, 14);
}

/// The largest number of days that is handled, which is more than a `u64` of seconds
/// holds.
pub const MAX_DAYS: u64 = 213_503_982_334_602;

/// The largest year that is handled.
pub const MAX_YEAR: u64 = 2_000_000_000_000;

/// Whether `y` has 366 days.
pub fn leap(y: u64) -> (r: bool)
    ensures
        r == is_leap(y as int),
{
    y % 4 == 0 && (y % 100 != 0 || y % 400 == 0)
}

/// The days of the month `m` of the year `y`.
pub fn month_days(y: u64, m: u64) -> (n: u64)
    ensures
        n == days_in_month(y as int, m as int),
        28 <= n <= 31,
{
    if m == 2 {
        if leap(y) {
            29
        } else {
            28
        }
    } else if m == 4 || m == 6 || m == 9 || m == 11 {
        30
    } else {
        31
    }
}

/// The days from the beginning of 1970 to the beginning of the year `y`.
pub fn year_start(y: u64) -> (n: u64)
    requires
        1970 <= y <= MAX_YEAR,
    ensures
        n == days_before_year(y as int),
        n <= 366 * y,
{
    proof {
        days_before_year_formula(y as int);
        leap_years_grow(1969, y - 1);
        assert(leap_years(1969) == 477);
        assert(leap_years(y - 1) <= y);
    }
    let p: u64 = y - 1;
    365 * (y - 1970) + (p / 4 - p / 100 + p / 400) - 477
}

/// The date that lies `days` days after the first of January 1970.
pub fn date_of_day(days: u64) -> (d: Date)
    requires
        days <= MAX_DAYS,
    ensures
        is_date(d),
        day_number(d) == days,
        d.year <= 1970 + days / 365,
{
    let mut y: u64 = 1970 + days * 400 / 146_097;
    while year_start(y) > days
        invariant
            days <= MAX_DAYS,
            1970 <= y <= MAX_YEAR,
        ensures
            days_before_year(y as int) <= days,
        decreases y,
    {
        assert(days_before_year(1970) == 0);
        y -= 1;
    }
    proof {
        days_before_year_step(y as int);
    }
    while year_start(y + 1) <= days
        invariant
            days <= MAX_DAYS,
            1970 <= y < MAX_YEAR,
            days_before_year(y as int) <= days,
        ensures
            1970 <= y < MAX_YEAR,
            days_before_year(y as int) <= days < days_before_year(y + 1),
        decreases MAX_YEAR - y,
    {
        y += 1;
        proof {
            days_before_year_step(y as int);
        }
    }
    proof {
        days_before_year_step(y as int);
        months_fill_the_year(y as int);
    }
    let mut rest: u64 = days - year_start(y);
    let mut m: u64 = 1;
    while m < 12 && month_days(y, m) <= rest
        invariant
            1 <= m <= 12,
            days_before_month(y as int, m as int) + rest == days - days_before_year(y as int),
            days_before_month(y as int, m as int) + rest < days_before_month(y as int, 13),
        ensures
            1 <= m <= 12,
            rest < days_in_month(y as int, m as int),
            days_before_month(y as int, m as int) + rest == days - days_before_year(y as int),
        decreases 12 - m,
    {
        rest -= month_days(y, m);
        m += 1;
    }
    Date { year: y, month: m, day: rest + 1 }
}

/// The days from the first of January 1970 to `d`.
pub fn day_of_date(d: &Date) -> (n: u64)
    requires
        is_date(*d),
        d.year <= MAX_YEAR,
    ensures
        n == day_number(*d),
{
    let mut n: u64 = 0;
    let mut m: u64 = 1;
    while m < d.month
        invariant
            1 <= m <= d.month <= 12,
            n == days_before_month(d.year as int, m as int),
            n <= 31 * m,
        decreases d.month - m,
    {
        n += month_days(d.year, m);
        m += 1;
    }
    year_start(d.year) + n + (d.day - 1)
}

/// The time `n` years after the time `secs`, cut off where it no longer fits.
pub fn add_years(secs: u64, n: u64) -> (later: u128)
    ensures
        seconds_later(secs as nat, n as nat) >= secs,
        later == seconds_later(secs as nat, n as nat) || later - secs > u64::MAX
            && seconds_later(secs as nat, n as nat) - secs > u64::MAX,
{
    let days: u64 = secs / 86_400;
    let d = date_of_day(days);
    proof {
        date_is_unique(d, date_at(days as int));
        years_are_long(d, n as nat);
    }
    if n > 1_000_000_000_000 {
        return 100_000_000_000_000_000_000;
    }
    let year: u64 = d.year + n;
    let limit: u64 = month_days(year, d.month);
    let day: u64 = if d.day > limit { 28 } else { d.day };
    let target = Date { year, month: d.month, day };
    let number: u64 = day_of_date(&target);
    number as u128 * 86_400 + (secs % 86_400) as u128
}

// ---------------------------------------------------------------------------
// Laws
// ---------------------------------------------------------------------------

proof fn days_before_year_grow(a: int, b: int)
    requires
        1970 <= a <= b,
    ensures
        days_before_year(a) + 365 * (b - a) <= days_before_year(b),
    decreases b - a,
{
    if a < b {
        days_before_year_grow(a, b - 1);
    }
}

proof fn days_before_month_grow(y: int, a: int, b: int)
    requires
        1 <= a <= b <= 13,
    ensures
        days_before_month(y, a) + 28 * (b - a) <= days_before_month(y, b),
    decreases b - a,
{
    if a < b {
        days_before_month_grow(y, a, b - 1);
    }
}

/// A date lies within its year.
proof fn date_within_year(d: Date)
    requires
        is_date(d),
    ensures
        days_before_year(d.year as int) <= day_number(d) < days_before_year(d.year + 1),
{
    days_before_year_step(d.year as int);
    months_fill_the_year(d.year as int);
    days_before_month_grow(d.year as int, 1, d.month as int);
    days_before_month_grow(d.year as int, d.month + 1, 13);
}

/// A day has one date only.
pub proof fn date_is_unique(a: Date, b: Date)
    requires
        is_date(a),
        is_date(b),
        day_number(a) == day_number(b),
    ensures
        a == b,
{
    date_within_year(a);
    date_within_year(b);
    if a.year < b.year {
        days_before_year_grow(a.year + 1, b.year as int);
    } else if b.year < a.year {
        days_before_year_grow(b.year + 1, a.year as int);
    } else {
        let y = a.year as int;
        if a.month < b.month {
            days_before_month_grow(y, a.month + 1, b.month as int);
        } else if b.month < a.month {
            days_before_month_grow(y, b.month + 1, a.month as int);
        }
    }
}

/// The date `n` years later exists, and lies at least `n` times 365 days later, less
/// the two days that leap years and the end of February can take away.
proof fn years_are_long(d: Date, n: nat)
    requires
        is_date(d),
    ensures
        1 <= day_years_later(d, n) <= days_in_month(d.year + n, d.month as int),
        day_number_later(d, n) >= day_number(d) + 365 * n - 2,
        day_number_later(d, n) >= day_number(d),
{
    days_before_year_grow(d.year as int, d.year + n);
    months_differ_by_a_day(d.year as int, d.year + n, d.month as int);
    if n > 0 {
        assert(365 * n >= 365);
    }
}

proof fn months_differ_by_a_day(a: int, b: int, m: int)
    requires
        1 <= m <= 12,
    ensures
        days_before_month(b, m) >= days_before_month(a, m) - 1,
        m <= 2 ==> days_before_month(b, m) == days_before_month(a, m),
{
    reveal_with_fuel(days_before_month, 13);
}

/// What lies `n` years after a time lies on the same day of the same month, at the
/// same time of the day, whatever leap years fall in between; only the 29th of
/// February becomes the 28th where there is no 29th.
pub proof fn years_keep_the_date(d: Date, n: nat)
    requires
        is_date(d),
        d.year + n <= u64::MAX,
        !(d.month == 2 && d.day == 29),
    ensures
        ({
            let later = Date { year: (d.year + n) as u64, month: d.month, day: d.day };
            is_date(later) && day_number(later) == day_number_later(d, n)
        }),
{
}

/// The 29th of February goes to the 28th of February of a year that is no leap year,
/// and stays in one that is.
pub proof fn leap_day_falls_back(y: u64, n: nat)
    requires
        y >= 1970,
        is_leap(y as int),
        y + n <= u64::MAX,
    ensures
        ({
            let later = Date {
                year: (y + n) as u64,
                month: 2,
                day: if is_leap(y + n) {
                    29
                } else {
                    28
                },
            };
            is_date(later) && day_number(later) == day_number_later(
                Date { year: y, month: 2, day: 29 },
                n,
            )
        }),
{
}

/// No time is followed by one that is years later and yet before it.
pub proof fn years_later_is_not_before(secs: nat, n: nat)
    requires
        secs <= u64::MAX,
    ensures
        seconds_later(secs, n) >= secs,
{
    let days = (secs / 86_400) as int;
    day_has_a_date(days);
    years_are_long(date_at(days), n);
}

/// No years later is the same time.
pub proof fn no_years_change_nothing(secs: nat)
    requires
        secs <= u64::MAX,
    ensures
        seconds_later(secs, 0) == secs,
{
    let days = (secs / 86_400) as int;
    day_has_a_date(days);
    let d = date_at(days);
    assert(day_number_later(d, 0) == day_number(d));
}

/// Every day has a date.
pub proof fn day_has_a_date(days: int)
    requires
        0 <= days <= MAX_DAYS,
    ensures
        is_date(date_at(days)),
        day_number(date_at(days)) == days,
    decreases days,
{
    if days == 0 {
        let d = Date { year: 1970, month: 1, day: 1 };
        assert(is_date(d) && day_number(d) == 0);
    } else {
        day_has_a_date(days - 1);
        let d = date_at(days - 1);
        date_within_year(d);
        days_before_year_step(d.year as int);
        months_fill_the_year(d.year as int);
        let next = if d.day < days_in_month(d.year as int, d.month as int) {
            Date { year: d.year, month: d.month, day: (d.day + 1) as u64 }
        } else if d.month < 12 {
            Date { year: d.year, month: (d.month + 1) as u64, day: 1 }
        } else {
            Date { year: (d.year + 1) as u64, month: 1, day: 1 }
        };
        assert(d.year < 1_000_000_000_000) by {
            days_before_year_grow(1970, d.year as int);
        }
        assert(is_date(next) && day_number(next) == days);
    }
}

/// The days before a year are 365 for each year since 1970 and one for each leap year
/// among them: every fourth year, but of those that end a century only every fourth.
pub proof fn years_count_their_days(y: int)
    requires
        y >= 1970,
    ensures
        days_before_year(y) == 365 * (y - 1970) + ((y - 1) / 4 - 1969int / 4) - ((y - 1) / 100
            - 1969int / 100) + ((y - 1) / 400 - 1969int / 400),
        days_before_year(y + 400) == days_before_year(y) + 146_097,
{
    let z = y - 1;
    days_before_year_formula(y);
    days_before_year_formula(y + 400);
    assert(1969int / 4 == 492 && 1969int / 100 == 19 && 1969int / 400 == 4);
    assert((z + 400) / 4 == z / 4 + 100);
    assert((z + 400) / 100 == z / 100 + 4);
    assert((z + 400) / 400 == z / 400 + 1);
    assert(leap_years(y + 400 - 1) == (z + 400) / 4 - (z + 400) / 100 + (z + 400) / 400);
}

/// February has 28 days, and 29 in a leap year; April, June, September and November have
/// 30, and all others 31.
pub proof fn months_have_their_days(y: int, m: int)
    requires
        1 <= m <= 12,
    ensures
        m == 2 ==> (days_in_month(y, m) == 29 <==> y % 4 == 0 && (y % 100 != 0 || y % 400 == 0)),
        m == 2 ==> days_in_month(y, m) == 28 || days_in_month(y, m) == 29,
        m == 4 || m == 6 || m == 9 || m == 11 <==> days_in_month(y, m) == 30,
        m == 1 || m == 3 || m == 5 || m == 7 || m == 8 || m == 10 || m == 12 <==> days_in_month(
            y,
            m,
        ) == 31,
{
}

/// The day after a date is the next one of the month, the first of the next month, or the
/// first of January.
pub proof fn days_follow_each_other(d: Date, next: Date)
    requires
        is_date(d),
        is_date(next),
        day_number(next) == day_number(d) + 1,
    ensures
        d.day < days_in_month(d.year as int, d.month as int) ==> next.year == d.year && next.month
            == d.month && next.day == d.day + 1,
        d.day == days_in_month(d.year as int, d.month as int) && d.month < 12 ==> next.year == d.year
            && next.month == d.month + 1 && next.day == 1,
        d.day == days_in_month(d.year as int, d.month as int) && d.month == 12 && d.year < u64::MAX
            ==> next.year == d.year + 1 && next.month == 1 && next.day == 1,
{
    if d.day < days_in_month(d.year as int, d.month as int) {
        let e = Date { year: d.year, month: d.month, day: (d.day + 1) as u64 };
        date_is_unique(e, next);
    } else if d.month < 12 {
        let e = Date { year: d.year, month: (d.month + 1) as u64, day: 1 };
        date_is_unique(e, next);
    } else if d.year < u64::MAX {
        let e = Date { year: (d.year + 1) as u64, month: 1, day: 1 };
        days_before_year_step(d.year as int);
        months_fill_the_year(d.year as int);
        date_is_unique(e, next);
    }
}

/// The first of January 1970 is the day with the number zero.
pub proof fn days_count_from_the_epoch(d: Date)
    requires
        is_date(d),
    ensures
        day_number(d) == 0 <==> d.year == 1970 && d.month == 1 && d.day == 1,
        day_number(d) >= 0,
{
    let first = Date { year: 1970, month: 1, day: 1 };
    date_within_year(d);
    days_before_year_grow(1970, d.year as int);
    if day_number(d) == 0 {
        date_is_unique(d, first);
    }
}

/// A time on a date is followed, `n` years later, by the same time of the day on the same
/// day of the same month; from the 29th of February it is the 28th where there is no 29th.
pub proof fn years_later_fall_on_the_date(d: Date, n: nat, time_of_day: nat)
    requires
        is_date(d),
        d.year + n <= u64::MAX,
        time_of_day < 86_400,
    ensures
        ({
            let day = if d.month == 2 && d.day == 29 && !is_leap(d.year + n) {
                28u64
            } else {
                d.day
            };
            let later = Date { year: (d.year + n) as u64, month: d.month, day };
            is_date(later) && seconds_later(
                (day_number(d) * 86_400 + time_of_day) as nat,
                n,
            ) == day_number(later) * 86_400 + time_of_day
        }),
{
    days_count_from_the_epoch(d);
    let secs = (day_number(d) * 86_400 + time_of_day) as nat;
    assert(secs / 86_400 == day_number(d) && secs % 86_400 == time_of_day);
    let found = date_at(day_number(d));
    assert(is_date(d) && day_number(d) == day_number(d));
    assert(is_date(found) && day_number(found) == day_number(d));
    date_is_unique(found, d);
}

/// A year begins 365 days after the one before it, and 366 days after a leap year.
pub proof fn years_follow_each_other(y: int)
    requires
        y >= 1970,
    ensures
        days_before_year(y + 1) - days_before_year(y) == (if y % 4 == 0 && (y % 100 != 0 || y % 400
            == 0) {
            366int
        } else {
            365int
        }),
        days_before_year(1970) == 0,
{
    days_before_year_step(y);
}

/// A date exists exactly if its month has that day.
pub proof fn dates_exist_within_their_month(y: u64, m: u64, day: u64)
    ensures
        is_date(Date { year: y, month: m, day }) <==> y >= 1970 && 1 <= m && m <= 12 && 1 <= day
            && day <= days_in_month(y as int, m as int),
{
}

} // verus!
