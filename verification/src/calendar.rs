//! Proleptic Gregorian calendar arithmetic over plain integers.
//!
//! Years 0 through 9999 are supported: that is the range the four-digit wire
//! formats can spell. Absolute day numbers count from the first day of year
//! zero; the epoch used for millisecond timestamps is 1970-01-01T00:00:00Z.

use vstd::prelude::*;

verus! {

/// Whether a year is a leap year.
pub open spec fn is_leap_year(y: int) -> bool {
    y % 4 == 0 && (y % 100 != 0 || y % 400 == 0)
}

/// The number of days in a year.
pub open spec fn days_in_year(y: int) -> int {
    if is_leap_year(y) {
        366
    } else {
        365
    }
}

/// The number of days in all years before year `y`, counting from year zero.
pub open spec fn days_before_year(y: int) -> int
    decreases y,
{
    if y <= 0 {
        0
    } else {
        days_before_year(y - 1) + days_in_year(y - 1)
    }
}

/// The number of days in a month (1 through 12) of a year.
pub open spec fn days_in_month(y: int, m: int) -> int {
    if m == 2 {
        if is_leap_year(y) {
            29
        } else {
            28
        }
    } else if m == 4 || m == 6 || m == 9 || m == 11 {
        30
    } else {
        31
    }
}

/// The number of days in the months of year `y` before month `m`.
pub open spec fn days_before_month(y: int, m: int) -> int
    decreases m,
{
    if m <= 1 {
        0
    } else {
        days_before_month(y, m - 1) + days_in_month(y, m - 1)
    }
}

/// The absolute day number of a calendar date, counting 0000-01-01 as day 0.
pub open spec fn day_number(y: int, m: int, d: int) -> int {
    days_before_year(y) + days_before_month(y, m) + d - 1
}

/// The absolute day number of the epoch date 1970-01-01.
pub open spec fn epoch_day_number() -> int {
    days_before_year(1970)
}

/// Lower and upper bounds on the day count of a span of years.
pub proof fn lemma_days_before_year_bounds(y: int)
    requires
        0 <= y,
    ensures
        365 * y <= days_before_year(y) <= 366 * y,
    decreases y,
{
    if y > 0 {
        lemma_days_before_year_bounds(y - 1);
    }
}

/// More years never mean fewer days.
pub proof fn lemma_days_before_year_mono(y1: int, y2: int)
    requires
        0 <= y1 <= y2,
    ensures
        days_before_year(y1) + 365 * (y2 - y1) <= days_before_year(y2),
    decreases y2 - y1,
{
    if y1 < y2 {
        lemma_days_before_year_mono(y1, y2 - 1);
        assert(days_before_year(y2) == days_before_year(y2 - 1) + days_in_year(y2 - 1));
    }
}

/// The twelve months of a year account for each of its days.
pub proof fn lemma_months_cover_year(y: int)
    ensures
        days_before_month(y, 13) == days_in_year(y),
{
    reveal_with_fuel(days_before_month, 13);
}

/// Whether a year is a leap year.
pub fn leap_year(y: u32) -> (r: bool)
    ensures
        r == is_leap_year(y as int),
{
    y % 4 == 0 && (y % 100 != 0 || y % 400 == 0)
}

/// The number of days in a year.
pub fn year_days(y: u32) -> (r: u32)
    ensures
        r == days_in_year(y as int),
{
    if leap_year(y) {
        366
    } else {
        365
    }
}

/// The number of days in a month of a year.
pub fn month_days(y: u32, m: u32) -> (r: u32)
    requires
        1 <= m <= 12,
    ensures
        r == days_in_month(y as int, m as int),
{
    if m == 2 {
        if leap_year(y) {
            29
        } else {
            28
        }
    } else if m == 4 || m == 6 || m == 9 || m == 11 {
        30
    } else {
        31
    }
}

/// The number of days in all years before year `y`, counting from year zero.
pub fn days_before_year_x(y: u32) -> (r: i64)
    requires
        y <= 10000,
    ensures
        r == days_before_year(y as int),
{
    let mut i: u32 = 0;
    let mut acc: i64 = 0;
    while i < y
        invariant
            i <= y <= 10000,
            acc == days_before_year(i as int),
            0 <= acc <= 366 * (i as int),
        decreases y - i,
    {
        acc = acc + year_days(i) as i64;
        i = i + 1;
        proof {
            lemma_days_before_year_bounds(i as int);
        }
    }
    acc
}

/// The absolute day number of a calendar date.
pub fn day_number_x(y: u32, m: u32, d: u32) -> (r: i64)
    requires
        y <= 9999,
        1 <= m <= 12,
        1 <= d <= days_in_month(y as int, m as int),
    ensures
        r == day_number(y as int, m as int, d as int),
        0 <= r < days_before_year(10000),
{
    let before_year = days_before_year_x(y);
    let mut mm: u32 = 1;
    let mut acc: i64 = 0;
    while mm < m
        invariant
            1 <= mm <= m <= 12,
            acc == days_before_month(y as int, mm as int),
            0 <= acc <= 31 * (mm as int),
        decreases m - mm,
    {
        acc = acc + month_days(y, mm) as i64;
        mm = mm + 1;
    }
    proof {
        lemma_days_before_year_bounds(y as int);
        lemma_months_cover_year(y as int);
        lemma_days_before_month_mono(y as int, 1, m as int);
        lemma_days_before_month_mono(y as int, m as int + 1, 13);
        assert(days_before_month(y as int, m as int + 1) == days_before_month(y as int, m as int)
            + days_in_month(y as int, m as int));
        lemma_days_before_year_mono(y as int + 1, 10000);
        assert(days_before_year(y as int + 1) == days_before_year(y as int) + days_in_year(
            y as int,
        ));
    }
    before_year + acc + (d as i64 - 1)
}

/// Months later in a year never start earlier.
pub proof fn lemma_days_before_month_mono(y: int, m1: int, m2: int)
    requires
        m1 <= m2,
    ensures
        days_before_month(y, m1) <= days_before_month(y, m2),
    decreases m2 - m1,
{
    if m1 < m2 {
        lemma_days_before_month_mono(y, m1, m2 - 1);
        assert(days_in_month(y, m2 - 1) >= 28);
    }
}

/// The calendar date of an absolute day number: year, month, and day.
pub fn date_from_day_number(n: i64) -> (r: (u32, u32, u32))
    requires
        0 <= n < days_before_year(10000),
    ensures
        r.0 <= 9999,
        1 <= r.1 <= 12,
        1 <= r.2 <= days_in_month(r.0 as int, r.1 as int),
        day_number(r.0 as int, r.1 as int, r.2 as int) == n,
{
    let mut y: u32 = 0;
    let mut acc: i64 = 0;
    while acc + year_days(y) as i64 <= n
        invariant
            y <= 9999,
            acc == days_before_year(y as int),
            0 <= acc <= 366 * (y as int),
            acc <= n < days_before_year(10000),
        decreases n - acc,
    {
        acc = acc + year_days(y) as i64;
        y = y + 1;
        proof {
            if y >= 10000 {
                lemma_days_before_year_mono(10000, y as int);
                assert(false);
            }
            lemma_days_before_year_bounds(y as int);
        }
    }
    let rem = n - acc;
    proof {
        lemma_days_before_year_bounds(y as int);
        lemma_months_cover_year(y as int);
    }
    let mut m: u32 = 1;
    let mut macc: i64 = 0;
    while macc + month_days(y, m) as i64 <= rem
        invariant
            1 <= m <= 12,
            macc == days_before_month(y as int, m as int),
            0 <= macc <= rem,
            rem < days_in_year(y as int),
            days_before_month(y as int, 13) == days_in_year(y as int),
            0 <= rem < 366,
        decreases rem - macc,
    {
        macc = macc + month_days(y, m) as i64;
        m = m + 1;
        proof {
            if m >= 13 {
                lemma_days_before_month_mono(y as int, 13, m as int);
                assert(false);
            }
        }
    }
    let d = (rem - macc) as u32 + 1;
    (y, m, d)
}

} // verus!
