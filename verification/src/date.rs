//! Date values and the strategy interface for parsing and formatting them.

use vstd::prelude::*;

use crate::calendar::{
    date_from_day_number, day_number, day_number_x, days_before_month, days_before_year,
    days_before_year_x, days_in_month, days_in_year, epoch_day_number,
    lemma_days_before_month_mono, lemma_days_before_year_bounds, lemma_days_before_year_mono,
    lemma_months_cover_year, month_days,
};

verus! {

/// A calendar timestamp with millisecond precision, always read as UTC.
///
/// The supported range is year 0 through 9999 of the proleptic Gregorian
/// calendar, which is exactly what the four-digit wire formats can carry.
#[derive(Clone, Copy, PartialEq, Eq, Structural, Debug)]
pub struct DateTime {
    /// The year, 0 through 9999.
    pub year: u16,
    /// The month, 1 through 12.
    pub month: u8,
    /// The day of the month, 1 through the month's length.
    pub day: u8,
    /// The hour, 0 through 23.
    pub hour: u8,
    /// The minute, 0 through 59.
    pub minute: u8,
    /// The second, 0 through 59.
    pub second: u8,
    /// The milliseconds, 0 through 999.
    pub millisecond: u16,
}

/// The milliseconds of a date's time of day.
pub open spec fn millis_of_day(d: DateTime) -> int {
    ((d.hour * 3600 + d.minute * 60 + d.second) * 1000 + d.millisecond) as int
}

/// The signed milliseconds between a date and 1970-01-01T00:00:00Z.
pub open spec fn epoch_millis_of(d: DateTime) -> int {
    (day_number(d.year as int, d.month as int, d.day as int) - epoch_day_number()) * 86400000
        + millis_of_day(d)
}

/// The earliest timestamp a `DateTime` can hold: the start of year zero.
pub open spec fn min_epoch_millis() -> int {
    (0 - epoch_day_number()) * 86400000
}

/// The latest timestamp a `DateTime` can hold: the end of year 9999.
pub open spec fn max_epoch_millis() -> int {
    (days_before_year(10000) - epoch_day_number()) * 86400000 - 1
}

impl DateTime {
    /// Whether every component is within its calendar range.
    pub open spec fn valid(self) -> bool {
        &&& self.year <= 9999
        &&& 1 <= self.month <= 12
        &&& 1 <= self.day <= days_in_month(self.year as int, self.month as int)
        &&& self.hour < 24
        &&& self.minute < 60
        &&& self.second < 60
        &&& self.millisecond < 1000
    }

    /// Assembles a date from its components.
    pub fn build(
        year: u16,
        month: u8,
        day: u8,
        hour: u8,
        minute: u8,
        second: u8,
        millisecond: u16,
    ) -> (r: DateTime)
        requires
            (DateTime { year, month, day, hour, minute, second, millisecond }).valid(),
        ensures
            r == (DateTime { year, month, day, hour, minute, second, millisecond }),
    {
        DateTime { year, month, day, hour, minute, second, millisecond }
    }

    /// The signed milliseconds between this date and the epoch.
    pub fn to_epoch_millis(&self) -> (r: i64)
        requires
            self.valid(),
        ensures
            r == epoch_millis_of(*self),
            min_epoch_millis() <= r <= max_epoch_millis(),
    {
        proof {
            lemma_days_before_year_bounds(1970);
            lemma_days_before_year_bounds(10000);
            lemma_days_before_year_mono(1970, 10000);
        }
        let day = day_number_x(self.year as u32, self.month as u32, self.day as u32);
        let epoch = days_before_year_x(1970);
        let tod: i64 = ((self.hour as i64 * 3600) + (self.minute as i64 * 60) + self.second as i64)
            * 1000 + self.millisecond as i64;
        (day - epoch) * 86400000 + tod
    }

    /// The date a signed millisecond offset from the epoch falls on.
    pub fn from_epoch_millis(ms: i64) -> (r: DateTime)
        requires
            min_epoch_millis() <= ms <= max_epoch_millis(),
        ensures
            r.valid(),
            epoch_millis_of(r) == ms,
    {
        proof {
            lemma_days_before_year_bounds(1970);
            lemma_days_before_year_bounds(10000);
            lemma_days_before_year_mono(1970, 10000);
        }
        let epoch = days_before_year_x(1970);
        let (day, rem) = floor_split_day(ms);
        let abs_day = day + epoch;
        let (y, mo, d) = date_from_day_number(abs_day);
        let hour = (rem / 3600000) as u8;
        let rem1 = rem % 3600000;
        let minute = (rem1 / 60000) as u8;
        let rem2 = rem1 % 60000;
        let second = (rem2 / 1000) as u8;
        let millisecond = (rem2 % 1000) as u16;
        DateTime {
            year: y as u16,
            month: mo as u8,
            day: d as u8,
            hour,
            minute,
            second,
            millisecond,
        }
    }
}

/// A valid date's absolute day number falls within its own year.
pub proof fn lemma_day_number_in_year(d: DateTime)
    requires
        d.valid(),
    ensures
        days_before_year(d.year as int) <= day_number(d.year as int, d.month as int, d.day as int)
            < days_before_year(d.year as int + 1),
{
    let y = d.year as int;
    let m = d.month as int;
    lemma_days_before_month_mono(y, 1, m);
    lemma_days_before_month_mono(y, m + 1, 13);
    lemma_months_cover_year(y);
    assert(days_before_month(y, m + 1) == days_before_month(y, m) + days_in_month(y, m));
    assert(days_before_year(y + 1) == days_before_year(y) + days_in_year(y));
}

/// The milliseconds of a time of day stay within one day.
pub proof fn lemma_millis_of_day_bounds(d: DateTime)
    requires
        d.valid(),
    ensures
        0 <= millis_of_day(d) < 86400000,
{
}

/// Every valid date's timestamp lies within the supported range.
pub proof fn lemma_epoch_millis_range(d: DateTime)
    requires
        d.valid(),
    ensures
        min_epoch_millis() <= epoch_millis_of(d) <= max_epoch_millis(),
{
    lemma_day_number_in_year(d);
    lemma_millis_of_day_bounds(d);
    lemma_days_before_year_bounds(d.year as int);
    lemma_days_before_year_mono(d.year as int + 1, 10000);
    let n = day_number(d.year as int, d.month as int, d.day as int);
    assert(0 <= n < days_before_year(10000));
    assert((0 - epoch_day_number()) * 86400000 <= (n - epoch_day_number()) * 86400000
        <= (days_before_year(10000) - 1 - epoch_day_number()) * 86400000) by (nonlinear_arith)
        requires
            0 <= n <= days_before_year(10000) - 1,
    ;
}

/// Two valid dates with one timestamp are one date.
#[verifier::rlimit(60)]
pub proof fn lemma_epoch_millis_unique(d1: DateTime, d2: DateTime)
    requires
        d1.valid(),
        d2.valid(),
        epoch_millis_of(d1) == epoch_millis_of(d2),
    ensures
        d1 == d2,
{
    let n1 = day_number(d1.year as int, d1.month as int, d1.day as int);
    let n2 = day_number(d2.year as int, d2.month as int, d2.day as int);
    lemma_millis_of_day_bounds(d1);
    lemma_millis_of_day_bounds(d2);
    assert(n1 == n2) by (nonlinear_arith)
        requires
            (n1 - epoch_day_number()) * 86400000 + millis_of_day(d1) == (n2 - epoch_day_number())
                * 86400000 + millis_of_day(d2),
            0 <= millis_of_day(d1) < 86400000,
            0 <= millis_of_day(d2) < 86400000,
    ;
    lemma_same_day_number_same_date(d1, d2);
    assert(millis_of_day(d1) == millis_of_day(d2));
    assert(millis_of_day(d1) == d1.hour * 3600000 + d1.minute * 60000 + d1.second * 1000
        + d1.millisecond);
    assert(millis_of_day(d2) == d2.hour * 3600000 + d2.minute * 60000 + d2.second * 1000
        + d2.millisecond);
}

/// Two valid dates with one absolute day number share year, month, and day.
proof fn lemma_same_day_number_same_date(d1: DateTime, d2: DateTime)
    requires
        d1.valid(),
        d2.valid(),
        day_number(d1.year as int, d1.month as int, d1.day as int) == day_number(
            d2.year as int,
            d2.month as int,
            d2.day as int,
        ),
    ensures
        d1.year == d2.year,
        d1.month == d2.month,
        d1.day == d2.day,
{
    lemma_day_number_in_year(d1);
    lemma_day_number_in_year(d2);
    if d1.year < d2.year {
        lemma_days_before_year_mono(d1.year as int + 1, d2.year as int);
        assert(false);
    }
    if d2.year < d1.year {
        lemma_days_before_year_mono(d2.year as int + 1, d1.year as int);
        assert(false);
    }
    let y = d1.year as int;
    let m1 = d1.month as int;
    let m2 = d2.month as int;
    if m1 < m2 {
        assert(days_before_month(y, m1 + 1) == days_before_month(y, m1) + days_in_month(y, m1));
        lemma_days_before_month_mono(y, m1 + 1, m2);
        assert(false);
    }
    if m2 < m1 {
        assert(days_before_month(y, m2 + 1) == days_before_month(y, m2) + days_in_month(y, m2));
        lemma_days_before_month_mono(y, m2 + 1, m1);
        assert(false);
    }
}

/// The valid date carrying a given timestamp; meaningful only for
/// timestamps within the supported range, where it is unique.
pub open spec fn date_of_epoch_millis(ms: int) -> DateTime {
    choose|d: DateTime| d.valid() && epoch_millis_of(d) == ms
}

/// Splits a signed millisecond timestamp into a day offset from the epoch and
/// the milliseconds into that day.
fn floor_split_day(ms: i64) -> (r: (i64, i64))
    requires
        -400000000000000000 <= ms <= 400000000000000000,
    ensures
        r.0 * 86400000 + r.1 == ms,
        0 <= r.1 < 86400000,
{
    if ms >= 0 {
        let q = ms / 86400000;
        let r = ms % 86400000;
        (q, r)
    } else {
        let m = -ms;
        let q1 = m / 86400000;
        let r1 = m % 86400000;
        if r1 == 0 {
            (-q1, 0)
        } else {
            (-q1 - 1, 86400000 - r1)
        }
    }
}

} // verus!

pub mod format;
pub mod formats;
pub mod mapping;

use core::marker::PhantomData;

use crate::date::format::{DateFormat, ParseError};

verus! {

/// A date value bound to one format strategy. The marker type selects both
/// the text the value serializes to and the `format` name its schema
/// declares, so the two can never disagree; `remap` moves the same value to
/// another strategy.
#[derive(Debug)]
pub struct Date<F: DateFormat> {
    /// The calendar value itself.
    pub value: DateTime,
    /// Ties the value to its format strategy without storing anything.
    pub marker: PhantomData<F>,
}

impl<F: DateFormat> Date<F> {
    /// A date from a calendar value.
    pub fn new(value: DateTime) -> (r: Date<F>)
        requires
            value.valid(),
        ensures
            r.value == value,
    {
        Date { value, marker: PhantomData }
    }

    /// A date from its components.
    pub fn build(
        year: u16,
        month: u8,
        day: u8,
        hour: u8,
        minute: u8,
        second: u8,
        millisecond: u16,
    ) -> (r: Date<F>)
        requires
            (DateTime { year, month, day, hour, minute, second, millisecond }).valid(),
        ensures
            r.value == (DateTime { year, month, day, hour, minute, second, millisecond }),
    {
        Date {
            value: DateTime::build(year, month, day, hour, minute, second, millisecond),
            marker: PhantomData,
        }
    }

    /// The year.
    pub fn year(&self) -> (r: u16)
        ensures
            r == self.value.year,
    {
        self.value.year
    }

    /// The month.
    pub fn month(&self) -> (r: u8)
        ensures
            r == self.value.month,
    {
        self.value.month
    }

    /// The day of the month.
    pub fn day(&self) -> (r: u8)
        ensures
            r == self.value.day,
    {
        self.value.day
    }

    /// The hour.
    pub fn hour(&self) -> (r: u8)
        ensures
            r == self.value.hour,
    {
        self.value.hour
    }

    /// The minute.
    pub fn minute(&self) -> (r: u8)
        ensures
            r == self.value.minute,
    {
        self.value.minute
    }

    /// The second.
    pub fn second(&self) -> (r: u8)
        ensures
            r == self.value.second,
    {
        self.value.second
    }

    /// Formats the date with the bound strategy.
    pub fn format(&self) -> (r: String)
        requires
            self.value.valid(),
        ensures
            r@ == F::spec_format(self.value),
    {
        F::format(&self.value)
    }

    /// Parses a date with the bound strategy.
    pub fn parse(s: &str) -> (r: Result<Date<F>, ParseError>)
        ensures
            match r {
                Ok(d) => F::spec_parse(s@) == Some(d.value) && d.value.valid(),
                Err(_) => F::spec_parse(s@) is None,
            },
    {
        match F::parse(s) {
            Ok(value) => Ok(Date { value, marker: PhantomData }),
            Err(e) => Err(e),
        }
    }

    /// Serializes the date in the bound strategy's wire shape.
    pub fn to_wire(&self) -> (r: crate::json::Json)
        requires
            self.value.valid(),
        ensures
            r.wf(),
            r.spec_text() == F::spec_wire(self.value),
    {
        F::to_wire(&self.value)
    }

    /// The same value bound to another strategy.
    pub fn remap<F2: DateFormat>(self) -> (r: Date<F2>)
        ensures
            r.value == self.value,
    {
        Date { value: self.value, marker: PhantomData }
    }
}

} // verus!
