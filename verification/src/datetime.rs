use vstd::prelude::*;

verus! {

/// A calendar date, year 0 through 9999 in the proleptic Gregorian calendar.
#[derive(Clone, Copy, PartialEq, Eq, Structural, Debug)]
pub struct Date {
    pub year: u16,
    pub month: u8,
    pub day: u8,
}

/// A capture timestamp: a calendar date with a time of day, second precision.
#[derive(Clone, Copy, PartialEq, Eq, Structural, Debug)]
pub struct DateTime {
    pub date: Date,
    pub hour: u8,
    pub minute: u8,
    pub second: u8,
}

/// Whether `y` is a leap year in the Gregorian calendar.
pub open spec fn spec_is_leap_year(y: int) -> bool {
    y % 4 == 0 && (y % 100 != 0 || y % 400 == 0)
}

/// Number of days in month `m` of year `y` (for `1 <= m <= 12`).
pub open spec fn spec_days_in_month(y: int, m: int) -> int {
    if m == 2 {
        if spec_is_leap_year(y) {
            29
        } else {
            28
        }
    } else if m == 4 || m == 6 || m == 9 || m == 11 {
        30
    } else {
        31
    }
}

/// A well-formed calendar date: the month exists and the day exists in it.
pub open spec fn date_valid(d: Date) -> bool {
    &&& d.year <= 9999
    &&& 1 <= d.month <= 12
    &&& 1 <= d.day <= spec_days_in_month(d.year as int, d.month as int)
}

/// A well-formed timestamp: a valid date and a valid time of day.
pub open spec fn datetime_valid(dt: DateTime) -> bool {
    &&& date_valid(dt.date)
    &&& dt.hour < 24
    &&& dt.minute < 60
    &&& dt.second < 60
}

impl Date {
    /// Whether this date is well formed.
    pub fn is_valid(&self) -> (r: bool)
        ensures
            r == date_valid(*self),
    {
        self.year <= 9999 && 1 <= self.month && self.month <= 12 && 1 <= self.day
            && self.day <= days_in_month(self.year, self.month)
    }
}

impl DateTime {
    /// Whether this timestamp is well formed.
    pub fn is_valid(&self) -> (r: bool)
        ensures
            r == datetime_valid(*self),
    {
        self.date.is_valid() && self.hour < 24 && self.minute < 60 && self.second < 60
    }
}

/// Lexicographic order on timestamps: year, month, day, hour, minute, second.
pub open spec fn datetime_le(a: DateTime, b: DateTime) -> bool {
    if a.date.year != b.date.year {
        a.date.year < b.date.year
    } else if a.date.month != b.date.month {
        a.date.month < b.date.month
    } else if a.date.day != b.date.day {
        a.date.day < b.date.day
    } else if a.hour != b.hour {
        a.hour < b.hour
    } else if a.minute != b.minute {
        a.minute < b.minute
    } else {
        a.second <= b.second
    }
}

/// Strict lexicographic order on timestamps.
pub open spec fn datetime_lt(a: DateTime, b: DateTime) -> bool {
    datetime_le(a, b) && a != b
}

impl DateTime {
    /// Whether `self` is at or before `other` in chronological order.
    pub fn le(&self, other: &DateTime) -> (r: bool)
        ensures
            r == datetime_le(*self, *other),
    {
        if self.date.year != other.date.year {
            self.date.year < other.date.year
        } else if self.date.month != other.date.month {
            self.date.month < other.date.month
        } else if self.date.day != other.date.day {
            self.date.day < other.date.day
        } else if self.hour != other.hour {
            self.hour < other.hour
        } else if self.minute != other.minute {
            self.minute < other.minute
        } else {
            self.second <= other.second
        }
    }

    /// Whether `self` is strictly before `other` in chronological order.
    pub fn lt(&self, other: &DateTime) -> (r: bool)
        ensures
            r == datetime_lt(*self, *other),
    {
        self.le(other) && !(self.date.year == other.date.year && self.date.month
            == other.date.month && self.date.day == other.date.day && self.hour == other.hour
            && self.minute == other.minute && self.second == other.second)
    }
}

/// The earliest representable instant used as a default window start.
pub open spec fn spec_epoch() -> DateTime {
    DateTime { date: Date { year: 1970, month: 1, day: 1 }, hour: 0, minute: 0, second: 0 }
}

/// The far-future sentinel used as a default window end: the last
/// representable instant of the model.
pub open spec fn spec_far_future() -> DateTime {
    DateTime { date: Date { year: 9999, month: 12, day: 31 }, hour: 23, minute: 59, second: 59 }
}

/// The earliest representable instant: 1970-01-01T00:00:00.
pub fn epoch() -> (r: DateTime)
    ensures
        r == spec_epoch(),
        datetime_valid(r),
{
    DateTime { date: Date { year: 1970, month: 1, day: 1 }, hour: 0, minute: 0, second: 0 }
}

/// The far-future sentinel: 9999-12-31T23:59:59.
pub fn far_future() -> (r: DateTime)
    ensures
        r == spec_far_future(),
        datetime_valid(r),
{
    DateTime { date: Date { year: 9999, month: 12, day: 31 }, hour: 23, minute: 59, second: 59 }
}

/// Whether `y` is a leap year in the Gregorian calendar.
pub fn is_leap_year(y: u16) -> (r: bool)
    ensures
        r == spec_is_leap_year(y as int),
{
    y % 4 == 0 && (y % 100 != 0 || y % 400 == 0)
}

/// Number of days in month `m` of year `y`.
pub fn days_in_month(y: u16, m: u8) -> (r: u8)
    ensures
        r as int == spec_days_in_month(y as int, m as int),
{
    if m == 2 {
        if is_leap_year(y) {
            29
        } else {
            28
        }
    } else if m == 4 || m == 6 || m == 9 || m == 11 {
        30
    } else {
        31
    }
}

} // verus!
