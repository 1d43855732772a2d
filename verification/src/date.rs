//! Calendar dates held as Julian day numbers.

use vstd::prelude::*;

verus! {

/// Days of `year` that come before the first of `month` (1..=12).
pub open spec fn days_before_month(year: int, month: int) -> int {
    let common: int = if month <= 1 { 0 }
    else if month == 2 { 31 }
    else if month == 3 { 59 }
    else if month == 4 { 90 }
    else if month == 5 { 120 }
    else if month == 6 { 151 }
    else if month == 7 { 181 }
    else if month == 8 { 212 }
    else if month == 9 { 243 }
    else if month == 10 { 273 }
    else if month == 11 { 304 }
    else { 334 };
    if month > 2 && is_leap_year(year) { common + 1 } else { common }
}

/// Julian day number of a proleptic Gregorian date: the days before the
/// year, counted over a shifted non-negative year, plus the day of the year
/// (so -4713-11-24 is day 0 and 2000-01-01 is day 2 451 545).
pub open spec fn julian_day_of(year: i32, month: u8, day: u8) -> int {
    let adj = year + 999_999;
    let century = adj / 100;
    1461 * adj / 4 - century + century / 4 + days_before_month(year as int, month as int) + day - 363_521_075
}

/// Gregorian leap-year rule.
pub open spec fn is_leap_year(year: int) -> bool {
    (year % 4 == 0 && year % 100 != 0) || year % 400 == 0
}

/// Number of days in `month` (1..=12) of `year`.
pub open spec fn days_in_month(year: int, month: int) -> int {
    if month == 2 {
        if is_leap_year(year) { 29 } else { 28 }
    } else if month == 4 || month == 6 || month == 9 || month == 11 {
        30
    } else {
        31
    }
}

/// A year, month and day that the `time` crate accepts as a date.
pub open spec fn valid_calendar_date(year: i32, month: u8, day: u8) -> bool {
    &&& -9999 <= year <= 9999
    &&& 1 <= month <= 12
    &&& 1 <= day <= days_in_month(year as int, month as int)
}

/// Builds a `time::Date` from its calendar parts and reads its Julian day.
/// `Month::try_from` refuses months outside `1..=12`; `Date::from_calendar_date`
/// refuses years outside `-9999..=9999` and days past the end of the month.
/// `Date::to_julian_day` counts the days before the shifted year and adds
/// the day of the year, which `julian_day_of` states.
#[verifier::external_body]
fn calendar_julian_day(year: i32, month: u8, day: u8) -> (r: Option<i32>)
    ensures
        r is Some <==> valid_calendar_date(year, month, day),
        r matches Some(j) ==> j == julian_day_of(year, month, day),
{
    let month = time::Month::try_from(month).ok()?;
    time::Date::from_calendar_date(year, month, day).ok().map(|date| date.to_julian_day())
}

/// Calendar date, held as its Julian day number so that days can be
/// compared and counted.
#[derive(Clone, Copy, Debug, PartialEq, Eq, PartialOrd, Ord, Hash)]
pub struct ProjectDate {
    /// Julian day number of the date.
    pub julian_day: i32,
}

impl ProjectDate {
    /// Builds the date with the given Julian day number.
    pub fn from_julian_day(julian_day: i32) -> (d: ProjectDate)
        ensures
            d.julian_day == julian_day,
    {
        ProjectDate { julian_day }
    }

    /// Builds a date from year, month (1..=12) and day, or `None` when the
    /// parts do not name a supported calendar date.
    pub fn from_calendar_date(year: i32, month: u8, day: u8) -> (r: Option<ProjectDate>)
        ensures
            r is Some <==> valid_calendar_date(year, month, day),
            r matches Some(d) ==> d.julian_day == julian_day_of(year, month, day),
    {
        match calendar_julian_day(year, month, day) {
            Some(j) => Some(ProjectDate { julian_day: j }),
            None => None,
        }
    }

    /// True when `self` falls strictly before `other`.
    pub fn before(&self, other: &ProjectDate) -> (b: bool)
        ensures
            b == (self.julian_day < other.julian_day),
    {
        self.julian_day < other.julian_day
    }

    /// The date `days` days earlier, or `None` when it leaves the `i32` day range.
    pub fn minus_days(&self, days: u16) -> (r: Option<ProjectDate>)
        ensures
            r is Some <==> self.julian_day - days >= i32::MIN,
            r matches Some(d) ==> d.julian_day == self.julian_day - days,
    {
        let d = days as i32;
        if self.julian_day >= i32::MIN + d {
            Some(ProjectDate { julian_day: self.julian_day - d })
        } else {
            None
        }
    }

    /// The date `days` days later, or `None` when it leaves the `i32` day range.
    pub fn plus_days(&self, days: u16) -> (r: Option<ProjectDate>)
        ensures
            r is Some <==> self.julian_day + days <= i32::MAX,
            r matches Some(d) ==> d.julian_day == self.julian_day + days,
    {
        let d = days as i32;
        if self.julian_day <= i32::MAX - d {
            Some(ProjectDate { julian_day: self.julian_day + d })
        } else {
            None
        }
    }
}

} // verus!
