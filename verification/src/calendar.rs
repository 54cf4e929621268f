//! Dates of the proleptic Gregorian calendar, as plain values.
use vstd::prelude::*;
use chrono::{Datelike, Timelike};

verus! {

/// Smallest year that a calendar date may hold.
pub const MIN_YEAR: i32 = -262143;
/// Largest year that a calendar date may hold.
pub const MAX_YEAR: i32 = 262142;

/// A date of the proleptic Gregorian calendar.
#[derive(Debug, Clone, Copy, PartialEq, Eq)]
pub struct CalendarDate {
    pub year: i32,
    pub month: u32,
    pub day: u32,
}

/// Whether `y` is a leap year.
pub open spec fn is_leap_year(y: int) -> bool {
    y % 4 == 0 && (y % 100 != 0 || y % 400 == 0)
}

/// Number of days in month `m` of year `y`.
pub open spec fn days_in_month(y: int, m: int) -> int {
    if m == 2 {
        if is_leap_year(y) { 29 } else { 28 }
    } else if m == 4 || m == 6 || m == 9 || m == 11 {
        30
    } else {
        31
    }
}

/// Days of year `y` that come before the first day of month `m`.
pub open spec fn days_before_month(y: int, m: int) -> int {
    let base: int = if m == 1 { 0 }
        else if m == 2 { 31 }
        else if m == 3 { 59 }
        else if m == 4 { 90 }
        else if m == 5 { 120 }
        else if m == 6 { 151 }
        else if m == 7 { 181 }
        else if m == 8 { 212 }
        else if m == 9 { 243 }
        else if m == 10 { 273 }
        else if m == 11 { 304 }
        else { 334 };
    if m > 2 && is_leap_year(y) { base + 1 } else { base }
}

/// Days before January 1 of year `y`, counting January 1 of year 1 as day 1.
pub open spec fn days_before_year(y: int) -> int {
    365 * (y - 1) + (y - 1) / 4 - (y - 1) / 100 + (y - 1) / 400
}

/// Day number of a date, January 1 of year 1 being day 1.
pub open spec fn days_from_civil(y: int, m: int, d: int) -> int {
    days_before_year(y) + days_before_month(y, m) + d
}

/// Day number of the smallest representable date.
pub open spec fn min_day_number() -> int {
    days_from_civil(MIN_YEAR as int, 1, 1)
}

/// Day number of the largest representable date.
pub open spec fn max_day_number() -> int {
    days_from_civil(MAX_YEAR as int, 12, 31)
}

proof fn lemma_divides_negation(y: int, a: int, k: int)
    requires
        k > 0,
        a == y || a == -y,
    ensures
        (a % k == 0) == (y % k == 0),
{
    if a == -y {
        if y % k == 0 {
            assert(a == k * (-(y / k))) by (nonlinear_arith)
                requires y % k == 0, a == -y, k > 0;
            vstd::arithmetic::div_mod::lemma_mod_multiples_basic(-(y / k), k);
            assert(a % k == (k * (-(y / k))) % k);
            assert((-(y / k) * k) == k * (-(y / k))) by (nonlinear_arith);
        }
        if a % k == 0 {
            assert(y == k * (-(a / k))) by (nonlinear_arith)
                requires a % k == 0, a == -y, k > 0;
            vstd::arithmetic::div_mod::lemma_mod_multiples_basic(-(a / k), k);
            assert((-(a / k) * k) == k * (-(a / k))) by (nonlinear_arith);
        }
    }
}

impl CalendarDate {
    /// Whether the fields name a day of the calendar within the supported years.
    pub open spec fn is_valid(self) -> bool {
        &&& MIN_YEAR <= self.year <= MAX_YEAR
        &&& 1 <= self.month <= 12
        &&& 1 <= self.day <= days_in_month(self.year as int, self.month as int)
    }

    /// Day number of this date.
    pub open spec fn day_number(self) -> int {
        days_from_civil(self.year as int, self.month as int, self.day as int)
    }

    /// The date of the given year, month and day, if it exists.
    pub fn from_ymd_opt(year: i32, month: u32, day: u32) -> (r: Option<CalendarDate>)
        ensures
            r is Some <==> (CalendarDate { year, month, day }).is_valid(),
            r matches Some(d) ==> d == (CalendarDate { year, month, day }),
    {
        if year < MIN_YEAR || year > MAX_YEAR || month < 1 || month > 12 || day < 1 {
            return None;
        }
        let a: u32 = if year < 0 { (-year) as u32 } else { year as u32 };
        let leap = a % 4 == 0 && (a % 100 != 0 || a % 400 == 0);
        proof {
            lemma_divides_negation(year as int, a as int, 4);
            lemma_divides_negation(year as int, a as int, 100);
            lemma_divides_negation(year as int, a as int, 400);
        }
        let last: u32 = if month == 2 {
            if leap { 29 } else { 28 }
        } else if month == 4 || month == 6 || month == 9 || month == 11 {
            30
        } else {
            31
        };
        if day > last {
            None
        } else {
            Some(CalendarDate { year, month, day })
        }
    }
}

proof fn lemma_floor_step(y: int, k: int)
    requires
        k > 0,
    ensures
        y / k - (y - 1) / k == (if y % k == 0 { 1int } else { 0int }),
{
    vstd::arithmetic::div_mod::lemma_fundamental_div_mod(y, k);
    vstd::arithmetic::div_mod::lemma_fundamental_div_mod(y - 1, k);
    let q = y / k;
    let r = y % k;
    assert(y == k * q + r);
    if r == 0 {
        assert(y - 1 == (q - 1) * k + (k - 1)) by (nonlinear_arith)
            requires y == k * q + r, r == 0;
        vstd::arithmetic::div_mod::lemma_fundamental_div_mod_converse(y - 1, k, q - 1, k - 1);
    } else {
        assert(y - 1 == q * k + (r - 1)) by (nonlinear_arith)
            requires y == k * q + r;
        vstd::arithmetic::div_mod::lemma_fundamental_div_mod_converse(y - 1, k, q, r - 1);
    }
}

/// The first day of year `y + 1` follows the last day of year `y`.
proof fn lemma_year_step(y: int)
    ensures
        days_from_civil(y + 1, 1, 1) == days_from_civil(y, 12, 31) + 1,
{
    lemma_floor_step(y, 4);
    lemma_floor_step(y, 100);
    lemma_floor_step(y, 400);
}

/// Later years start on later days.
proof fn lemma_years_ordered(y1: int, y2: int)
    requires
        y1 < y2,
    ensures
        days_from_civil(y1, 12, 31) < days_from_civil(y2, 1, 1),
    decreases y2 - y1,
{
    lemma_year_step(y1);
    if y1 + 1 < y2 {
        lemma_years_ordered(y1 + 1, y2);
        lemma_year_step(y1 + 1);
    }
}

/// Distinct valid dates have distinct day numbers.
pub proof fn lemma_day_number_injective(a: CalendarDate, b: CalendarDate)
    requires
        a.is_valid(),
        b.is_valid(),
        a.day_number() == b.day_number(),
    ensures
        a == b,
{
    if a.year < b.year {
        lemma_years_ordered(a.year as int, b.year as int);
        assert(false);
    } else if b.year < a.year {
        lemma_years_ordered(b.year as int, a.year as int);
        assert(false);
    }
    assert(a.month == b.month);
}

/// Day number of `date` (`chrono::Datelike::num_days_from_ce` on the `NaiveDate`
/// built by `NaiveDate::from_ymd_opt`). The claim is chrono's documented one: the count of
/// days in the proleptic Gregorian calendar with January 1 of year 1 as day 1.
#[verifier::external_body]
pub(crate) fn day_number_of(date: &CalendarDate) -> (n: i32)
    requires
        date.is_valid(),
    ensures
        n as int == date.day_number(),
{
    chrono::NaiveDate::from_ymd_opt(date.year, date.month, date.day).unwrap().num_days_from_ce()
}

/// The date with day number `n` (`chrono::NaiveDate::from_num_days_from_ce_opt`, read back
/// through `year`, `month` and `day`). The claim: the result is a valid date whose day number
/// is `n`; chrono returns a date for every day number between the smallest and the largest date.
#[verifier::external_body]
pub(crate) fn date_of_day_number(n: i32) -> (d: CalendarDate)
    requires
        min_day_number() <= n <= max_day_number(),
    ensures
        d.is_valid(),
        d.day_number() == n,
{
    let nd = chrono::NaiveDate::from_num_days_from_ce_opt(n).unwrap();
    CalendarDate { year: nd.year(), month: nd.month(), day: nd.day() }
}

/// Today's date on the local clock (`chrono::Local::now().date_naive()`). The claim is only
/// that it is a valid date: which day it is depends on the clock and the time zone.
#[verifier::external_body]
pub(crate) fn local_today() -> (d: CalendarDate)
    ensures
        d.is_valid(),
{
    let nd = chrono::Local::now().date_naive();
    CalendarDate { year: nd.year(), month: nd.month(), day: nd.day() }
}

/// The hour of the day on the local clock (`chrono::Local::now().hour()`). The claim is only
/// that it lies in `0..24`: which hour it is depends on the clock and the time zone.
#[verifier::external_body]
pub(crate) fn local_hour() -> (h: u32)
    ensures
        h < 24,
{
    chrono::Local::now().hour()
}

} // verus!
