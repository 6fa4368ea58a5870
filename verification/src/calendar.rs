//! The Gregorian calendar: the date of a day counted from the first of January 1970.

use vstd::prelude::*;

verus! {

/// A day of the Gregorian calendar.
#[derive(Clone, Copy, Debug, PartialEq, Eq, Structural)]
pub struct Date {
    pub year: u64,
    pub month: u64,
    pub day: u64,
}

/// A year with a 29th of February.
pub open spec fn is_leap(year: int) -> bool {
    year % 4 == 0 && (year % 100 != 0 || year % 400 == 0)
}

/// How many days `year` has.
pub open spec fn year_length(year: int) -> int {
    if is_leap(year) {
        366
    } else {
        365
    }
}

/// How many days the month has.
pub open spec fn month_length(year: int, month: int) -> int {
    if month == 2 {
        if is_leap(year) {
            29
        } else {
            28
        }
    } else if month == 4 || month == 6 || month == 9 || month == 11 {
        30
    } else {
        31
    }
}

/// How many days the years from 0 up to `year`, without it, have together.
pub open spec fn days_before_year(year: int) -> int
    decreases year,
{
    if year <= 0 {
        0
    } else {
        days_before_year(year - 1) + year_length(year - 1)
    }
}

/// How many days of `year` come before its month `month`.
pub open spec fn days_before_month(year: int, month: int) -> int
    decreases month,
{
    if month <= 1 {
        0
    } else {
        days_before_month(year, month - 1) + month_length(year, month - 1)
    }
}

impl Date {
    /// The date exists.
    pub open spec fn valid(self) -> bool {
        &&& 1 <= self.month <= 12
        &&& 1 <= self.day <= month_length(self.year as int, self.month as int)
    }

    /// How many days after the first of January 1970 the date is.
    pub open spec fn day_number(self) -> int {
        days_before_year(self.year as int) - days_before_year(1970) + days_before_month(
            self.year as int,
            self.month as int,
        ) + self.day - 1
    }
}

/// The date that is `days` days after the first of January 1970.
pub open spec fn date_on(days: int) -> Date {
    choose|date: Date| #[trigger] date.valid() && date.day_number() == days
}

proof fn lemma_days_before_year(year: int)
    requires
        year >= 0,
    ensures
        days_before_year(year) == 365 * year + (year + 3) / 4 - (year + 99) / 100 + (year + 399)
            / 400,
    decreases year,
{
    if year > 0 {
        lemma_days_before_year(year - 1);
    }
}

proof fn lemma_days_before_month(year: int)
    ensures
        days_before_month(year, 1) == 0,
        days_before_month(year, 2) == 31,
        days_before_month(year, 3) == 59 + year_length(year) - 365,
        days_before_month(year, 4) == 90 + year_length(year) - 365,
        days_before_month(year, 5) == 120 + year_length(year) - 365,
        days_before_month(year, 6) == 151 + year_length(year) - 365,
        days_before_month(year, 7) == 181 + year_length(year) - 365,
        days_before_month(year, 8) == 212 + year_length(year) - 365,
        days_before_month(year, 9) == 243 + year_length(year) - 365,
        days_before_month(year, 10) == 273 + year_length(year) - 365,
        days_before_month(year, 11) == 304 + year_length(year) - 365,
        days_before_month(year, 12) == 334 + year_length(year) - 365,
{
    reveal_with_fuel(days_before_month, 13);
}

proof fn lemma_years_grow(a: int, b: int)
    requires
        0 <= a < b,
    ensures
        days_before_year(a) + year_length(a) <= days_before_year(b),
    decreases b - a,
{
    if a + 1 < b {
        lemma_years_grow(a + 1, b);
    }
}

/// A day has only one date.
pub proof fn date_is_unique(a: Date, b: Date)
    requires
        a.valid(),
        b.valid(),
        a.day_number() == b.day_number(),
    ensures
        a == b,
{
    lemma_days_before_month(a.year as int);
    lemma_days_before_month(b.year as int);
    if a.year < b.year {
        lemma_years_grow(a.year as int, b.year as int);
    } else if b.year < a.year {
        lemma_years_grow(b.year as int, a.year as int);
    }
}

/// A later day has a later date: year first, month next, day last.
pub proof fn dates_are_ordered(a: Date, b: Date)
    requires
        a.valid(),
        b.valid(),
        a.day_number() < b.day_number(),
    ensures
        a.year < b.year || a.year == b.year && (a.month < b.month || a.month == b.month && a.day
            < b.day),
{
    lemma_days_before_month(a.year as int);
    lemma_days_before_month(b.year as int);
    if b.year < a.year {
        lemma_years_grow(b.year as int, a.year as int);
    }
}

proof fn lemma_some_date(days: int) -> (date: Date)
    requires
        0 <= days <= u64::MAX - 719468,
    ensures
        date.valid(),
        date.day_number() == days,
    decreases days,
{
    if days == 0 {
        lemma_days_before_month(1970);
        Date { year: 1970, month: 1, day: 1 }
    } else {
        let before = lemma_some_date(days - 1);
        let year = before.year as int;
        lemma_days_before_month(year);
        lemma_days_before_month(year + 1);
        lemma_days_before_year(year);
        lemma_days_before_year(1970);
        if before.day < month_length(year, before.month as int) {
            Date { year: before.year, month: before.month, day: (before.day + 1) as u64 }
        } else if before.month < 12 {
            Date { year: before.year, month: (before.month + 1) as u64, day: 1 }
        } else {
            assert(days_before_year(year + 1) == days_before_year(year) + year_length(year));
            Date { year: (year + 1) as u64, month: 1, day: 1 }
        }
    }
}

/// Every day from the first of January 1970 on has a date.
pub proof fn day_has_a_date(days: int)
    requires
        0 <= days <= u64::MAX - 719468,
    ensures
        date_on(days).valid(),
        date_on(days).day_number() == days,
{
    let date = lemma_some_date(days);
    assert(date.valid() && date.day_number() == days);
}

/// The first of January 10000 is 2932897 days after the first of January 1970.
pub proof fn day_is_before_year_10000(date: Date)
    requires
        date.valid(),
        date.day_number() < 2_932_897,
    ensures
        date.year < 10_000,
{
    lemma_days_before_month(date.year as int);
    lemma_days_before_year(date.year as int);
    lemma_days_before_year(1970);
}

/// The days from the first of March of year 0 to the first of March of `year`.
spec fn march_first(year: int) -> int {
    365 * year + year / 4 - year / 100 + year / 400
}

proof fn lemma_march_first(year: int)
    requires
        year >= 0,
    ensures
        days_before_year(year) + days_before_month(year, 3) == march_first(year) + 60,
        days_before_year(year + 1) == march_first(year) + 60 + 306,
        days_before_year(1970) == 719528,
{
    lemma_days_before_year(year);
    lemma_days_before_year(1970);
    lemma_days_before_month(year);
}

proof fn lemma_year_of_era(doe: int)
    requires
        0 <= doe < 146097,
    ensures
        ({
            let yoe = (doe - doe / 1460 + doe / 36524 - doe / 146096) / 365;
            let doy = doe - (365 * yoe + yoe / 4 - yoe / 100);
            &&& 0 <= yoe < 400
            &&& 0 <= doy <= 365
            &&& doy == 365 ==> is_leap(yoe + 1)
        }),
{
}

/// The days from the first of March to the first of the month `mp` months later.
spec fn days_since_march(mp: int) -> int {
    (153 * mp + 2) / 5
}

proof fn lemma_month_of_year(doy: int)
    requires
        0 <= doy <= 365,
    ensures
        ({
            let mp = (5 * doy + 2) / 153;
            &&& 0 <= mp <= 11
            &&& days_since_march(mp) <= doy
            &&& mp < 11 ==> doy < days_since_march(mp + 1)
        }),
{
}

proof fn lemma_month_start(start: int, mp: int)
    requires
        0 <= mp <= 11,
    ensures
        mp < 10 ==> days_before_month(start, mp + 3) == days_before_month(start, 3)
            + days_since_march(mp),
        mp < 10 ==> month_length(start, mp + 3) == days_since_march(mp + 1) - days_since_march(mp),
        mp == 10 ==> days_before_month(start + 1, 1) == days_since_march(10) - 306
            && month_length(start + 1, 1) == days_since_march(11) - days_since_march(10),
        mp == 11 ==> days_before_month(start + 1, 2) == days_since_march(11) - 306,
        days_since_march(11) == 337,
{
    lemma_days_before_month(start);
    lemma_days_before_month(start + 1);
}

proof fn lemma_era(era: int, yoe: int)
    requires
        0 <= era,
        0 <= yoe < 400,
    ensures
        march_first(yoe + era * 400) == 146097 * era + 365 * yoe + yoe / 4 - yoe / 100,
        is_leap(yoe + 1) == is_leap(yoe + era * 400 + 1),
{
}

/// The date that is `days` days after the first of January 1970.
pub fn civil_date(days: u64) -> (date: Date)
    requires
        days <= u64::MAX - 719468,
    ensures
        date.valid(),
        date.day_number() == days,
        date == date_on(days as int),
{
    // Years are counted from March, in eras of 400 years, so that the leap day comes last.
    let z: u64 = days + 719468;
    let era: u64 = z / 146097;
    let doe: u64 = z - era * 146097;
    proof {
        lemma_year_of_era(doe as int);
    }
    let yoe: u64 = (doe - doe / 1460 + doe / 36524 - doe / 146096) / 365;
    let doy: u64 = doe - (365 * yoe + yoe / 4 - yoe / 100);
    proof {
        lemma_month_of_year(doy as int);
    }
    let mp: u64 = (5 * doy + 2) / 153;
    let day: u64 = doy - (153 * mp + 2) / 5 + 1;
    let month: u64 = if mp < 10 { mp + 3 } else { mp - 9 };
    let start: u64 = yoe + era * 400;
    let year: u64 = if month <= 2 { start + 1 } else { start };
    let date = Date { year, month, day };
    proof {
        lemma_march_first(start as int);
        lemma_month_start(start as int, mp as int);
        lemma_era(era as int, yoe as int);
        assert(date.valid());
        assert(date.day_number() == days);
        date_is_unique(date, date_on(days as int));
    }
    date
}

/// The days are counted from the first of January 1970, one by one: within a month, over the end
/// of a month, which comes after 31, 30, 28 or 29 days, and over the end of a year.
pub proof fn days_follow_each_other(year: u64, month: u64, day: u64)
    requires
        1 <= month <= 12,
        year < u64::MAX,
    ensures
        (Date { year: 1970, month: 1, day: 1 }).day_number() == 0,
        day < u64::MAX ==> (Date { year, month, day: (day + 1) as u64 }).day_number() == (Date {
            year,
            month,
            day,
        }).day_number() + 1,
        month == 1 || month == 3 || month == 5 || month == 7 || month == 8 || month == 10 ==> (Date {
            year,
            month: (month + 1) as u64,
            day: 1,
        }).day_number() == (Date { year, month, day: 31 }).day_number() + 1,
        month == 4 || month == 6 || month == 9 || month == 11 ==> (Date {
            year,
            month: (month + 1) as u64,
            day: 1,
        }).day_number() == (Date { year, month, day: 30 }).day_number() + 1,
        month == 2 && year % 4 != 0 ==> (Date { year, month: 3, day: 1 }).day_number() == (Date {
            year,
            month,
            day: 28,
        }).day_number() + 1,
        month == 2 && year % 4 == 0 && year % 100 != 0 ==> (Date {
            year,
            month: 3,
            day: 1,
        }).day_number() == (Date { year, month, day: 29 }).day_number() + 1,
        month == 2 && year % 100 == 0 && year % 400 != 0 ==> (Date {
            year,
            month: 3,
            day: 1,
        }).day_number() == (Date { year, month, day: 28 }).day_number() + 1,
        month == 2 && year % 400 == 0 ==> (Date { year, month: 3, day: 1 }).day_number() == (Date {
            year,
            month,
            day: 29,
        }).day_number() + 1,
        (Date { year: (year + 1) as u64, month: 1, day: 1 }).day_number() == (Date {
            year,
            month: 12,
            day: 31,
        }).day_number() + 1,
{
    lemma_days_before_month(year as int);
    lemma_days_before_month(year + 1);
    lemma_days_before_month(1970);
    assert(days_before_year(year + 1) == days_before_year(year as int) + year_length(year as int));
}

/// The date of a day exists, and counted from the first of January 1970 it is that day.
pub proof fn date_is_the_day(days: u64, out: Date)
    requires
        call_ensures(civil_date, (days,), out),
        days <= u64::MAX - 719468,
    ensures
        out.valid(),
        out.day_number() == days,
        1 <= out.month <= 12 && 1 <= out.day <= 31,
{
    day_has_a_date(days as int);
}

} // verus!
