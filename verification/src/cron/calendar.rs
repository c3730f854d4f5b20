//! The civil calendar, day by day from 1 January 1970.

use vstd::prelude::*;

verus! {

/// A day of the civil (proleptic Gregorian) calendar.
pub struct Civil {
    pub year: int,
    pub month: int,
    pub day: int,
}

/// A day of the civil calendar as the machine holds it.
#[derive(Clone, Copy, Debug, PartialEq, Eq, Structural)]
pub struct Date {
    pub year: u16,
    pub month: u8,
    pub day: u8,
}

impl View for Date {
    type V = Civil;

    open spec fn view(&self) -> Civil {
        Civil { year: self.year as int, month: self.month as int, day: self.day as int }
    }
}

/// Whether `year` has a 29 February.
pub open spec fn is_leap(year: int) -> bool {
    year % 4 == 0 && (year % 100 != 0 || year % 400 == 0)
}

/// How many days the month `month` of `year` has.
pub open spec fn days_in_month(year: int, month: int) -> int {
    if month == 2 {
        if is_leap(year) {
            29
        } else {
            28
        }
    } else if month == 4 || month == 6 || month == 9 || month == 11 {
        30
    } else {
        31
    }
}

/// `d` is a day that exists, in 1970 or later.
pub open spec fn is_date(d: Civil) -> bool {
    &&& 1970 <= d.year
    &&& 1 <= d.month <= 12
    &&& 1 <= d.day <= days_in_month(d.year, d.month)
}

/// The day after `d`.
pub open spec fn day_after(d: Civil) -> Civil {
    if d.day < days_in_month(d.year, d.month) {
        Civil { day: d.day + 1, ..d }
    } else if d.month < 12 {
        Civil { month: d.month + 1, day: 1, ..d }
    } else {
        Civil { year: d.year + 1, month: 1, day: 1 }
    }
}

/// The day that lies `n` days after 1 January 1970.
pub open spec fn date_of(n: nat) -> Civil
    decreases n,
{
    if n == 0 {
        Civil { year: 1970, month: 1, day: 1 }
    } else {
        day_after(date_of((n - 1) as nat))
    }
}

/// The day of the week of the day `n` days after 1 January 1970, which
/// was a Thursday: 0 for Sunday up to 6 for Saturday.
pub open spec fn weekday_of(n: nat) -> int {
    (n as int + 4) % 7
}

/// Every day of the calendar exists, and the year of the day `n` is at
/// most `n` years after 1970.
pub proof fn lemma_date_of_is_date(n: nat)
    ensures
        is_date(date_of(n)),
        date_of(n).year <= 1970 + n,
    decreases n,
{
    if n > 0 {
        lemma_date_of_is_date((n - 1) as nat);
    }
}

/// Whether `year` has a 29 February.
pub fn leap_year(year: u16) -> (r: bool)
    ensures
        r == is_leap(year as int),
{
    year % 4 == 0 && (year % 100 != 0 || year % 400 == 0)
}

/// How many days the month `month` of `year` has.
pub fn month_length(year: u16, month: u8) -> (r: u8)
    ensures
        r == days_in_month(year as int, month as int),
{
    if month == 2 {
        if leap_year(year) {
            29
        } else {
            28
        }
    } else if month == 4 || month == 6 || month == 9 || month == 11 {
        30
    } else {
        31
    }
}

impl Date {
    /// 1 January 1970.
    pub fn epoch() -> (d: Date)
        ensures
            d@ == date_of(0),
    {
        Date { year: 1970, month: 1, day: 1 }
    }

    /// The day after this one.
    pub(crate) fn next(&self) -> (r: Date)
        requires
            is_date(self@),
            self.year < u16::MAX,
        ensures
            r@ == day_after(self@),
            is_date(r@),
    {
        if self.day < month_length(self.year, self.month) {
            Date { year: self.year, month: self.month, day: self.day + 1 }
        } else if self.month < 12 {
            Date { year: self.year, month: self.month + 1, day: 1 }
        } else {
            Date { year: self.year + 1, month: 1, day: 1 }
        }
    }

    /// The day that lies `n` days after 1 January 1970.
    pub(crate) fn at(n: u32) -> (d: Date)
        requires
            n <= 60_000,
        ensures
            d@ == date_of(n as nat),
            is_date(d@),
    {
        // whole years first, then the days within the year
        let mut year: u16 = 1970;
        let mut start: u32 = 0;
        while start + year_length(year) <= n
            invariant
                1970 <= year,
                start == days_before_year(year as int),
                365 * (year - 1970) <= start <= n <= 60_000,
            decreases n - start,
        {
            start = start + year_length(year);
            year = year + 1;
        }
        proof {
            lemma_new_year(year as int);
            lemma_date_of_is_date(start as nat);
        }
        let mut d = Date { year, month: 1, day: 1 };
        let mut k: u32 = start;
        while k < n
            invariant
                k <= n <= 60_000,
                d@ == date_of(k as nat),
                is_date(d@),
                d.year <= 1970 + k,
            decreases n - k,
        {
            d = d.next();
            k = k + 1;
        }
        d
    }
}

/// How many days `year` has.
pub fn year_length(year: u16) -> (r: u32)
    ensures
        r == days_in_year(year as int),
{
    if leap_year(year) {
        366
    } else {
        365
    }
}

/// How many days `year` has.
pub open spec fn days_in_year(year: int) -> int {
    if is_leap(year) {
        366
    } else {
        365
    }
}

/// How many days lie between 1 January 1970 and 1 January of `year`.
pub open spec fn days_before_year(year: int) -> int
    decreases year,
{
    if year <= 1970 {
        0
    } else {
        days_before_year(year - 1) + days_in_year(year - 1)
    }
}

/// Within a month the days count up one by one.
proof fn lemma_within_month(n: nat, year: int, month: int, k: nat)
    requires
        date_of(n) == (Civil { year, month, day: 1 }),
        1 <= month <= 12,
        k < days_in_month(year, month),
    ensures
        date_of(n + k) == (Civil { year, month, day: 1 + k as int }),
    decreases k,
{
    if k > 0 {
        lemma_within_month(n, year, month, (k - 1) as nat);
    }
}

/// After the last day of a month comes the first day of the next month,
/// and after December the January of the next year.
proof fn lemma_month_over(n: nat, year: int, month: int)
    requires
        date_of(n) == (Civil { year, month, day: 1 }),
        1 <= month <= 12,
    ensures
        date_of((n + days_in_month(year, month)) as nat) == (if month < 12 {
            Civil { year, month: month + 1, day: 1 }
        } else {
            Civil { year: year + 1, month: 1, day: 1 }
        }),
{
    let last = (days_in_month(year, month) - 1) as nat;
    lemma_within_month(n, year, month, last);
}

/// A year after 1 January comes the 1 January of the next year.
proof fn lemma_year_over(n: nat, year: int)
    requires
        date_of(n) == (Civil { year, month: 1, day: 1 }),
    ensures
        date_of((n + days_in_year(year)) as nat) == (Civil { year: year + 1, month: 1, day: 1 }),
{
    let february = days_in_month(year, 2);
    lemma_month_over(n, year, 1);
    lemma_month_over(n + 31, year, 2);
    let m3 = (n + 31 + february) as nat;
    lemma_month_over(m3, year, 3);
    lemma_month_over(m3 + 31, year, 4);
    lemma_month_over(m3 + 61, year, 5);
    lemma_month_over(m3 + 92, year, 6);
    lemma_month_over(m3 + 122, year, 7);
    lemma_month_over(m3 + 153, year, 8);
    lemma_month_over(m3 + 184, year, 9);
    lemma_month_over(m3 + 214, year, 10);
    lemma_month_over(m3 + 245, year, 11);
    lemma_month_over(m3 + 275, year, 12);
}

/// The day `days_before_year(year)` is the 1 January of `year`.
pub proof fn lemma_new_year(year: int)
    requires
        1970 <= year,
    ensures
        0 <= days_before_year(year),
        date_of(days_before_year(year) as nat) == (Civil { year, month: 1, day: 1 }),
    decreases year,
{
    if year > 1970 {
        lemma_new_year(year - 1);
        lemma_year_over(days_before_year(year - 1) as nat, year - 1);
    }
}

/// The days before a year, counted by the rule of the leap years: 365 for
/// each year since 1970 and one more for each leap year among them.
pub proof fn lemma_days_before_year(year: int)
    requires
        1970 <= year,
    ensures
        days_before_year(year) == 365 * (year - 1970) + (year - 1) / 4 - (year - 1) / 100 + (year
            - 1) / 400 - 477,
    decreases year,
{
    if year > 1970 {
        lemma_days_before_year(year - 1);
    }
}

/// The years never go back: a later day lies in the same or a later year.
pub proof fn lemma_years_go_on(a: nat, b: nat)
    requires
        a <= b,
    ensures
        date_of(a).year <= date_of(b).year,
    decreases b - a,
{
    if a < b {
        lemma_years_go_on(a, (b - 1) as nat);
        lemma_date_of_is_date((b - 1) as nat);
    }
}

/// The day 47482 is 1 January 2100: every earlier day lies in 2099 or
/// before, and every later day in 2100 or after.
pub proof fn lemma_horizon(n: nat)
    ensures
        date_of(47_482) == (Civil { year: 2100, month: 1, day: 1 }),
        n < 47_482 <==> date_of(n).year <= 2099,
{
    lemma_new_year(2100);
    lemma_days_before_year(2100);
    lemma_new_year(2099);
    lemma_days_before_year(2099);
    lemma_month_over(days_before_year(2099) as nat, 2099, 1);
    if n < 47_482 {
        // the last day of 2099 lies in 2099, and no earlier day lies later
        lemma_last_day(2099);
        lemma_years_go_on(n, 47_481);
    } else {
        lemma_years_go_on(47_482, n);
    }
}

/// The day before the 1 January of the next year lies in `year`.
proof fn lemma_last_day(year: int)
    requires
        1970 <= year,
    ensures
        date_of((days_before_year(year + 1) - 1) as nat).year == year,
{
    lemma_new_year(year);
    let n = days_before_year(year) as nat;
    let february = days_in_month(year, 2);
    lemma_month_over(n, year, 1);
    lemma_month_over(n + 31, year, 2);
    let m3 = (n + 31 + february) as nat;
    lemma_month_over(m3, year, 3);
    lemma_month_over(m3 + 31, year, 4);
    lemma_month_over(m3 + 61, year, 5);
    lemma_month_over(m3 + 92, year, 6);
    lemma_month_over(m3 + 122, year, 7);
    lemma_month_over(m3 + 153, year, 8);
    lemma_month_over(m3 + 184, year, 9);
    lemma_month_over(m3 + 214, year, 10);
    lemma_month_over(m3 + 245, year, 11);
    lemma_within_month(m3 + 275, year, 12, 30);
}

} // verus!
