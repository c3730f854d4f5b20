//! Cron schedules of seven fields: second, minute, hour, day of month,
//! month, day of week and year.
//!
//! A schedule fires at every second of UTC whose seven readings are all
//! allowed by the matching field. Days of the week count from 1 for Sunday
//! to 7 for Saturday, and years run from 1970 to 2099.

pub mod calendar;
pub mod parse;

use vstd::prelude::*;
use crate::cron::calendar::{date_of, is_date, weekday_of, Date};
use crate::time::Timestamp;

verus! {

/// The days from 1 January 1970 up to, and not including, 1 January 2100.
/// No schedule fires on a later day.
pub const HORIZON_DAYS: u32 = 47_482;

/// A cron schedule: for each of the seven fields, which readings it
/// allows. The reading `v` is allowed where the field holds `true` at the
/// place `v`; a year is looked up at the place `year - 1970`.
#[derive(Debug, PartialEq, Eq)]
pub struct CronSchedule {
    /// Seconds, 0 to 59.
    pub seconds: Vec<bool>,
    /// Minutes, 0 to 59.
    pub minutes: Vec<bool>,
    /// Hours, 0 to 23.
    pub hours: Vec<bool>,
    /// Days of the month, 1 to 31.
    pub days_of_month: Vec<bool>,
    /// Months, 1 to 12.
    pub months: Vec<bool>,
    /// Days of the week, 1 for Sunday to 7 for Saturday.
    pub days_of_week: Vec<bool>,
    /// Years, 1970 to 2099, at the places 0 to 129.
    pub years: Vec<bool>,
}

/// The mathematical content of a [`CronSchedule`].
pub struct ScheduleView {
    pub seconds: Seq<bool>,
    pub minutes: Seq<bool>,
    pub hours: Seq<bool>,
    pub days_of_month: Seq<bool>,
    pub months: Seq<bool>,
    pub days_of_week: Seq<bool>,
    pub years: Seq<bool>,
}

impl View for CronSchedule {
    type V = ScheduleView;

    open spec fn view(&self) -> ScheduleView {
        ScheduleView {
            seconds: self.seconds@,
            minutes: self.minutes@,
            hours: self.hours@,
            days_of_month: self.days_of_month@,
            months: self.months@,
            days_of_week: self.days_of_week@,
            years: self.years@,
        }
    }
}

impl Clone for CronSchedule {
    fn clone(&self) -> (r: Self)
        ensures
            r@ == self@,
    {
        CronSchedule {
            seconds: self.seconds.clone(),
            minutes: self.minutes.clone(),
            hours: self.hours.clone(),
            days_of_month: self.days_of_month.clone(),
            months: self.months.clone(),
            days_of_week: self.days_of_week.clone(),
            years: self.years.clone(),
        }
    }
}

/// The field allows the reading `v`.
pub open spec fn allowed(field: Seq<bool>, v: int) -> bool {
    0 <= v < field.len() && field[v]
}

/// The time of day `second_of_day`, counted in seconds from midnight, is
/// one at which the schedule fires.
pub open spec fn time_matches(s: ScheduleView, second_of_day: int) -> bool {
    &&& allowed(s.seconds, second_of_day % 60)
    &&& allowed(s.minutes, (second_of_day / 60) % 60)
    &&& allowed(s.hours, second_of_day / 3600)
}

/// The day `n` days after 1 January 1970 is one on which the schedule
/// fires.
pub open spec fn day_matches(s: ScheduleView, n: int) -> bool {
    let d = date_of(n as nat);
    &&& 0 <= n
    &&& allowed(s.years, d.year - 1970)
    &&& allowed(s.months, d.month)
    &&& allowed(s.days_of_month, d.day)
    &&& allowed(s.days_of_week, weekday_of(n as nat) + 1)
}

/// The schedule fires at the second `t` after 1970-01-01T00:00:00Z.
pub open spec fn fires_at(s: ScheduleView, t: int) -> bool {
    &&& 0 <= t < HORIZON_DAYS * 86_400
    &&& time_matches(s, t % 86_400)
    &&& day_matches(s, t / 86_400)
}

/// `next` is the first second after `t` at which the schedule fires.
pub open spec fn is_next_after(s: ScheduleView, t: int, next: int) -> bool {
    &&& t < next
    &&& fires_at(s, next)
    &&& forall|v: int| t < v < next ==> !fires_at(s, v)
}

/// The schedule never fires after `t`.
pub open spec fn never_after(s: ScheduleView, t: int) -> bool {
    forall|v: int| t < v ==> !fires_at(s, v)
}

/// Whether the field allows the reading `v`.
pub fn allows(field: &Vec<bool>, v: usize) -> (r: bool)
    ensures
        r == allowed(field@, v as int),
{
    v < field.len() && field[v]
}

impl CronSchedule {
    /// Whether the schedule fires at the time of day `second_of_day`.
    pub(crate) fn time_fits(&self, second_of_day: u32) -> (r: bool)
        requires
            second_of_day < 86_400,
        ensures
            r == time_matches(self@, second_of_day as int),
    {
        let second: usize = (second_of_day % 60) as usize;
        let minute: usize = ((second_of_day / 60) % 60) as usize;
        let hour: usize = (second_of_day / 3600) as usize;
        allows(&self.seconds, second) && allows(&self.minutes, minute) && allows(
            &self.hours,
            hour,
        )
    }

    /// Whether the schedule fires on the day `n` days after 1 January
    /// 1970, which is the day `date`.
    pub(crate) fn day_fits(&self, n: u32, date: &Date) -> (r: bool)
        requires
            date@ == date_of(n as nat),
            is_date(date@),
        ensures
            r == day_matches(self@, n as int),
    {
        let weekday: usize = ((n as u64 + 4) % 7) as usize;
        let year: usize = (date.year - 1970) as usize;
        allows(&self.years, year) && allows(&self.months, date.month as usize) && allows(
            &self.days_of_month,
            date.day as usize,
        ) && allows(&self.days_of_week, weekday + 1)
    }

    /// The first time of day from `from` on at which the schedule fires,
    /// if there is one before midnight.
    pub(crate) fn first_time_from(&self, from: u32) -> (r: Option<u32>)
        requires
            from <= 86_400,
        ensures
            match r {
                Some(s) => {
                    &&& from <= s < 86_400
                    &&& time_matches(self@, s as int)
                    &&& forall|x: int| from <= x < s ==> !time_matches(self@, x)
                },
                None => forall|x: int| from <= x < 86_400 ==> !time_matches(self@, x),
            },
    {
        let mut s: u32 = from;
        while s < 86_400
            invariant
                from <= s <= 86_400,
                forall|x: int| from <= x < s ==> !time_matches(self@, x),
            decreases 86_400 - s,
        {
            if self.time_fits(s) {
                return Some(s);
            }
            s = s + 1;
        }
        None
    }

    /// The first second after `t` at which the schedule fires; nothing
    /// where it never fires again. Both are counted in seconds from
    /// 1970-01-01T00:00:00Z.
    pub fn next_after(&self, t: i64) -> (r: Option<i64>)
        ensures
            match r {
                Some(next) => is_next_after(self@, t as int, next as int),
                None => never_after(self@, t as int),
            },
    {
        let horizon: i64 = 47_482 * 86_400;
        if t >= horizon - 1 {
            return None;
        }
        let start: i64 = if t < 0 {
            0
        } else {
            t + 1
        };
        let first_day: u32 = (start / 86_400) as u32;
        let first_second: u32 = (start % 86_400) as u32;
        let mut date = Date::at(first_day);
        if self.day_fits(first_day, &date) {
            match self.first_time_from(first_second) {
                Some(s) => {
                    let next: i64 = first_day as i64 * 86_400 + s as i64;
                    assert forall|v: int| t < v < next implies !fires_at(self@, v) by {
                        if v >= 0 {
                            assert(v / 86_400 == first_day);
                        }
                    }
                    return Some(next);
                },
                None => {},
            }
        }
        assert forall|v: int| t < v < (first_day + 1) * 86_400 implies !fires_at(self@, v) by {}
        let earliest = match self.first_time_from(0) {
            Some(s) => s,
            None => {
                assert forall|v: int| t < v implies !fires_at(self@, v) by {}
                return None;
            },
        };
        let mut n: u32 = first_day + 1;
        proof {
            lemma_date_of_step(first_day as nat);
        }
        date = date.next();
        while n < 47_482
            invariant
                first_day < n <= 47_482,
                t < n * 86_400,
                date@ == date_of(n as nat),
                is_date(date@),
                date.year <= 1970 + n,
                0 <= earliest < 86_400,
                time_matches(self@, earliest as int),
                forall|x: int| 0 <= x < earliest ==> !time_matches(self@, x),
                forall|v: int| t < v < n * 86_400 ==> !fires_at(self@, v),
            decreases 47_482 - n,
        {
            if self.day_fits(n, &date) {
                let next: i64 = n as i64 * 86_400 + earliest as i64;
                assert forall|v: int| t < v < next implies !fires_at(self@, v) by {}
                return Some(next);
            }
            assert forall|v: int| t < v < (n + 1) * 86_400 implies !fires_at(self@, v) by {
                if v >= n * 86_400 {
                    assert(v / 86_400 == n);
                }
            }
            proof {
                lemma_date_of_step(n as nat);
            }
            date = date.next();
            n = n + 1;
        }
        None
    }
}

/// The day after the day `n` is the day `n + 1`.
pub proof fn lemma_date_of_step(n: nat)
    ensures
        date_of(n + 1) == crate::cron::calendar::day_after(date_of(n)),
        date_of(n).year <= 1970 + n,
{
    crate::cron::calendar::lemma_date_of_is_date(n);
}

/// The next occurrence is later. Whatever the schedule, the occurrence
/// that follows an instant lies strictly after that instant, and it lies
/// before the horizon.
pub proof fn lemma_next_is_later(s: ScheduleView, now: Timestamp, next: int)
    requires
        is_next_after(s, now.secs as int, next),
    ensures
        0 <= next < HORIZON_DAYS * 86_400,
        now.before(Timestamp { secs: next as i64, nanos: 0 }),
{
}

} // verus!
