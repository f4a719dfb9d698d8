//! An absolute expression as a value, and the instant it stands for.

use crate::calendar::{
    days_added, days_shifted, days_subtracted, days_to_next, lemma_days_to_next, weekday_on,
    CalendarDate, Timestamp,
};
use crate::parser::absolute::day_offset::DayOffset;
use crate::parser::absolute::wallclock_time::WallClockTime;
use vstd::prelude::*;
use vstd::string::*;

verus! {

/// The day of an absolute expression: a date, or a day that only the
/// reference instant turns into a date.
#[derive(Debug, PartialEq, Eq, Clone, Copy, Structural)]
pub enum FlexiDate {
    Date(CalendarDate),
    DayOffset(DayOffset),
}

/// A day and a time of day.
#[derive(Debug, PartialEq, Eq, Clone, Copy, Structural)]
pub struct AbsoluteTime {
    pub time: WallClockTime,
    pub date: FlexiDate,
}

/// The parts of an absolute expression as far as they have been given.
#[derive(Debug, PartialEq, Eq, Clone, Copy, Structural)]
pub struct AbsoluteTimeBuilder {
    pub time: Option<WallClockTime>,
    pub date: Option<FlexiDate>,
}

impl FlexiDate {
    /// A date, where there is one, names a day that exists.
    pub open spec fn wf(self) -> bool {
        self matches FlexiDate::Date(date) ==> date.wf()
    }

    /// Whether a date, where there is one, names a day that exists.
    pub fn is_valid(&self) -> (b: bool)
        ensures
            b == self.wf(),
    {
        match self {
            FlexiDate::Date(date) => date.is_valid(),
            FlexiDate::DayOffset(_) => true,
        }
    }

    /// The instant on the day meant, seen from `now`, at the time of day of
    /// `now`. A date takes the place of the date of `now`. A fixed offset
    /// moves `now` by so many days, back where it is negative. A weekday
    /// moves `now` forward to the next day that falls on it, by 1 to 7
    /// days and never by none. `None` where the day is out of the range of
    /// dates.
    pub open spec fn resolved(self, now: Timestamp) -> Option<Timestamp> {
        match self {
            FlexiDate::Date(date) => Some(Timestamp { date, ..now }),
            FlexiDate::DayOffset(DayOffset::Fixed(days)) => if days < 0 {
                days_subtracted(now, -days)
            } else {
                days_added(now, days as int)
            },
            FlexiDate::DayOffset(DayOffset::NextDayOccurrence(day)) => days_added(
                now,
                days_to_next(weekday_on(now.date), day),
            ),
        }
    }

    /// The instant on the day meant, seen from `now`, at the time of day of
    /// `now`; `None` where the day is out of the range of dates.
    pub fn resolve(&self, now: Timestamp) -> (r: Option<Timestamp>)
        requires
            self.wf(),
            now.wf(),
        ensures
            r == self.resolved(now),
            r matches Some(t) ==> t.wf() && t.same_time_of_day(now),
    {
        match *self {
            FlexiDate::Date(date) => Some(now.with_date(date)),
            FlexiDate::DayOffset(DayOffset::Fixed(days)) => {
                if days < 0 {
                    now.checked_shift_days((-(days as i64)) as u64, true)
                } else {
                    now.checked_shift_days(days as u64, false)
                }
            },
            FlexiDate::DayOffset(DayOffset::NextDayOccurrence(day)) => {
                let today = now.date.weekday();
                now.checked_shift_days(today.days_until_next(day) as u64, false)
            },
        }
    }
}

impl AbsoluteTime {
    /// The time of day is in range and a date, where there is one, exists.
    pub open spec fn wf(self) -> bool {
        self.time.wf() && self.date.wf()
    }

    /// Whether the time of day is in range and a date, where there is one,
    /// exists.
    pub fn is_valid(&self) -> (b: bool)
        ensures
            b == self.wf(),
    {
        self.time.is_valid() && self.date.is_valid()
    }

    /// The instant that the expression stands for, seen from `now`: the day
    /// meant, at the time of day of the expression.
    pub open spec fn resolved(self, now: Timestamp) -> Option<Timestamp> {
        match self.date.resolved(now) {
            Some(day) => Some(self.time.spec_on(day)),
            None => None,
        }
    }

    /// The instant that the expression stands for, seen from `now`, or
    /// `None` where the day is out of the range of dates.
    pub fn to_chrono(&self, now: Timestamp) -> (r: Option<Timestamp>)
        requires
            self.wf(),
            now.wf(),
        ensures
            r == self.resolved(now),
            r matches Some(t) ==> t.wf(),
    {
        match self.date.resolve(now) {
            Some(day) => Some(self.time.on(day)),
            None => None,
        }
    }
}

impl AbsoluteTimeBuilder {
    /// The expression that the parts make, if both are given.
    pub open spec fn spec_build(self) -> Option<AbsoluteTime> {
        match (self.time, self.date) {
            (Some(time), Some(date)) => Some(AbsoluteTime { time, date }),
            _ => None,
        }
    }

    /// What is given is valid.
    pub open spec fn wf(self) -> bool {
        &&& self.time matches Some(time) ==> time.wf()
        &&& self.date matches Some(date) ==> date.wf()
    }

    /// Nothing given yet.
    pub fn new() -> (r: AbsoluteTimeBuilder)
        ensures
            r == (AbsoluteTimeBuilder { time: None, date: None }),
    {
        AbsoluteTimeBuilder { time: None, date: None }
    }

    /// The same with the time of day set.
    pub fn time(self, time: WallClockTime) -> (r: AbsoluteTimeBuilder)
        ensures
            r == (AbsoluteTimeBuilder { time: Some(time), ..self }),
    {
        AbsoluteTimeBuilder { time: Some(time), ..self }
    }

    /// The same with the day set.
    pub fn date(self, date: FlexiDate) -> (r: AbsoluteTimeBuilder)
        ensures
            r == (AbsoluteTimeBuilder { date: Some(date), ..self }),
    {
        AbsoluteTimeBuilder { date: Some(date), ..self }
    }

    /// The expression that the parts make. It takes both: without the day or
    /// without the time of day the result is an error.
    pub fn build(self) -> (r: Result<AbsoluteTime, String>)
        ensures
            match self.spec_build() {
                Some(built) => r == Ok::<AbsoluteTime, String>(built),
                None => r matches Err(message) && message@ == "Missing required fields"@,
            },
    {
        match (self.time, self.date) {
            (Some(time), Some(date)) => Ok(AbsoluteTime { time, date }),
            _ => Err("Missing required fields".to_owned()),
        }
    }
}

/// The day and the time of day can be set in either order.
pub proof fn lemma_builder_order(builder: AbsoluteTimeBuilder, time: WallClockTime, date: FlexiDate)
    ensures
        (AbsoluteTimeBuilder { date: Some(date), ..(AbsoluteTimeBuilder { time: Some(time), ..builder }) })
            == (AbsoluteTimeBuilder { time: Some(time), ..(AbsoluteTimeBuilder { date: Some(date), ..builder }) }),
        (AbsoluteTimeBuilder { date: Some(date), ..(AbsoluteTimeBuilder { time: Some(time), ..builder }) }).spec_build()
            == Some(AbsoluteTime { time, date }),
{
}

/// A weekday is resolved to a day that lies 1 to 7 days after `now`, the
/// nearest one that falls on it. Where `now` falls on that weekday itself,
/// the day lies 7 days on.
pub proof fn lemma_next_occurrence(day: crate::calendar::Weekday, now: Timestamp)
    ensures
        FlexiDate::DayOffset(DayOffset::NextDayOccurrence(day)).resolved(now) == days_added(
            now,
            days_to_next(weekday_on(now.date), day),
        ),
        1 <= days_to_next(weekday_on(now.date), day) <= 7,
        weekday_on(now.date).after(days_to_next(weekday_on(now.date), day)) == day,
        forall|d: int|
            1 <= d < days_to_next(weekday_on(now.date), day) ==> #[trigger] weekday_on(
                now.date,
            ).after(d) != day,
        weekday_on(now.date) == day ==> days_to_next(weekday_on(now.date), day) == 7,
{
    lemma_days_to_next(weekday_on(now.date), day);
}

/// `tomorrow` is one day after `now` and `yesterday` one day before it, both
/// at the time of day of `now`.
pub proof fn lemma_fixed_offsets(now: Timestamp)
    ensures
        FlexiDate::DayOffset(DayOffset::Fixed(1i32)).resolved(now) == days_shifted(now, 1, false),
        FlexiDate::DayOffset(DayOffset::Fixed(-1i32)).resolved(now) == days_shifted(now, 1, true),
{
}

} // verus!
