//! Calendar values as plain numbers, and the calendar arithmetic that the
//! resolution of a parsed expression needs.
//!
//! The arithmetic itself is done by `chrono`. Each call into it sits behind a
//! small function whose contract is taken on trust; everything else in this
//! crate is proved against those contracts.

use chrono::{Datelike, Days, Months, NaiveDate, TimeDelta, Timelike};
use vstd::prelude::*;

verus! {

/// The earliest year that a date can have.
pub const MIN_YEAR: i32 = -262143;

/// The latest year that a date can have.
pub const MAX_YEAR: i32 = 262142;

/// The largest number of whole seconds, in either direction, by which
/// [`Timestamp::checked_add_seconds`] can be asked to move a timestamp.
pub const MAX_SHIFT_SECONDS: i64 = 9_000_000_000_000_000;

/// Leap years of the proleptic Gregorian calendar, with year 0 and negative
/// years counted astronomically.
pub open spec fn is_leap_year(year: int) -> bool {
    year % 4 == 0 && (year % 100 != 0 || year % 400 == 0)
}

/// The number of days of a month; `month` runs from 1 to 12.
pub open spec fn days_in_month(year: int, month: int) -> int {
    if month == 2 {
        if is_leap_year(year) {
            29
        } else {
            28
        }
    } else if month == 4 || month == 6 || month == 9 || month == 11 {
        30
    } else {
        31
    }
}

/// Whether year, month and day name a day that exists.
pub open spec fn valid_date(year: int, month: int, day: int) -> bool {
    &&& MIN_YEAR <= year <= MAX_YEAR
    &&& 1 <= month <= 12
    &&& 1 <= day <= days_in_month(year, month)
}

/// A day of the week.
#[derive(Debug, Clone, Copy, PartialEq, Eq, Structural)]
pub enum Weekday {
    Mon,
    Tue,
    Wed,
    Thu,
    Fri,
    Sat,
    Sun,
}

impl Weekday {
    /// The number of days from Monday to this day: 0 for Monday, 6 for Sunday.
    pub open spec fn index(self) -> int {
        match self {
            Weekday::Mon => 0,
            Weekday::Tue => 1,
            Weekday::Wed => 2,
            Weekday::Thu => 3,
            Weekday::Fri => 4,
            Weekday::Sat => 5,
            Weekday::Sun => 6,
        }
    }

    /// The weekday with the given number of days from Monday, taken modulo 7.
    pub open spec fn from_index(i: int) -> Weekday {
        let k = i % 7;
        if k == 0 {
            Weekday::Mon
        } else if k == 1 {
            Weekday::Tue
        } else if k == 2 {
            Weekday::Wed
        } else if k == 3 {
            Weekday::Thu
        } else if k == 4 {
            Weekday::Fri
        } else if k == 5 {
            Weekday::Sat
        } else {
            Weekday::Sun
        }
    }

    /// The weekday that falls `days` days after this one.
    pub open spec fn after(self, days: int) -> Weekday {
        Weekday::from_index(self.index() + days)
    }

    /// The number of days from Monday to this day.
    pub fn num_days_from_monday(self) -> (n: u32)
        ensures
            n == self.index(),
    {
        match self {
            Weekday::Mon => 0,
            Weekday::Tue => 1,
            Weekday::Wed => 2,
            Weekday::Thu => 3,
            Weekday::Fri => 4,
            Weekday::Sat => 5,
            Weekday::Sun => 6,
        }
    }

    /// How many days ago the most recent `other` was, counted from a day that
    /// falls on `self`: 0 when both are the same weekday, at most 6.
    pub fn days_since(self, other: Weekday) -> (n: u32)
        ensures
            n == (self.index() - other.index()) % 7,
            0 <= n <= 6,
            other.after(n as int) == self,
    {
        let lhs: u32 = self.num_days_from_monday();
        let rhs: u32 = other.num_days_from_monday();
        if lhs < rhs {
            7 + lhs - rhs
        } else {
            lhs - rhs
        }
    }

    /// The number of days to go forward from a day that falls on `self` to
    /// reach the next day that falls on `target`. The day itself never
    /// counts: from a Monday, the next Monday is 7 days away.
    pub fn days_until_next(self, target: Weekday) -> (n: u32)
        ensures
            n == days_to_next(self, target),
    {
        proof {
            lemma_days_to_next(self, target);
        }
        7 - self.days_since(target)
    }
}

/// The smallest number of days, at least 1, after which a day that falls on
/// `current` is followed by a day that falls on `target`.
pub open spec fn days_to_next(current: Weekday, target: Weekday) -> int {
    7 - (current.index() - target.index()) % 7
}

/// `days_to_next` lies between 1 and 7, leads to the target weekday, and no
/// smaller positive number of days does.
pub proof fn lemma_days_to_next(current: Weekday, target: Weekday)
    ensures
        1 <= days_to_next(current, target) <= 7,
        current.after(days_to_next(current, target)) == target,
        forall|d: int|
            1 <= d < days_to_next(current, target) ==> #[trigger] current.after(d) != target,
{
    let n = days_to_next(current, target);
    assert forall|d: int| 1 <= d < n implies #[trigger] current.after(d) != target by {
        assert(1 <= d <= 6);
    }
}

/// A month of the year.
#[derive(Debug, Clone, Copy, PartialEq, Eq, Structural)]
pub enum Month {
    January,
    February,
    March,
    April,
    May,
    June,
    July,
    August,
    September,
    October,
    November,
    December,
}

/// A day of the proleptic Gregorian calendar.
#[derive(Debug, Clone, Copy, PartialEq, Eq, Structural)]
pub struct CalendarDate {
    pub year: i32,
    pub month: u32,
    pub day: u32,
}

impl CalendarDate {
    /// The date names a day that exists.
    pub open spec fn wf(self) -> bool {
        valid_date(self.year as int, self.month as int, self.day as int)
    }

    /// The date of the given year, month and day, if that day exists.
    pub open spec fn spec_from_ymd(year: int, month: int, day: int) -> Option<CalendarDate> {
        if valid_date(year, month, day) {
            Some(CalendarDate { year: year as i32, month: month as u32, day: day as u32 })
        } else {
            None
        }
    }

    /// The date of the given year, month and day, or `None` if there is no
    /// such day.
    pub fn from_ymd(year: i32, month: u32, day: u32) -> (r: Option<CalendarDate>)
        ensures
            r == CalendarDate::spec_from_ymd(year as int, month as int, day as int),
            r matches Some(d) ==> d.wf(),
    {
        date_from_ymd(year, month, day)
    }

    /// Whether the date names a day that exists.
    pub fn is_valid(&self) -> (b: bool)
        ensures
            b == self.wf(),
    {
        CalendarDate::from_ymd(self.year, self.month, self.day).is_some()
    }

    /// The day of the week on which the date falls.
    pub fn weekday(self) -> (w: Weekday)
        requires
            self.wf(),
        ensures
            w == weekday_on(self),
    {
        weekday_of(self)
    }
}

/// A date together with a time of day, to the nanosecond, in no particular
/// time zone.
#[derive(Debug, Clone, Copy, PartialEq, Eq, Structural)]
pub struct Timestamp {
    pub date: CalendarDate,
    pub hour: u32,
    pub minute: u32,
    pub second: u32,
    pub nanosecond: u32,
}

impl Timestamp {
    /// The date exists and the time of day is in range. A leap second has no
    /// representation.
    pub open spec fn wf(self) -> bool {
        &&& self.date.wf()
        &&& self.hour <= 23
        &&& self.minute <= 59
        &&& self.second <= 59
        &&& self.nanosecond <= 999_999_999
    }

    /// Both timestamps have the same time of day.
    pub open spec fn same_time_of_day(self, other: Timestamp) -> bool {
        &&& self.hour == other.hour
        &&& self.minute == other.minute
        &&& self.second == other.second
        &&& self.nanosecond == other.nanosecond
    }

    /// The timestamp made of the given parts, if they are in range.
    pub open spec fn spec_new(
        date: CalendarDate,
        hour: u32,
        minute: u32,
        second: u32,
        nanosecond: u32,
    ) -> Option<Timestamp> {
        let t = Timestamp { date, hour, minute, second, nanosecond };
        if t.wf() {
            Some(t)
        } else {
            None
        }
    }

    /// The timestamp made of the given parts, or `None` if one of them is out
    /// of range.
    pub fn new(date: CalendarDate, hour: u32, minute: u32, second: u32, nanosecond: u32) -> (r:
        Option<Timestamp>)
        ensures
            r == Timestamp::spec_new(date, hour, minute, second, nanosecond),
    {
        let t = Timestamp { date, hour, minute, second, nanosecond };
        if t.is_valid() {
            Some(t)
        } else {
            None
        }
    }

    /// Whether the date exists and the time of day is in range.
    pub fn is_valid(&self) -> (b: bool)
        ensures
            b == self.wf(),
    {
        self.date.is_valid() && self.hour <= 23 && self.minute <= 59 && self.second <= 59
            && self.nanosecond <= 999_999_999
    }

    /// The same timestamp on another date.
    pub fn with_date(self, date: CalendarDate) -> (r: Timestamp)
        ensures
            r == (Timestamp { date, ..self }),
    {
        Timestamp { date, ..self }
    }

    /// The timestamp moved by a number of whole seconds, forward or back, or
    /// `None` if that leaves the range of dates.
    pub fn checked_add_seconds(self, seconds: i64) -> (r: Option<Timestamp>)
        requires
            self.wf(),
            -MAX_SHIFT_SECONDS <= seconds <= MAX_SHIFT_SECONDS,
        ensures
            r == seconds_added(self, seconds as int),
            r matches Some(t) ==> t.wf(),
    {
        add_seconds(self, seconds)
    }

    /// The timestamp moved by a number of months, forward or back, or `None`
    /// if that leaves the range of dates. The day of the month is kept where
    /// the target month has it, and is the target month's last day otherwise.
    pub fn checked_shift_months(self, months: u32, back: bool) -> (r: Option<Timestamp>)
        requires
            self.wf(),
        ensures
            r == months_shifted(self, if back { -(months as int) } else { months as int }),
            r matches Some(t) ==> t.wf(),
    {
        proof {
            lemma_months_shifted_wf(self, if back { -(months as int) } else { months as int });
        }
        if back {
            sub_months(self, months)
        } else {
            add_months(self, months)
        }
    }

    /// The timestamp moved by a number of days, forward or back, or `None` if
    /// that leaves the range of dates. The time of day stays.
    pub fn checked_shift_days(self, days: u64, back: bool) -> (r: Option<Timestamp>)
        requires
            self.wf(),
        ensures
            r == days_shifted(self, days as int, back),
            r matches Some(t) ==> t.wf() && t.same_time_of_day(self),
    {
        if back {
            sub_days(self, days)
        } else {
            add_days(self, days)
        }
    }
}

/// Where a timestamp lands when it is moved by whole months: the month is
/// counted on from the timestamp's own, the day of the month is clamped to
/// the length of the month reached, and the time of day stays. `None` if the
/// year reached is out of range.
pub open spec fn months_shifted(base: Timestamp, months: int) -> Option<Timestamp> {
    let total = base.date.year * 12 + (base.date.month - 1) + months;
    let year = total / 12;
    let month = total % 12 + 1;
    let last = days_in_month(year, month);
    let day = if base.date.day > last {
        last
    } else {
        base.date.day as int
    };
    if MIN_YEAR <= year <= MAX_YEAR {
        Some(
            Timestamp {
                date: CalendarDate { year: year as i32, month: month as u32, day: day as u32 },
                ..base
            },
        )
    } else {
        None
    }
}

/// A valid timestamp moved by whole months is a valid timestamp.
pub proof fn lemma_months_shifted_wf(base: Timestamp, months: int)
    requires
        base.wf(),
    ensures
        months_shifted(base, months) matches Some(t) ==> t.wf() && t.same_time_of_day(base),
        months == 0 ==> months_shifted(base, months) == Some(base),
{
}

/// Where a timestamp lands when it is moved by whole days, forward or back.
pub open spec fn days_shifted(base: Timestamp, days: int, back: bool) -> Option<Timestamp> {
    if back {
        days_subtracted(base, days)
    } else {
        days_added(base, days)
    }
}

/// The weekday of a date, as `chrono` computes it.
pub uninterp spec fn weekday_on(date: CalendarDate) -> Weekday;

/// The timestamp that `chrono` reaches from `base` by adding a signed number
/// of seconds, or `None` where it reports an overflow.
pub uninterp spec fn seconds_added(base: Timestamp, seconds: int) -> Option<Timestamp>;

/// The timestamp that `chrono` reaches from `base` by adding days, or `None`
/// where it reports an overflow.
pub uninterp spec fn days_added(base: Timestamp, days: int) -> Option<Timestamp>;

/// The timestamp that `chrono` reaches from `base` by subtracting days, or
/// `None` where it reports an overflow.
pub uninterp spec fn days_subtracted(base: Timestamp, days: int) -> Option<Timestamp>;

/// Trusted: `chrono::NaiveDate::from_ymd_opt`. It returns a date exactly for
/// the triples that name an existing day of a year in range, and that date
/// has the year, month and day it was made from.
#[verifier::external_body]
fn date_from_ymd(year: i32, month: u32, day: u32) -> (r: Option<CalendarDate>)
    ensures
        r == CalendarDate::spec_from_ymd(year as int, month as int, day as int),
{
    NaiveDate::from_ymd_opt(year, month, day).map(
        |d| CalendarDate { year: d.year(), month: d.month(), day: d.day() },
    )
}

/// Trusted: `chrono::NaiveDate::weekday`. The result is a function of the
/// date alone; nothing more is claimed of it.
#[verifier::external_body]
fn weekday_of(date: CalendarDate) -> (w: Weekday)
    requires
        date.wf(),
    ensures
        w == weekday_on(date),
{
    match NaiveDate::from_ymd_opt(date.year, date.month, date.day).unwrap().weekday() {
        chrono::Weekday::Mon => Weekday::Mon,
        chrono::Weekday::Tue => Weekday::Tue,
        chrono::Weekday::Wed => Weekday::Wed,
        chrono::Weekday::Thu => Weekday::Thu,
        chrono::Weekday::Fri => Weekday::Fri,
        chrono::Weekday::Sat => Weekday::Sat,
        chrono::Weekday::Sun => Weekday::Sun,
    }
}

/// Trusted: `chrono::NaiveDateTime::checked_add_signed` with a `TimeDelta` of
/// whole seconds. The result is a function of the timestamp and the number of
/// seconds, and is a valid timestamp when there is one.
#[verifier::external_body]
fn add_seconds(base: Timestamp, seconds: i64) -> (r: Option<Timestamp>)
    requires
        base.wf(),
        -MAX_SHIFT_SECONDS <= seconds <= MAX_SHIFT_SECONDS,
    ensures
        r == seconds_added(base, seconds as int),
        r matches Some(t) ==> t.wf(),
{
    let d = NaiveDate::from_ymd_opt(base.date.year, base.date.month, base.date.day).unwrap();
    let start = d.and_hms_nano_opt(base.hour, base.minute, base.second, base.nanosecond).unwrap();
    start.checked_add_signed(TimeDelta::seconds(seconds)).map(
        |t| Timestamp {
            date: CalendarDate { year: t.year(), month: t.month(), day: t.day() },
            hour: t.hour(),
            minute: t.minute(),
            second: t.second(),
            nanosecond: t.nanosecond(),
        },
    )
}

/// Trusted: `chrono::NaiveDateTime::checked_add_months`. It counts the months
/// on, uses the last day of the month reached where the day does not exist
/// there, keeps the time of day, and returns `None` when the year reached is
/// out of range.
#[verifier::external_body]
fn add_months(base: Timestamp, months: u32) -> (r: Option<Timestamp>)
    requires
        base.wf(),
    ensures
        r == months_shifted(base, months as int),
{
    let d = NaiveDate::from_ymd_opt(base.date.year, base.date.month, base.date.day).unwrap();
    let start = d.and_hms_nano_opt(base.hour, base.minute, base.second, base.nanosecond).unwrap();
    start.checked_add_months(Months::new(months)).map(
        |t| Timestamp {
            date: CalendarDate { year: t.year(), month: t.month(), day: t.day() },
            hour: t.hour(),
            minute: t.minute(),
            second: t.second(),
            nanosecond: t.nanosecond(),
        },
    )
}

/// Trusted: `chrono::NaiveDateTime::checked_sub_months`. It counts the months
/// back, uses the last day of the month reached where the day does not exist
/// there, keeps the time of day, and returns `None` when the year reached is
/// out of range.
#[verifier::external_body]
fn sub_months(base: Timestamp, months: u32) -> (r: Option<Timestamp>)
    requires
        base.wf(),
    ensures
        r == months_shifted(base, -(months as int)),
{
    let d = NaiveDate::from_ymd_opt(base.date.year, base.date.month, base.date.day).unwrap();
    let start = d.and_hms_nano_opt(base.hour, base.minute, base.second, base.nanosecond).unwrap();
    start.checked_sub_months(Months::new(months)).map(
        |t| Timestamp {
            date: CalendarDate { year: t.year(), month: t.month(), day: t.day() },
            hour: t.hour(),
            minute: t.minute(),
            second: t.second(),
            nanosecond: t.nanosecond(),
        },
    )
}

/// Trusted: `chrono::NaiveDateTime::checked_add_days`. The result is a
/// function of the timestamp and the number of days; when there is one it is
/// a valid timestamp with the time of day of `base`.
#[verifier::external_body]
fn add_days(base: Timestamp, days: u64) -> (r: Option<Timestamp>)
    requires
        base.wf(),
    ensures
        r == days_added(base, days as int),
        r matches Some(t) ==> t.wf() && t.same_time_of_day(base),
{
    let d = NaiveDate::from_ymd_opt(base.date.year, base.date.month, base.date.day).unwrap();
    let start = d.and_hms_nano_opt(base.hour, base.minute, base.second, base.nanosecond).unwrap();
    start.checked_add_days(Days::new(days)).map(
        |t| Timestamp {
            date: CalendarDate { year: t.year(), month: t.month(), day: t.day() },
            hour: t.hour(),
            minute: t.minute(),
            second: t.second(),
            nanosecond: t.nanosecond(),
        },
    )
}

/// Trusted: `chrono::NaiveDateTime::checked_sub_days`. The result is a
/// function of the timestamp and the number of days; when there is one it is
/// a valid timestamp with the time of day of `base`.
#[verifier::external_body]
fn sub_days(base: Timestamp, days: u64) -> (r: Option<Timestamp>)
    requires
        base.wf(),
    ensures
        r == days_subtracted(base, days as int),
        r matches Some(t) ==> t.wf() && t.same_time_of_day(base),
{
    let d = NaiveDate::from_ymd_opt(base.date.year, base.date.month, base.date.day).unwrap();
    let start = d.and_hms_nano_opt(base.hour, base.minute, base.second, base.nanosecond).unwrap();
    start.checked_sub_days(Days::new(days)).map(
        |t| Timestamp {
            date: CalendarDate { year: t.year(), month: t.month(), day: t.day() },
            hour: t.hour(),
            minute: t.minute(),
            second: t.second(),
            nanosecond: t.nanosecond(),
        },
    )
}

} // verus!
