//! A relative expression as a value, and the instant it stands for.

use crate::calendar::{months_shifted, seconds_added, Timestamp, MAX_YEAR, MIN_YEAR};
use crate::parser::relative::units::{ParsedUnit, RelativeUnit};
use vstd::prelude::*;

verus! {

/// Amounts of the seven units, each given or not, and the direction in which
/// they count from now. A unit that is not given moves nothing.
#[derive(Debug, Clone, Copy, PartialEq, Eq, Structural)]
pub struct RelativeTime {
    pub seconds: Option<u32>,
    pub minutes: Option<u32>,
    pub hours: Option<u32>,
    pub days: Option<u32>,
    pub weeks: Option<u32>,
    pub months: Option<u32>,
    pub years: Option<u32>,
    pub negative: bool,
}

/// The amount of a unit; 0 where it is not given.
pub open spec fn amount(given: Option<u32>) -> int {
    match given {
        Some(n) => n as int,
        None => 0,
    }
}

impl Default for RelativeTime {
    fn default() -> (r: RelativeTime)
        ensures
            r == RelativeTime::empty(),
    {
        RelativeTime {
            seconds: None,
            minutes: None,
            hours: None,
            days: None,
            weeks: None,
            months: None,
            years: None,
            negative: false,
        }
    }
}

impl RelativeTime {
    /// No unit given, counting on from now.
    pub open spec fn empty() -> RelativeTime {
        RelativeTime {
            seconds: None,
            minutes: None,
            hours: None,
            days: None,
            weeks: None,
            months: None,
            years: None,
            negative: false,
        }
    }

    /// The same with the amount of one unit set. An amount that was given
    /// for that unit before is lost.
    pub open spec fn with_unit(self, parsed: ParsedUnit) -> RelativeTime {
        match parsed.unit {
            RelativeUnit::Seconds => RelativeTime { seconds: Some(parsed.amount), ..self },
            RelativeUnit::Minutes => RelativeTime { minutes: Some(parsed.amount), ..self },
            RelativeUnit::Hours => RelativeTime { hours: Some(parsed.amount), ..self },
            RelativeUnit::Days => RelativeTime { days: Some(parsed.amount), ..self },
            RelativeUnit::Weeks => RelativeTime { weeks: Some(parsed.amount), ..self },
            RelativeUnit::Months => RelativeTime { months: Some(parsed.amount), ..self },
            RelativeUnit::Years => RelativeTime { years: Some(parsed.amount), ..self },
        }
    }

    /// One of the units of fixed length is given: seconds, minutes, hours,
    /// days or weeks.
    pub open spec fn has_fixed_part(self) -> bool {
        self.seconds is Some || self.minutes is Some || self.hours is Some || self.days is Some
            || self.weeks is Some
    }

    /// The units of fixed length together, in seconds.
    pub open spec fn fixed_seconds(self) -> int {
        amount(self.seconds) + 60 * amount(self.minutes) + 3_600 * amount(self.hours) + 86_400
            * amount(self.days) + 604_800 * amount(self.weeks)
    }

    /// A number of units with the direction of this expression: negative
    /// where it counts back.
    pub open spec fn directed(self, n: int) -> int {
        if self.negative {
            -n
        } else {
            n
        }
    }

    /// The instant that the expression stands for, counted from `base`. The
    /// units of fixed length move the instant by their sum, in one step.
    /// The months move it next, and the years last, as twelve months each;
    /// both keep the day of the month where the month reached has it, and
    /// take that month's last day otherwise. `None` where a step leaves the
    /// range of dates.
    pub open spec fn resolved(self, base: Timestamp) -> Option<Timestamp> {
        let moved = if self.has_fixed_part() {
            seconds_added(base, self.directed(self.fixed_seconds()))
        } else {
            Some(base)
        };
        let by_months = match (moved, self.months) {
            (Some(t), Some(n)) => months_shifted(t, self.directed(n as int)),
            _ => moved,
        };
        match (by_months, self.years) {
            (Some(t), Some(n)) => months_shifted(t, self.directed(12 * n)),
            _ => by_months,
        }
    }

    /// No unit given, counting on from now.
    pub fn new() -> (r: RelativeTime)
        ensures
            r == RelativeTime::empty(),
    {
        RelativeTime {
            seconds: None,
            minutes: None,
            hours: None,
            days: None,
            weeks: None,
            months: None,
            years: None,
            negative: false,
        }
    }

    /// The same, counting back from now.
    pub fn ago(self) -> (r: RelativeTime)
        ensures
            r == (RelativeTime { negative: true, ..self }),
    {
        RelativeTime { negative: true, ..self }
    }

    /// The same, counting on from now.
    pub fn hence(self) -> (r: RelativeTime)
        ensures
            r == (RelativeTime { negative: false, ..self }),
    {
        RelativeTime { negative: false, ..self }
    }

    /// The same with the seconds set.
    pub fn seconds(self, seconds: u32) -> (r: RelativeTime)
        ensures
            r == (RelativeTime { seconds: Some(seconds), ..self }),
    {
        RelativeTime { seconds: Some(seconds), ..self }
    }

    /// The same with the minutes set.
    pub fn minutes(self, minutes: u32) -> (r: RelativeTime)
        ensures
            r == (RelativeTime { minutes: Some(minutes), ..self }),
    {
        RelativeTime { minutes: Some(minutes), ..self }
    }

    /// The same with the hours set.
    pub fn hours(self, hours: u32) -> (r: RelativeTime)
        ensures
            r == (RelativeTime { hours: Some(hours), ..self }),
    {
        RelativeTime { hours: Some(hours), ..self }
    }

    /// The same with the days set.
    pub fn days(self, days: u32) -> (r: RelativeTime)
        ensures
            r == (RelativeTime { days: Some(days), ..self }),
    {
        RelativeTime { days: Some(days), ..self }
    }

    /// The same with the weeks set.
    pub fn weeks(self, weeks: u32) -> (r: RelativeTime)
        ensures
            r == (RelativeTime { weeks: Some(weeks), ..self }),
    {
        RelativeTime { weeks: Some(weeks), ..self }
    }

    /// The same with the months set.
    pub fn months(self, months: u32) -> (r: RelativeTime)
        ensures
            r == (RelativeTime { months: Some(months), ..self }),
    {
        RelativeTime { months: Some(months), ..self }
    }

    /// The same with the years set.
    pub fn years(self, years: u32) -> (r: RelativeTime)
        ensures
            r == (RelativeTime { years: Some(years), ..self }),
    {
        RelativeTime { years: Some(years), ..self }
    }

    /// The same with the amount of one unit set.
    pub fn set(self, parsed: ParsedUnit) -> (r: RelativeTime)
        ensures
            r == self.with_unit(parsed),
    {
        match parsed.unit {
            RelativeUnit::Seconds => self.seconds(parsed.amount),
            RelativeUnit::Minutes => self.minutes(parsed.amount),
            RelativeUnit::Hours => self.hours(parsed.amount),
            RelativeUnit::Days => self.days(parsed.amount),
            RelativeUnit::Weeks => self.weeks(parsed.amount),
            RelativeUnit::Months => self.months(parsed.amount),
            RelativeUnit::Years => self.years(parsed.amount),
        }
    }

    /// The units of fixed length together, in seconds and with the
    /// direction of the expression.
    pub fn fixed_offset(&self) -> (r: i64)
        ensures
            r == self.directed(self.fixed_seconds()),
            -2_984_405_759_593_995 <= r <= 2_984_405_759_593_995,
    {
        let s: i64 = match self.seconds {
            Some(n) => n as i64,
            None => 0,
        };
        let m: i64 = match self.minutes {
            Some(n) => n as i64,
            None => 0,
        };
        let h: i64 = match self.hours {
            Some(n) => n as i64,
            None => 0,
        };
        let d: i64 = match self.days {
            Some(n) => n as i64,
            None => 0,
        };
        let w: i64 = match self.weeks {
            Some(n) => n as i64,
            None => 0,
        };
        let total: i64 = s + 60 * m + 3_600 * h + 86_400 * d + 604_800 * w;
        if self.negative {
            -total
        } else {
            total
        }
    }

    /// The instant that the expression stands for, counted from
    /// `base_time`, or `None` where the arithmetic leaves the range of
    /// dates.
    pub fn to_chrono(&self, base_time: Timestamp) -> (r: Option<Timestamp>)
        requires
            base_time.wf(),
        ensures
            r == self.resolved(base_time),
            r matches Some(t) ==> t.wf(),
    {
        let mut t = base_time;
        if self.seconds.is_some() || self.minutes.is_some() || self.hours.is_some()
            || self.days.is_some() || self.weeks.is_some() {
            t = match t.checked_add_seconds(self.fixed_offset()) {
                Some(moved) => moved,
                None => {
                    return None;
                },
            };
        }
        if let Some(n) = self.months {
            t = match t.checked_shift_months(n, self.negative) {
                Some(moved) => moved,
                None => {
                    return None;
                },
            };
        }
        if let Some(n) = self.years {
            if n > u32::MAX / 12 {
                proof {
                    lemma_far_months(t, self.directed(12 * n));
                }
                return None;
            }
            t = match t.checked_shift_months(n * 12, self.negative) {
                Some(moved) => moved,
                None => {
                    return None;
                },
            };
        }
        Some(t)
    }
}

/// A shift by more months than the range of years holds leads nowhere.
pub proof fn lemma_far_months(base: Timestamp, months: int)
    requires
        base.wf(),
        months > 12 * 600_000 || months < -12 * 600_000,
    ensures
        months_shifted(base, months) is None,
{
    let total = base.date.year * 12 + (base.date.month - 1) + months;
    if months > 0 {
        assert(total / 12 > MAX_YEAR) by (nonlinear_arith)
            requires
                total > 12 * 600_000 - 12 * 262_143,
        ;
    } else {
        assert(total / 12 < MIN_YEAR) by (nonlinear_arith)
            requires
                total < -12 * 600_000 + 12 * 262_143 + 12,
        ;
    }
}

/// The units of fixed length count by their sum alone: two expressions that
/// agree in it, and in their months, years and direction, stand for the same
/// instant. So a day is 24 hours, and the order in which the units were
/// given is of no account.
pub proof fn lemma_fixed_units_add_up(a: RelativeTime, b: RelativeTime, base: Timestamp)
    requires
        a.has_fixed_part() == b.has_fixed_part(),
        a.fixed_seconds() == b.fixed_seconds(),
        a.months == b.months,
        a.years == b.years,
        a.negative == b.negative,
    ensures
        a.resolved(base) == b.resolved(base),
{
}

/// An expression that gives no unit stands for the reference instant.
pub proof fn lemma_nothing_given(negative: bool, base: Timestamp)
    ensures
        (RelativeTime { negative, ..RelativeTime::empty() }).resolved(base) == Some(base),
{
}

/// Two amounts of different units can be set in either order.
pub proof fn lemma_units_commute(time: RelativeTime, a: ParsedUnit, b: ParsedUnit)
    requires
        a.unit != b.unit,
    ensures
        time.with_unit(a).with_unit(b) == time.with_unit(b).with_unit(a),
{
}

/// Of two amounts of one unit, the one that is set last stays.
pub proof fn lemma_last_amount_wins(time: RelativeTime, a: ParsedUnit, b: ParsedUnit)
    requires
        a.unit == b.unit,
    ensures
        time.with_unit(a).with_unit(b) == time.with_unit(b),
{
}

} // verus!
