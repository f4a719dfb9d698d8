//! Months named by their names, which `this` or `next` may precede.

use crate::calendar::Month;
use crate::error::{agrees, agrees_at, soft, Cause, FlexitimeError, FlexitimeResult, Located, Outcome, ParseFailure};
use crate::parser::absolute::day_offset::{after_this_or_next, skip_this_or_next};
use crate::parser::primitives::{conclude, found_or, match_name, name_at, to_chars};
use vstd::prelude::*;

verus! {

/// A month given by where it lies from today.
#[derive(Debug, Clone, Copy, PartialEq, Eq, Structural)]
pub enum MonthOffset {
    /// The next month of this name.
    NextMonthOccurrence(Month),
}

impl Month {
    /// The full name of the month, in small letters.
    pub open spec fn long_name(self) -> Seq<char> {
        match self {
            Month::January => "january"@,
            Month::February => "february"@,
            Month::March => "march"@,
            Month::April => "april"@,
            Month::May => "may"@,
            Month::June => "june"@,
            Month::July => "july"@,
            Month::August => "august"@,
            Month::September => "september"@,
            Month::October => "october"@,
            Month::November => "november"@,
            Month::December => "december"@,
        }
    }

    /// The first three letters of the month's name.
    pub open spec fn short_name(self) -> Seq<char> {
        match self {
            Month::January => "jan"@,
            Month::February => "feb"@,
            Month::March => "mar"@,
            Month::April => "apr"@,
            Month::May => "may"@,
            Month::June => "jun"@,
            Month::July => "jul"@,
            Month::August => "aug"@,
            Month::September => "sep"@,
            Month::October => "oct"@,
            Month::November => "nov"@,
            Month::December => "dec"@,
        }
    }

    /// The two forms of the month's name: the full one and the short one.
    pub fn names(self) -> (r: (&'static str, &'static str))
        ensures
            r.0@ == self.long_name(),
            r.1@ == self.short_name(),
    {
        match self {
            Month::January => ("january", "jan"),
            Month::February => ("february", "feb"),
            Month::March => ("march", "mar"),
            Month::April => ("april", "apr"),
            Month::May => ("may", "may"),
            Month::June => ("june", "jun"),
            Month::July => ("july", "jul"),
            Month::August => ("august", "aug"),
            Month::September => ("september", "sep"),
            Month::October => ("october", "oct"),
            Month::November => ("november", "nov"),
            Month::December => ("december", "dec"),
        }
    }

    /// The month that follows this one in the year, if there is one.
    pub fn following(self) -> (r: Option<Month>)
        ensures
            r == self.spec_following(),
    {
        match self {
            Month::January => Some(Month::February),
            Month::February => Some(Month::March),
            Month::March => Some(Month::April),
            Month::April => Some(Month::May),
            Month::May => Some(Month::June),
            Month::June => Some(Month::July),
            Month::July => Some(Month::August),
            Month::August => Some(Month::September),
            Month::September => Some(Month::October),
            Month::October => Some(Month::November),
            Month::November => Some(Month::December),
            Month::December => None,
        }
    }

    /// The month that follows this one in the year, if there is one.
    pub open spec fn spec_following(self) -> Option<Month> {
        match self {
            Month::January => Some(Month::February),
            Month::February => Some(Month::March),
            Month::March => Some(Month::April),
            Month::April => Some(Month::May),
            Month::May => Some(Month::June),
            Month::June => Some(Month::July),
            Month::July => Some(Month::August),
            Month::August => Some(Month::September),
            Month::September => Some(Month::October),
            Month::October => Some(Month::November),
            Month::November => Some(Month::December),
            Month::December => None,
        }
    }

    /// How many months follow this one in the year.
    pub open spec fn months_left(self) -> nat {
        match self {
            Month::January => 11,
            Month::February => 10,
            Month::March => 9,
            Month::April => 8,
            Month::May => 7,
            Month::June => 6,
            Month::July => 5,
            Month::August => 4,
            Month::September => 3,
            Month::October => 2,
            Month::November => 1,
            Month::December => 0,
        }
    }
}

/// Where the name of the given month ends, if it stands at `pos`.
pub open spec fn month_name_at(s: Seq<char>, pos: int, month: Month) -> Option<int> {
    name_at(s, pos, month.long_name(), month.short_name())
}

/// The first month, from `month` to December, whose name stands at `pos`, and
/// where the name ends.
pub open spec fn month_from(s: Seq<char>, pos: int, month: Month) -> Option<(Month, int)>
    decreases month.months_left(),
{
    found_or(
        month,
        month_name_at(s, pos, month),
        match month.spec_following() {
            Some(next) => month_from(s, pos, next),
            None => None,
        },
    )
}

/// The grammar of a month offset from position `pos` on: the name of a
/// month, which `this` or `next` may precede. Letter case does not count.
pub open spec fn month_offset_grammar(s: Seq<char>, pos: int) -> Outcome<MonthOffset> {
    let start = after_this_or_next(s, pos);
    match month_from(s, start, Month::January) {
        Some((month, end)) => Outcome::Parsed {
            value: MonthOffset::NextMonthOccurrence(month),
            end,
        },
        None => soft(Cause::Mismatch(start)),
    }
}

/// The first month, from January to December, whose name stands at `pos`,
/// and where the name ends.
pub fn find_month(s: &[char], pos: usize) -> (r: Option<(Month, usize)>)
    requires
        pos <= s.len(),
    ensures
        match month_from(s@, pos as int, Month::January) {
            Some((month, end)) => r matches Some(p) && p.0 == month && p.1 == end && pos <= end
                <= s.len(),
            None => r is None,
        },
{
    let mut month = Month::January;
    loop
        invariant
            pos <= s.len(),
            month_from(s@, pos as int, Month::January) == month_from(s@, pos as int, month),
        decreases month.months_left(),
    {
        let (long, short) = month.names();
        if let Some(end) = match_name(s, pos, long, short) {
            return Some((month, end));
        }
        match month.following() {
            Some(next) => {
                month = next;
            },
            None => {
                return None;
            },
        }
    }
}

/// Reads a month offset at position `pos` of a text.
fn month_offset_at(s: &[char], pos: usize) -> (r: Located<MonthOffset>)
    requires
        pos <= s.len(),
    ensures
        agrees_at(r, month_offset_grammar(s@, pos as int)),
        r matches Ok(p) ==> pos <= p.0 <= s.len(),
{
    let start: usize = skip_this_or_next(s, pos);
    match find_month(s, start) {
        Some((month, end)) => Ok((end, MonthOffset::NextMonthOccurrence(month))),
        None => Err(ParseFailure::Recoverable(FlexitimeError::Mismatch(start))),
    }
}

/// Reads a month offset at the start of the input.
pub fn parse_month_offset(input: &str) -> (r: FlexitimeResult<'_, MonthOffset>)
    ensures
        agrees(r, input@, month_offset_grammar(input@, 0)),
{
    let chars = to_chars(input);
    conclude(input, chars.len(), month_offset_at(chars.as_slice(), 0))
}

} // verus!
