//! Calendar dates written in numbers: day, month and year, or year, month
//! and day, with `-` or `/` between the parts.

use crate::calendar::CalendarDate;
use crate::error::{
    agrees, agrees_at, hard, soft, Cause, FlexitimeError, FlexitimeResult, Located, NumberError,
    Outcome, ParseFailure,
};
use crate::parser::primitives::{
    conclude, decimal_value, four_digits, lemma_digits_at, lemma_four_digits,
    lemma_one_or_two_digits, lemma_run_digits, lemma_run_exact, lemma_run_len,
    lemma_text_at_char, lemma_text_at_parts, one_or_two_digits, read_small, run_len, scan_run,
    text_at, to_chars, CharClass,
};
use vstd::prelude::*;

verus! {

/// The three parts of a date.
#[derive(Debug, Clone, Copy, PartialEq, Eq, Structural)]
pub enum DateComponent {
    Day,
    Month,
    Year,
}

/// Why a text is not a date.
#[derive(Debug, Clone, Copy, PartialEq, Eq, Structural)]
pub enum AbsoluteDateError {
    /// The digits of a part do not stand for a number of its width. No text
    /// gives this error: a part has at most four digits.
    UnparseableComponent(DateComponent, NumberError),
    /// A part is larger than any date allows.
    OutOfRangeComponent(DateComponent, u16),
    /// The parts are in range, but the month has no such day.
    InvalidDate,
}

impl DateComponent {
    /// The fewest digits that the part is written with.
    pub open spec fn min_digits(self) -> nat {
        match self {
            DateComponent::Year => 4,
            _ => 1,
        }
    }

    /// The most digits that are read for the part.
    pub open spec fn max_digits(self) -> nat {
        match self {
            DateComponent::Year => 4,
            _ => 2,
        }
    }

    /// The largest value that the part can have in any date.
    pub open spec fn limit(self) -> int {
        match self {
            DateComponent::Day => 31,
            DateComponent::Month => 12,
            DateComponent::Year => 3000,
        }
    }

    fn digits(self) -> (r: (usize, usize))
        ensures
            r.0 == self.min_digits(),
            r.1 == self.max_digits(),
            r.0 <= r.1 <= 4,
    {
        match self {
            DateComponent::Year => (4, 4),
            _ => (1, 2),
        }
    }

    fn largest(self) -> (r: u16)
        ensures
            r == self.limit(),
    {
        match self {
            DateComponent::Day => 31,
            DateComponent::Month => 12,
            DateComponent::Year => 3000,
        }
    }
}

/// A `-` or a `/` stands at `pos`.
pub open spec fn delimiter_at(s: Seq<char>, pos: int) -> bool {
    0 <= pos < s.len() && (s[pos] == '-' || s[pos] == '/')
}

/// The failure for a part that is larger than its limit.
pub open spec fn out_of_range<T>(part: DateComponent, value: nat) -> Outcome<T> {
    hard(Cause::Date(AbsoluteDateError::OutOfRangeComponent(part, value as u16)))
}

/// The date that three parts in range make, if there is such a day.
pub open spec fn assembled(year: nat, month: nat, day: nat, end: int) -> Outcome<CalendarDate> {
    match CalendarDate::spec_from_ymd(year as int, month as int, day as int) {
        Some(date) => Outcome::Parsed { value: date, end },
        None => hard(Cause::Date(AbsoluteDateError::InvalidDate)),
    }
}

/// The grammar of a date in one of its two orders: day, month, year, or,
/// with `year_first`, year, month, day. A day and a month have one or two
/// digits, a year has four, and each of the two delimiters is `-` or `/`.
///
/// A text that does not have this shape is a recoverable failure. A part out
/// of range and a day that does not exist are hard failures. A leading year
/// is held against its range as soon as its four digits are read. A leading
/// day is held against its range once a delimiter follows it, so that a text
/// that starts with other digits can still be read in another way.
pub open spec fn date_in_order(s: Seq<char>, pos: int, year_first: bool) -> Outcome<CalendarDate> {
    let first = if year_first {
        DateComponent::Year
    } else {
        DateComponent::Day
    };
    let last = if year_first {
        DateComponent::Day
    } else {
        DateComponent::Year
    };
    let first_len = run_len(s, pos, CharClass::Digit, first.max_digits());
    let first_value = decimal_value(s.subrange(pos, pos + first_len));
    let after_first = pos + first_len;
    let month_len = run_len(s, after_first + 1, CharClass::Digit, 2);
    let month_value = decimal_value(s.subrange(after_first + 1, after_first + 1 + month_len));
    let after_second = after_first + 1 + month_len;
    let last_len = run_len(s, after_second + 1, CharClass::Digit, last.max_digits());
    let last_value = decimal_value(s.subrange(after_second + 1, after_second + 1 + last_len));
    if first_len < first.min_digits() {
        soft(Cause::Mismatch(pos))
    } else if year_first && first_value > first.limit() {
        out_of_range(first, first_value)
    } else if !delimiter_at(s, after_first) {
        soft(Cause::Mismatch(after_first))
    } else if first_value > first.limit() {
        out_of_range(first, first_value)
    } else if month_len < 1 {
        soft(Cause::Mismatch(after_first + 1))
    } else if month_value > DateComponent::Month.limit() {
        out_of_range(DateComponent::Month, month_value)
    } else if !delimiter_at(s, after_second) {
        soft(Cause::Mismatch(after_second))
    } else if last_len < last.min_digits() {
        soft(Cause::Mismatch(after_second + 1))
    } else if last_value > last.limit() {
        out_of_range(last, last_value)
    } else if year_first {
        assembled(first_value, month_value, last_value, after_second + 1 + last_len)
    } else {
        assembled(last_value, month_value, first_value, after_second + 1 + last_len)
    }
}

/// The grammar of a date from position `pos` on. The order day, month, year
/// is tried first; the order year, month, day only after a recoverable
/// failure of the first.
pub open spec fn date_grammar(s: Seq<char>, pos: int) -> Outcome<CalendarDate> {
    date_in_order(s, pos, false).or(date_in_order(s, pos, true))
}

/// A date takes up at least one character, and none beyond the end of the
/// text.
pub proof fn lemma_date_end(s: Seq<char>, pos: int)
    requires
        0 <= pos <= s.len(),
    ensures
        date_grammar(s, pos) matches Outcome::Parsed { end, .. } ==> pos < end <= s.len(),
{
    lemma_date_in_order_end(s, pos, false);
    lemma_date_in_order_end(s, pos, true);
}

/// A date in either order takes up at least one character, and none beyond
/// the end of the text.
pub proof fn lemma_date_in_order_end(s: Seq<char>, pos: int, year_first: bool)
    requires
        0 <= pos <= s.len(),
    ensures
        date_in_order(s, pos, year_first) matches Outcome::Parsed { end, .. } ==> pos < end
            <= s.len(),
{
    let first = if year_first {
        DateComponent::Year
    } else {
        DateComponent::Day
    };
    let last = if year_first {
        DateComponent::Day
    } else {
        DateComponent::Year
    };
    lemma_run_len(s, pos, CharClass::Digit, first.max_digits());
    let after_first = pos + run_len(s, pos, CharClass::Digit, first.max_digits());
    if delimiter_at(s, after_first) {
        lemma_run_len(s, after_first + 1, CharClass::Digit, 2);
        let after_second = after_first + 1 + run_len(s, after_first + 1, CharClass::Digit, 2);
        if delimiter_at(s, after_second) {
            lemma_run_len(s, after_second + 1, CharClass::Digit, last.max_digits());
        }
    }
}

/// A date written in digits: the day and the month with two digits, or with
/// one where `padded` is not set and they have no more, the year with four,
/// and a delimiter behind each of the first two parts.
pub open spec fn date_text(
    year: int,
    month: int,
    day: int,
    year_first: bool,
    first_delimiter: char,
    second_delimiter: char,
    padded: bool,
) -> Seq<char> {
    if year_first {
        four_digits(year) + seq![first_delimiter] + one_or_two_digits(month, padded)
            + seq![second_delimiter] + one_or_two_digits(day, padded)
    } else {
        one_or_two_digits(day, padded) + seq![first_delimiter] + one_or_two_digits(month, padded)
            + seq![second_delimiter] + four_digits(year)
    }
}

/// Reading gives back what was written: the text of a day that exists, in a
/// year from 0 to 3000, in either order and with either delimiter in either
/// place, is read as that date and to its end, wherever it stands and
/// whatever but a digit follows it.
pub proof fn lemma_date_text_reads(
    s: Seq<char>,
    pos: int,
    date: CalendarDate,
    year_first: bool,
    first_delimiter: char,
    second_delimiter: char,
    padded: bool,
)
    requires
        date.wf(),
        0 <= date.year <= 3000,
        first_delimiter == '-' || first_delimiter == '/',
        second_delimiter == '-' || second_delimiter == '/',
        text_at(
            s,
            pos,
            date_text(
                date.year as int,
                date.month as int,
                date.day as int,
                year_first,
                first_delimiter,
                second_delimiter,
                padded,
            ),
        ),
        ({
            let end = pos + date_text(
                date.year as int,
                date.month as int,
                date.day as int,
                year_first,
                first_delimiter,
                second_delimiter,
                padded,
            ).len();
            end == s.len() || !CharClass::Digit.holds(s[end])
        }),
    ensures
        date_grammar(s, pos) == (Outcome::Parsed {
            value: date,
            end: pos + date_text(
                date.year as int,
                date.month as int,
                date.day as int,
                year_first,
                first_delimiter,
                second_delimiter,
                padded,
            ).len(),
        }),
        pos < s.len() && CharClass::Digit.holds(s[pos]),
{
    let year = date.year as int;
    let month = date.month as int;
    let day = date.day as int;
    let first = if year_first {
        four_digits(year)
    } else {
        one_or_two_digits(day, padded)
    };
    let middle = one_or_two_digits(month, padded);
    let last = if year_first {
        one_or_two_digits(day, padded)
    } else {
        four_digits(year)
    };
    let d1 = seq![first_delimiter];
    let d2 = seq![second_delimiter];
    lemma_four_digits(year);
    lemma_one_or_two_digits(day, padded);
    lemma_one_or_two_digits(month, padded);
    assert(date_text(year, month, day, year_first, first_delimiter, second_delimiter, padded)
        == first + d1 + middle + d2 + last);
    lemma_text_at_parts(s, pos, first + d1 + middle + d2, last);
    lemma_text_at_parts(s, pos, first + d1 + middle, d2);
    lemma_text_at_parts(s, pos, first + d1, middle);
    lemma_text_at_parts(s, pos, first, d1);
    let after_first = pos + first.len();
    let after_middle = after_first + 1 + middle.len();
    lemma_text_at_char(s, after_first, d1, 0);
    lemma_text_at_char(s, after_middle, d2, 0);
    lemma_text_at_char(s, pos, first, 0);
    assert(CharClass::Digit.holds(first[0]));
    lemma_digits_at(s, after_first + 1, middle, 2);
    if year_first {
        lemma_text_at_char(s, pos, first, 1);
        lemma_text_at_char(s, pos, first, 2);
        assert(CharClass::Digit.holds(first[1]));
        assert(CharClass::Digit.holds(first[2]));
        lemma_run_exact(s, pos, CharClass::Digit, 2, 2);
        assert(date_in_order(s, pos, false) == soft::<CalendarDate>(Cause::Mismatch(pos + 2)));
        lemma_digits_at(s, pos, first, 4);
        lemma_digits_at(s, after_middle + 1, last, 2);
        assert(date_in_order(s, pos, true) == assembled(
            year as nat,
            month as nat,
            day as nat,
            after_middle + 1 + last.len(),
        ));
    } else {
        lemma_digits_at(s, pos, first, 2);
        lemma_digits_at(s, after_middle + 1, last, 4);
        assert(date_in_order(s, pos, false) == assembled(
            year as nat,
            month as nat,
            day as nat,
            after_middle + 1 + last.len(),
        ));
    }
}

/// A text that starts with one or two digits, with neither a digit nor a
/// delimiter behind them, is no date; nor is one that starts with no digit.
pub proof fn lemma_not_a_date(s: Seq<char>, pos: int)
    requires
        0 <= pos <= s.len(),
        ({
            let next = pos + run_len(s, pos, CharClass::Digit, 2);
            next >= s.len() || !(CharClass::Digit.holds(s[next]) || s[next] == '-' || s[next]
                == '/')
        }),
    ensures
        date_grammar(s, pos) matches Outcome::Failed(failure) && !failure.hard,
{
    let n = run_len(s, pos, CharClass::Digit, 2);
    lemma_run_len(s, pos, CharClass::Digit, 2);
    lemma_run_exact(s, pos, CharClass::Digit, 4, n);
}

fn date_delimiter(s: &[char], pos: usize) -> (b: bool)
    requires
        pos <= s.len(),
    ensures
        b == delimiter_at(s@, pos as int),
{
    pos < s.len() && (s[pos] == '-' || s[pos] == '/')
}

/// The digits of one part at `pos`: how many there are, and their value.
fn part_at(s: &[char], pos: usize, part: DateComponent) -> (r: (usize, u16))
    requires
        pos <= s.len(),
    ensures
        r.0 == run_len(s@, pos as int, CharClass::Digit, part.max_digits()),
        r.1 == decimal_value(s@.subrange(pos as int, pos + r.0)),
        pos + r.0 <= s.len(),
        r.0 <= 4,
{
    let (_, most) = part.digits();
    let n: usize = scan_run(s, pos, CharClass::Digit, most);
    proof {
        lemma_run_digits(s@, pos as int, most as nat);
    }
    (n, read_small(s, pos, pos + n))
}

fn out_of_range_at<T>(part: DateComponent, value: u16) -> (r: Located<T>)
    ensures
        agrees_at(r, out_of_range::<T>(part, value as nat)),
{
    Err(ParseFailure::Hard(FlexitimeError::Date(AbsoluteDateError::OutOfRangeComponent(part, value))))
}

fn mismatch_at<T>(pos: usize) -> (r: Located<T>)
    ensures
        agrees_at(r, soft::<T>(Cause::Mismatch(pos as int))),
{
    Err(ParseFailure::Recoverable(FlexitimeError::Mismatch(pos)))
}

fn assemble(year: u16, month: u16, day: u16, end: usize) -> (r: Located<CalendarDate>)
    ensures
        agrees_at(r, assembled(year as nat, month as nat, day as nat, end as int)),
        r matches Ok(p) ==> p.1.wf() && p.0 == end,
{
    match CalendarDate::from_ymd(year as i32, month as u32, day as u32) {
        Some(date) => Ok((end, date)),
        None => Err(ParseFailure::Hard(FlexitimeError::Date(AbsoluteDateError::InvalidDate))),
    }
}

/// Reads a date in one of the two orders at position `pos` of a text.
fn date_in_order_at(s: &[char], pos: usize, year_first: bool) -> (r: Located<CalendarDate>)
    requires
        pos <= s.len(),
    ensures
        agrees_at(r, date_in_order(s@, pos as int, year_first)),
        r matches Ok(p) ==> pos < p.0 <= s.len() && p.1.wf(),
{
    let first = if year_first {
        DateComponent::Year
    } else {
        DateComponent::Day
    };
    let last = if year_first {
        DateComponent::Day
    } else {
        DateComponent::Year
    };
    let (first_len, first_value) = part_at(s, pos, first);
    let after_first: usize = pos + first_len;
    if first_len < first.digits().0 {
        return mismatch_at(pos);
    }
    if year_first && first_value > first.largest() {
        return out_of_range_at(first, first_value);
    }
    if !date_delimiter(s, after_first) {
        return mismatch_at(after_first);
    }
    if first_value > first.largest() {
        return out_of_range_at(first, first_value);
    }
    let (month_len, month_value) = part_at(s, after_first + 1, DateComponent::Month);
    let after_second: usize = after_first + 1 + month_len;
    if month_len < 1 {
        return mismatch_at(after_first + 1);
    }
    if month_value > DateComponent::Month.largest() {
        return out_of_range_at(DateComponent::Month, month_value);
    }
    if !date_delimiter(s, after_second) {
        return mismatch_at(after_second);
    }
    let (last_len, last_value) = part_at(s, after_second + 1, last);
    if last_len < last.digits().0 {
        return mismatch_at(after_second + 1);
    }
    if last_value > last.largest() {
        return out_of_range_at(last, last_value);
    }
    if year_first {
        assemble(first_value, month_value, last_value, after_second + 1 + last_len)
    } else {
        assemble(last_value, month_value, first_value, after_second + 1 + last_len)
    }
}

/// Reads a date at position `pos` of a text.
pub(crate) fn date_at(s: &[char], pos: usize) -> (r: Located<CalendarDate>)
    requires
        pos <= s.len(),
    ensures
        agrees_at(r, date_grammar(s@, pos as int)),
        r matches Ok(p) ==> pos < p.0 <= s.len() && p.1.wf(),
{
    match date_in_order_at(s, pos, false) {
        Ok(p) => Ok(p),
        Err(e) => if e.is_hard() {
            Err(e)
        } else {
            date_in_order_at(s, pos, true)
        },
    }
}

/// Reads a date at the start of the input.
pub fn parse_date(input: &str) -> (r: FlexitimeResult<'_, CalendarDate>)
    ensures
        agrees(r, input@, date_grammar(input@, 0)),
        r matches Ok(p) ==> p.1.wf(),
{
    let chars = to_chars(input);
    conclude(input, chars.len(), date_at(chars.as_slice(), 0))
}

} // verus!
