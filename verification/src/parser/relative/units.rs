//! An amount with its unit, such as `3y` or `2 months`.

use crate::error::{agrees, agrees_at, hard, soft, Cause, FlexitimeError, FlexitimeResult, Located, NumberError, Outcome, ParseFailure};
use crate::parser::primitives::{
    conclude, decimal_value, lemma_run_digits, lemma_run_len, read_decimal, run, scan_all,
    slice_is, to_chars, CharClass,
};
use vstd::prelude::*;
use vstd::string::*;

verus! {

/// Why a text is not an amount with a unit.
#[derive(Debug, PartialEq)]
pub enum RelativeUnitsError {
    /// The letters behind the amount, which name no unit.
    UnknownUnit(String),
}

impl View for RelativeUnitsError {
    type V = Seq<char>;

    open spec fn view(&self) -> Seq<char> {
        match self {
            RelativeUnitsError::UnknownUnit(token) => token@,
        }
    }
}

/// The units of time that an amount can be counted in.
#[derive(Debug, Clone, Copy, PartialEq, Eq, Structural)]
pub enum RelativeUnit {
    Seconds,
    Minutes,
    Hours,
    Days,
    Weeks,
    Months,
    Years,
}

/// An amount of one unit.
#[derive(Debug, Clone, Copy, PartialEq, Eq, Structural)]
pub struct ParsedUnit {
    pub unit: RelativeUnit,
    pub amount: u32,
}

/// The unit that a word names. The spellings are fixed, in small letters.
pub open spec fn unit_named(word: Seq<char>) -> Option<RelativeUnit> {
    if word == "seconds"@ || word == "second"@ || word == "secs"@ || word == "sec"@ || word
        == "s"@ {
        Some(RelativeUnit::Seconds)
    } else if word == "minutes"@ || word == "minute"@ || word == "mins"@ || word == "min"@ || word
        == "m"@ {
        Some(RelativeUnit::Minutes)
    } else if word == "hours"@ || word == "hour"@ || word == "hrs"@ || word == "hr"@ || word
        == "h"@ {
        Some(RelativeUnit::Hours)
    } else if word == "days"@ || word == "day"@ || word == "d"@ {
        Some(RelativeUnit::Days)
    } else if word == "weeks"@ || word == "week"@ || word == "wks"@ || word == "wk"@ || word
        == "w"@ {
        Some(RelativeUnit::Weeks)
    } else if word == "months"@ || word == "month"@ || word == "mos"@ || word == "mo"@ {
        Some(RelativeUnit::Months)
    } else if word == "years"@ || word == "year"@ || word == "yr"@ || word == "y"@ {
        Some(RelativeUnit::Years)
    } else {
        None
    }
}

/// The grammar of an amount with its unit from position `pos` on: a run of
/// digits, any number of blanks, and a run of letters that names a unit.
///
/// Digits that stand for more than 32 bits hold, and a missing amount or
/// word, are recoverable failures. Letters that name no unit are a hard
/// failure, which carries them: an amount followed by letters can be nothing
/// but an amount with its unit.
pub open spec fn unit_grammar(s: Seq<char>, pos: int) -> Outcome<ParsedUnit> {
    let digits = run(s, pos, CharClass::Digit);
    let amount = decimal_value(s.subrange(pos, pos + digits));
    let start = pos + digits + run(s, pos + digits, CharClass::Blank);
    let letters = run(s, start, CharClass::Alpha);
    let word = s.subrange(start, start + letters);
    if digits == 0 {
        soft(Cause::Mismatch(pos))
    } else if amount > u32::MAX {
        soft(Cause::ParseInt(NumberError::TooLarge))
    } else if letters == 0 {
        soft(Cause::Mismatch(start))
    } else {
        match unit_named(word) {
            Some(unit) => Outcome::Parsed {
                value: ParsedUnit { unit, amount: amount as u32 },
                end: start + letters,
            },
            None => hard(Cause::UnknownUnit(word)),
        }
    }
}

/// An amount with its unit takes up at least one character, and none
/// beyond the end of the text.
pub proof fn lemma_unit_grammar_end(s: Seq<char>, pos: int)
    requires
        0 <= pos <= s.len(),
    ensures
        unit_grammar(s, pos) matches Outcome::Parsed { end, .. } ==> pos < end <= s.len(),
{
    let digits = run(s, pos, CharClass::Digit);
    lemma_run_len(s, pos, CharClass::Digit, s.len());
    lemma_run_len(s, pos + digits, CharClass::Blank, s.len());
    let start = pos + digits + run(s, pos + digits, CharClass::Blank);
    lemma_run_len(s, start, CharClass::Alpha, s.len());
}

/// The unit that the letters from `from` up to `to` name.
fn unit_of(s: &[char], from: usize, to: usize) -> (r: Option<RelativeUnit>)
    requires
        from <= to <= s.len(),
    ensures
        r == unit_named(s@.subrange(from as int, to as int)),
{
    if slice_is(s, from, to, "seconds") || slice_is(s, from, to, "second") || slice_is(
        s,
        from,
        to,
        "secs",
    ) || slice_is(s, from, to, "sec") || slice_is(s, from, to, "s") {
        Some(RelativeUnit::Seconds)
    } else if slice_is(s, from, to, "minutes") || slice_is(s, from, to, "minute") || slice_is(
        s,
        from,
        to,
        "mins",
    ) || slice_is(s, from, to, "min") || slice_is(s, from, to, "m") {
        Some(RelativeUnit::Minutes)
    } else if slice_is(s, from, to, "hours") || slice_is(s, from, to, "hour") || slice_is(
        s,
        from,
        to,
        "hrs",
    ) || slice_is(s, from, to, "hr") || slice_is(s, from, to, "h") {
        Some(RelativeUnit::Hours)
    } else if slice_is(s, from, to, "days") || slice_is(s, from, to, "day") || slice_is(
        s,
        from,
        to,
        "d",
    ) {
        Some(RelativeUnit::Days)
    } else if slice_is(s, from, to, "weeks") || slice_is(s, from, to, "week") || slice_is(
        s,
        from,
        to,
        "wks",
    ) || slice_is(s, from, to, "wk") || slice_is(s, from, to, "w") {
        Some(RelativeUnit::Weeks)
    } else if slice_is(s, from, to, "months") || slice_is(s, from, to, "month") || slice_is(
        s,
        from,
        to,
        "mos",
    ) || slice_is(s, from, to, "mo") {
        Some(RelativeUnit::Months)
    } else if slice_is(s, from, to, "years") || slice_is(s, from, to, "year") || slice_is(
        s,
        from,
        to,
        "yr",
    ) || slice_is(s, from, to, "y") {
        Some(RelativeUnit::Years)
    } else {
        None
    }
}

/// Reads an amount with its unit at position `pos` of a text, of which `s`
/// holds the characters.
pub(crate) fn unit_at(text: &str, s: &[char], pos: usize) -> (r: Located<ParsedUnit>)
    requires
        s@ == text@,
        pos <= s.len(),
    ensures
        agrees_at(r, unit_grammar(s@, pos as int)),
        r matches Ok(p) ==> pos < p.0 <= s.len(),
{
    let digits: usize = scan_all(s, pos, CharClass::Digit);
    if digits == 0 {
        return Err(ParseFailure::Recoverable(FlexitimeError::Mismatch(pos)));
    }
    proof {
        lemma_run_digits(s@, pos as int, s@.len());
    }
    let amount: u32 = match read_decimal(s, pos, pos + digits) {
        Some(n) => n,
        None => {
            return Err(
                ParseFailure::Recoverable(FlexitimeError::ParseIntError(NumberError::TooLarge)),
            );
        },
    };
    let start: usize = pos + digits + scan_all(s, pos + digits, CharClass::Blank);
    let letters: usize = scan_all(s, start, CharClass::Alpha);
    if letters == 0 {
        return Err(ParseFailure::Recoverable(FlexitimeError::Mismatch(start)));
    }
    match unit_of(s, start, start + letters) {
        Some(unit) => Ok((start + letters, ParsedUnit { unit, amount })),
        None => {
            let word = text.substring_char(start, start + letters).to_owned();
            Err(ParseFailure::Hard(FlexitimeError::RelativeUnits(RelativeUnitsError::UnknownUnit(word))))
        },
    }
}

/// Reads an amount with its unit at the start of the input.
pub fn parse_unit(input: &str) -> (r: FlexitimeResult<'_, ParsedUnit>)
    ensures
        agrees(r, input@, unit_grammar(input@, 0)),
{
    let chars = to_chars(input);
    conclude(input, chars.len(), unit_at(input, chars.as_slice(), 0))
}

} // verus!
