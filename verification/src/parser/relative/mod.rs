//! Relative expressions: amounts of units, counted from now.

use crate::error::{agrees, agrees_at, FlexitimeResult, Located, Outcome};
use crate::parser::primitives::{conclude, lemma_run_len, run, scan_all, to_chars, CharClass};
use suffix::{find_suffix, suffix_at, Suffix};
use time::RelativeTime;
use units::{lemma_unit_grammar_end, unit_at, unit_grammar};
use vstd::prelude::*;

pub mod suffix;
pub mod time;
pub mod units;

verus! {

/// The amounts that follow the first one, from position `pos` on, set one
/// after the other in `so_far`. Each is preceded by at least one blank. The
/// list ends, without a failure, before the blanks that no amount follows; a
/// hard failure of an amount is a hard failure of the list.
pub open spec fn more_units(s: Seq<char>, pos: int, so_far: RelativeTime) -> Outcome<RelativeTime>
    decreases s.len() - pos,
    when 0 <= pos <= s.len()
    via more_units_decreases
{
    let blanks = run(s, pos, CharClass::Blank);
    if blanks == 0 {
        Outcome::Parsed { value: so_far, end: pos }
    } else {
        match unit_grammar(s, pos + blanks) {
            Outcome::Parsed { value, end } => more_units(s, end, so_far.with_unit(value)),
            Outcome::Failed(failure) => if failure.hard {
                Outcome::Failed(failure)
            } else {
                Outcome::Parsed { value: so_far, end: pos }
            },
        }
    }
}

#[via_fn]
proof fn more_units_decreases(s: Seq<char>, pos: int, so_far: RelativeTime) {
    lemma_run_len(s, pos, CharClass::Blank, s.len());
    lemma_unit_grammar_end(s, pos + run(s, pos, CharClass::Blank));
}

/// The direction that a suffix gives to the amounts: `ago` counts back,
/// `hence` and no suffix count on.
pub open spec fn directed_by(time: RelativeTime, suffix: Option<Suffix>) -> RelativeTime {
    if suffix == Some(Suffix::Ago) {
        RelativeTime { negative: true, ..time }
    } else {
        time
    }
}

/// The grammar of a relative expression from position `pos` on: one or more
/// amounts with their units, with blanks between them, and an optional
/// suffix. An amount for a unit that was given before takes the earlier
/// one's place.
pub open spec fn relative_grammar(s: Seq<char>, pos: int) -> Outcome<RelativeTime> {
    match unit_grammar(s, pos) {
        Outcome::Failed(failure) => Outcome::Failed(failure),
        Outcome::Parsed { value: first, end } => match more_units(
            s,
            end,
            RelativeTime::empty().with_unit(first),
        ) {
            Outcome::Failed(failure) => Outcome::Failed(failure),
            Outcome::Parsed { value: time, end } => Outcome::Parsed {
                value: directed_by(time, suffix_at(s, end).0),
                end: suffix_at(s, end).1,
            },
        },
    }
}

/// Reads the amounts that follow the first one.
fn more_units_at(text: &str, s: &[char], pos: usize, so_far: RelativeTime) -> (r: Located<
    RelativeTime,
>)
    requires
        s@ == text@,
        pos <= s.len(),
    ensures
        agrees_at(r, more_units(s@, pos as int, so_far)),
        r matches Ok(p) ==> pos <= p.0 <= s.len(),
{
    let len: usize = s.len();
    let mut at: usize = pos;
    let mut time = so_far;
    loop
        invariant
            s@ == text@,
            len == s.len(),
            pos <= at <= len,
            more_units(s@, pos as int, so_far) == more_units(s@, at as int, time),
        decreases len - at,
    {
        let blanks: usize = scan_all(s, at, CharClass::Blank);
        if blanks == 0 {
            return Ok((at, time));
        }
        match unit_at(text, s, at + blanks) {
            Ok((end, parsed)) => {
                time = time.set(parsed);
                at = end;
            },
            Err(failure) => {
                if failure.is_hard() {
                    return Err(failure);
                }
                return Ok((at, time));
            },
        }
    }
}

/// Reads a relative expression at position `pos` of a text, of which `s`
/// holds the characters.
pub(crate) fn relative_at(text: &str, s: &[char], pos: usize) -> (r: Located<RelativeTime>)
    requires
        s@ == text@,
        pos <= s.len(),
    ensures
        agrees_at(r, relative_grammar(s@, pos as int)),
        r matches Ok(p) ==> pos < p.0 <= s.len(),
{
    let (end, first) = match unit_at(text, s, pos) {
        Ok(p) => p,
        Err(failure) => {
            return Err(failure);
        },
    };
    let (end, time) = match more_units_at(text, s, end, RelativeTime::new().set(first)) {
        Ok(p) => p,
        Err(failure) => {
            return Err(failure);
        },
    };
    let (suffix, end) = find_suffix(s, end);
    match suffix {
        Some(Suffix::Ago) => Ok((end, time.ago())),
        _ => Ok((end, time)),
    }
}

/// Reads a relative expression at the start of the input.
pub fn parse_relative_time(input: &str) -> (r: FlexitimeResult<'_, RelativeTime>)
    ensures
        agrees(r, input@, relative_grammar(input@, 0)),
{
    let chars = to_chars(input);
    conclude(input, chars.len(), relative_at(input, chars.as_slice(), 0))
}

} // verus!
