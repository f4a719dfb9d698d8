//! The grammars of time expressions, and the entry point that tells them
//! apart.

use crate::error::{agrees, agrees_at, FlexitimeResult, Located, Outcome};
use crate::parser::primitives::{conclude, to_chars};
use absolute::{absolute_at, absolute_grammar, AbsoluteTime};
use relative::time::RelativeTime;
use relative::{relative_at, relative_grammar};
use vstd::prelude::*;

pub mod absolute;
pub mod primitives;
pub mod relative;
pub mod time;

pub use time::ParsedTime;

verus! {

/// The grammar of a time expression from position `pos` on. The text is read
/// as a relative expression. Only where that fails, in whatever way, it is
/// read as an absolute one: a time of day such as `3pm` starts like an amount
/// with an unknown unit. Where both readings fail, a hard failure of the
/// relative reading is the failure of the whole, so that the letters that
/// name no unit reach the caller; after a recoverable failure of the
/// relative reading the failure is that of the absolute one.
pub open spec fn timestring_grammar(s: Seq<char>, pos: int) -> Outcome<ParsedTime> {
    match relative_grammar(s, pos) {
        Outcome::Parsed { value, end } => Outcome::Parsed {
            value: ParsedTime::Relative(value),
            end,
        },
        Outcome::Failed(relative_failure) => match absolute_grammar(s, pos) {
            Outcome::Parsed { value, end } => Outcome::Parsed {
                value: ParsedTime::Absolute(value),
                end,
            },
            Outcome::Failed(absolute_failure) => if relative_failure.hard {
                Outcome::Failed(relative_failure)
            } else {
                Outcome::Failed(absolute_failure)
            },
        },
    }
}

/// A text that can be read as a relative expression is never read as an
/// absolute one.
pub proof fn lemma_relative_first(s: Seq<char>, pos: int)
    ensures
        relative_grammar(s, pos) matches Outcome::Parsed { value, end } ==> timestring_grammar(
            s,
            pos,
        ) == (Outcome::Parsed { value: ParsedTime::Relative(value), end }),
        timestring_grammar(s, pos) matches Outcome::Parsed {
            value: ParsedTime::Absolute(_),
            ..
        } ==> relative_grammar(s, pos) is Failed,
{
}

/// Letters that name no unit reach the caller: where the relative reading
/// fails hard and the absolute reading fails too, the failure of the whole
/// is that of the relative reading.
pub proof fn lemma_unit_failure_reaches_caller(s: Seq<char>, pos: int)
    ensures
        relative_grammar(s, pos).is_hard() && absolute_grammar(s, pos) is Failed
            ==> timestring_grammar(s, pos) == relative_grammar(s, pos).map(
            |time: RelativeTime| ParsedTime::Relative(time),
        ),
        !relative_grammar(s, pos).is_hard() && relative_grammar(s, pos) is Failed
            ==> timestring_grammar(s, pos) == absolute_grammar(s, pos).map(
            |time: AbsoluteTime| ParsedTime::Absolute(time),
        ),
{
}

/// Reads a time expression at position `pos` of a text, of which `s` holds
/// the characters.
pub(crate) fn timestring_at(text: &str, s: &[char], pos: usize) -> (r: Located<ParsedTime>)
    requires
        s@ == text@,
        pos <= s.len(),
    ensures
        agrees_at(r, timestring_grammar(s@, pos as int)),
        r matches Ok(p) ==> pos < p.0 <= s.len() && p.1.wf(),
{
    match relative_at(text, s, pos) {
        Ok((end, time)) => Ok((end, ParsedTime::Relative(time))),
        Err(relative_failure) => match absolute_at(s, pos) {
            Ok((end, time)) => Ok((end, ParsedTime::Absolute(time))),
            Err(absolute_failure) => if relative_failure.is_hard() {
                Err(relative_failure)
            } else {
                Err(absolute_failure)
            },
        },
    }
}

/// Reads a time expression at the start of the input, and returns what it
/// stands for together with the rest of the input.
pub fn parse_timestring(input: &str) -> (r: FlexitimeResult<'_, ParsedTime>)
    ensures
        agrees(r, input@, timestring_grammar(input@, 0)),
        r matches Ok(p) ==> p.1.wf(),
{
    let chars = to_chars(input);
    conclude(input, chars.len(), timestring_at(input, chars.as_slice(), 0))
}

} // verus!
