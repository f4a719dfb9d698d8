//! Days named by their distance from today: `tomorrow`, `yesterday`, and the
//! days of the week.

use crate::calendar::Weekday;
use crate::error::{agrees, agrees_at, soft, Cause, FlexitimeError, FlexitimeResult, Located, Outcome, ParseFailure};
use crate::parser::primitives::{
    conclude, folded, found_or, keyword_at, lemma_keyword_letter, lemma_no_keyword, lemma_run_len, match_keyword, match_name, name_at, run,
    scan_all, to_chars, CharClass,
};
use vstd::prelude::*;
use vstd::string::*;

verus! {

/// A day given by where it lies from today.
#[derive(Debug, Clone, Copy, PartialEq, Eq, Structural)]
pub enum DayOffset {
    /// So many days from today; negative for the past.
    Fixed(i32),
    /// The next day that falls on this weekday. Today never counts.
    NextDayOccurrence(Weekday),
}

impl Weekday {
    /// The full name of the weekday, in small letters.
    pub open spec fn long_name(self) -> Seq<char> {
        match self {
            Weekday::Mon => "monday"@,
            Weekday::Tue => "tuesday"@,
            Weekday::Wed => "wednesday"@,
            Weekday::Thu => "thursday"@,
            Weekday::Fri => "friday"@,
            Weekday::Sat => "saturday"@,
            Weekday::Sun => "sunday"@,
        }
    }

    /// The first three letters of the weekday's name.
    pub open spec fn short_name(self) -> Seq<char> {
        match self {
            Weekday::Mon => "mon"@,
            Weekday::Tue => "tue"@,
            Weekday::Wed => "wed"@,
            Weekday::Thu => "thu"@,
            Weekday::Fri => "fri"@,
            Weekday::Sat => "sat"@,
            Weekday::Sun => "sun"@,
        }
    }

    /// The two forms of the weekday's name: the full one and the short one.
    pub fn names(self) -> (r: (&'static str, &'static str))
        ensures
            r.0@ == self.long_name(),
            r.1@ == self.short_name(),
    {
        match self {
            Weekday::Mon => ("monday", "mon"),
            Weekday::Tue => ("tuesday", "tue"),
            Weekday::Wed => ("wednesday", "wed"),
            Weekday::Thu => ("thursday", "thu"),
            Weekday::Fri => ("friday", "fri"),
            Weekday::Sat => ("saturday", "sat"),
            Weekday::Sun => ("sunday", "sun"),
        }
    }
}

/// Where the name of the given weekday ends, if it stands at `pos`.
pub open spec fn weekday_name_at(s: Seq<char>, pos: int, day: Weekday) -> Option<int> {
    name_at(s, pos, day.long_name(), day.short_name())
}

/// The weekday whose name stands at `pos`, and where the name ends. The
/// weekdays are tried from Monday to Sunday.
pub open spec fn weekday_at(s: Seq<char>, pos: int) -> Option<(Weekday, int)> {
    found_or(
        Weekday::Mon,
        weekday_name_at(s, pos, Weekday::Mon),
        found_or(
            Weekday::Tue,
            weekday_name_at(s, pos, Weekday::Tue),
            found_or(
                Weekday::Wed,
                weekday_name_at(s, pos, Weekday::Wed),
                found_or(
                    Weekday::Thu,
                    weekday_name_at(s, pos, Weekday::Thu),
                    found_or(
                        Weekday::Fri,
                        weekday_name_at(s, pos, Weekday::Fri),
                        found_or(
                            Weekday::Sat,
                            weekday_name_at(s, pos, Weekday::Sat),
                            found_or(
                                Weekday::Sun,
                                weekday_name_at(s, pos, Weekday::Sun),
                                None,
                            ),
                        ),
                    ),
                ),
            ),
        ),
    )
}

/// The position behind an optional `this` or `next`: the word counts only
/// with at least one blank behind it, and the blanks are passed over too.
/// Where no such word stands at `pos`, the result is `pos`.
pub open spec fn after_this_or_next(s: Seq<char>, pos: int) -> int {
    let word_end = if keyword_at(s, pos, "this"@) {
        pos + "this"@.len()
    } else {
        pos + "next"@.len()
    };
    if (keyword_at(s, pos, "this"@) || keyword_at(s, pos, "next"@)) && run(
        s,
        word_end,
        CharClass::Blank,
    ) >= 1 {
        word_end + run(s, word_end, CharClass::Blank)
    } else {
        pos
    }
}

/// The grammar of a day offset from position `pos` on: `tomorrow`,
/// `yesterday`, or the name of a weekday, which `this` or `next` may
/// precede. Letter case does not count. `this` and `next` change nothing in
/// what is meant.
pub open spec fn day_offset_grammar(s: Seq<char>, pos: int) -> Outcome<DayOffset> {
    if keyword_at(s, pos, "tomorrow"@) {
        Outcome::Parsed { value: DayOffset::Fixed(1i32), end: pos + "tomorrow"@.len() }
    } else if keyword_at(s, pos, "yesterday"@) {
        Outcome::Parsed { value: DayOffset::Fixed(-1i32), end: pos + "yesterday"@.len() }
    } else {
        let start = after_this_or_next(s, pos);
        match weekday_at(s, start) {
            Some((day, end)) => Outcome::Parsed { value: DayOffset::NextDayOccurrence(day), end },
            None => soft(Cause::Mismatch(start)),
        }
    }
}

/// The name of a weekday that stands at `pos` takes up at least one
/// character, and none beyond the end of the text.
pub proof fn lemma_weekday_at_end(s: Seq<char>, pos: int)
    ensures
        weekday_at(s, pos) matches Some(found) ==> pos < found.1 <= s.len(),
{
    reveal_strlit("monday");
    reveal_strlit("mon");
    reveal_strlit("tuesday");
    reveal_strlit("tue");
    reveal_strlit("wednesday");
    reveal_strlit("wed");
    reveal_strlit("thursday");
    reveal_strlit("thu");
    reveal_strlit("friday");
    reveal_strlit("fri");
    reveal_strlit("saturday");
    reveal_strlit("sat");
    reveal_strlit("sunday");
    reveal_strlit("sun");
}

/// The position behind an optional `this` or `next` is not before `pos` and
/// not beyond the end of the text.
pub proof fn lemma_after_this_or_next(s: Seq<char>, pos: int)
    requires
        0 <= pos <= s.len(),
    ensures
        pos <= after_this_or_next(s, pos) <= s.len(),
{
    let word_end = if keyword_at(s, pos, "this"@) {
        pos + "this"@.len()
    } else {
        pos + "next"@.len()
    };
    if keyword_at(s, pos, "this"@) || keyword_at(s, pos, "next"@) {
        lemma_run_len(s, word_end, CharClass::Blank, s.len());
    }
}

/// A day offset takes up at least one character, and none beyond the end of
/// the text.
pub proof fn lemma_day_offset_end(s: Seq<char>, pos: int)
    requires
        0 <= pos <= s.len(),
    ensures
        day_offset_grammar(s, pos) matches Outcome::Parsed { end, .. } ==> pos < end <= s.len(),
        !day_offset_grammar(s, pos).is_hard(),
{
    reveal_strlit("tomorrow");
    reveal_strlit("yesterday");
    lemma_after_this_or_next(s, pos);
    lemma_weekday_at_end(s, after_this_or_next(s, pos));
}

/// The first three letters, in small letters, of a text that holds the name
/// of a weekday at `pos`.
pub open spec fn starts_like_weekday(s: Seq<char>, pos: int) -> bool {
    let a = folded(s[pos]);
    let b = folded(s[pos + 1]);
    let c = folded(s[pos + 2]);
    &&& 0 <= pos
    &&& pos + 3 <= s.len()
    &&& (a == 'm' as int && b == 'o' as int && c == 'n' as int) || (a == 't' as int && b
        == 'u' as int && c == 'e' as int) || (a == 'w' as int && b == 'e' as int && c
        == 'd' as int) || (a == 't' as int && b == 'h' as int && c == 'u' as int) || (a
        == 'f' as int && b == 'r' as int && c == 'i' as int) || (a == 's' as int && b
        == 'a' as int && c == 't' as int) || (a == 's' as int && b == 'u' as int && c
        == 'n' as int)
}

/// A text that holds a name of one weekday at `pos` starts with the three
/// letters of its short form.
proof fn lemma_weekday_name_letters(s: Seq<char>, pos: int, day: Weekday)
    requires
        weekday_name_at(s, pos, day) is Some,
    ensures
        starts_like_weekday(s, pos),
{
    reveal_strlit("monday");
    reveal_strlit("mon");
    reveal_strlit("tuesday");
    reveal_strlit("tue");
    reveal_strlit("wednesday");
    reveal_strlit("wed");
    reveal_strlit("thursday");
    reveal_strlit("thu");
    reveal_strlit("friday");
    reveal_strlit("fri");
    reveal_strlit("saturday");
    reveal_strlit("sat");
    reveal_strlit("sunday");
    reveal_strlit("sun");
    let name = if keyword_at(s, pos, day.long_name()) {
        day.long_name()
    } else {
        day.short_name()
    };
    lemma_keyword_letter(s, pos, name, 0);
    lemma_keyword_letter(s, pos, name, 1);
    lemma_keyword_letter(s, pos, name, 2);
}

/// A text that holds the name of a weekday at `pos` starts with the three
/// letters of a weekday's short form.
pub proof fn lemma_weekday_letters(s: Seq<char>, pos: int)
    requires
        weekday_at(s, pos) is Some,
    ensures
        starts_like_weekday(s, pos),
{
    if weekday_name_at(s, pos, Weekday::Mon) is Some {
        lemma_weekday_name_letters(s, pos, Weekday::Mon);
    } else if weekday_name_at(s, pos, Weekday::Tue) is Some {
        lemma_weekday_name_letters(s, pos, Weekday::Tue);
    } else if weekday_name_at(s, pos, Weekday::Wed) is Some {
        lemma_weekday_name_letters(s, pos, Weekday::Wed);
    } else if weekday_name_at(s, pos, Weekday::Thu) is Some {
        lemma_weekday_name_letters(s, pos, Weekday::Thu);
    } else if weekday_name_at(s, pos, Weekday::Fri) is Some {
        lemma_weekday_name_letters(s, pos, Weekday::Fri);
    } else if weekday_name_at(s, pos, Weekday::Sat) is Some {
        lemma_weekday_name_letters(s, pos, Weekday::Sat);
    } else {
        lemma_weekday_name_letters(s, pos, Weekday::Sun);
    }
}

/// Where the name of a weekday stands at `pos`, the day offset read there
/// is that weekday, and nothing else is read.
pub proof fn lemma_bare_weekday(s: Seq<char>, pos: int)
    requires
        weekday_at(s, pos) is Some,
    ensures
        day_offset_grammar(s, pos) == (Outcome::Parsed {
            value: DayOffset::NextDayOccurrence((weekday_at(s, pos)->0).0),
            end: (weekday_at(s, pos)->0).1,
        }),
{
    lemma_weekday_letters(s, pos);
    reveal_strlit("tomorrow");
    reveal_strlit("yesterday");
    reveal_strlit("this");
    reveal_strlit("next");
    if keyword_at(s, pos, "tomorrow"@) {
        lemma_keyword_letter(s, pos, "tomorrow"@, 0);
        lemma_keyword_letter(s, pos, "tomorrow"@, 1);
    }
    if keyword_at(s, pos, "yesterday"@) {
        lemma_keyword_letter(s, pos, "yesterday"@, 0);
    }
    if keyword_at(s, pos, "this"@) {
        lemma_keyword_letter(s, pos, "this"@, 0);
        lemma_keyword_letter(s, pos, "this"@, 1);
        lemma_keyword_letter(s, pos, "this"@, 2);
    }
    if keyword_at(s, pos, "next"@) {
        lemma_keyword_letter(s, pos, "next"@, 0);
    }
}

/// `this` and `next` change nothing: a weekday that one of them precedes is
/// read as the weekday alone is. So `next monday` and `monday` stand for the
/// same day offset, whatever follows.
pub proof fn lemma_this_or_next_changes_nothing(s: Seq<char>, pos: int)
    requires
        0 <= pos <= s.len(),
        weekday_at(s, after_this_or_next(s, pos)) is Some,
    ensures
        day_offset_grammar(s, pos) == day_offset_grammar(s, after_this_or_next(s, pos)),
        day_offset_grammar(s, pos) matches Outcome::Parsed { value, .. } && value
            == DayOffset::NextDayOccurrence((weekday_at(s, after_this_or_next(s, pos))->0).0),
{
    let start = after_this_or_next(s, pos);
    lemma_bare_weekday(s, start);
    if start != pos {
        reveal_strlit("tomorrow");
        reveal_strlit("yesterday");
        reveal_strlit("this");
        reveal_strlit("next");
        let word = if keyword_at(s, pos, "this"@) {
            "this"@
        } else {
            "next"@
        };
        lemma_keyword_letter(s, pos, word, 0);
        lemma_keyword_letter(s, pos, word, 1);
        if keyword_at(s, pos, "tomorrow"@) {
            lemma_keyword_letter(s, pos, "tomorrow"@, 0);
            lemma_keyword_letter(s, pos, "tomorrow"@, 1);
        }
        if keyword_at(s, pos, "yesterday"@) {
            lemma_keyword_letter(s, pos, "yesterday"@, 0);
        }
    }
}

/// No day offset stands where the text has ended or has a character that is
/// no letter.
pub proof fn lemma_no_day_offset(s: Seq<char>, pos: int)
    requires
        0 <= pos <= s.len(),
        pos == s.len() || !CharClass::Alpha.holds(s[pos]),
    ensures
        day_offset_grammar(s, pos) == soft::<DayOffset>(Cause::Mismatch(pos)),
{
    reveal_strlit("tomorrow");
    reveal_strlit("yesterday");
    reveal_strlit("this");
    reveal_strlit("next");
    reveal_strlit("monday");
    reveal_strlit("mon");
    reveal_strlit("tuesday");
    reveal_strlit("tue");
    reveal_strlit("wednesday");
    reveal_strlit("wed");
    reveal_strlit("thursday");
    reveal_strlit("thu");
    reveal_strlit("friday");
    reveal_strlit("fri");
    reveal_strlit("saturday");
    reveal_strlit("sat");
    reveal_strlit("sunday");
    reveal_strlit("sun");
    lemma_no_keyword(s, pos, "tomorrow"@);
    lemma_no_keyword(s, pos, "yesterday"@);
    lemma_no_keyword(s, pos, "this"@);
    lemma_no_keyword(s, pos, "next"@);
    lemma_no_keyword(s, pos, "monday"@);
    lemma_no_keyword(s, pos, "mon"@);
    lemma_no_keyword(s, pos, "tuesday"@);
    lemma_no_keyword(s, pos, "tue"@);
    lemma_no_keyword(s, pos, "wednesday"@);
    lemma_no_keyword(s, pos, "wed"@);
    lemma_no_keyword(s, pos, "thursday"@);
    lemma_no_keyword(s, pos, "thu"@);
    lemma_no_keyword(s, pos, "friday"@);
    lemma_no_keyword(s, pos, "fri"@);
    lemma_no_keyword(s, pos, "saturday"@);
    lemma_no_keyword(s, pos, "sat"@);
    lemma_no_keyword(s, pos, "sunday"@);
    lemma_no_keyword(s, pos, "sun"@);
}

/// `tomorrow` is one day on and `yesterday` one day back, in any letter
/// case.
pub proof fn lemma_tomorrow_yesterday(s: Seq<char>, pos: int)
    ensures
        keyword_at(s, pos, "tomorrow"@) ==> day_offset_grammar(s, pos) == (Outcome::Parsed {
            value: DayOffset::Fixed(1i32),
            end: pos + 8,
        }),
        keyword_at(s, pos, "yesterday"@) ==> day_offset_grammar(s, pos) == (Outcome::Parsed {
            value: DayOffset::Fixed(-1i32),
            end: pos + 9,
        }),
{
    reveal_strlit("tomorrow");
    reveal_strlit("yesterday");
    if keyword_at(s, pos, "yesterday"@) && keyword_at(s, pos, "tomorrow"@) {
        lemma_keyword_letter(s, pos, "tomorrow"@, 0);
        lemma_keyword_letter(s, pos, "yesterday"@, 0);
    }
}

/// The position behind an optional `this` or `next` and the blanks after
/// it.
pub fn skip_this_or_next(s: &[char], pos: usize) -> (r: usize)
    requires
        pos <= s.len(),
    ensures
        r == after_this_or_next(s@, pos as int),
        pos <= r <= s.len(),
{
    let word_end: usize = if match_keyword(s, pos, "this") {
        pos + "this".unicode_len()
    } else if match_keyword(s, pos, "next") {
        pos + "next".unicode_len()
    } else {
        return pos;
    };
    let blanks: usize = scan_all(s, word_end, CharClass::Blank);
    if blanks >= 1 {
        word_end + blanks
    } else {
        pos
    }
}

fn weekday_name_here(s: &[char], pos: usize, day: Weekday) -> (r: Option<(Weekday, usize)>)
    requires
        pos <= s.len(),
    ensures
        match weekday_name_at(s@, pos as int, day) {
            Some(end) => r matches Some(p) && p.0 == day && p.1 == end && pos <= end <= s.len(),
            None => r is None,
        },
{
    let (long, short) = day.names();
    match match_name(s, pos, long, short) {
        Some(end) => Some((day, end)),
        None => None,
    }
}

/// The weekday whose name stands at `pos`, and where the name ends.
pub fn find_weekday(s: &[char], pos: usize) -> (r: Option<(Weekday, usize)>)
    requires
        pos <= s.len(),
    ensures
        match weekday_at(s@, pos as int) {
            Some((day, end)) => r matches Some(p) && p.0 == day && p.1 == end && pos <= end
                <= s.len(),
            None => r is None,
        },
{
    let mut found = weekday_name_here(s, pos, Weekday::Mon);
    if found.is_none() {
        found = weekday_name_here(s, pos, Weekday::Tue);
    }
    if found.is_none() {
        found = weekday_name_here(s, pos, Weekday::Wed);
    }
    if found.is_none() {
        found = weekday_name_here(s, pos, Weekday::Thu);
    }
    if found.is_none() {
        found = weekday_name_here(s, pos, Weekday::Fri);
    }
    if found.is_none() {
        found = weekday_name_here(s, pos, Weekday::Sat);
    }
    if found.is_none() {
        found = weekday_name_here(s, pos, Weekday::Sun);
    }
    found
}

/// Reads a day offset at position `pos` of a text.
pub(crate) fn day_offset_at(s: &[char], pos: usize) -> (r: Located<DayOffset>)
    requires
        pos <= s.len(),
    ensures
        agrees_at(r, day_offset_grammar(s@, pos as int)),
        r matches Ok(p) ==> pos <= p.0 <= s.len(),
{
    if match_keyword(s, pos, "tomorrow") {
        return Ok((pos + "tomorrow".unicode_len(), DayOffset::Fixed(1)));
    }
    if match_keyword(s, pos, "yesterday") {
        return Ok((pos + "yesterday".unicode_len(), DayOffset::Fixed(-1)));
    }
    let start: usize = skip_this_or_next(s, pos);
    match find_weekday(s, start) {
        Some((day, end)) => Ok((end, DayOffset::NextDayOccurrence(day))),
        None => Err(ParseFailure::Recoverable(FlexitimeError::Mismatch(start))),
    }
}

/// Reads a day offset at the start of the input.
pub fn parse_day_offset(input: &str) -> (r: FlexitimeResult<'_, DayOffset>)
    ensures
        agrees(r, input@, day_offset_grammar(input@, 0)),
{
    let chars = to_chars(input);
    conclude(input, chars.len(), day_offset_at(chars.as_slice(), 0))
}

} // verus!
