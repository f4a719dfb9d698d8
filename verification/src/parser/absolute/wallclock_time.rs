//! The time of day: `H[:MM[:SS]]` with an optional `am` or `pm`.

use crate::calendar::Timestamp;
use crate::error::{
    agrees, agrees_at, hard, soft, Cause, FlexitimeError, FlexitimeResult, Located, Outcome,
    ParseFailure,
};
use crate::parser::primitives::{
    conclude, decimal_value, folded, keyword_at, lemma_digits_at, lemma_keyword_letter,
    lemma_no_keyword, lemma_one_or_two_digits, lemma_run_digits, lemma_run_exact, lemma_run_len,
    lemma_text_at_char, lemma_text_at_parts, lemma_two_digits, match_keyword, one_or_two_digits,
    read_small, run, run_len, scan_all, scan_run, text_at, to_chars, two_digits, CharClass,
};
use vstd::prelude::*;
use vstd::string::*;

verus! {

/// A time of day on the 24-hour clock, to the second.
#[derive(PartialEq, Eq, Debug, Clone, Copy, Structural)]
pub struct WallClockTime {
    pub hour: u8,
    pub minute: u8,
    pub second: u8,
}

/// Which field of a time of day is out of range.
#[derive(PartialEq, Eq, Debug, Clone, Copy, Structural)]
pub enum WallClockTimeError {
    OutOfRangeHours,
    OutOfRangeMinutes,
    OutOfRangeSeconds,
}

/// The half of the day that an hour on the 12-hour clock belongs to.
#[derive(Debug, Clone, Copy, PartialEq, Eq, Structural)]
pub enum TimePeriod {
    Am,
    Pm,
}

impl WallClockTime {
    /// Every field is in range.
    pub open spec fn wf(self) -> bool {
        self.hour <= 23 && self.minute <= 59 && self.second <= 59
    }

    /// The hour on the 24-hour clock. With `pm` twelve hours are added, and
    /// a sum of 24 counts as 0; so `12pm` is hour 0. With `am`, or with no
    /// period, the hour stays as it is; so `12am` is hour 12.
    pub open spec fn adjusted_hour(hour: int, period: Option<TimePeriod>) -> int {
        if period == Some(TimePeriod::Pm) {
            if hour + 12 == 24 {
                0
            } else {
                hour + 12
            }
        } else {
            hour
        }
    }

    /// The time of day made of the given fields, or the first field, in the
    /// order hour, minute, second, that is out of range.
    pub open spec fn spec_new(hour: int, minute: int, second: int, period: Option<TimePeriod>) -> Result<
        WallClockTime,
        WallClockTimeError,
    > {
        let h = WallClockTime::adjusted_hour(hour, period);
        if h > 23 {
            Err(WallClockTimeError::OutOfRangeHours)
        } else if minute > 59 {
            Err(WallClockTimeError::OutOfRangeMinutes)
        } else if second > 59 {
            Err(WallClockTimeError::OutOfRangeSeconds)
        } else {
            Ok(WallClockTime { hour: h as u8, minute: minute as u8, second: second as u8 })
        }
    }

    /// Makes a time of day of an hour, a minute, a second and, for an hour
    /// on the 12-hour clock, its period.
    pub fn new(hour: u8, minute: u8, second: u8, period: Option<TimePeriod>) -> (r: Result<
        WallClockTime,
        WallClockTimeError,
    >)
        ensures
            r == WallClockTime::spec_new(hour as int, minute as int, second as int, period),
            r matches Ok(t) ==> t.wf(),
    {
        let mut h: u16 = hour as u16;
        if let Some(TimePeriod::Pm) = period {
            h = h + 12;
            if h == 24 {
                h = 0;
            }
        }
        if h > 23 {
            return Err(WallClockTimeError::OutOfRangeHours);
        }
        if minute > 59 {
            return Err(WallClockTimeError::OutOfRangeMinutes);
        }
        if second > 59 {
            return Err(WallClockTimeError::OutOfRangeSeconds);
        }
        Ok(WallClockTime { hour: h as u8, minute, second })
    }

    /// Whether every field is in range.
    pub fn is_valid(&self) -> (b: bool)
        ensures
            b == self.wf(),
    {
        self.hour <= 23 && self.minute <= 59 && self.second <= 59
    }

    /// The timestamp with its time of day replaced by this one, to the full
    /// second.
    pub fn on(&self, day: Timestamp) -> (r: Timestamp)
        ensures
            r == self.spec_on(day),
            self.wf() && day.wf() ==> r.wf(),
    {
        Timestamp {
            date: day.date,
            hour: self.hour as u32,
            minute: self.minute as u32,
            second: self.second as u32,
            nanosecond: 0,
        }
    }

    /// The timestamp with its time of day replaced by this one.
    pub open spec fn spec_on(self, day: Timestamp) -> Timestamp {
        Timestamp {
            date: day.date,
            hour: self.hour as u32,
            minute: self.minute as u32,
            second: self.second as u32,
            nanosecond: 0,
        }
    }
}

/// With `pm`, the hours 1 to 11 become the hours 13 to 23.
pub proof fn lemma_pm_adds_twelve(hour: int, minute: int, second: int)
    requires
        1 <= hour <= 11,
        0 <= minute <= 59,
        0 <= second <= 59,
    ensures
        WallClockTime::spec_new(hour, minute, second, Some(TimePeriod::Pm)) matches Ok(t) && t.hour
            == (hour % 12) + 12 && t.minute == minute && t.second == second,
{
}

/// A value that is absent counts as 0.
pub open spec fn or_zero(v: Option<u8>) -> int {
    match v {
        Some(n) => n as int,
        None => 0,
    }
}

/// A minute or a second: nothing, where no colon stands at `pos`; after a
/// colon, exactly two digits.
pub open spec fn colon_field(s: Seq<char>, pos: int) -> Outcome<Option<u8>> {
    if 0 <= pos < s.len() && s[pos] == ':' {
        if run_len(s, pos + 1, CharClass::Digit, 2) == 2 {
            Outcome::Parsed {
                value: Some(decimal_value(s.subrange(pos + 1, pos + 3)) as u8),
                end: pos + 3,
            }
        } else {
            soft(Cause::Mismatch(pos + 1))
        }
    } else {
        Outcome::Parsed { value: None, end: pos }
    }
}

/// The period behind a time of day: `am` or `pm` in any letter case, after
/// any number of blanks. Where neither follows, nothing is read.
pub open spec fn period_suffix(s: Seq<char>, pos: int) -> (Option<TimePeriod>, int) {
    let p = pos + run(s, pos, CharClass::Blank);
    if keyword_at(s, p, "am"@) {
        (Some(TimePeriod::Am), p + "am"@.len())
    } else if keyword_at(s, p, "pm"@) {
        (Some(TimePeriod::Pm), p + "pm"@.len())
    } else {
        (None, pos)
    }
}

/// The grammar of a time of day from position `pos` on: one or two digits
/// of hour, an optional minute, an optional second, an optional period.
///
/// A text that does not have this shape is a recoverable failure. A field out
/// of range is a hard one.
pub open spec fn wall_clock_grammar(s: Seq<char>, pos: int) -> Outcome<WallClockTime> {
    let n = run_len(s, pos, CharClass::Digit, 2);
    if n == 0 {
        soft(Cause::Mismatch(pos))
    } else {
        let hour = decimal_value(s.subrange(pos, pos + n));
        match colon_field(s, pos + n) {
            Outcome::Failed(f) => Outcome::Failed(f),
            Outcome::Parsed { value: minute, end: after_minute } => match colon_field(
                s,
                after_minute,
            ) {
                Outcome::Failed(f) => Outcome::Failed(f),
                Outcome::Parsed { value: second, end: after_second } => {
                    let (period, end) = period_suffix(s, after_second);
                    match WallClockTime::spec_new(
                        hour as int,
                        or_zero(minute),
                        or_zero(second),
                        period,
                    ) {
                        Ok(t) => Outcome::Parsed { value: t, end },
                        Err(e) => hard(Cause::WallClockTime(e)),
                    }
                },
            },
        }
    }
}

/// An hour written with two digits, or with one where it has no more and
/// no zero is put before it.
pub open spec fn hour_text(hour: int, padded: bool) -> Seq<char> {
    one_or_two_digits(hour, padded)
}

/// A colon and a number written with two digits, or nothing.
pub open spec fn colon_text(field: Option<int>) -> Seq<char> {
    match field {
        Some(n) => seq![':'] + two_digits(n),
        None => Seq::<char>::empty(),
    }
}

/// A time of day written as `H`, `H:MM` or `H:MM:SS`.
pub open spec fn clock_text(hour: int, minute: Option<int>, second: Option<int>, padded: bool) -> Seq<
    char,
> {
    hour_text(hour, padded) + colon_text(minute) + colon_text(second)
}

/// The value of a field that may be absent; 0 where it is.
pub open spec fn given_or_zero(field: Option<int>) -> int {
    match field {
        Some(n) => n,
        None => 0,
    }
}

/// Reading gives back what was written: a time of day in range, written
/// without a period as `H`, `H:MM` or `H:MM:SS`, is read whole and stands for
/// that hour, minute and second, a field that is not written being 0.
pub proof fn lemma_wall_clock_round_trip(
    hour: int,
    minute: Option<int>,
    second: Option<int>,
    padded: bool,
)
    requires
        0 <= hour <= 23,
        minute matches Some(m) ==> 0 <= m <= 59,
        second matches Some(sec) ==> 0 <= sec <= 59,
        second is Some ==> minute is Some,
    ensures
        wall_clock_grammar(clock_text(hour, minute, second, padded), 0) == (Outcome::Parsed {
            value: WallClockTime {
                hour: hour as u8,
                minute: given_or_zero(minute) as u8,
                second: given_or_zero(second) as u8,
            },
            end: clock_text(hour, minute, second, padded).len() as int,
        }),
{
    let s = clock_text(hour, minute, second, padded);
    let h = hour_text(hour, padded);
    let n = h.len() as int;
    reveal_strlit("am");
    reveal_strlit("pm");
    assert(s.subrange(0, n) =~= h);
    lemma_one_or_two_digits(hour, padded);
    assert(forall|i: int| 0 <= i < n ==> s[i] == h[i]);
    assert(n < s.len() ==> s[n] == ':');
    assert(run_len(s, 0, CharClass::Digit, 2) == n) by {
        reveal_with_fuel(run_len, 3);
    }
    match minute {
        Some(m) => {
            lemma_two_digits(m);
            assert(s.subrange(n + 1, n + 3) =~= two_digits(m));
            assert(s[n + 1] == two_digits(m)[0] && s[n + 2] == two_digits(m)[1]);
            assert(run_len(s, n + 1, CharClass::Digit, 2) == 2) by {
                reveal_with_fuel(run_len, 3);
            }
            match second {
                Some(sec) => {
                    lemma_two_digits(sec);
                    assert(s.subrange(n + 4, n + 6) =~= two_digits(sec));
                    assert(s[n + 3] == ':');
                    assert(s[n + 4] == two_digits(sec)[0] && s[n + 5] == two_digits(sec)[1]);
                    assert(run_len(s, n + 4, CharClass::Digit, 2) == 2) by {
                        reveal_with_fuel(run_len, 3);
                    }
                    assert(s.len() == n + 6);
                },
                None => {
                    assert(s.len() == n + 3);
                },
            }
        },
        None => {
            assert(s.len() == n);
        },
    }
    assert(run(s, s.len() as int, CharClass::Blank) == 0);
}

/// A period written in small letters, or nothing.
pub open spec fn period_text(period: Option<TimePeriod>) -> Seq<char> {
    match period {
        Some(TimePeriod::Am) => "am"@,
        Some(TimePeriod::Pm) => "pm"@,
        None => Seq::<char>::empty(),
    }
}

/// A time of day written as `H`, `H:MM` or `H:MM:SS`, with `am` or `pm`
/// right behind it or without.
pub open spec fn time_text(
    hour: int,
    minute: Option<int>,
    second: Option<int>,
    padded: bool,
    period: Option<TimePeriod>,
) -> Seq<char> {
    hour_text(hour, padded) + colon_text(minute) + colon_text(second) + period_text(period)
}

/// Nothing that a time of day could take for its own follows at `pos`: the
/// text ends there, or a blank stands there and the blanks are followed by
/// the end of the text or by a character that is no letter.
pub open spec fn time_ends_at(s: Seq<char>, pos: int) -> bool {
    pos == s.len() || (0 <= pos < s.len() && CharClass::Blank.holds(s[pos]) && (pos + run(
        s,
        pos,
        CharClass::Blank,
    ) == s.len() || !CharClass::Alpha.holds(s[pos + run(s, pos, CharClass::Blank)])))
}

/// No minute and no second are read where neither a colon nor a digit
/// stands.
proof fn lemma_no_colon_field(s: Seq<char>, pos: int)
    requires
        pos >= s.len() || s[pos] != ':',
    ensures
        colon_field(s, pos) == (Outcome::Parsed { value: None::<u8>, end: pos }),
{
}

/// A colon and two digits that stand at `pos` are read as the number they
/// were written for.
proof fn lemma_colon_text_reads(s: Seq<char>, pos: int, value: int)
    requires
        0 <= value <= 99,
        text_at(s, pos, colon_text(Some(value))),
    ensures
        colon_field(s, pos) == (Outcome::Parsed { value: Some(value as u8), end: pos + 3 }),
        colon_text(Some(value)).len() == 3,
        s[pos] == ':',
{
    lemma_two_digits(value);
    lemma_text_at_parts(s, pos, seq![':'], two_digits(value));
    lemma_text_at_char(s, pos, seq![':'], 0);
    lemma_digits_at(s, pos + 1, two_digits(value), 2);
}

/// The period that stands at `pos`, or none where the time of day ends
/// there, is what is read.
proof fn lemma_period_text_reads(s: Seq<char>, pos: int, period: Option<TimePeriod>)
    requires
        text_at(s, pos, period_text(period)),
        period is None ==> time_ends_at(s, pos),
    ensures
        period_suffix(s, pos) == (period, pos + period_text(period).len()),
        pos == s.len() || !(CharClass::Digit.holds(s[pos]) || s[pos] == ':' || s[pos] == '-'
            || s[pos] == '/'),
{
    reveal_strlit("am");
    reveal_strlit("pm");
    match period {
        Some(word) => {
            let text = period_text(period);
            lemma_text_at_char(s, pos, text, 0);
            lemma_text_at_char(s, pos, text, 1);
            lemma_run_exact(s, pos, CharClass::Blank, s.len(), 0);
            assert(keyword_at(s, pos, text)) by {
                assert forall|i: int| 0 <= i < text.len() implies folded(#[trigger] s[pos + i])
                    == folded(text[i]) by {
                    lemma_text_at_char(s, pos, text, i);
                }
            }
            if word == TimePeriod::Pm && keyword_at(s, pos, "am"@) {
                lemma_keyword_letter(s, pos, "am"@, 0);
            }
        },
        None => {
            let next = pos + run(s, pos, CharClass::Blank);
            lemma_run_len(s, pos, CharClass::Blank, s.len());
            lemma_no_keyword(s, next, "am"@);
            lemma_no_keyword(s, next, "pm"@);
        },
    }
}

/// Reading gives back what was written: the text of a time of day in
/// range, with a period or without, is read as that time and to its end,
/// wherever it stands, where a period closes it or nothing that a time of
/// day could take for its own follows. Such a text is neither a day offset
/// nor a date.
pub proof fn lemma_time_text_reads(
    s: Seq<char>,
    pos: int,
    hour: int,
    minute: Option<int>,
    second: Option<int>,
    padded: bool,
    period: Option<TimePeriod>,
)
    requires
        0 <= hour <= 99,
        minute matches Some(m) ==> 0 <= m <= 99,
        second matches Some(sec) ==> 0 <= sec <= 99,
        second is Some ==> minute is Some,
        WallClockTime::spec_new(hour, given_or_zero(minute), given_or_zero(second), period) is Ok,
        text_at(s, pos, time_text(hour, minute, second, padded, period)),
        period is None ==> time_ends_at(
            s,
            pos + time_text(hour, minute, second, padded, period).len(),
        ),
    ensures
        wall_clock_grammar(s, pos) == (Outcome::Parsed {
            value: WallClockTime::spec_new(
                hour,
                given_or_zero(minute),
                given_or_zero(second),
                period,
            )->Ok_0,
            end: pos + time_text(hour, minute, second, padded, period).len(),
        }),
        pos < s.len() && CharClass::Digit.holds(s[pos]),
        ({
            let next = pos + run_len(s, pos, CharClass::Digit, 2);
            next >= s.len() || !(CharClass::Digit.holds(s[next]) || s[next] == '-' || s[next]
                == '/')
        }),
{
    let h = hour_text(hour, padded);
    let cm = colon_text(minute);
    let cs = colon_text(second);
    let p = period_text(period);
    lemma_one_or_two_digits(hour, padded);
    lemma_text_at_parts(s, pos, h + cm + cs, p);
    lemma_text_at_parts(s, pos, h + cm, cs);
    lemma_text_at_parts(s, pos, h, cm);
    let after_hour = pos + h.len();
    let after_minute = after_hour + cm.len();
    let after_second = after_minute + cs.len();
    lemma_text_at_char(s, pos, h, 0);
    assert(CharClass::Digit.holds(h[0]));
    lemma_period_text_reads(s, after_second, period);
    match minute {
        Some(m) => {
            lemma_colon_text_reads(s, after_hour, m);
            match second {
                Some(sec) => {
                    lemma_colon_text_reads(s, after_minute, sec);
                },
                None => {
                    lemma_no_colon_field(s, after_minute);
                },
            }
        },
        None => {
            lemma_no_colon_field(s, after_hour);
            lemma_no_colon_field(s, after_minute);
        },
    }
    lemma_digits_at(s, pos, h, 2);
}

/// A time of day takes up at least one character, and none beyond the end
/// of the text.
pub proof fn lemma_wall_clock_end(s: Seq<char>, pos: int)
    requires
        0 <= pos <= s.len(),
    ensures
        wall_clock_grammar(s, pos) matches Outcome::Parsed { end, .. } ==> pos < end <= s.len(),
{
    let n = run_len(s, pos, CharClass::Digit, 2);
    lemma_run_len(s, pos, CharClass::Digit, 2);
    if n > 0 {
        lemma_colon_field_end(s, pos + n);
        if let Outcome::Parsed { end: after_minute, .. } = colon_field(s, pos + n) {
            lemma_colon_field_end(s, after_minute);
            if let Outcome::Parsed { end: after_second, .. } = colon_field(s, after_minute) {
                lemma_period_suffix_end(s, after_second);
            }
        }
    }
}

/// A minute or a second ends at or behind the position where it starts, and
/// inside the text.
pub proof fn lemma_colon_field_end(s: Seq<char>, pos: int)
    requires
        0 <= pos <= s.len(),
    ensures
        colon_field(s, pos) matches Outcome::Parsed { end, .. } ==> pos <= end <= s.len(),
{
    if pos < s.len() {
        lemma_run_len(s, pos + 1, CharClass::Digit, 2);
    }
}

/// A period ends at or behind the position where it starts, and inside the
/// text.
pub proof fn lemma_period_suffix_end(s: Seq<char>, pos: int)
    requires
        0 <= pos <= s.len(),
    ensures
        pos <= period_suffix(s, pos).1 <= s.len(),
{
    lemma_run_len(s, pos, CharClass::Blank, s.len());
}

fn colon_field_at(s: &[char], pos: usize) -> (r: Located<Option<u8>>)
    requires
        pos <= s.len(),
    ensures
        agrees_at(r, colon_field(s@, pos as int)),
        r matches Ok(p) ==> pos <= p.0 <= s.len() && (p.1 is None ==> p.0 == pos),
{
    if pos < s.len() && s[pos] == ':' {
        let n: usize = scan_run(s, pos + 1, CharClass::Digit, 2);
        if n == 2 {
            proof {
                lemma_run_digits(s@, pos + 1, 2);
            }
            let v: u16 = read_small(s, pos + 1, pos + 3);
            Ok((pos + 3, Some(v as u8)))
        } else {
            Err(ParseFailure::Recoverable(FlexitimeError::Mismatch(pos + 1)))
        }
    } else {
        Ok((pos, None))
    }
}

fn period_suffix_at(s: &[char], pos: usize) -> (r: (Option<TimePeriod>, usize))
    requires
        pos <= s.len(),
    ensures
        (r.0, r.1 as int) == period_suffix(s@, pos as int),
        pos <= r.1 <= s.len(),
        r.0 is None ==> r.1 == pos,
{
    let p: usize = pos + scan_all(s, pos, CharClass::Blank);
    if match_keyword(s, p, "am") {
        (Some(TimePeriod::Am), p + "am".unicode_len())
    } else if match_keyword(s, p, "pm") {
        (Some(TimePeriod::Pm), p + "pm".unicode_len())
    } else {
        (None, pos)
    }
}

/// Reads a time of day at position `pos` of a text.
pub(crate) fn wall_clock_at(s: &[char], pos: usize) -> (r: Located<WallClockTime>)
    requires
        pos <= s.len(),
    ensures
        agrees_at(r, wall_clock_grammar(s@, pos as int)),
        r matches Ok(p) ==> pos < p.0 <= s.len() && p.1.wf(),
{
    let n: usize = scan_run(s, pos, CharClass::Digit, 2);
    if n == 0 {
        return Err(ParseFailure::Recoverable(FlexitimeError::Mismatch(pos)));
    }
    proof {
        lemma_run_digits(s@, pos as int, 2);
    }
    let hour: u16 = read_small(s, pos, pos + n);
    let (after_minute, minute) = match colon_field_at(s, pos + n) {
        Ok(p) => p,
        Err(e) => {
            return Err(e);
        },
    };
    let (after_second, second) = match colon_field_at(s, after_minute) {
        Ok(p) => p,
        Err(e) => {
            return Err(e);
        },
    };
    let (period, end) = period_suffix_at(s, after_second);
    let m: u8 = match minute {
        Some(v) => v,
        None => 0,
    };
    let sec: u8 = match second {
        Some(v) => v,
        None => 0,
    };
    match WallClockTime::new(hour as u8, m, sec, period) {
        Ok(t) => Ok((end, t)),
        Err(e) => Err(ParseFailure::Hard(FlexitimeError::WallClockTime(e))),
    }
}

/// Reads a time of day at the start of the input.
pub fn parse_wall_clock_time(input: &str) -> (r: FlexitimeResult<'_, WallClockTime>)
    ensures
        agrees(r, input@, wall_clock_grammar(input@, 0)),
        r matches Ok(p) ==> p.1.wf(),
{
    let chars = to_chars(input);
    conclude(input, chars.len(), wall_clock_at(chars.as_slice(), 0))
}

} // verus!
