//! Absolute expressions: a day and a time of day, in either order.

use crate::calendar::CalendarDate;
use crate::error::{
    agrees, agrees_at, hard, soft, Cause, FlexitimeError, FlexitimeResult, Located, Outcome,
    ParseFailure,
};
use crate::parser::primitives::{
    conclude, lemma_run_exact, lemma_run_len, lemma_text_at_char, lemma_text_at_concat, run,
    scan_all, text_at, to_chars, CharClass,
};
use date::{date_at, date_grammar, date_text};
use day_offset::{day_offset_at, day_offset_grammar};
use vstd::prelude::*;
use wallclock_time::{given_or_zero, time_ends_at, time_text, wall_clock_at, wall_clock_grammar};

pub mod date;
pub mod day_offset;
pub mod month_offset;
pub mod time;
pub mod wallclock_time;

pub use day_offset::DayOffset;
pub use time::{AbsoluteTime, AbsoluteTimeBuilder, FlexiDate};
pub use wallclock_time::{TimePeriod, WallClockTime};

verus! {

/// One part of an absolute expression.
#[derive(Debug, PartialEq, Eq, Clone, Copy, Structural)]
pub enum AbsoluteTimePart {
    DayOffset(DayOffset),
    Date(CalendarDate),
    WallClockTime(WallClockTime),
}

impl AbsoluteTimeBuilder {
    /// The same with one more part: a day offset or a date sets the day, a
    /// time of day sets the time. A part of a kind that was given before
    /// takes the earlier one's place.
    pub open spec fn with_part(self, part: AbsoluteTimePart) -> AbsoluteTimeBuilder {
        match part {
            AbsoluteTimePart::DayOffset(offset) => AbsoluteTimeBuilder {
                date: Some(FlexiDate::DayOffset(offset)),
                ..self
            },
            AbsoluteTimePart::Date(date) => AbsoluteTimeBuilder {
                date: Some(FlexiDate::Date(date)),
                ..self
            },
            AbsoluteTimePart::WallClockTime(time) => AbsoluteTimeBuilder {
                time: Some(time),
                ..self
            },
        }
    }

    /// The same with one more part.
    pub fn put(self, part: AbsoluteTimePart) -> (r: AbsoluteTimeBuilder)
        ensures
            r == self.with_part(part),
    {
        match part {
            AbsoluteTimePart::DayOffset(offset) => self.date(FlexiDate::DayOffset(offset)),
            AbsoluteTimePart::Date(date) => self.date(FlexiDate::Date(date)),
            AbsoluteTimePart::WallClockTime(time) => self.time(time),
        }
    }
}

impl AbsoluteTimePart {
    /// A date, where the part is one, exists, and a time of day is in range.
    pub open spec fn wf(self) -> bool {
        match self {
            AbsoluteTimePart::DayOffset(_) => true,
            AbsoluteTimePart::Date(date) => date.wf(),
            AbsoluteTimePart::WallClockTime(time) => time.wf(),
        }
    }
}

/// The grammar of one part from position `pos` on. The text is read as a
/// day offset; after a recoverable failure, as a date; after another, as a
/// time of day. The date comes before the time of day because both start
/// with digits: a date has a `-` or a `/` behind its first digits, which a
/// time of day never has, while a time of day would take the first digits of
/// a date for its hour.
pub open spec fn part_grammar(s: Seq<char>, pos: int) -> Outcome<AbsoluteTimePart> {
    day_offset_grammar(s, pos).map(|offset: DayOffset| AbsoluteTimePart::DayOffset(offset)).or(
        date_grammar(s, pos).map(|date: CalendarDate| AbsoluteTimePart::Date(date)),
    ).or(
        wall_clock_grammar(s, pos).map(|time: WallClockTime| AbsoluteTimePart::WallClockTime(time)),
    )
}

/// The grammar of one part with any number of blanks before and behind it.
pub open spec fn spaced_part(s: Seq<char>, pos: int) -> Outcome<AbsoluteTimePart> {
    match part_grammar(s, pos + run(s, pos, CharClass::Blank)) {
        Outcome::Parsed { value, end } => Outcome::Parsed {
            value,
            end: end + run(s, end, CharClass::Blank),
        },
        Outcome::Failed(failure) => Outcome::Failed(failure),
    }
}

/// The parts that follow the first one, from position `pos` on, added one
/// after the other to `so_far`. The run of parts ends, without a failure,
/// where no part follows; a hard failure of a part is a hard failure of the
/// run.
pub open spec fn more_parts(s: Seq<char>, pos: int, so_far: AbsoluteTimeBuilder) -> Outcome<
    AbsoluteTimeBuilder,
>
    decreases s.len() - pos,
    when 0 <= pos <= s.len()
    via more_parts_decreases
{
    match spaced_part(s, pos) {
        Outcome::Parsed { value, end } => more_parts(s, end, so_far.with_part(value)),
        Outcome::Failed(failure) => if failure.hard {
            Outcome::Failed(failure)
        } else {
            Outcome::Parsed { value: so_far, end: pos }
        },
    }
}

#[via_fn]
proof fn more_parts_decreases(s: Seq<char>, pos: int, so_far: AbsoluteTimeBuilder) {
    lemma_spaced_part_end(s, pos);
}

/// The grammar of an absolute expression from position `pos` on: one or more
/// parts, each a day offset, a time of day or a date, in any order and with
/// blanks around them. Together they give a day and a time of day; an
/// expression that lacks one of the two is a hard failure. Where the first
/// part fails in a recoverable way the failure is a recoverable one, at
/// `pos`.
pub open spec fn absolute_grammar(s: Seq<char>, pos: int) -> Outcome<AbsoluteTime> {
    match spaced_part(s, pos) {
        Outcome::Failed(failure) => if failure.hard {
            Outcome::Failed(failure)
        } else {
            soft(Cause::Mismatch(pos))
        },
        Outcome::Parsed { value: first, end } => match more_parts(
            s,
            end,
            (AbsoluteTimeBuilder { time: None, date: None }).with_part(first),
        ) {
            Outcome::Failed(failure) => Outcome::Failed(failure),
            Outcome::Parsed { value: builder, end } => match builder.spec_build() {
                Some(built) => Outcome::Parsed { value: built, end },
                None => hard(Cause::MissingField),
            },
        },
    }
}

/// A part takes up at least one character, and none beyond the end of the
/// text.
pub proof fn lemma_part_grammar_end(s: Seq<char>, pos: int)
    requires
        0 <= pos <= s.len(),
    ensures
        part_grammar(s, pos) matches Outcome::Parsed { end, .. } ==> pos < end <= s.len(),
{
    day_offset::lemma_day_offset_end(s, pos);
    wallclock_time::lemma_wall_clock_end(s, pos);
    date::lemma_date_end(s, pos);
}

/// A part with the blanks around it takes up at least one character, and
/// none beyond the end of the text.
pub proof fn lemma_spaced_part_end(s: Seq<char>, pos: int)
    requires
        0 <= pos <= s.len(),
    ensures
        spaced_part(s, pos) matches Outcome::Parsed { end, .. } ==> pos < end <= s.len(),
{
    lemma_run_len(s, pos, CharClass::Blank, s.len());
    let start = pos + run(s, pos, CharClass::Blank);
    lemma_part_grammar_end(s, start);
    if let Outcome::Parsed { end, .. } = part_grammar(s, start) {
        lemma_run_len(s, end, CharClass::Blank, s.len());
    }
}

/// One or more blanks.
pub open spec fn is_gap(gap: Seq<char>) -> bool {
    gap.len() >= 1 && forall|i: int| 0 <= i < gap.len() ==> CharClass::Blank.holds(#[trigger] gap[i])
}

/// No part stands at the end of a text.
pub proof fn lemma_no_part_at_end(s: Seq<char>)
    ensures
        spaced_part(s, s.len() as int) matches Outcome::Failed(failure) && !failure.hard,
{
    let end = s.len() as int;
    lemma_run_exact(s, end, CharClass::Blank, s.len(), 0);
    day_offset::lemma_no_day_offset(s, end);
    date::lemma_not_a_date(s, end);
}

/// Two parts, and no third behind them, make the expression that the
/// builder makes of them.
pub proof fn lemma_two_parts(
    s: Seq<char>,
    pos: int,
    first: AbsoluteTimePart,
    middle: int,
    second: AbsoluteTimePart,
    end: int,
)
    requires
        0 <= pos <= s.len(),
        spaced_part(s, pos) == (Outcome::Parsed { value: first, end: middle }),
        spaced_part(s, middle) == (Outcome::Parsed { value: second, end }),
        spaced_part(s, end) matches Outcome::Failed(failure) && !failure.hard,
    ensures
        absolute_grammar(s, pos) == match (AbsoluteTimeBuilder { time: None, date: None }).with_part(
            first,
        ).with_part(second).spec_build() {
            Some(built) => Outcome::Parsed { value: built, end },
            None => hard::<AbsoluteTime>(Cause::MissingField),
        },
{
    lemma_spaced_part_end(s, pos);
    lemma_spaced_part_end(s, middle);
    let one = (AbsoluteTimeBuilder { time: None, date: None }).with_part(first);
    let both = one.with_part(second);
    assert(more_parts(s, end, both) == (Outcome::Parsed { value: both, end }));
    assert(more_parts(s, middle, one) == more_parts(s, end, both));
}

/// A part that stands at `pos`, with blanks or the end of the text behind
/// it, is the part that is read there with the blanks around it.
proof fn lemma_spaced(s: Seq<char>, pos: int, part: AbsoluteTimePart, end: int, blanks: nat)
    requires
        0 <= pos < s.len(),
        !CharClass::Blank.holds(s[pos]),
        part_grammar(s, pos) == (Outcome::Parsed { value: part, end }),
        0 <= end,
        end + blanks <= s.len(),
        forall|i: int| end <= i < end + blanks ==> CharClass::Blank.holds(#[trigger] s[i]),
        end + blanks == s.len() || !CharClass::Blank.holds(s[end + blanks]),
    ensures
        spaced_part(s, pos) == (Outcome::Parsed { value: part, end: end + blanks }),
{
    lemma_run_exact(s, pos, CharClass::Blank, s.len(), 0);
    lemma_run_exact(s, end, CharClass::Blank, s.len(), blanks);
}

/// The text of a date that stands at `pos`, with no digit behind it, is the
/// part that is read there.
proof fn lemma_date_part(
    s: Seq<char>,
    pos: int,
    date: CalendarDate,
    year_first: bool,
    first_delimiter: char,
    second_delimiter: char,
    padded: bool,
)
    requires
        date.wf(),
        0 <= date.year <= 3000,
        first_delimiter == '-' || first_delimiter == '/',
        second_delimiter == '-' || second_delimiter == '/',
        text_at(s, pos, written_date(date, year_first, first_delimiter, second_delimiter, padded)),
        ({
            let end = pos + written_date(
                date,
                year_first,
                first_delimiter,
                second_delimiter,
                padded,
            ).len();
            end == s.len() || !CharClass::Digit.holds(s[end])
        }),
    ensures
        part_grammar(s, pos) == (Outcome::Parsed {
            value: AbsoluteTimePart::Date(date),
            end: pos + written_date(
                date,
                year_first,
                first_delimiter,
                second_delimiter,
                padded,
            ).len(),
        }),
        pos < s.len() && !CharClass::Blank.holds(s[pos]),
{
    date::lemma_date_text_reads(s, pos, date, year_first, first_delimiter, second_delimiter, padded);
    day_offset::lemma_no_day_offset(s, pos);
}

/// The text of a time of day that stands at `pos`, closed by a period or by
/// the end of what a time of day could take, is the part that is read
/// there.
proof fn lemma_time_part(
    s: Seq<char>,
    pos: int,
    hour: int,
    minute: Option<int>,
    second: Option<int>,
    padded: bool,
    period: Option<TimePeriod>,
)
    requires
        0 <= hour <= 99,
        minute matches Some(m) ==> 0 <= m <= 99,
        second matches Some(sec) ==> 0 <= sec <= 99,
        second is Some ==> minute is Some,
        WallClockTime::spec_new(hour, given_or_zero(minute), given_or_zero(second), period) is Ok,
        text_at(s, pos, time_text(hour, minute, second, padded, period)),
        period is None ==> time_ends_at(
            s,
            pos + time_text(hour, minute, second, padded, period).len(),
        ),
    ensures
        part_grammar(s, pos) == (Outcome::Parsed {
            value: AbsoluteTimePart::WallClockTime(
                WallClockTime::spec_new(
                    hour,
                    given_or_zero(minute),
                    given_or_zero(second),
                    period,
                )->Ok_0,
            ),
            end: pos + time_text(hour, minute, second, padded, period).len(),
        }),
        pos < s.len() && !CharClass::Blank.holds(s[pos]),
{
    wallclock_time::lemma_time_text_reads(s, pos, hour, minute, second, padded, period);
    day_offset::lemma_no_day_offset(s, pos);
    date::lemma_not_a_date(s, pos);
}

/// The text of a date: see [`date_text`].
pub open spec fn written_date(
    date: CalendarDate,
    year_first: bool,
    first_delimiter: char,
    second_delimiter: char,
    padded: bool,
) -> Seq<char> {
    date_text(
        date.year as int,
        date.month as int,
        date.day as int,
        year_first,
        first_delimiter,
        second_delimiter,
        padded,
    )
}

/// Two parts whose texts stand one behind the other, with blanks between
/// them and nothing behind them, make the expression that the builder makes
/// of them.
proof fn lemma_two_texts(
    first_text: Seq<char>,
    gap: Seq<char>,
    second_text: Seq<char>,
    first: AbsoluteTimePart,
    second: AbsoluteTimePart,
)
    requires
        is_gap(gap),
        ({
            let s = first_text + gap + second_text;
            &&& part_grammar(s, 0) == (Outcome::Parsed {
                value: first,
                end: first_text.len() as int,
            })
            &&& part_grammar(s, (first_text.len() + gap.len()) as int) == (Outcome::Parsed {
                value: second,
                end: s.len() as int,
            })
            &&& 0 < s.len() && !CharClass::Blank.holds(s[0])
            &&& first_text.len() + gap.len() < s.len() && !CharClass::Blank.holds(
                s[(first_text.len() + gap.len()) as int],
            )
        }),
    ensures
        absolute_grammar(first_text + gap + second_text, 0) == match (AbsoluteTimeBuilder {
            time: None,
            date: None,
        }).with_part(first).with_part(second).spec_build() {
            Some(built) => Outcome::Parsed {
                value: built,
                end: (first_text + gap + second_text).len() as int,
            },
            None => hard::<AbsoluteTime>(Cause::MissingField),
        },
{
    let s = first_text + gap + second_text;
    let a = first_text.len() as int;
    let g = gap.len() as int;
    lemma_text_at_concat(first_text, gap, second_text);
    assert forall|i: int| a <= i < a + g implies CharClass::Blank.holds(#[trigger] s[i]) by {
        lemma_text_at_char(s, a, gap, i - a);
    }
    lemma_spaced(s, 0, first, a, g as nat);
    lemma_spaced(s, a + g, second, s.len() as int, 0);
    lemma_no_part_at_end(s);
    lemma_two_parts(s, 0, first, a + g, second, s.len() as int);
}

/// The expression that a date and a time of day make.
pub open spec fn date_with_time(
    date: CalendarDate,
    hour: int,
    minute: Option<int>,
    second: Option<int>,
    period: Option<TimePeriod>,
) -> AbsoluteTime {
    AbsoluteTime {
        time: WallClockTime::spec_new(
            hour,
            given_or_zero(minute),
            given_or_zero(second),
            period,
        )->Ok_0,
        date: FlexiDate::Date(date),
    }
}

/// A date, blanks and a time of day are read as that date and that time of
/// day.
#[verifier::rlimit(40)]
proof fn lemma_date_then_time(
    date: CalendarDate,
    year_first: bool,
    first_delimiter: char,
    second_delimiter: char,
    padded_date: bool,
    hour: int,
    minute: Option<int>,
    second: Option<int>,
    padded_hour: bool,
    period: Option<TimePeriod>,
    gap: Seq<char>,
)
    requires
        date.wf(),
        0 <= date.year <= 3000,
        first_delimiter == '-' || first_delimiter == '/',
        second_delimiter == '-' || second_delimiter == '/',
        0 <= hour <= 99,
        minute matches Some(m) ==> 0 <= m <= 99,
        second matches Some(sec) ==> 0 <= sec <= 99,
        second is Some ==> minute is Some,
        WallClockTime::spec_new(hour, given_or_zero(minute), given_or_zero(second), period) is Ok,
        is_gap(gap),
    ensures
        absolute_grammar(
            written_date(date, year_first, first_delimiter, second_delimiter, padded_date) + gap
                + time_text(hour, minute, second, padded_hour, period),
            0,
        ) == (Outcome::Parsed {
            value: date_with_time(date, hour, minute, second, period),
            end: (written_date(date, year_first, first_delimiter, second_delimiter, padded_date)
                + gap + time_text(hour, minute, second, padded_hour, period)).len() as int,
        }),
{
    let day = written_date(date, year_first, first_delimiter, second_delimiter, padded_date);
    let time = time_text(hour, minute, second, padded_hour, period);
    let s = day + gap + time;
    let d = day.len() as int;
    let g = gap.len() as int;
    lemma_text_at_concat(day, gap, time);
    lemma_text_at_char(s, d, gap, 0);
    lemma_date_part(s, 0, date, year_first, first_delimiter, second_delimiter, padded_date);
    lemma_time_part(s, d + g, hour, minute, second, padded_hour, period);
    lemma_two_texts(
        day,
        gap,
        time,
        AbsoluteTimePart::Date(date),
        AbsoluteTimePart::WallClockTime(date_with_time(date, hour, minute, second, period).time),
    );
}

/// A time of day, blanks and a date are read as that date and that time of
/// day.
#[verifier::rlimit(40)]
proof fn lemma_time_then_date(
    date: CalendarDate,
    year_first: bool,
    first_delimiter: char,
    second_delimiter: char,
    padded_date: bool,
    hour: int,
    minute: Option<int>,
    second: Option<int>,
    padded_hour: bool,
    period: Option<TimePeriod>,
    gap: Seq<char>,
)
    requires
        date.wf(),
        0 <= date.year <= 3000,
        first_delimiter == '-' || first_delimiter == '/',
        second_delimiter == '-' || second_delimiter == '/',
        0 <= hour <= 99,
        minute matches Some(m) ==> 0 <= m <= 99,
        second matches Some(sec) ==> 0 <= sec <= 99,
        second is Some ==> minute is Some,
        WallClockTime::spec_new(hour, given_or_zero(minute), given_or_zero(second), period) is Ok,
        is_gap(gap),
    ensures
        absolute_grammar(
            time_text(hour, minute, second, padded_hour, period) + gap + written_date(
                date,
                year_first,
                first_delimiter,
                second_delimiter,
                padded_date,
            ),
            0,
        ) == (Outcome::Parsed {
            value: date_with_time(date, hour, minute, second, period),
            end: (time_text(hour, minute, second, padded_hour, period) + gap + written_date(
                date,
                year_first,
                first_delimiter,
                second_delimiter,
                padded_date,
            )).len() as int,
        }),
{
    let day = written_date(date, year_first, first_delimiter, second_delimiter, padded_date);
    let time = time_text(hour, minute, second, padded_hour, period);
    let s = time + gap + day;
    let t = time.len() as int;
    let g = gap.len() as int;
    lemma_text_at_concat(time, gap, day);
    assert forall|i: int| t <= i < t + g implies CharClass::Blank.holds(#[trigger] s[i]) by {
        lemma_text_at_char(s, t, gap, i - t);
    }
    lemma_date_part(s, t + g, date, year_first, first_delimiter, second_delimiter, padded_date);
    lemma_run_exact(s, t, CharClass::Blank, s.len(), g as nat);
    lemma_time_part(s, 0, hour, minute, second, padded_hour, period);
    lemma_two_texts(
        time,
        gap,
        day,
        AbsoluteTimePart::WallClockTime(date_with_time(date, hour, minute, second, period).time),
        AbsoluteTimePart::Date(date),
    );
}

/// A date and a time of day with blanks between them are read as that date
/// and that time of day, whichever of the two comes first. This holds for
/// every day that exists in the years 0 to 3000, written day first or year
/// first, with either delimiter, and for every time of day in range, written
/// as `H`, `H:MM` or `H:MM:SS` with `am`, `pm` or no period.
pub proof fn lemma_date_and_time_in_either_order(
    date: CalendarDate,
    year_first: bool,
    first_delimiter: char,
    second_delimiter: char,
    padded_date: bool,
    hour: int,
    minute: Option<int>,
    second: Option<int>,
    padded_hour: bool,
    period: Option<TimePeriod>,
    gap: Seq<char>,
)
    requires
        date.wf(),
        0 <= date.year <= 3000,
        first_delimiter == '-' || first_delimiter == '/',
        second_delimiter == '-' || second_delimiter == '/',
        0 <= hour <= 99,
        minute matches Some(m) ==> 0 <= m <= 99,
        second matches Some(sec) ==> 0 <= sec <= 99,
        second is Some ==> minute is Some,
        WallClockTime::spec_new(hour, given_or_zero(minute), given_or_zero(second), period) is Ok,
        is_gap(gap),
    ensures
        ({
            let day = written_date(
                date,
                year_first,
                first_delimiter,
                second_delimiter,
                padded_date,
            );
            let time = time_text(hour, minute, second, padded_hour, period);
            let meant = date_with_time(date, hour, minute, second, period);
            &&& absolute_grammar(day + gap + time, 0) == (Outcome::Parsed {
                value: meant,
                end: (day + gap + time).len() as int,
            })
            &&& absolute_grammar(time + gap + day, 0) == (Outcome::Parsed {
                value: meant,
                end: (time + gap + day).len() as int,
            })
        }),
{
    lemma_date_then_time(
        date,
        year_first,
        first_delimiter,
        second_delimiter,
        padded_date,
        hour,
        minute,
        second,
        padded_hour,
        period,
        gap,
    );
    lemma_time_then_date(
        date,
        year_first,
        first_delimiter,
        second_delimiter,
        padded_date,
        hour,
        minute,
        second,
        padded_hour,
        period,
        gap,
    );
}

/// Reads one part at position `pos` of a text.
fn part_at(s: &[char], pos: usize) -> (r: Located<AbsoluteTimePart>)
    requires
        pos <= s.len(),
    ensures
        agrees_at(r, part_grammar(s@, pos as int)),
        r matches Ok(p) ==> pos < p.0 <= s.len() && p.1.wf(),
{
    proof {
        lemma_part_grammar_end(s@, pos as int);
    }
    match day_offset_at(s, pos) {
        Ok((end, offset)) => {
            return Ok((end, AbsoluteTimePart::DayOffset(offset)));
        },
        Err(failure) => {
            if failure.is_hard() {
                return Err(failure);
            }
        },
    }
    match date_at(s, pos) {
        Ok((end, date)) => {
            return Ok((end, AbsoluteTimePart::Date(date)));
        },
        Err(failure) => {
            if failure.is_hard() {
                return Err(failure);
            }
        },
    }
    match wall_clock_at(s, pos) {
        Ok((end, time)) => Ok((end, AbsoluteTimePart::WallClockTime(time))),
        Err(failure) => Err(failure),
    }
}

/// Reads one part, with the blanks around it, at position `pos` of a text.
fn spaced_part_at(s: &[char], pos: usize) -> (r: Located<AbsoluteTimePart>)
    requires
        pos <= s.len(),
    ensures
        agrees_at(r, spaced_part(s@, pos as int)),
        r matches Ok(p) ==> pos < p.0 <= s.len() && p.1.wf(),
{
    let start: usize = pos + scan_all(s, pos, CharClass::Blank);
    match part_at(s, start) {
        Ok((end, part)) => Ok((end + scan_all(s, end, CharClass::Blank), part)),
        Err(failure) => Err(failure),
    }
}

/// Reads the parts that follow the first one.
fn more_parts_at(s: &[char], pos: usize, so_far: AbsoluteTimeBuilder) -> (r: Located<
    AbsoluteTimeBuilder,
>)
    requires
        pos <= s.len(),
        so_far.wf(),
    ensures
        agrees_at(r, more_parts(s@, pos as int, so_far)),
        r matches Ok(p) ==> pos <= p.0 <= s.len() && p.1.wf(),
{
    let len: usize = s.len();
    let mut at: usize = pos;
    let mut builder = so_far;
    loop
        invariant
            len == s.len(),
            pos <= at <= len,
            builder.wf(),
            more_parts(s@, pos as int, so_far) == more_parts(s@, at as int, builder),
        decreases len - at,
    {
        match spaced_part_at(s, at) {
            Ok((end, part)) => {
                builder = builder.put(part);
                at = end;
            },
            Err(failure) => {
                if failure.is_hard() {
                    return Err(failure);
                }
                return Ok((at, builder));
            },
        }
    }
}

/// Reads an absolute expression at position `pos` of a text.
pub(crate) fn absolute_at(s: &[char], pos: usize) -> (r: Located<AbsoluteTime>)
    requires
        pos <= s.len(),
    ensures
        agrees_at(r, absolute_grammar(s@, pos as int)),
        r matches Ok(p) ==> pos < p.0 <= s.len() && p.1.wf(),
{
    let (end, first) = match spaced_part_at(s, pos) {
        Ok(p) => p,
        Err(failure) => {
            if failure.is_hard() {
                return Err(failure);
            }
            return Err(ParseFailure::Recoverable(FlexitimeError::Mismatch(pos)));
        },
    };
    let (end, builder) = match more_parts_at(s, end, AbsoluteTimeBuilder::new().put(first)) {
        Ok(p) => p,
        Err(failure) => {
            return Err(failure);
        },
    };
    match builder.build() {
        Ok(built) => Ok((end, built)),
        Err(_) => Err(ParseFailure::Hard(FlexitimeError::MissingField)),
    }
}

/// Reads an absolute expression at the start of the input.
pub fn parse_absolute_time(input: &str) -> (r: FlexitimeResult<'_, AbsoluteTime>)
    ensures
        agrees(r, input@, absolute_grammar(input@, 0)),
        r matches Ok(p) ==> p.1.wf(),
{
    let chars = to_chars(input);
    conclude(input, chars.len(), absolute_at(chars.as_slice(), 0))
}

} // verus!
