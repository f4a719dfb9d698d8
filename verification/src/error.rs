//! How a parse can fail, and the mathematical account of a parse that the
//! contracts of the parsing functions are written in.

use crate::parser::absolute::date::AbsoluteDateError;
use crate::parser::absolute::wallclock_time::WallClockTimeError;
use crate::parser::relative::units::RelativeUnitsError;
use vstd::prelude::*;

verus! {

/// Why a run of decimal digits is not a number of the wanted width.
#[derive(Debug, Clone, Copy, PartialEq, Eq, Structural)]
pub enum NumberError {
    /// The digits stand for a number too large for the integer type.
    TooLarge,
}

/// What went wrong in a parse.
#[derive(Debug, PartialEq)]
pub enum FlexitimeError {
    /// An amount was made of digits but does not fit the integer type.
    ParseIntError(NumberError),
    /// A field of a time of day is out of range.
    WallClockTime(WallClockTimeError),
    /// An amount was followed by letters that name no unit.
    RelativeUnits(RelativeUnitsError),
    /// A date has a part out of range, or names a day that does not exist.
    Date(AbsoluteDateError),
    /// An absolute expression lacks its date or its time of day.
    MissingField,
    /// The grammar does not match the input at this position, counted in
    /// characters from the start of the input.
    Mismatch(usize),
}

/// A failed parse. A recoverable failure lets a surrounding grammar try
/// another reading of the input; a hard failure ends the surrounding
/// sequence or repetition at once.
#[derive(Debug, PartialEq)]
pub enum ParseFailure {
    Recoverable(FlexitimeError),
    Hard(FlexitimeError),
}

/// The result of a parsing function: what is left of the input, with the
/// parsed value, or the failure.
pub type FlexitimeResult<'a, O> = Result<(&'a str, O), ParseFailure>;

/// The result of parsing inside a longer text: the position just behind the
/// part that was read, with the parsed value, or the failure.
pub type Located<O> = Result<(usize, O), ParseFailure>;

/// The model of a [`FlexitimeError`].
pub enum Cause {
    ParseInt(NumberError),
    WallClockTime(WallClockTimeError),
    /// The letters that name no unit.
    UnknownUnit(Seq<char>),
    Date(AbsoluteDateError),
    MissingField,
    Mismatch(int),
}

/// The model of a [`ParseFailure`].
pub struct Failure {
    pub hard: bool,
    pub cause: Cause,
}

/// What a grammar makes of a text from a given position on.
pub enum Outcome<T> {
    /// The grammar matches the text up to, not including, position `end`,
    /// and the part read stands for `value`.
    Parsed { value: T, end: int },
    Failed(Failure),
}

impl<T> Outcome<T> {
    /// The same outcome with the value, if there is one, replaced by what
    /// `f` makes of it.
    pub open spec fn map<U>(self, f: spec_fn(T) -> U) -> Outcome<U> {
        match self {
            Outcome::Parsed { value, end } => Outcome::Parsed { value: f(value), end },
            Outcome::Failed(failure) => Outcome::Failed(failure),
        }
    }

    /// Ordered choice: this outcome, unless it is a recoverable failure; the
    /// other one after a recoverable failure.
    pub open spec fn or(self, other: Outcome<T>) -> Outcome<T> {
        match self {
            Outcome::Parsed { .. } => self,
            Outcome::Failed(failure) => if failure.hard {
                self
            } else {
                other
            },
        }
    }

    /// The outcome is a hard failure.
    pub open spec fn is_hard(self) -> bool {
        self matches Outcome::Failed(failure) && failure.hard
    }
}

/// A recoverable failure.
pub open spec fn soft<T>(cause: Cause) -> Outcome<T> {
    Outcome::Failed(Failure { hard: false, cause })
}

/// A hard failure.
pub open spec fn hard<T>(cause: Cause) -> Outcome<T> {
    Outcome::Failed(Failure { hard: true, cause })
}

impl View for FlexitimeError {
    type V = Cause;

    open spec fn view(&self) -> Cause {
        match *self {
            FlexitimeError::ParseIntError(e) => Cause::ParseInt(e),
            FlexitimeError::WallClockTime(e) => Cause::WallClockTime(e),
            FlexitimeError::RelativeUnits(e) => Cause::UnknownUnit(e@),
            FlexitimeError::Date(e) => Cause::Date(e),
            FlexitimeError::MissingField => Cause::MissingField,
            FlexitimeError::Mismatch(at) => Cause::Mismatch(at as int),
        }
    }
}

impl View for ParseFailure {
    type V = Failure;

    open spec fn view(&self) -> Failure {
        match *self {
            ParseFailure::Recoverable(e) => Failure { hard: false, cause: e@ },
            ParseFailure::Hard(e) => Failure { hard: true, cause: e@ },
        }
    }
}

impl ParseFailure {
    /// Whether the failure is a hard one.
    pub fn is_hard(&self) -> (b: bool)
        ensures
            b == self@.hard,
    {
        match self {
            ParseFailure::Recoverable(_) => false,
            ParseFailure::Hard(_) => true,
        }
    }
}

/// A result of a parsing function says what the grammar makes of the input:
/// on a match, the value and the rest of the input behind the part read; on a
/// failure, that failure.
pub open spec fn agrees<T>(r: Result<(&str, T), ParseFailure>, input: Seq<char>, o: Outcome<T>) -> bool {
    match o {
        Outcome::Parsed { value, end } => r matches Ok(p) && p.1 == value && p.0@ == input.skip(
            end,
        ),
        Outcome::Failed(f) => r matches Err(e) && e@ == f,
    }
}

/// The same for a parse inside a longer text, where the position behind the
/// part read takes the place of the rest of the input.
pub open spec fn agrees_at<T>(r: Result<(usize, T), ParseFailure>, o: Outcome<T>) -> bool {
    match o {
        Outcome::Parsed { value, end } => r matches Ok(p) && p.1 == value && p.0 == end,
        Outcome::Failed(f) => r matches Err(e) && e@ == f,
    }
}

} // verus!
