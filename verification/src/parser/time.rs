//! What a time expression is once it has been read.

use crate::calendar::Timestamp;
use crate::parser::absolute::AbsoluteTime;
use crate::parser::relative::time::RelativeTime;
use vstd::prelude::*;

verus! {

/// A time expression: relative to now, or absolute.
#[derive(Debug, PartialEq, Eq, Clone, Copy, Structural)]
pub enum ParsedTime {
    Relative(RelativeTime),
    Absolute(AbsoluteTime),
}

impl ParsedTime {
    /// An absolute expression is valid; a relative one always is.
    pub open spec fn wf(self) -> bool {
        self matches ParsedTime::Absolute(time) ==> time.wf()
    }

    /// Whether an absolute expression is valid; a relative one always is.
    pub fn is_valid(&self) -> (b: bool)
        ensures
            b == self.wf(),
    {
        match self {
            ParsedTime::Relative(_) => true,
            ParsedTime::Absolute(time) => time.is_valid(),
        }
    }

    /// The instant that the expression stands for, seen from `now`.
    pub open spec fn resolved(self, now: Timestamp) -> Option<Timestamp> {
        match self {
            ParsedTime::Relative(time) => time.resolved(now),
            ParsedTime::Absolute(time) => time.resolved(now),
        }
    }

    /// The instant that the expression stands for, seen from `now`, or
    /// `None` where the arithmetic leaves the range of dates.
    pub fn to_chrono(&self, now: Timestamp) -> (r: Option<Timestamp>)
        requires
            self.wf(),
            now.wf(),
        ensures
            r == self.resolved(now),
            r matches Some(t) ==> t.wf(),
    {
        match self {
            ParsedTime::Relative(time) => time.to_chrono(now),
            ParsedTime::Absolute(time) => time.to_chrono(now),
        }
    }
}

} // verus!
