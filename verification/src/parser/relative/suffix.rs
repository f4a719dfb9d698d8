//! The direction of a relative expression: `ago` or `hence`.

use crate::error::{agrees, FlexitimeResult, Outcome};
use crate::parser::primitives::{conclude, keyword_at, match_keyword, run, scan_all, to_chars, CharClass};
use vstd::prelude::*;
use vstd::string::*;

verus! {

/// The word behind the amounts of a relative expression.
#[derive(Debug, Clone, Copy, PartialEq, Eq, Structural)]
pub enum Suffix {
    /// The amounts count back from now.
    Ago,
    /// The amounts count on from now.
    Hence,
}

/// The suffix from position `pos` on, and where it ends: at least one blank
/// and `ago` or `hence`, in any letter case. Where neither follows, there is
/// no suffix and nothing is read.
pub open spec fn suffix_at(s: Seq<char>, pos: int) -> (Option<Suffix>, int) {
    let blanks = run(s, pos, CharClass::Blank);
    let start = pos + blanks;
    if blanks >= 1 && keyword_at(s, start, "ago"@) {
        (Some(Suffix::Ago), start + "ago"@.len())
    } else if blanks >= 1 && keyword_at(s, start, "hence"@) {
        (Some(Suffix::Hence), start + "hence"@.len())
    } else {
        (None, pos)
    }
}

/// The grammar of the optional suffix. It never fails.
pub open spec fn suffix_grammar(s: Seq<char>, pos: int) -> Outcome<Option<Suffix>> {
    Outcome::Parsed { value: suffix_at(s, pos).0, end: suffix_at(s, pos).1 }
}

/// Reads the optional suffix at position `pos` of a text.
pub fn find_suffix(s: &[char], pos: usize) -> (r: (Option<Suffix>, usize))
    requires
        pos <= s.len(),
    ensures
        r.0 == suffix_at(s@, pos as int).0,
        r.1 == suffix_at(s@, pos as int).1,
        pos <= r.1 <= s.len(),
{
    let blanks: usize = scan_all(s, pos, CharClass::Blank);
    let start: usize = pos + blanks;
    if blanks >= 1 && match_keyword(s, start, "ago") {
        (Some(Suffix::Ago), start + "ago".unicode_len())
    } else if blanks >= 1 && match_keyword(s, start, "hence") {
        (Some(Suffix::Hence), start + "hence".unicode_len())
    } else {
        (None, pos)
    }
}

/// Reads the optional suffix at the start of the input.
pub fn parse_suffix(input: &str) -> (r: FlexitimeResult<'_, Option<Suffix>>)
    ensures
        agrees(r, input@, suffix_grammar(input@, 0)),
{
    let chars = to_chars(input);
    let (suffix, end) = find_suffix(chars.as_slice(), 0);
    conclude(input, chars.len(), Ok((end, suffix)))
}

} // verus!
