//! The scanners that every grammar rule is built from: runs of characters of
//! one class, decimal numbers, and keywords.

use crate::error::{FlexitimeResult, Located, ParseFailure};
use vstd::prelude::*;
use vstd::string::*;

verus! {

/// The classes of characters that the grammar tells apart.
#[derive(Debug, Clone, Copy, PartialEq, Eq, Structural)]
pub enum CharClass {
    /// The decimal digits `0` to `9`.
    Digit,
    /// The letters `a` to `z` and `A` to `Z`.
    Alpha,
    /// The space and the tab.
    Blank,
}

impl CharClass {
    /// Whether a character belongs to the class.
    pub open spec fn holds(self, c: char) -> bool {
        match self {
            CharClass::Digit => '0' <= c <= '9',
            CharClass::Alpha => ('a' <= c <= 'z') || ('A' <= c <= 'Z'),
            CharClass::Blank => c == ' ' || c == '\t',
        }
    }

    /// Whether a character belongs to the class.
    pub fn test(self, c: char) -> (b: bool)
        ensures
            b == self.holds(c),
    {
        match self {
            CharClass::Digit => '0' <= c && c <= '9',
            CharClass::Alpha => ('a' <= c && c <= 'z') || ('A' <= c && c <= 'Z'),
            CharClass::Blank => c == ' ' || c == '\t',
        }
    }
}

/// The length of the run of characters of one class that starts at `pos`,
/// counting at most `limit` of them.
pub open spec fn run_len(s: Seq<char>, pos: int, class: CharClass, limit: nat) -> nat
    decreases limit,
{
    if limit == 0 || pos < 0 || pos >= s.len() || !class.holds(s[pos]) {
        0
    } else {
        1 + run_len(s, pos + 1, class, (limit - 1) as nat)
    }
}

/// The length of the whole run of characters of one class that starts at
/// `pos`.
pub open spec fn run(s: Seq<char>, pos: int, class: CharClass) -> nat {
    run_len(s, pos, class, s.len())
}

/// A run is what its name says: it stays inside the text and under the limit,
/// every character of it belongs to the class, and it ends only at the limit,
/// at the end of the text, or before a character of another class.
pub proof fn lemma_run_len(s: Seq<char>, pos: int, class: CharClass, limit: nat)
    requires
        0 <= pos <= s.len(),
    ensures
        run_len(s, pos, class, limit) <= limit,
        pos + run_len(s, pos, class, limit) <= s.len(),
        forall|i: int|
            pos <= i < pos + run_len(s, pos, class, limit) ==> class.holds(#[trigger] s[i]),
        run_len(s, pos, class, limit) < limit && pos + run_len(s, pos, class, limit) < s.len()
            ==> !class.holds(s[pos + run_len(s, pos, class, limit)]),
    decreases limit,
{
    if limit == 0 || pos >= s.len() || !class.holds(s[pos]) {
    } else {
        lemma_run_len(s, pos + 1, class, (limit - 1) as nat);
    }
}

/// A run that no limit cuts short is as long under any limit that covers the
/// rest of the text.
pub proof fn lemma_run_len_unbounded(s: Seq<char>, pos: int, class: CharClass, limit: nat)
    requires
        0 <= pos <= s.len(),
        limit >= s.len() - pos,
    ensures
        run_len(s, pos, class, limit) == run(s, pos, class),
{
    lemma_run_len_step(s, pos, class, limit, s.len());
}

/// Two limits that both cover the rest of the text give the same run.
proof fn lemma_run_len_step(s: Seq<char>, pos: int, class: CharClass, a: nat, b: nat)
    requires
        0 <= pos <= s.len(),
        a >= s.len() - pos,
        b >= s.len() - pos,
    ensures
        run_len(s, pos, class, a) == run_len(s, pos, class, b),
    decreases s.len() - pos,
{
    if pos < s.len() && class.holds(s[pos]) {
        lemma_run_len_step(s, pos + 1, class, (a - 1) as nat, (b - 1) as nat);
    }
}

/// The length of the run of characters of one class that starts at `pos`,
/// counting at most `limit` of them.
pub fn scan_run(s: &[char], pos: usize, class: CharClass, limit: usize) -> (n: usize)
    requires
        pos <= s.len(),
    ensures
        n == run_len(s@, pos as int, class, limit as nat),
        n <= limit,
        pos + n <= s.len(),
{
    let len: usize = s.len();
    let mut n: usize = 0;
    while n < limit && pos + n < len && class.test(s[pos + n])
        invariant
            len == s.len(),
            pos + n <= s.len(),
            n <= limit,
            run_len(s@, pos as int, class, limit as nat) == n + run_len(
                s@,
                pos + n,
                class,
                (limit - n) as nat,
            ),
        decreases limit - n,
    {
        n = n + 1;
    }
    n
}

/// The length of the whole run of characters of one class that starts at
/// `pos`.
pub fn scan_all(s: &[char], pos: usize, class: CharClass) -> (n: usize)
    requires
        pos <= s.len(),
    ensures
        n == run(s@, pos as int, class),
        pos + n <= s.len(),
{
    let rest: usize = s.len() - pos;
    proof {
        lemma_run_len_unbounded(s@, pos as int, class, rest as nat);
    }
    scan_run(s, pos, class, rest)
}

/// The value of a decimal digit.
pub open spec fn digit_value(c: char) -> int {
    c as int - '0' as int
}

/// The number that a text of decimal digits stands for.
pub open spec fn decimal_value(digits: Seq<char>) -> nat
    decreases digits.len(),
{
    if digits.len() == 0 {
        0
    } else {
        (decimal_value(digits.drop_last()) * 10 + digit_value(digits.last())) as nat
    }
}

/// Every character of the text is a decimal digit.
pub open spec fn all_digits(digits: Seq<char>) -> bool {
    forall|i: int| 0 <= i < digits.len() ==> CharClass::Digit.holds(#[trigger] digits[i])
}

/// The number that a text of digits stands for is at least the number that
/// any of its beginnings stands for.
pub proof fn lemma_decimal_prefix(digits: Seq<char>, k: int)
    requires
        all_digits(digits),
        0 <= k <= digits.len(),
    ensures
        decimal_value(digits.take(k)) <= decimal_value(digits),
    decreases digits.len(),
{
    if k == digits.len() {
        assert(digits.take(k) =~= digits);
    } else {
        let shorter = digits.drop_last();
        assert(shorter.take(k) =~= digits.take(k));
        lemma_decimal_prefix(shorter, k);
        assert(CharClass::Digit.holds(digits[digits.len() - 1]));
    }
}

/// A text of `n` digits stands for a number below the `n`-th power of ten;
/// stated for the widths that the grammar bounds.
pub proof fn lemma_decimal_bound(digits: Seq<char>)
    requires
        all_digits(digits),
        digits.len() <= 4,
    ensures
        digits.len() <= 1 ==> decimal_value(digits) <= 9,
        digits.len() <= 2 ==> decimal_value(digits) <= 99,
        digits.len() <= 3 ==> decimal_value(digits) <= 999,
        decimal_value(digits) <= 9999,
    decreases digits.len(),
{
    if digits.len() > 0 {
        assert(all_digits(digits.drop_last())) by {
            assert forall|i: int| 0 <= i < digits.drop_last().len() implies CharClass::Digit.holds(
                #[trigger] digits.drop_last()[i],
            ) by {
                assert(digits.drop_last()[i] == digits[i]);
            }
        }
        lemma_decimal_bound(digits.drop_last());
        assert(CharClass::Digit.holds(digits[digits.len() - 1]));
    }
}

/// The number that the digits from `from` up to `to` stand for, or `None` if
/// it does not fit in 32 bits.
pub fn read_decimal(s: &[char], from: usize, to: usize) -> (r: Option<u32>)
    requires
        from <= to <= s.len(),
        all_digits(s@.subrange(from as int, to as int)),
    ensures
        r == if decimal_value(s@.subrange(from as int, to as int)) <= u32::MAX {
            Some(decimal_value(s@.subrange(from as int, to as int)) as u32)
        } else {
            None
        },
{
    let ghost digits = s@.subrange(from as int, to as int);
    let mut acc: u64 = 0;
    let mut i: usize = from;
    assert(digits.take(0) =~= Seq::<char>::empty());
    while i < to
        invariant
            from <= i <= to <= s.len(),
            digits == s@.subrange(from as int, to as int),
            all_digits(digits),
            acc == decimal_value(digits.take(i - from)),
            acc <= u32::MAX,
        decreases to - i,
    {
        let c: char = s[i];
        assert(c == digits[i - from]);
        assert(CharClass::Digit.holds(digits[i - from]));
        let d: u64 = (c as u32 - '0' as u32) as u64;
        let next: u64 = acc * 10 + d;
        proof {
            let longer = digits.take(i - from + 1);
            assert(longer.drop_last() =~= digits.take(i - from));
            assert(longer.last() == c);
            assert(next == decimal_value(longer));
            lemma_decimal_prefix(digits, i - from + 1);
        }
        if next > 0xffff_ffff {
            return None;
        }
        acc = next;
        i = i + 1;
    }
    assert(digits.take(to - from) =~= digits);
    Some(acc as u32)
}

/// The number that the digits from `from` up to `to` stand for, where they
/// are at most four.
pub fn read_small(s: &[char], from: usize, to: usize) -> (r: u16)
    requires
        from <= to <= s.len(),
        to - from <= 4,
        all_digits(s@.subrange(from as int, to as int)),
    ensures
        r == decimal_value(s@.subrange(from as int, to as int)),
        to - from <= 2 ==> r <= 99,
        r <= 9999,
{
    proof {
        lemma_decimal_bound(s@.subrange(from as int, to as int));
    }
    match read_decimal(s, from, to) {
        Some(v) => v as u16,
        None => 0,
    }
}

/// The characters of a run, as a text of digits.
pub proof fn lemma_run_digits(s: Seq<char>, pos: int, limit: nat)
    requires
        0 <= pos <= s.len(),
    ensures
        all_digits(s.subrange(pos, pos + run_len(s, pos, CharClass::Digit, limit))),
{
    lemma_run_len(s, pos, CharClass::Digit, limit);
    let n = run_len(s, pos, CharClass::Digit, limit);
    assert forall|i: int| 0 <= i < n implies CharClass::Digit.holds(
        #[trigger] s.subrange(pos, pos + n)[i],
    ) by {
        assert(s.subrange(pos, pos + n)[i] == s[pos + i]);
    }
}

/// The character of a decimal digit.
pub open spec fn digit_char(d: int) -> char {
    ((d + 48) as u8) as char
}

/// A number below 100 written with two digits.
pub open spec fn two_digits(n: int) -> Seq<char> {
    seq![digit_char(n / 10), digit_char(n % 10)]
}

/// A number below 100 written with two digits, or with one where it has no
/// more and no zero is put before it.
pub open spec fn one_or_two_digits(n: int, padded: bool) -> Seq<char> {
    if n >= 10 || padded {
        two_digits(n)
    } else {
        seq![digit_char(n)]
    }
}

/// A number below 10000 written with four digits.
pub open spec fn four_digits(n: int) -> Seq<char> {
    seq![
        digit_char(n / 1000),
        digit_char((n / 100) % 10),
        digit_char((n / 10) % 10),
        digit_char(n % 10),
    ]
}

/// Two digits are digits, and stand for the number they were written for.
pub proof fn lemma_two_digits(n: int)
    requires
        0 <= n <= 99,
    ensures
        CharClass::Digit.holds(two_digits(n)[0]),
        CharClass::Digit.holds(two_digits(n)[1]),
        two_digits(n).len() == 2,
        all_digits(two_digits(n)),
        decimal_value(two_digits(n)) == n,
{
    let t = two_digits(n);
    assert(t.drop_last() =~= seq![digit_char(n / 10)]);
    assert(t.drop_last().drop_last() =~= Seq::<char>::empty());
    reveal_with_fuel(decimal_value, 3);
}

/// One or two digits are digits, and stand for the number they were written
/// for.
pub proof fn lemma_one_or_two_digits(n: int, padded: bool)
    requires
        0 <= n <= 99,
    ensures
        1 <= one_or_two_digits(n, padded).len() <= 2,
        forall|i: int|
            0 <= i < one_or_two_digits(n, padded).len() ==> CharClass::Digit.holds(
                #[trigger] one_or_two_digits(n, padded)[i],
            ),
        all_digits(one_or_two_digits(n, padded)),
        decimal_value(one_or_two_digits(n, padded)) == n,
{
    if n >= 10 || padded {
        lemma_two_digits(n);
    } else {
        let t = seq![digit_char(n)];
        assert(t.drop_last() =~= Seq::<char>::empty());
        reveal_with_fuel(decimal_value, 2);
    }
}

/// Four digits are digits, and stand for the number they were written for.
pub proof fn lemma_four_digits(n: int)
    requires
        0 <= n <= 9999,
    ensures
        four_digits(n).len() == 4,
        all_digits(four_digits(n)),
        decimal_value(four_digits(n)) == n,
{
    let t = four_digits(n);
    let t3 = seq![digit_char(n / 1000), digit_char((n / 100) % 10), digit_char((n / 10) % 10)];
    let t2 = seq![digit_char(n / 1000), digit_char((n / 100) % 10)];
    let t1 = seq![digit_char(n / 1000)];
    assert(t.drop_last() =~= t3);
    assert(t3.drop_last() =~= t2);
    assert(t2.drop_last() =~= t1);
    assert(t1.drop_last() =~= Seq::<char>::empty());
    assert(decimal_value(t1) == n / 1000) by {
        reveal_with_fuel(decimal_value, 2);
    }
    assert(decimal_value(t2) == n / 100) by {
        reveal_with_fuel(decimal_value, 2);
    }
    assert(decimal_value(t3) == n / 10) by {
        reveal_with_fuel(decimal_value, 2);
    }
    assert(decimal_value(t) == n) by {
        reveal_with_fuel(decimal_value, 2);
    }
}

/// The text `part` stands in `s` at `pos`.
pub open spec fn text_at(s: Seq<char>, pos: int, part: Seq<char>) -> bool {
    &&& 0 <= pos
    &&& pos + part.len() <= s.len()
    &&& s.subrange(pos, pos + part.len()) == part
}

/// A text that stands at `pos` has its characters there.
pub proof fn lemma_text_at_char(s: Seq<char>, pos: int, part: Seq<char>, i: int)
    requires
        text_at(s, pos, part),
        0 <= i < part.len(),
    ensures
        s[pos + i] == part[i],
{
    assert(s.subrange(pos, pos + part.len())[i] == s[pos + i]);
}

/// Where two texts stand one behind the other, each of them stands in its
/// place.
pub proof fn lemma_text_at_parts(s: Seq<char>, pos: int, a: Seq<char>, b: Seq<char>)
    requires
        text_at(s, pos, a + b),
    ensures
        text_at(s, pos, a),
        text_at(s, pos + a.len(), b),
{
    let whole = s.subrange(pos, pos + (a + b).len());
    assert(s.subrange(pos, pos + a.len()) =~= whole.subrange(0, a.len() as int));
    assert(whole.subrange(0, a.len() as int) =~= a);
    assert(s.subrange(pos + a.len(), pos + a.len() + b.len()) =~= whole.subrange(
        a.len() as int,
        (a + b).len() as int,
    ));
    assert(whole.subrange(a.len() as int, (a + b).len() as int) =~= b);
}

/// A text stands at the start of what it begins, and at its place in what it
/// is a part of.
pub proof fn lemma_text_at_concat(a: Seq<char>, b: Seq<char>, c: Seq<char>)
    ensures
        text_at(a + b + c, 0, a),
        text_at(a + b + c, a.len() as int, b),
        text_at(a + b + c, (a.len() + b.len()) as int, c),
        (a + b + c).len() == a.len() + b.len() + c.len(),
{
    let s = a + b + c;
    assert(s.subrange(0, a.len() as int) =~= a);
    assert(s.subrange(a.len() as int, (a.len() + b.len()) as int) =~= b);
    assert(s.subrange((a.len() + b.len()) as int, (a.len() + b.len() + c.len()) as int) =~= c);
}

/// A run has the length `n` where `n` characters of the class stand at `pos`
/// and the limit, the end of the text or a character of another class comes
/// next.
pub proof fn lemma_run_exact(s: Seq<char>, pos: int, class: CharClass, limit: nat, n: nat)
    requires
        0 <= pos,
        pos + n <= s.len(),
        n <= limit,
        forall|i: int| pos <= i < pos + n ==> class.holds(#[trigger] s[i]),
        n == limit || pos + n == s.len() || !class.holds(s[pos + n]),
    ensures
        run_len(s, pos, class, limit) == n,
    decreases n,
{
    if n > 0 {
        lemma_run_exact(s, pos + 1, class, (limit - 1) as nat, (n - 1) as nat);
    }
}

/// Digits that stand at `pos`, with no digit behind them or as many as the
/// limit allows, are the run of digits there.
pub proof fn lemma_digits_at(s: Seq<char>, pos: int, digits: Seq<char>, limit: nat)
    requires
        text_at(s, pos, digits),
        all_digits(digits),
        digits.len() <= limit,
        digits.len() == limit || pos + digits.len() == s.len() || !CharClass::Digit.holds(
            s[pos + digits.len()],
        ),
    ensures
        run_len(s, pos, CharClass::Digit, limit) == digits.len(),
        s.subrange(pos, pos + run_len(s, pos, CharClass::Digit, limit)) == digits,
{
    assert forall|i: int| pos <= i < pos + digits.len() implies CharClass::Digit.holds(
        #[trigger] s[i],
    ) by {
        lemma_text_at_char(s, pos, digits, i - pos);
    }
    lemma_run_exact(s, pos, CharClass::Digit, limit, digits.len());
}

/// No keyword stands where the text has ended or has a character that is no
/// letter.
pub proof fn lemma_no_keyword(s: Seq<char>, pos: int, keyword: Seq<char>)
    requires
        keyword.len() > 0,
        CharClass::Alpha.holds(keyword[0]),
        pos >= s.len() || !CharClass::Alpha.holds(s[pos]),
    ensures
        !keyword_at(s, pos, keyword),
{
    if keyword_at(s, pos, keyword) {
        assert(folded(s[pos + 0]) == folded(keyword[0]));
    }
}

/// A character with the letters `A` to `Z` replaced by `a` to `z`, as a
/// number.
pub open spec fn folded(c: char) -> int {
    if 'A' <= c <= 'Z' {
        c as int + 32
    } else {
        c as int
    }
}

/// The text holds the keyword at `pos`, letter case aside.
pub open spec fn keyword_at(s: Seq<char>, pos: int, keyword: Seq<char>) -> bool {
    &&& 0 <= pos
    &&& pos + keyword.len() <= s.len()
    &&& forall|i: int| 0 <= i < keyword.len() ==> folded(#[trigger] s[pos + i]) == folded(keyword[i])
}

/// A character with the letters `A` to `Z` replaced by `a` to `z`, as a
/// number.
pub fn fold_case(c: char) -> (n: u32)
    ensures
        n == folded(c),
{
    if 'A' <= c && c <= 'Z' {
        c as u32 + 32
    } else {
        c as u32
    }
}

/// Whether the text holds the keyword at `pos`, letter case aside.
pub fn match_keyword(s: &[char], pos: usize, keyword: &str) -> (b: bool)
    requires
        pos <= s.len(),
    ensures
        b == keyword_at(s@, pos as int, keyword@),
{
    let len: usize = s.len();
    let n: usize = keyword.unicode_len();
    if n > len - pos {
        return false;
    }
    let mut i: usize = 0;
    while i < n
        invariant
            len == s.len(),
            n == keyword@.len(),
            pos + n <= s.len(),
            0 <= i <= n,
            forall|j: int| 0 <= j < i ==> folded(#[trigger] s@[pos + j]) == folded(keyword@[j]),
        decreases n - i,
    {
        if fold_case(s[pos + i]) != fold_case(keyword.get_char(i)) {
            return false;
        }
        i = i + 1;
    }
    true
}

/// A text that holds a keyword holds each of its letters, letter case
/// aside.
pub proof fn lemma_keyword_letter(s: Seq<char>, pos: int, keyword: Seq<char>, i: int)
    requires
        keyword_at(s, pos, keyword),
        0 <= i < keyword.len(),
    ensures
        pos + i < s.len(),
        folded(s[pos + i]) == folded(keyword[i]),
{
}

/// Where a name that has a long and a short form ends, if it stands at
/// `pos`, letter case aside. The long form is looked for first.
pub open spec fn name_at(s: Seq<char>, pos: int, long: Seq<char>, short: Seq<char>) -> Option<int> {
    if keyword_at(s, pos, long) {
        Some(pos + long.len())
    } else if keyword_at(s, pos, short) {
        Some(pos + short.len())
    } else {
        None
    }
}

/// Where a name that has a long and a short form ends, if it stands at
/// `pos`, letter case aside.
pub fn match_name(s: &[char], pos: usize, long: &str, short: &str) -> (r: Option<usize>)
    requires
        pos <= s.len(),
    ensures
        match name_at(s@, pos as int, long@, short@) {
            Some(end) => r matches Some(e) && e == end && pos <= end <= s.len(),
            None => r is None,
        },
{
    if match_keyword(s, pos, long) {
        Some(pos + long.unicode_len())
    } else if match_keyword(s, pos, short) {
        Some(pos + short.unicode_len())
    } else {
        None
    }
}

/// One of two values: the first where a name was found, the second where
/// none was.
pub open spec fn found_or<W>(which: W, end: Option<int>, otherwise: Option<(W, int)>) -> Option<
    (W, int),
> {
    match end {
        Some(e) => Some((which, e)),
        None => otherwise,
    }
}

/// Whether the part of the text from `from` up to `to` is the given word,
/// letter for letter.
pub fn slice_is(s: &[char], from: usize, to: usize, word: &str) -> (b: bool)
    requires
        from <= to <= s.len(),
    ensures
        b == (s@.subrange(from as int, to as int) == word@),
{
    let n: usize = word.unicode_len();
    if n != to - from {
        return false;
    }
    let mut i: usize = 0;
    while i < n
        invariant
            n == word@.len(),
            n == to - from,
            from <= to <= s.len(),
            0 <= i <= n,
            forall|j: int| 0 <= j < i ==> s@[from + j] == word@[j],
        decreases n - i,
    {
        if s[from + i] != word.get_char(i) {
            assert(s@.subrange(from as int, to as int)[i as int] != word@[i as int]);
            return false;
        }
        i = i + 1;
    }
    assert(s@.subrange(from as int, to as int) =~= word@);
    true
}

/// Puts the rest of the input in the place of the position behind the part
/// that was read.
pub fn conclude<'a, T>(input: &'a str, len: usize, r: Located<T>) -> (out: FlexitimeResult<'a, T>)
    requires
        len == input@.len(),
        r matches Ok(p) ==> p.0 <= len,
    ensures
        match r {
            Ok(p) => out matches Ok(q) && q.1 == p.1 && q.0@ == input@.skip(p.0 as int),
            Err(e) => out == Err::<(&str, T), ParseFailure>(e),
        },
{
    match r {
        Ok((end, value)) => Ok((input.substring_char(end, len), value)),
        Err(e) => Err(e),
    }
}

/// The characters of a text, one by one.
pub fn to_chars(s: &str) -> (v: Vec<char>)
    ensures
        v@ == s@,
{
    let mut v: Vec<char> = Vec::new();
    for c in it: s.chars()
        invariant
            v@ == it.seq().take(it.index()),
            it.seq() == s@,
    {
        v.push(c);
    }
    v
}

} // verus!
