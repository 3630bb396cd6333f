//! Small verified helpers for working with text as sequences of characters.

use vstd::prelude::*;
use vstd::string::{StrSliceExecFns, StringExecFns};

verus! {

/// The characters of `s`, collected into a vector.
pub fn chars_of(s: &str) -> (chars: Vec<char>)
    ensures
        chars@ == s@,
{
    let mut chars: Vec<char> = Vec::new();
    for c in it: s.chars()
        invariant
            it.seq() == s@,
            chars@ == it.seq().take(it.index() as int),
    {
        chars.push(c);
        assert(it.seq().take(it.index() + 1) =~= it.seq().take(it.index() as int).push(c));
    }
    assert(s@.take(s@.len() as int) =~= s@);
    chars
}

/// Whether the characters in `chars` spell exactly `text`.
pub fn spells(chars: &Vec<char>, text: &str) -> (same: bool)
    ensures
        same == (chars@ == text@),
{
    let mut same = true;
    let mut n: usize = 0;
    for c in it: text.chars()
        invariant
            it.seq() == text@,
            same ==> n == it.index() && n <= chars.len(),
            same ==> chars@.take(n as int) == text@.take(n as int),
            !same ==> chars@ != text@,
    {
        if same {
            if n < chars.len() && chars[n] == c {
                assert(chars@.take(n + 1) =~= chars@.take(n as int).push(c));
                assert(text@.take(n + 1) =~= text@.take(n as int).push(c));
                n = n + 1;
            } else {
                same = false;
                assert(chars@ != text@) by {
                    if chars@ == text@ {
                        assert(chars@[n as int] == text@[n as int]);
                    }
                }
            }
        }
    }
    if same && n == chars.len() {
        assert(chars@.take(n as int) =~= chars@);
        assert(text@.take(n as int) =~= text@);
        true
    } else {
        assert(chars@ != text@) by {
            if same {
                assert(chars@.len() != text@.len());
            }
        }
        false
    }
}

/// Whether `c` is one of the decimal digits `0` to `9`.
pub open spec fn is_digit(c: char) -> bool {
    '0' <= c && c <= '9'
}

/// The value of the decimal digit `c`.
pub open spec fn digit_value(c: char) -> int {
    c as int - '0' as int
}

/// Whether `s` consists of decimal digits only.
pub open spec fn all_digits(s: Seq<char>) -> bool {
    forall|i: int| 0 <= i < s.len() ==> is_digit(#[trigger] s[i])
}

/// The number that the digit string `s` denotes in base ten; zero for the empty string.
pub open spec fn digits_value(s: Seq<char>) -> int
    decreases s.len(),
{
    if s.len() == 0 {
        0
    } else {
        digits_value(s.drop_last()) * 10 + digit_value(s.last())
    }
}

/// The integer that `s` denotes: an optional `+` or `-` sign followed by one or
/// more decimal digits and nothing else. `None` for every other text.
pub open spec fn decimal_integer(s: Seq<char>) -> Option<int> {
    if s.len() > 0 && (s[0] == '-' || s[0] == '+') {
        let digits = s.skip(1);
        if digits.len() > 0 && all_digits(digits) {
            if s[0] == '-' {
                Some(-digits_value(digits))
            } else {
                Some(digits_value(digits))
            }
        } else {
            None
        }
    } else if s.len() > 0 && all_digits(s) {
        Some(digits_value(s))
    } else {
        None
    }
}

/// The integer that `s` denotes, if it fits the 64-bit signed range.
pub open spec fn decimal_i64(s: Seq<char>) -> Option<i64> {
    match decimal_integer(s) {
        Some(value) => if i64::MIN <= value <= i64::MAX {
            Some(value as i64)
        } else {
            None
        },
        None => None,
    }
}

/// A digit string is worth at least as much as any of its prefixes, and never
/// less than zero.
pub proof fn lemma_digits_value_monotonic(s: Seq<char>, k: int)
    requires
        all_digits(s),
        0 <= k <= s.len(),
    ensures
        0 <= digits_value(s.take(k)) <= digits_value(s),
    decreases s.len(),
{
    if k == s.len() {
        assert(s.take(k) =~= s);
        lemma_digits_value_nonnegative(s);
    } else {
        let shorter = s.drop_last();
        assert(forall|i: int| 0 <= i < shorter.len() ==> shorter[i] == s[i]);
        lemma_digits_value_monotonic(shorter, k);
        assert(shorter.take(k) =~= s.take(k));
        assert(is_digit(s.last()));
    }
}

/// A digit string never denotes a negative number.
pub proof fn lemma_digits_value_nonnegative(s: Seq<char>)
    requires
        all_digits(s),
    ensures
        0 <= digits_value(s),
    decreases s.len(),
{
    if s.len() > 0 {
        let shorter = s.drop_last();
        assert(forall|i: int| 0 <= i < shorter.len() ==> shorter[i] == s[i]);
        lemma_digits_value_nonnegative(shorter);
        assert(is_digit(s.last()));
    }
}

/// Reads the characters from index `from` up to index `to` as a natural number
/// in base ten. Gives `None` where one of them is no digit, and where the
/// number is above 2^63.
pub fn parse_digits(chars: &Vec<char>, from: usize, to: usize) -> (parsed: Option<u64>)
    requires
        from <= to <= chars.len(),
    ensures
        match parsed {
            Some(value) => all_digits(chars@.subrange(from as int, to as int)) && value
                == digits_value(chars@.subrange(from as int, to as int)) && value
                <= 0x8000_0000_0000_0000,
            None => !all_digits(chars@.subrange(from as int, to as int)) || digits_value(
                chars@.subrange(from as int, to as int),
            ) > 0x8000_0000_0000_0000,
        },
{
    let ghost digits = chars@.subrange(from as int, to as int);
    // the number read so far; it never exceeds 2^63
    let mut magnitude: u64 = 0;
    let mut i: usize = from;
    while i < to
        invariant
            from <= i <= to <= chars.len(),
            digits == chars@.subrange(from as int, to as int),
            all_digits(digits.take(i - from)),
            magnitude == digits_value(digits.take(i - from)),
            magnitude <= 0x8000_0000_0000_0000,
        decreases to - i,
    {
        let c = chars[i];
        assert(digits[i - from] == c);
        if !('0' <= c && c <= '9') {
            assert(!all_digits(digits));
            return None;
        }
        let digit: u64 = (c as u8 - '0' as u8) as u64;
        let ghost longer = digits.take(i - from + 1);
        proof {
            assert(longer.drop_last() =~= digits.take(i - from));
            assert(longer.last() == c);
            assert forall|j: int| 0 <= j < longer.len() implies is_digit(#[trigger] longer[j]) by {
                if j < i - from {
                    assert(digits.take(i - from)[j] == longer[j]);
                }
            }
        }
        if magnitude > 922_337_203_685_477_580 || magnitude * 10 + digit > 0x8000_0000_0000_0000 {
            proof {
                // the digits read so far are already out of range, and more digits only add
                assert(digits_value(longer) > 0x8000_0000_0000_0000);
                if all_digits(digits) {
                    lemma_digits_value_monotonic(digits, i - from + 1);
                }
            }
            return None;
        }
        magnitude = magnitude * 10 + digit;
        i = i + 1;
    }
    proof {
        assert(digits.take(to - from) =~= digits);
    }
    Some(magnitude)
}

/// Reads `chars` as a decimal integer: an optional sign, then digits only.
/// Text that is not a number, or whose value leaves the 64-bit signed range,
/// gives `None`.
pub fn parse_integer(chars: &Vec<char>) -> (parsed: Option<i64>)
    ensures
        parsed == decimal_i64(chars@),
{
    let len = chars.len();
    if len == 0 {
        return None;
    }
    let negative = chars[0] == '-';
    let start: usize = if chars[0] == '-' || chars[0] == '+' {
        1
    } else {
        0
    };
    if start == len {
        return None;
    }
    proof {
        assert(chars@.subrange(start as int, len as int) =~= chars@.skip(start as int));
        assert(start == 0 ==> chars@.skip(0) =~= chars@);
    }
    let magnitude = match parse_digits(chars, start, len) {
        Some(magnitude) => magnitude,
        None => {
            return None;
        },
    };
    if negative {
        if magnitude == 0x8000_0000_0000_0000 {
            Some(i64::MIN)
        } else {
            Some(-(magnitude as i64))
        }
    } else if magnitude == 0x8000_0000_0000_0000 {
        None
    } else {
        Some(magnitude as i64)
    }
}

/// The decimal digit for a value below ten.
pub open spec fn digit_char(value: int) -> char {
    (('0' as u8) + value) as char
}

/// The digits of a natural number in base ten, without leading zeros.
pub open spec fn natural_text(value: nat) -> Seq<char>
    decreases value,
{
    if value < 10 {
        seq![digit_char(value as int)]
    } else {
        natural_text(value / 10).push(digit_char(value as int % 10))
    }
}

/// An integer in base ten: a minus sign for a negative number, then its digits.
pub open spec fn integer_text(value: int) -> Seq<char> {
    if value < 0 {
        seq!['-'] + natural_text((-value) as nat)
    } else {
        natural_text(value as nat)
    }
}

fn digit_text(value: u8) -> (text: &'static str)
    requires
        value < 10,
    ensures
        text@ == seq![digit_char(value as int)],
{
    proof {
        reveal_strlit("0");
        reveal_strlit("1");
        reveal_strlit("2");
        reveal_strlit("3");
        reveal_strlit("4");
        reveal_strlit("5");
        reveal_strlit("6");
        reveal_strlit("7");
        reveal_strlit("8");
        reveal_strlit("9");
    }
    let text = match value {
        0 => "0",
        1 => "1",
        2 => "2",
        3 => "3",
        4 => "4",
        5 => "5",
        6 => "6",
        7 => "7",
        8 => "8",
        _ => "9",
    };
    assert(text@ =~= seq![digit_char(value as int)]);
    text
}

/// Appends the digits of a natural number to `text`.
pub fn append_natural(text: &mut String, value: u64)
    ensures
        final(text)@ == old(text)@ + natural_text(value as nat),
    decreases value,
{
    if value >= 10 {
        append_natural(text, value / 10);
    }
    text.append(digit_text((value % 10) as u8));
    assert(final(text)@ =~= old(text)@ + natural_text(value as nat));
}

/// Appends an integer in base ten to `text`.
pub fn append_integer(text: &mut String, value: i64)
    ensures
        final(text)@ == old(text)@ + integer_text(value as int),
{
    if value < 0 {
        proof {
            reveal_strlit("-");
        }
        text.append("-");
        let magnitude: u64 = if value == i64::MIN {
            0x8000_0000_0000_0000
        } else {
            (-value) as u64
        };
        append_natural(text, magnitude);
        assert(final(text)@ =~= old(text)@ + integer_text(value as int));
    } else {
        append_natural(text, value as u64);
    }
}

/// The index of the first `mark` in `s`; the length of `s` where it holds none.
pub open spec fn first_index_of(s: Seq<char>, mark: char) -> int
    decreases s.len(),
{
    if s.len() == 0 || s[0] == mark {
        0
    } else {
        1 + first_index_of(s.skip(1), mark)
    }
}

/// `first_index_of` is the only index with no `mark` before it that is the
/// end of the text or holds `mark`.
pub proof fn lemma_first_index_of(s: Seq<char>, mark: char, i: int)
    requires
        0 <= i <= s.len(),
        forall|j: int| 0 <= j < i ==> s[j] != mark,
        i == s.len() || s[i] == mark,
    ensures
        first_index_of(s, mark) == i,
    decreases s.len(),
{
    if i > 0 {
        assert(s[0] != mark);
        let rest = s.skip(1);
        assert forall|j: int| 0 <= j < i - 1 implies rest[j] != mark by {
            assert(rest[j] == s[j + 1]);
        }
        lemma_first_index_of(rest, mark, i - 1);
    }
}

/// Looks for the first `mark` among the characters from index `from` on.
/// Gives the length of `chars` where there is none.
pub fn find_char(chars: &Vec<char>, from: usize, mark: char) -> (at: usize)
    requires
        from <= chars.len(),
    ensures
        from <= at <= chars.len(),
        at == from + first_index_of(chars@.skip(from as int), mark),
{
    let mut at: usize = from;
    while at < chars.len() && chars[at] != mark
        invariant
            from <= at <= chars.len(),
            forall|j: int| from <= j < at ==> chars@[j] != mark,
        decreases chars.len() - at,
    {
        at = at + 1;
    }
    proof {
        let rest = chars@.skip(from as int);
        assert forall|j: int| 0 <= j < at - from implies rest[j] != mark by {
            assert(rest[j] == chars@[from + j]);
        }
        lemma_first_index_of(rest, mark, at - from);
    }
    at
}

/// A copy of the characters from index `from` up to index `to`.
pub fn slice_chars(chars: &Vec<char>, from: usize, to: usize) -> (part: Vec<char>)
    requires
        from <= to <= chars.len(),
    ensures
        part@ == chars@.subrange(from as int, to as int),
{
    let mut part: Vec<char> = Vec::new();
    let mut i: usize = from;
    while i < to
        invariant
            from <= i <= to <= chars.len(),
            part@ == chars@.subrange(from as int, i as int),
        decreases to - i,
    {
        part.push(chars[i]);
        assert(chars@.subrange(from as int, i + 1) =~= chars@.subrange(from as int, i as int).push(
            chars@[i as int],
        ));
        i = i + 1;
    }
    part
}

/// Whether the characters from index `from` up to index `to` are all digits.
pub fn only_digits(chars: &Vec<char>, from: usize, to: usize) -> (digits: bool)
    requires
        from <= to <= chars.len(),
    ensures
        digits == all_digits(chars@.subrange(from as int, to as int)),
{
    let ghost part = chars@.subrange(from as int, to as int);
    let mut i: usize = from;
    while i < to
        invariant
            from <= i <= to <= chars.len(),
            part == chars@.subrange(from as int, to as int),
            forall|j: int| 0 <= j < i - from ==> is_digit(#[trigger] part[j]),
        decreases to - i,
    {
        let c = chars[i];
        if !('0' <= c && c <= '9') {
            assert(part[i - from] == c);
            return false;
        }
        i = i + 1;
    }
    true
}

/// The text without its first and its last character; `None` for a text of
/// fewer than two characters.
pub open spec fn stripped(text: Seq<char>) -> Option<Seq<char>> {
    if text.len() >= 2 {
        Some(text.subrange(1, text.len() - 1))
    } else {
        None
    }
}

/// Takes the first and the last character off a text, as off a quoted string.
pub fn strip_ends(text: &str) -> (inner: Option<String>)
    ensures
        match inner {
            Some(inner) => stripped(text@) == Some(inner@),
            None => stripped(text@) is None,
        },
{
    let length = text.unicode_len();
    if length >= 2 {
        Some(text.substring_char(1, length - 1).to_owned())
    } else {
        None
    }
}

/// The index of the last `mark` in `s`; `-1` where it holds none.
pub open spec fn last_index_of(s: Seq<char>, mark: char) -> int
    decreases s.len(),
{
    if s.len() == 0 {
        -1
    } else if s.last() == mark {
        s.len() - 1
    } else {
        last_index_of(s.drop_last(), mark)
    }
}

/// `last_index_of` is the only index that holds `mark` with none after it.
pub proof fn lemma_last_index_of(s: Seq<char>, mark: char, i: int)
    requires
        -1 <= i < s.len(),
        forall|j: int| i < j < s.len() ==> s[j] != mark,
        i == -1 || s[i] == mark,
    ensures
        last_index_of(s, mark) == i,
    decreases s.len(),
{
    if s.len() > 0 && i < s.len() - 1 {
        assert(s[s.len() - 1] != mark);
        lemma_last_index_of(s.drop_last(), mark, i);
    }
}

/// Looks for the last `mark` among the characters.
pub fn find_last_char(chars: &Vec<char>, mark: char) -> (at: Option<usize>)
    ensures
        match at {
            Some(at) => at == last_index_of(chars@, mark) && at < chars.len(),
            None => last_index_of(chars@, mark) == -1,
        },
{
    let mut at: usize = chars.len();
    while at > 0 && chars[at - 1] != mark
        invariant
            at <= chars.len(),
            forall|j: int| at <= j < chars.len() ==> chars@[j] != mark,
        decreases at,
    {
        at = at - 1;
    }
    proof {
        lemma_last_index_of(chars@, mark, at - 1);
    }
    if at == 0 {
        None
    } else {
        Some(at - 1)
    }
}

} // verus!
