//! The numerals of the expression grammar: which texts read as a decimal
//! number, and what an exponent is worth.

use vstd::prelude::*;
use crate::text::{trim, trimmed};

verus! {

/// One of the ten decimal digits.
pub open spec fn is_digit(c: char) -> bool {
    '0' <= c <= '9'
}

/// A plus or a minus sign.
pub open spec fn is_sign(c: char) -> bool {
    c == '+' || c == '-'
}

/// The lower-case form of a Latin capital; any other character unchanged.
pub open spec fn lowered(c: char) -> char {
    if 'A' <= c <= 'Z' {
        (c as int + 32) as char
    } else {
        c
    }
}

/// The end of the run of digits that starts at `from`.
pub open spec fn digits_end(s: Seq<char>, from: int) -> int
    recommends
        0 <= from <= s.len(),
    decreases s.len() - from,
{
    if 0 <= from < s.len() && is_digit(s[from]) {
        digits_end(s, from + 1)
    } else {
        from
    }
}

/// Whether `s` from `from` on spells `word`, capitals counting as small
/// letters. `word` is written in small letters.
pub open spec fn spells(s: Seq<char>, from: int, word: Seq<char>) -> bool {
    &&& s.len() - from == word.len()
    &&& forall|j: int| 0 <= j < word.len() ==> lowered(#[trigger] s[from + j]) == word[j]
}

/// Whether `s` from `from` on is an unsigned decimal number: digits with at
/// most one point among them and at least one digit in all, then optionally
/// `e` or `E`, an optional sign and at least one digit.
pub open spec fn decimal_number(s: Seq<char>, from: int) -> bool {
    let whole_end = digits_end(s, from);
    let fraction_start = if whole_end < s.len() && s[whole_end] == '.' {
        whole_end + 1
    } else {
        whole_end
    };
    let fraction_end = digits_end(s, fraction_start);
    let digit_count = (whole_end - from) + (fraction_end - fraction_start);
    let exponent_follows = fraction_end < s.len() && (s[fraction_end] == 'e' || s[fraction_end]
        == 'E');
    let exponent_start = if fraction_end + 1 < s.len() && is_sign(s[fraction_end + 1]) {
        fraction_end + 2
    } else {
        fraction_end + 1
    };
    &&& digit_count > 0
    &&& if exponent_follows {
        exponent_start < digits_end(s, exponent_start) == s.len()
    } else {
        fraction_end == s.len()
    }
}

/// Whether `s` reads as a number: an optional sign, then `inf`, `infinity`
/// or `nan` in any mix of capitals and small letters, or a decimal number.
pub open spec fn number_literal(s: Seq<char>) -> bool {
    let from: int = if s.len() > 0 && is_sign(s[0]) {
        1
    } else {
        0
    };
    ||| spells(s, from, seq!['i', 'n', 'f'])
    ||| spells(s, from, seq!['n', 'a', 'n'])
    ||| spells(s, from, seq!['i', 'n', 'f', 'i', 'n', 'i', 't', 'y'])
    ||| decimal_number(s, from)
}

/// The number that a sequence of digits writes in base ten.
pub open spec fn digits_value(s: Seq<char>) -> nat
    decreases s.len(),
{
    if s.len() == 0 {
        0
    } else {
        (digits_value(s.drop_last()) * 10 + (s.last() as int - '0' as int)) as nat
    }
}

/// The value of an unsigned numeral: an optional plus sign and at least
/// one digit, nothing else.
pub open spec fn unsigned_value(s: Seq<char>) -> Option<nat> {
    let from: int = if s.len() > 0 && s[0] == '+' {
        1
    } else {
        0
    };
    if from < s.len() && digits_end(s, from) == s.len() {
        Some(digits_value(s.subrange(from, s.len() as int)))
    } else {
        None
    }
}

/// The exponent that `s` writes, whitespace at its ends aside: the value
/// of the numeral, where there is one and the value is below the largest
/// machine word. A polynomial has one coefficient more than its degree, so
/// the largest word itself is no exponent.
pub open spec fn power_value(s: Seq<char>) -> Option<usize> {
    match unsigned_value(trimmed(s)) {
        Some(value) => if value < usize::MAX {
            Some(value as usize)
        } else {
            None
        },
        None => None,
    }
}

/// What [`digits_end`] finds: digits up to the position, and none at it.
pub proof fn digits_end_is_end(s: Seq<char>, from: int)
    requires
        0 <= from <= s.len(),
    ensures
        from <= digits_end(s, from) <= s.len(),
        forall|j: int| from <= j < digits_end(s, from) ==> is_digit(#[trigger] s[j]),
        digits_end(s, from) < s.len() ==> !is_digit(s[digits_end(s, from)]),
    decreases s.len() - from,
{
    if from < s.len() && is_digit(s[from]) {
        digits_end_is_end(s, from + 1);
    }
}

/// Digits appended to a numeral never lower its value.
pub proof fn digits_value_grows(s: Seq<char>, shorter: int)
    requires
        0 <= shorter <= s.len(),
        forall|j: int| 0 <= j < s.len() ==> is_digit(#[trigger] s[j]),
    ensures
        digits_value(s.take(shorter)) <= digits_value(s),
    decreases s.len() - shorter,
{
    if shorter < s.len() {
        let longer = s.take(shorter + 1);
        assert(longer.drop_last() =~= s.take(shorter));
        assert(is_digit(s[shorter]));
        assert(longer.last() == s[shorter]);
        assert(digits_value(s.take(shorter)) <= digits_value(longer));
        digits_value_grows(s, shorter + 1);
    } else {
        assert(s.take(shorter) =~= s);
    }
}

/// Moves over the digits that start at `from`.
fn scan_digits(s: &[char], from: usize) -> (end: usize)
    requires
        from <= s.len(),
    ensures
        end == digits_end(s@, from as int),
        from <= end <= s.len(),
{
    let mut end: usize = from;
    while end < s.len() && '0' <= s[end] && s[end] <= '9'
        invariant
            from <= end <= s.len(),
            digits_end(s@, from as int) == digits_end(s@, end as int),
        decreases s.len() - end,
    {
        end += 1;
    }
    end
}

/// The lower-case form of a Latin capital; any other character unchanged.
fn to_lower(c: char) -> (small: char)
    ensures
        small == lowered(c),
{
    if 'A' <= c && c <= 'Z' {
        ((c as u8) + 32) as char
    } else {
        c
    }
}

/// Whether `s` from `from` on spells `word`, capitals counting as small
/// letters.
fn spells_word(s: &[char], from: usize, word: &[char]) -> (answer: bool)
    requires
        from <= s.len(),
    ensures
        answer == spells(s@, from as int, word@),
{
    if s.len() - from != word.len() {
        return false;
    }
    let mut at: usize = 0;
    while at < word.len()
        invariant
            from <= s.len(),
            s.len() - from == word.len(),
            at <= word.len(),
            forall|j: int| 0 <= j < at ==> lowered(#[trigger] s@[from + j]) == word@[j],
        decreases word.len() - at,
    {
        if to_lower(s[from + at]) != word[at] {
            return false;
        }
        at += 1;
    }
    true
}

/// Whether `s` from `from` on is an unsigned decimal number.
fn is_decimal_number(s: &[char], from: usize) -> (answer: bool)
    requires
        from <= s.len(),
    ensures
        answer == decimal_number(s@, from as int),
{
    let whole_end = scan_digits(s, from);
    let fraction_start = if whole_end < s.len() && s[whole_end] == '.' {
        whole_end + 1
    } else {
        whole_end
    };
    let fraction_end = scan_digits(s, fraction_start);
    if (whole_end - from) + (fraction_end - fraction_start) == 0 {
        return false;
    }
    if fraction_end < s.len() && (s[fraction_end] == 'e' || s[fraction_end] == 'E') {
        let exponent_start = if fraction_end + 1 < s.len() && (s[fraction_end + 1] == '+'
            || s[fraction_end + 1] == '-') {
            fraction_end + 2
        } else {
            fraction_end + 1
        };
        let exponent_end = scan_digits(s, exponent_start);
        exponent_start < exponent_end && exponent_end == s.len()
    } else {
        fraction_end == s.len()
    }
}

/// Whether `s` reads as a number.
pub fn is_number_literal(s: &[char]) -> (answer: bool)
    ensures
        answer == number_literal(s@),
{
    let from: usize = if s.len() > 0 && (s[0] == '+' || s[0] == '-') {
        1
    } else {
        0
    };
    let inf = ['i', 'n', 'f'];
    let nan = ['n', 'a', 'n'];
    let infinity = ['i', 'n', 'f', 'i', 'n', 'i', 't', 'y'];
    assert(inf@ =~= seq!['i', 'n', 'f']);
    assert(nan@ =~= seq!['n', 'a', 'n']);
    assert(infinity@ =~= seq!['i', 'n', 'f', 'i', 'n', 'i', 't', 'y']);
    spells_word(s, from, inf.as_slice()) || spells_word(s, from, nan.as_slice()) || spells_word(
        s,
        from,
        infinity.as_slice(),
    ) || is_decimal_number(s, from)
}

/// Reads an exponent: the value of the numeral that `s` holds between the
/// whitespace at its ends, or `None` where that is no numeral or its value
/// is not below the largest machine word.
pub fn parse_power(s: &[char]) -> (power: Option<usize>)
    ensures
        power == power_value(s@),
        power matches Some(value) ==> value < usize::MAX,
{
    let inner = trim(s);
    let from: usize = if inner.len() > 0 && inner[0] == '+' {
        1
    } else {
        0
    };
    let end = scan_digits(inner, from);
    if from >= inner.len() || end != inner.len() {
        return None;
    }
    let ghost digits = inner@.subrange(from as int, inner.len() as int);
    proof {
        digits_end_is_end(inner@, from as int);
        assert forall|j: int| 0 <= j < digits.len() implies is_digit(#[trigger] digits[j]) by {
            assert(digits[j] == inner@[from + j]);
        }
    }
    let mut value: usize = 0;
    let mut at: usize = from;
    while at < inner.len()
        invariant
            from <= at <= inner.len(),
            digits == inner@.subrange(from as int, inner.len() as int),
            forall|j: int| 0 <= j < digits.len() ==> is_digit(#[trigger] digits[j]),
            power_value(s@) == if digits_value(digits) < usize::MAX {
                Some(digits_value(digits) as usize)
            } else {
                None
            },
            value == digits_value(digits.take(at - from)),
        decreases inner.len() - at,
    {
        proof {
            assert(digits[at - from] == inner@[at as int]);
            assert(digits.take(at - from + 1).drop_last() =~= digits.take(at - from));
            assert(digits.take(at - from + 1).last() == inner@[at as int]);
            digits_value_grows(digits, at - from + 1);
        }
        let d: usize = (inner[at] as u8 - 48u8) as usize;
        if value > (usize::MAX - d) / 10 {
            return None;
        }
        value = value * 10 + d;
        at += 1;
    }
    assert(digits.take(at - from) =~= digits);
    if value == usize::MAX {
        return None;
    }
    Some(value)
}

} // verus!
