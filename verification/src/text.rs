//! Characters and the scanning of character sequences.
//!
//! Positions are counted in characters. A scan is described by the position
//! at which it stops, so that the functions compose without copying text.

use vstd::prelude::*;
use vstd::slice::slice_subrange;

verus! {

/// Whether a character has the Unicode property `White_Space`: the controls
/// from tab to carriage return, the space, next line, the no-break space,
/// the Ogham space mark, the spaces of fixed width from en quad to hair
/// space, line and paragraph separator, the narrow no-break space, the
/// medium mathematical space and the ideographic space.
pub open spec fn whitespace(c: char) -> bool {
    ||| '\u{9}' <= c <= '\u{d}'
    ||| c == ' '
    ||| c == '\u{85}'
    ||| c == '\u{a0}'
    ||| c == '\u{1680}'
    ||| '\u{2000}' <= c <= '\u{200a}'
    ||| c == '\u{2028}'
    ||| c == '\u{2029}'
    ||| c == '\u{202f}'
    ||| c == '\u{205f}'
    ||| c == '\u{3000}'
}

/// Whether a character beyond the first 128 belongs to one of the Unicode
/// general categories for numbers: decimal digits, letter numbers and other
/// numeric characters.
pub uninterp spec fn numeric_beyond_ascii(c: char) -> bool;

/// Whether a character belongs to one of the Unicode general categories for
/// numbers. Among the first 128 characters those are the ten digits.
pub open spec fn numeric(c: char) -> bool {
    if c <= '\u{7f}' {
        '0' <= c <= '9'
    } else {
        numeric_beyond_ascii(c)
    }
}

/// `char::is_whitespace` tells whether the character has the property
/// `White_Space`, which [`whitespace`] spells out.
pub assume_specification[ char::is_whitespace ](c: char) -> (answer: bool)
    ensures
        answer == whitespace(c),
;

/// `char::is_numeric` tells whether the character is of a general category
/// for numbers: a digit among the first 128 characters, and what
/// [`numeric_beyond_ascii`] names beyond them.
pub assume_specification[ char::is_numeric ](c: char) -> (answer: bool)
    ensures
        answer == numeric(c),
        c <= '\u{7f}' ==> answer == ('0' <= c <= '9'),
        c > '\u{7f}' ==> answer == numeric_beyond_ascii(c),
;

/// `String::push` appends one character to the end of the string.
pub assume_specification[ String::push ](text: &mut String, c: char)
    ensures
        final(text)@ == old(text)@.push(c),
;

/// The first position at or after `from` that holds one of `stops`, or the
/// length of `s` where none follows.
pub open spec fn first_of(s: Seq<char>, from: int, stops: Seq<char>) -> int
    recommends
        0 <= from <= s.len(),
    decreases s.len() - from,
{
    if 0 <= from < s.len() {
        if stops.contains(s[from]) {
            from
        } else {
            first_of(s, from + 1, stops)
        }
    } else {
        from
    }
}

/// The first position in `from..to` that holds no whitespace, or `to`.
pub open spec fn skip_whitespace(s: Seq<char>, from: int, to: int) -> int
    recommends
        0 <= from <= to <= s.len(),
    decreases to - from,
{
    if from < to && whitespace(s[from]) {
        skip_whitespace(s, from + 1, to)
    } else {
        from
    }
}

/// The end of `from..to` once the whitespace at its end is dropped.
pub open spec fn drop_whitespace(s: Seq<char>, from: int, to: int) -> int
    recommends
        0 <= from <= to <= s.len(),
    decreases to - from,
{
    if from < to && whitespace(s[to - 1]) {
        drop_whitespace(s, from, to - 1)
    } else {
        to
    }
}

/// Where the text of `s` begins once leading whitespace is dropped.
pub open spec fn trimmed_start(s: Seq<char>) -> int {
    skip_whitespace(s, 0, s.len() as int)
}

/// Where the text of `s` ends once whitespace is dropped at both ends.
pub open spec fn trimmed_end(s: Seq<char>) -> int {
    drop_whitespace(s, trimmed_start(s), s.len() as int)
}

/// `s` without the whitespace at its two ends.
pub open spec fn trimmed(s: Seq<char>) -> Seq<char> {
    s.subrange(trimmed_start(s), trimmed_end(s))
}

/// The character for a decimal digit.
pub open spec fn digit_char(d: int) -> char
    recommends
        0 <= d <= 9,
{
    ('0' as int + d) as char
}

/// The decimal numeral of `n`, without sign or leading zeros.
pub open spec fn decimal(n: nat) -> Seq<char>
    decreases n,
{
    if n < 10 {
        seq![digit_char(n as int)]
    } else {
        decimal(n / 10).push(digit_char((n % 10) as int))
    }
}

/// What [`first_of`] finds: nothing in `stops` stands before the position,
/// and one of them stands at it unless the text ended first.
pub proof fn first_of_is_first(s: Seq<char>, from: int, stops: Seq<char>)
    requires
        0 <= from <= s.len(),
    ensures
        from <= first_of(s, from, stops) <= s.len(),
        forall|j: int| from <= j < first_of(s, from, stops) ==> !stops.contains(#[trigger] s[j]),
        first_of(s, from, stops) < s.len() ==> stops.contains(s[first_of(s, from, stops)]),
    decreases s.len() - from,
{
    if from < s.len() && !stops.contains(s[from]) {
        first_of_is_first(s, from + 1, stops);
    }
}

/// What [`skip_whitespace`] and [`drop_whitespace`] leave: a range inside
/// the one given, with no whitespace at the end they worked on.
pub proof fn whitespace_bounds(s: Seq<char>, from: int, to: int)
    requires
        0 <= from <= to <= s.len(),
    ensures
        from <= skip_whitespace(s, from, to) <= to,
        skip_whitespace(s, from, to) < to ==> !whitespace(s[skip_whitespace(s, from, to)]),
        from <= drop_whitespace(s, from, to) <= to,
        from < drop_whitespace(s, from, to) ==> !whitespace(s[drop_whitespace(s, from, to) - 1]),
    decreases to - from,
{
    if from < to {
        if whitespace(s[from]) {
            whitespace_bounds(s, from + 1, to);
        }
        if whitespace(s[to - 1]) {
            whitespace_bounds(s, from, to - 1);
        }
    }
}

/// The characters of a string, in order.
pub fn to_chars(text: &str) -> (chars: Vec<char>)
    ensures
        chars@ == text@,
{
    let mut chars: Vec<char> = Vec::new();
    for c in it: text.chars()
        invariant
            chars@ == it.seq().take(it.index() as int),
    {
        chars.push(c);
    }
    chars
}

/// A string of the given characters.
pub fn to_text(chars: &[char]) -> (text: String)
    ensures
        text@ == chars@,
{
    let mut text = String::new();
    let mut at: usize = 0;
    while at < chars.len()
        invariant
            at <= chars.len(),
            text@ == chars@.take(at as int),
        decreases chars.len() - at,
    {
        text.push(chars[at]);
        at += 1;
    }
    text
}

/// Whether `c` is one of `stops`.
pub fn is_one_of(c: char, stops: &[char]) -> (answer: bool)
    ensures
        answer == stops@.contains(c),
{
    let mut at: usize = 0;
    while at < stops.len()
        invariant
            at <= stops.len(),
            forall|j: int| 0 <= j < at ==> stops@[j] != c,
        decreases stops.len() - at,
    {
        if stops[at] == c {
            return true;
        }
        at += 1;
    }
    false
}

/// Finds the first of `stops` at or after `from`.
pub fn find_first(s: &[char], from: usize, stops: &[char]) -> (at: usize)
    requires
        from <= s.len(),
    ensures
        at == first_of(s@, from as int, stops@),
        from <= at <= s.len(),
{
    let mut at: usize = from;
    while at < s.len() && !is_one_of(s[at], stops)
        invariant
            from <= at <= s.len(),
            first_of(s@, from as int, stops@) == first_of(s@, at as int, stops@),
        decreases s.len() - at,
    {
        at += 1;
    }
    at
}

/// Steps over the whitespace at the start of `from..to`.
pub fn skip_spaces(s: &[char], from: usize, to: usize) -> (at: usize)
    requires
        from <= to <= s.len(),
    ensures
        at == skip_whitespace(s@, from as int, to as int),
        from <= at <= to,
{
    let mut at: usize = from;
    while at < to && s[at].is_whitespace()
        invariant
            from <= at <= to <= s.len(),
            skip_whitespace(s@, from as int, to as int) == skip_whitespace(s@, at as int, to as int),
        decreases to - at,
    {
        at += 1;
    }
    at
}

/// Steps back over the whitespace at the end of `from..to`.
pub fn drop_spaces(s: &[char], from: usize, to: usize) -> (at: usize)
    requires
        from <= to <= s.len(),
    ensures
        at == drop_whitespace(s@, from as int, to as int),
        from <= at <= to,
{
    let mut at: usize = to;
    while from < at && s[at - 1].is_whitespace()
        invariant
            from <= at <= to <= s.len(),
            drop_whitespace(s@, from as int, to as int) == drop_whitespace(s@, from as int, at as int),
        decreases at - from,
    {
        at -= 1;
    }
    at
}

/// The part of `s` between the whitespace at its two ends.
pub fn trim(s: &[char]) -> (inner: &[char])
    ensures
        inner@ == trimmed(s@),
{
    let start = skip_spaces(s, 0, s.len());
    let end = drop_spaces(s, start, s.len());
    slice_subrange(s, start, end)
}

/// Appends the decimal numeral of `n` to `out`.
pub fn push_decimal(out: &mut String, n: usize)
    ensures
        final(out)@ == old(out)@ + decimal(n as nat),
    decreases n,
{
    if n >= 10 {
        push_decimal(out, n / 10);
    }
    let d: u8 = (n % 10) as u8;
    out.push((48u8 + d) as char);
}

} // verus!
