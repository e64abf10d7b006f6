//! The grammar of polynomial expressions.
//!
//! An expression is read from left to right as a run of signs and terms. A
//! sign holds for every term after it until the next sign. A term is a
//! coefficient, the variable `X` and an exponent, each of which may be left
//! out: `(3+2i)X^3`, `2X`, `X^2`, `i`, `5`.

use vstd::prelude::*;
use vstd::slice::slice_subrange;
use crate::complex::{parse_sum, sum_parts, Part, PartModel};
use crate::number::{parse_power, power_value};
use crate::text::{
    find_first,
    first_of,
    first_of_is_first,
    numeric,
    skip_spaces,
    skip_whitespace,
    to_chars,
    trim,
    trimmed,
    trimmed_start,
    whitespace_bounds,
};

verus! {

/// The coefficient of a term, before the sign of the term.
#[derive(Clone, Debug, PartialEq, Eq)]
pub enum Coefficient {
    /// No coefficient is written before the variable: it is one.
    One,
    /// A bare `i`.
    ImaginaryUnit,
    /// A sum, written in parentheses or as a numeral.
    Sum(Vec<Part>),
}

/// One term of an expression: a coefficient times a power of the variable.
#[derive(Clone, Debug, PartialEq, Eq)]
pub struct Term {
    /// The last sign before the term is a minus.
    pub negative: bool,
    pub coefficient: Coefficient,
    pub power: usize,
}

/// Why an expression has no reading.
#[derive(Clone, Copy, Debug, PartialEq, Eq)]
pub enum ParseError {
    /// Where a sign or a term is due stands something else, or nothing but
    /// whitespace.
    Unrecognized,
    /// A parenthesis is opened and never closed.
    UnclosedParenthesis,
    /// What follows `^` is not a numeral, or too large for an exponent.
    BadExponent,
}

/// [`Coefficient`] over mathematical text.
pub enum CoefficientModel {
    One,
    ImaginaryUnit,
    Sum(Seq<PartModel>),
}

/// [`Term`] over mathematical text.
pub struct TermModel {
    pub negative: bool,
    pub coefficient: CoefficientModel,
    pub power: usize,
}

impl DeepView for Coefficient {
    type V = CoefficientModel;

    open spec fn deep_view(&self) -> CoefficientModel {
        match self {
            Coefficient::One => CoefficientModel::One,
            Coefficient::ImaginaryUnit => CoefficientModel::ImaginaryUnit,
            Coefficient::Sum(parts) => CoefficientModel::Sum(parts.deep_view()),
        }
    }
}

impl DeepView for Term {
    type V = TermModel;

    open spec fn deep_view(&self) -> TermModel {
        TermModel {
            negative: self.negative,
            coefficient: self.coefficient.deep_view(),
            power: self.power,
        }
    }
}

/// What is read of a term from some position on, and where the reading ends.
pub struct Reading {
    pub coefficient: CoefficientModel,
    pub power: usize,
    pub end: int,
}

/// The variable, in either case.
pub open spec fn is_variable(c: char) -> bool {
    c == 'x' || c == 'X'
}

/// The two signs: an exponent ends before the next of them.
pub open spec fn signs() -> Seq<char> {
    seq!['+', '-']
}

/// The characters that end a numeral coefficient.
pub open spec fn numeral_stops() -> Seq<char> {
    seq!['x', 'X', '-', '+']
}

/// The exponent at `pos` and where it ends: `^` and the text up to the next
/// sign, which must be a numeral. Where no `^` stands the exponent is one.
pub open spec fn exponent_at(s: Seq<char>, pos: int) -> Result<(usize, int), ParseError> {
    if 0 <= pos < s.len() && s[pos] == '^' {
        let stop = first_of(s, pos + 1, signs());
        match power_value(s.subrange(pos + 1, stop)) {
            Some(power) => Ok((power, stop)),
            None => Err(ParseError::BadExponent),
        }
    } else {
        Ok((1usize, pos))
    }
}

/// The power of the variable at `pos` and where it ends: the variable and
/// its exponent. Where no variable stands the power is zero.
pub open spec fn variable_at(s: Seq<char>, pos: int) -> Result<(usize, int), ParseError> {
    if 0 <= pos < s.len() && is_variable(s[pos]) {
        exponent_at(s, pos + 1)
    } else {
        Ok((0usize, pos))
    }
}

/// Joins a coefficient with the power that follows it.
pub open spec fn with_power(
    coefficient: CoefficientModel,
    power: Result<(usize, int), ParseError>,
) -> Result<Reading, ParseError> {
    match power {
        Ok((power, end)) => Ok(Reading { coefficient, power, end }),
        Err(error) => Err(error),
    }
}

/// The term that begins at `at`, by its first character: a sum in
/// parentheses, a numeral up to the variable or the next sign, the bare
/// variable, or a bare `i`; after each but the bare variable, the variable
/// may follow.
pub open spec fn term_at(s: Seq<char>, at: int) -> Result<Reading, ParseError>
    recommends
        0 <= at < s.len(),
{
    if s[at] == '(' {
        let close = first_of(s, at + 1, seq![')']);
        if close >= s.len() {
            Err(ParseError::UnclosedParenthesis)
        } else {
            with_power(
                CoefficientModel::Sum(sum_parts(s.subrange(at + 1, close))),
                variable_at(s, close + 1),
            )
        }
    } else if numeric(s[at]) {
        let stop = first_of(s, at, numeral_stops());
        with_power(CoefficientModel::Sum(sum_parts(s.subrange(at, stop))), variable_at(s, stop))
    } else if is_variable(s[at]) {
        with_power(CoefficientModel::One, exponent_at(s, at + 1))
    } else if s[at] == 'i' {
        with_power(CoefficientModel::ImaginaryUnit, variable_at(s, at + 1))
    } else {
        Err(ParseError::Unrecognized)
    }
}

/// Puts a term before the terms read after it.
pub open spec fn followed_by(
    first: Seq<TermModel>,
    rest: Result<Seq<TermModel>, ParseError>,
) -> Result<Seq<TermModel>, ParseError> {
    match rest {
        Ok(terms) => Ok(first + terms),
        Err(error) => Err(error),
    }
}

/// The terms that `s` writes from `pos` on, where the last sign read so far
/// is a minus if `negative` holds. Whitespace may stand before each sign and
/// each term. The first thing that cannot be read decides the outcome.
pub open spec fn terms_from(s: Seq<char>, pos: int, negative: bool) -> Result<
    Seq<TermModel>,
    ParseError,
>
    decreases s.len() - pos,
    via terms_from_ends
{
    if 0 <= pos < s.len() {
        let at = skip_whitespace(s, pos, s.len() as int);
        if at >= s.len() {
            Err(ParseError::Unrecognized)
        } else if s[at] == '+' {
            terms_from(s, at + 1, false)
        } else if s[at] == '-' {
            terms_from(s, at + 1, true)
        } else {
            match term_at(s, at) {
                Ok(reading) => followed_by(
                    seq![
                        TermModel {
                            negative,
                            coefficient: reading.coefficient,
                            power: reading.power,
                        },
                    ],
                    terms_from(s, reading.end, negative),
                ),
                Err(error) => Err(error),
            }
        }
    } else {
        Ok(Seq::empty())
    }
}

#[via_fn]
proof fn terms_from_ends(s: Seq<char>, pos: int, negative: bool) {
    if 0 <= pos < s.len() {
        whitespace_bounds(s, pos, s.len() as int);
        let at = skip_whitespace(s, pos, s.len() as int);
        if at < s.len() && s[at] != '+' && s[at] != '-' {
            term_advances(s, at);
        }
    }
}

/// The terms that the expression `s` writes.
pub open spec fn terms_of(s: Seq<char>) -> Result<Seq<TermModel>, ParseError> {
    terms_from(s, 0, false)
}

/// The terms of the polynomial that `s` denotes. A text in which something
/// is not recognized denotes the zero polynomial, which has no terms.
pub open spec fn polynomial_terms(s: Seq<char>) -> Result<Seq<TermModel>, ParseError> {
    match terms_of(s) {
        Err(ParseError::Unrecognized) => Ok(Seq::empty()),
        outcome => outcome,
    }
}

/// The terms of the polynomial that `s` denotes once the whitespace at its
/// two ends is dropped.
pub open spec fn expression_terms(s: Seq<char>) -> Result<Seq<TermModel>, ParseError> {
    polynomial_terms(trimmed(s))
}

/// Whether a sign or a term can begin with `c`.
pub open spec fn begins_sign_or_term(c: char) -> bool {
    c == '+' || c == '-' || c == '(' || numeric(c) || is_variable(c) || c == 'i'
}

/// A text whose first character after leading whitespace can begin neither
/// a sign nor a term denotes the zero polynomial, whatever follows.
pub proof fn unrecognized_start_is_zero(s: Seq<char>)
    requires
        trimmed_start(s) < s.len(),
        !begins_sign_or_term(s[trimmed_start(s)]),
    ensures
        terms_of(s) == Err::<Seq<TermModel>, _>(ParseError::Unrecognized),
        polynomial_terms(s) == Ok::<_, ParseError>(Seq::<TermModel>::empty()),
{
    whitespace_bounds(s, 0, s.len() as int);
}

/// An exponent ends at or after the place where it begins, inside the text.
pub proof fn power_advances(s: Seq<char>, pos: int)
    requires
        0 <= pos <= s.len(),
    ensures
        exponent_at(s, pos) matches Ok((_, end)) ==> pos <= end <= s.len(),
        variable_at(s, pos) matches Ok((_, end)) ==> pos <= end <= s.len(),
{
    if pos < s.len() {
        first_of_is_first(s, pos + 1, signs());
        if pos + 1 < s.len() {
            first_of_is_first(s, pos + 2, signs());
        }
    }
}

/// A term that is read takes at least one character, and ends inside the
/// text.
pub proof fn term_advances(s: Seq<char>, at: int)
    requires
        0 <= at < s.len(),
        s[at] != '+',
        s[at] != '-',
    ensures
        term_at(s, at) matches Ok(reading) ==> at < reading.end <= s.len(),
{
    if s[at] == '(' {
        let close = first_of(s, at + 1, seq![')']);
        first_of_is_first(s, at + 1, seq![')']);
        if close < s.len() {
            power_advances(s, close + 1);
        }
    } else if numeric(s[at]) {
        let stop = first_of(s, at, numeral_stops());
        first_of_is_first(s, at, numeral_stops());
        power_advances(s, stop);
        if stop == at {
            assert(numeral_stops().contains(s[at]));
            assert(is_variable(s[at]));
            power_advances(s, at + 1);
        }
    } else if is_variable(s[at]) {
        power_advances(s, at + 1);
    } else if s[at] == 'i' {
        power_advances(s, at + 1);
    }
}

/// Every power that is read is below the largest machine word.
pub proof fn powers_fit(s: Seq<char>, pos: int, negative: bool)
    ensures
        terms_from(s, pos, negative) matches Ok(terms) ==> forall|k: int|
            0 <= k < terms.len() ==> (#[trigger] terms[k]).power < usize::MAX,
    decreases s.len() - pos,
{
    if 0 <= pos < s.len() {
        whitespace_bounds(s, pos, s.len() as int);
        let at = skip_whitespace(s, pos, s.len() as int);
        if at >= s.len() {
        } else if s[at] == '+' {
            powers_fit(s, at + 1, false);
        } else if s[at] == '-' {
            powers_fit(s, at + 1, true);
        } else {
            term_advances(s, at);
            match term_at(s, at) {
                Ok(reading) => {
                    powers_fit(s, reading.end, negative);
                    match terms_from(s, reading.end, negative) {
                        Ok(rest) => {
                            let first = seq![
                                TermModel {
                                    negative,
                                    coefficient: reading.coefficient,
                                    power: reading.power,
                                },
                            ];
                            let terms = first + rest;
                            assert forall|k: int| 0 <= k < terms.len() implies (
                            #[trigger] terms[k]).power < usize::MAX by {
                                if k > 0 {
                                    assert(terms[k] == rest[k - 1]);
                                }
                            }
                        },
                        Err(_) => {},
                    }
                },
                Err(_) => {},
            }
        }
    }
}

/// Reads the exponent at `pos`.
fn read_exponent(text: &[char], pos: usize) -> (power: Result<(usize, usize), ParseError>)
    requires
        pos <= text.len(),
    ensures
        match power {
            Ok((power, end)) => exponent_at(text@, pos as int) == Ok::<_, ParseError>(
                (power, end as int),
            ) && pos <= end <= text.len(),
            Err(error) => exponent_at(text@, pos as int) == Err::<(usize, int), _>(error),
        },
{
    if pos < text.len() && text[pos] == '^' {
        let stops = ['+', '-'];
        assert(stops@ =~= signs());
        let stop = find_first(text, pos + 1, stops.as_slice());
        match parse_power(slice_subrange(text, pos + 1, stop)) {
            Some(power) => Ok((power, stop)),
            None => Err(ParseError::BadExponent),
        }
    } else {
        Ok((1, pos))
    }
}

/// Reads the variable and its exponent at `pos`.
fn read_variable(text: &[char], pos: usize) -> (power: Result<(usize, usize), ParseError>)
    requires
        pos <= text.len(),
    ensures
        match power {
            Ok((power, end)) => variable_at(text@, pos as int) == Ok::<_, ParseError>(
                (power, end as int),
            ) && pos <= end <= text.len(),
            Err(error) => variable_at(text@, pos as int) == Err::<(usize, int), _>(error),
        },
{
    if pos < text.len() && (text[pos] == 'x' || text[pos] == 'X') {
        read_exponent(text, pos + 1)
    } else {
        Ok((0, pos))
    }
}

/// Reads the term that begins at `at`.
fn read_term(text: &[char], at: usize) -> (term: Result<(Coefficient, usize, usize), ParseError>)
    requires
        at < text.len(),
        text@[at as int] != '+',
        text@[at as int] != '-',
    ensures
        match term {
            Ok((coefficient, power, end)) => term_at(text@, at as int) == Ok::<_, ParseError>(
                Reading { coefficient: coefficient.deep_view(), power, end: end as int },
            ) && at < end <= text.len(),
            Err(error) => term_at(text@, at as int) == Err::<Reading, _>(error),
        },
{
    proof {
        term_advances(text@, at as int);
    }
    let first = text[at];
    if first == '(' {
        let closing = [')'];
        assert(closing@ =~= seq![')']);
        let close = find_first(text, at + 1, closing.as_slice());
        if close >= text.len() {
            return Err(ParseError::UnclosedParenthesis);
        }
        let coefficient = Coefficient::Sum(parse_sum(slice_subrange(text, at + 1, close)));
        match read_variable(text, close + 1) {
            Ok((power, end)) => Ok((coefficient, power, end)),
            Err(error) => Err(error),
        }
    } else if first.is_numeric() {
        let stops = ['x', 'X', '-', '+'];
        assert(stops@ =~= numeral_stops());
        let stop = find_first(text, at, stops.as_slice());
        let coefficient = Coefficient::Sum(parse_sum(slice_subrange(text, at, stop)));
        match read_variable(text, stop) {
            Ok((power, end)) => Ok((coefficient, power, end)),
            Err(error) => Err(error),
        }
    } else if first == 'x' || first == 'X' {
        match read_exponent(text, at + 1) {
            Ok((power, end)) => Ok((Coefficient::One, power, end)),
            Err(error) => Err(error),
        }
    } else if first == 'i' {
        match read_variable(text, at + 1) {
            Ok((power, end)) => Ok((Coefficient::ImaginaryUnit, power, end)),
            Err(error) => Err(error),
        }
    } else {
        Err(ParseError::Unrecognized)
    }
}

/// Reads the terms of an expression.
pub fn parse_terms(text: &[char]) -> (outcome: Result<Vec<Term>, ParseError>)
    ensures
        match outcome {
            Ok(terms) => terms_of(text@) == Ok::<_, ParseError>(terms.deep_view()),
            Err(error) => terms_of(text@) == Err::<Seq<TermModel>, _>(error),
        },
{
    let mut terms: Vec<Term> = Vec::new();
    let mut negative = false;
    let mut pos: usize = 0;
    assert(followed_by(terms.deep_view(), terms_from(text@, 0, false)) == terms_of(text@)) by {
        assert(terms.deep_view() =~= Seq::<TermModel>::empty());
        match terms_from(text@, 0, false) {
            Ok(rest) => {
                assert(terms.deep_view() + rest =~= rest);
            },
            Err(_) => {},
        }
    }
    while pos < text.len()
        invariant
            pos <= text.len(),
            terms_of(text@) == followed_by(
                terms.deep_view(),
                terms_from(text@, pos as int, negative),
            ),
        decreases text.len() - pos,
    {
        let at = skip_spaces(text, pos, text.len());
        if at >= text.len() {
            return Err(ParseError::Unrecognized);
        }
        if text[at] == '+' {
            negative = false;
            pos = at + 1;
        } else if text[at] == '-' {
            negative = true;
            pos = at + 1;
        } else {
            match read_term(text, at) {
                Ok((coefficient, power, end)) => {
                    let ghost before = terms.deep_view();
                    let term = Term { negative, coefficient, power };
                    let ghost model = term.deep_view();
                    terms.push(term);
                    proof {
                        assert(terms.deep_view() =~= before.push(model));
                        match terms_from(text@, end as int, negative) {
                            Ok(rest) => {
                                assert(before + (seq![model] + rest) =~= before.push(model)
                                    + rest);
                            },
                            Err(_) => {},
                        }
                    }
                    pos = end;
                },
                Err(error) => {
                    return Err(error);
                },
            }
        }
    }
    proof {
        assert(terms.deep_view() + Seq::<TermModel>::empty() =~= terms.deep_view());
    }
    Ok(terms)
}

/// Turns an expression that holds something unrecognized into the zero
/// polynomial.
fn or_zero(outcome: Result<Vec<Term>, ParseError>) -> (mended: Result<Vec<Term>, ParseError>)
    ensures
        outcome matches Err(ParseError::Unrecognized) ==> mended matches Ok(terms)
            && terms.deep_view() == Seq::<TermModel>::empty(),
        !(outcome matches Err(ParseError::Unrecognized)) ==> mended == outcome,
{
    match outcome {
        Err(ParseError::Unrecognized) => {
            let terms: Vec<Term> = Vec::new();
            assert(terms.deep_view() =~= Seq::<TermModel>::empty());
            Ok(terms)
        },
        outcome => outcome,
    }
}

/// Reads the polynomial that a text denotes: its terms in the order in which
/// they are written.
///
/// A text with something unrecognized in it denotes the zero polynomial, so
/// the outcome is then no terms at all, whatever was read before. An
/// unclosed parenthesis and a bad exponent are errors.
pub fn read_polynomial(text: &str) -> (outcome: Result<Vec<Term>, ParseError>)
    ensures
        match outcome {
            Ok(terms) => polynomial_terms(text@) == Ok::<_, ParseError>(terms.deep_view()),
            Err(error) => polynomial_terms(text@) == Err::<Seq<TermModel>, _>(error),
        },
{
    let chars = to_chars(text);
    or_zero(parse_terms(chars.as_slice()))
}

/// Reads the polynomial that a text denotes, whitespace at the ends of the
/// text aside.
pub fn read_expression(text: &str) -> (outcome: Result<Vec<Term>, ParseError>)
    ensures
        match outcome {
            Ok(terms) => expression_terms(text@) == Ok::<_, ParseError>(terms.deep_view()),
            Err(error) => expression_terms(text@) == Err::<Seq<TermModel>, _>(error),
        },
{
    let chars = to_chars(text);
    or_zero(parse_terms(trim(chars.as_slice())))
}

} // verus!
