use polynomial_roots::complex::{Magnitude, Part};
use polynomial_roots::expression::{
    parse_terms, read_expression, read_polynomial, Coefficient, ParseError, Term,
};

fn chars(text: &str) -> Vec<char> {
    text.chars().collect()
}

fn part(negative: bool, imaginary: bool, text: &str) -> Part {
    Part { negative, imaginary, magnitude: Magnitude::Literal(text.to_string()) }
}

fn number(text: &str) -> Coefficient {
    Coefficient::Sum(vec![part(false, false, text)])
}

fn term(negative: bool, coefficient: Coefficient, power: usize) -> Term {
    Term { negative, coefficient, power }
}

#[test]
fn square_minus_one_has_two_terms() {
    assert_eq!(
        read_expression("X^2-1"),
        Ok(vec![term(false, Coefficient::One, 2), term(true, number("1"), 0)])
    );
}

#[test]
fn linear_expression_with_numeral_coefficient() {
    assert_eq!(
        read_expression("2X-4"),
        Ok(vec![term(false, number("2"), 1), term(true, number("4"), 0)])
    );
}

#[test]
fn parenthesized_and_imaginary_coefficients() {
    assert_eq!(
        read_expression("(3+2i)X^3+iX-5"),
        Ok(vec![
            term(
                false,
                Coefficient::Sum(vec![part(false, false, "3"), part(false, true, "2")]),
                3
            ),
            term(false, Coefficient::ImaginaryUnit, 1),
            term(true, number("5"), 0),
        ])
    );
}

#[test]
fn variable_may_be_small() {
    assert_eq!(read_expression("x^3"), Ok(vec![term(false, Coefficient::One, 3)]));
    assert_eq!(read_expression("2x"), Ok(vec![term(false, number("2"), 1)]));
}

#[test]
fn default_powers() {
    assert_eq!(read_expression("X"), Ok(vec![term(false, Coefficient::One, 1)]));
    assert_eq!(read_expression("i"), Ok(vec![term(false, Coefficient::ImaginaryUnit, 0)]));
    assert_eq!(read_expression("iX"), Ok(vec![term(false, Coefficient::ImaginaryUnit, 1)]));
    assert_eq!(read_expression("7"), Ok(vec![term(false, number("7"), 0)]));
    assert_eq!(
        read_expression("(1)"),
        Ok(vec![term(false, number("1"), 0)])
    );
    assert_eq!(read_expression("(1)X"), Ok(vec![term(false, number("1"), 1)]));
    assert_eq!(read_expression("iX^4"), Ok(vec![term(false, Coefficient::ImaginaryUnit, 4)]));
}

#[test]
fn sign_holds_until_the_next_sign() {
    assert_eq!(
        read_expression("-(1)(2)"),
        Ok(vec![term(true, number("1"), 0), term(true, number("2"), 0)])
    );
    assert_eq!(
        read_expression("-X+X"),
        Ok(vec![term(true, Coefficient::One, 1), term(false, Coefficient::One, 1)])
    );
    assert_eq!(read_expression("+-+-X"), Ok(vec![term(true, Coefficient::One, 1)]));
}

#[test]
fn whitespace_before_signs_and_terms() {
    assert_eq!(
        read_expression("  X^2 + 1 "),
        Ok(vec![term(false, Coefficient::One, 2), term(false, number("1"), 0)])
    );
    assert_eq!(read_expression("- 3X"), Ok(vec![term(true, number("3"), 1)]));
    assert_eq!(read_expression("2 X"), Ok(vec![term(false, number("2"), 1)]));
}

#[test]
fn numeral_coefficient_may_be_imaginary() {
    assert_eq!(
        read_expression("3iX^2"),
        Ok(vec![term(false, Coefficient::Sum(vec![part(false, true, "3")]), 2)])
    );
}

#[test]
fn numeric_character_that_is_no_numeral() {
    let unreadable = Part { negative: false, imaginary: false, magnitude: Magnitude::Unreadable };
    assert_eq!(
        read_expression("\u{b2}X"),
        Ok(vec![term(false, Coefficient::Sum(vec![unreadable]), 1)])
    );
}

#[test]
fn empty_parentheses_are_one() {
    let one = Part { negative: false, imaginary: false, magnitude: Magnitude::One };
    assert_eq!(read_expression("()X"), Ok(vec![term(false, Coefficient::Sum(vec![one]), 1)]));
}

#[test]
fn empty_expression_has_no_terms() {
    assert_eq!(read_expression(""), Ok(vec![]));
    assert_eq!(read_expression("   "), Ok(vec![]));
    assert_eq!(parse_terms(&chars("")), Ok(vec![]));
}

#[test]
fn unrecognized_character_gives_the_zero_polynomial() {
    assert_eq!(read_expression("?X^2-1"), Ok(vec![]));
    assert_eq!(read_expression("#"), Ok(vec![]));
    assert_eq!(read_expression("y^2"), Ok(vec![]));
}

#[test]
fn unrecognized_character_discards_what_was_read() {
    assert_eq!(read_expression("X^2-1+?"), Ok(vec![]));
    assert_eq!(read_expression("X*3"), Ok(vec![]));
    assert_eq!(read_expression("(1)X ~"), Ok(vec![]));
}

#[test]
fn numeral_swallows_what_follows_up_to_the_variable_or_a_sign() {
    let unreadable = Part { negative: false, imaginary: false, magnitude: Magnitude::Unreadable };
    assert_eq!(
        read_expression("X^2-1?"),
        Ok(vec![
            term(false, Coefficient::One, 2),
            term(true, Coefficient::Sum(vec![unreadable]), 0),
        ])
    );
}

#[test]
fn parse_terms_names_what_is_unrecognized() {
    assert_eq!(parse_terms(&chars("?X^2-1")), Err(ParseError::Unrecognized));
    assert_eq!(parse_terms(&chars("X^2-1+?")), Err(ParseError::Unrecognized));
    assert_eq!(parse_terms(&chars("X ")), Err(ParseError::Unrecognized));
    assert_eq!(parse_terms(&chars("X+ ")), Err(ParseError::Unrecognized));
}

#[test]
fn read_polynomial_does_not_trim() {
    assert_eq!(read_polynomial("X "), Ok(vec![]));
    assert_eq!(read_polynomial(" X"), Ok(vec![term(false, Coefficient::One, 1)]));
    assert_eq!(read_expression("X "), Ok(vec![term(false, Coefficient::One, 1)]));
}

#[test]
fn bad_exponent_is_an_error() {
    assert_eq!(read_expression("X^a"), Err(ParseError::BadExponent));
    assert_eq!(read_expression("X^"), Err(ParseError::BadExponent));
    assert_eq!(read_expression("X^+2"), Err(ParseError::BadExponent));
    assert_eq!(read_expression("X^2X"), Err(ParseError::BadExponent));
    assert_eq!(read_expression("2X^1.5"), Err(ParseError::BadExponent));
    assert_eq!(read_expression("X^99999999999999999999999999"), Err(ParseError::BadExponent));
    assert_eq!(read_polynomial("iX^?"), Err(ParseError::BadExponent));
}

#[test]
fn unclosed_parenthesis_is_an_error() {
    assert_eq!(read_expression("(1+2"), Err(ParseError::UnclosedParenthesis));
    assert_eq!(read_expression("X+("), Err(ParseError::UnclosedParenthesis));
    assert_eq!(parse_terms(&chars("(")), Err(ParseError::UnclosedParenthesis));
}

#[test]
fn first_failure_from_the_left_decides() {
    assert_eq!(read_expression("?+X^a"), Ok(vec![]));
    assert_eq!(read_expression("X^a+?"), Err(ParseError::BadExponent));
    assert_eq!(read_expression("(1+?"), Err(ParseError::UnclosedParenthesis));
}

#[test]
fn exponent_text_is_trimmed() {
    assert_eq!(
        read_expression("X^ 12 -1"),
        Ok(vec![term(false, Coefficient::One, 12), term(true, number("1"), 0)])
    );
}
