use polynomial_roots::complex::{parse_sum, read_sum, Complex, Magnitude, Part};
use polynomial_roots::scalar::Scalar;

fn real_part(negative: bool, text: &str) -> Part {
    Part { negative, imaginary: false, magnitude: Magnitude::Literal(text.to_string()) }
}

fn imaginary_part(negative: bool, text: &str) -> Part {
    Part { negative, imaginary: true, magnitude: Magnitude::Literal(text.to_string()) }
}

fn unit(negative: bool, imaginary: bool) -> Part {
    Part { negative, imaginary, magnitude: Magnitude::One }
}

fn unreadable(negative: bool) -> Part {
    Part { negative, imaginary: false, magnitude: Magnitude::Unreadable }
}

#[test]
fn empty_sum_is_one() {
    assert_eq!(read_sum(""), vec![unit(false, false)]);
}

#[test]
fn bare_i_is_the_imaginary_unit() {
    assert_eq!(read_sum("i"), vec![unit(false, true)]);
    assert_eq!(read_sum("-i"), vec![unit(true, true)]);
    assert_eq!(read_sum("+i"), vec![unit(false, true)]);
}

#[test]
fn sum_of_real_and_imaginary_term() {
    assert_eq!(read_sum("3+4i"), vec![real_part(false, "3"), imaginary_part(false, "4")]);
    assert_eq!(read_sum("-3-4i"), vec![real_part(true, "3"), imaginary_part(true, "4")]);
    assert_eq!(read_sum("2.5i-1e3"), vec![imaginary_part(false, "2.5"), real_part(true, "1e3")]);
}

#[test]
fn sum_numbers_are_trimmed() {
    assert_eq!(read_sum("3 + 4i"), vec![real_part(false, "3"), imaginary_part(false, "4")]);
    assert_eq!(read_sum(" 7 "), vec![real_part(false, "7")]);
}

#[test]
fn sum_goes_on_after_an_i() {
    assert_eq!(read_sum("2i3"), vec![imaginary_part(false, "2"), real_part(false, "3")]);
    assert_eq!(read_sum("i+1"), vec![unit(false, true), real_part(false, "1")]);
    assert_eq!(read_sum("ii"), vec![unit(false, true), unit(false, true)]);
}

#[test]
fn sum_ends_with_what_does_not_read_as_a_number() {
    assert_eq!(read_sum("abc"), vec![unreadable(false)]);
    assert_eq!(read_sum("+"), vec![unreadable(false)]);
    assert_eq!(read_sum("-"), vec![unreadable(true)]);
    assert_eq!(read_sum("3+x+4"), vec![real_part(false, "3"), unreadable(false)]);
    assert_eq!(read_sum("1e-5"), vec![unreadable(false)]);
    assert_eq!(read_sum("2++3"), vec![real_part(false, "2"), unreadable(false)]);
    assert_eq!(read_sum("-2 5i"), vec![unreadable(true)]);
}

#[test]
fn sum_takes_not_a_number() {
    assert_eq!(read_sum("nan"), vec![real_part(false, "nan")]);
    assert_eq!(read_sum("-NaN"), vec![real_part(true, "NaN")]);
}

#[test]
fn parse_sum_reads_a_slice() {
    let text: Vec<char> = "(3+2i)".chars().collect();
    assert_eq!(parse_sum(&text[1..5]), vec![real_part(false, "3"), imaginary_part(false, "2")]);
    assert_eq!(parse_sum(&text[0..0]), vec![unit(false, false)]);
}

#[test]
fn complex_zero_test_takes_both_zeros() {
    let zero = Scalar { bits: 0.0f64.to_bits() };
    let minus_zero = Scalar { bits: (-0.0f64).to_bits() };
    let one = Scalar { bits: 1.0f64.to_bits() };
    let nan = Scalar { bits: f64::NAN.to_bits() };
    assert!(Complex::zero().is_zero());
    assert_eq!(Complex::zero(), Complex { re: zero, im: zero });
    assert!(Complex { re: minus_zero, im: zero }.is_zero());
    assert!(Complex { re: zero, im: minus_zero }.is_zero());
    assert!(!Complex { re: one, im: zero }.is_zero());
    assert!(!Complex { re: zero, im: one }.is_zero());
    assert!(!Complex { re: nan, im: zero }.is_zero());
}
