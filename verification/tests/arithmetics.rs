use polynomial_roots::arithmetic::{closer, minus, over, plus, squared_magnitude, times};
use polynomial_roots::complex::Complex;
use polynomial_roots::scalar::Scalar;

fn scalar(x: f64) -> Scalar {
    Scalar { bits: x.to_bits() }
}

fn complex(re: f64, im: f64) -> Complex {
    Complex { re: scalar(re), im: scalar(im) }
}

fn parts(value: Complex) -> (f64, f64) {
    (f64::from_bits(value.re.bits), f64::from_bits(value.im.bits))
}

fn sum(a: Scalar, b: Scalar) -> Scalar {
    scalar(f64::from_bits(a.bits) + f64::from_bits(b.bits))
}

fn difference(a: Scalar, b: Scalar) -> Scalar {
    scalar(f64::from_bits(a.bits) - f64::from_bits(b.bits))
}

fn product(a: Scalar, b: Scalar) -> Scalar {
    scalar(f64::from_bits(a.bits) * f64::from_bits(b.bits))
}

fn quotient(a: Scalar, b: Scalar) -> Scalar {
    scalar(f64::from_bits(a.bits) / f64::from_bits(b.bits))
}

#[test]
fn sum_is_taken_by_components() {
    assert_eq!(plus(complex(1.0, 2.0), complex(3.5, -4.0), &sum), complex(4.5, -2.0));
}

#[test]
fn difference_is_taken_by_components() {
    assert_eq!(minus(complex(1.0, 2.0), complex(3.5, -4.0), &difference), complex(-2.5, 6.0));
    assert_eq!(minus(complex(0.0, 0.0), complex(0.0, 2.0), &difference), complex(0.0, -2.0));
}

#[test]
fn adding_and_taking_away_again_gives_the_number_back_where_nothing_is_rounded() {
    let (a, b) = (complex(1.5, -2.25), complex(1024.0, 0.125));
    assert_eq!(minus(plus(a, b, &sum), b, &difference), a);
    let tiny = complex(1e-20, 0.0);
    let one = complex(1.0, 0.0);
    assert_eq!(minus(plus(tiny, one, &sum), one, &difference), complex(0.0, 0.0));
}

#[test]
fn product_of_complex_numbers() {
    // (1 + 2i)(3 + 4i) = -5 + 10i
    assert_eq!(
        times(complex(1.0, 2.0), complex(3.0, 4.0), &sum, &difference, &product),
        complex(-5.0, 10.0)
    );
    // i * i = -1
    assert_eq!(
        times(complex(0.0, 1.0), complex(0.0, 1.0), &sum, &difference, &product),
        complex(-1.0, 0.0)
    );
}

#[test]
fn quotient_divides_by_the_difference_of_the_squares() {
    // (1 + 2i) / (3 + i): divisor 9 - 1 = 8, real (3 + 2) / 8, imaginary (6 - 1) / 8
    assert_eq!(
        over(complex(1.0, 2.0), complex(3.0, 1.0), &sum, &difference, &product, &quotient),
        complex(0.625, 0.625)
    );
    // by a real number it is the usual quotient
    assert_eq!(
        over(complex(3.0, 4.0), complex(2.0, 0.0), &sum, &difference, &product, &quotient),
        complex(1.5, 2.0)
    );
    // by i: divisor 0 - 1 = -1, real (0 + 4) / -1, imaginary (0 - 3) / -1
    assert_eq!(
        over(complex(3.0, 4.0), complex(0.0, 1.0), &sum, &difference, &product, &quotient),
        complex(-4.0, 3.0)
    );
}

#[test]
fn quotient_by_equal_squares_is_not_finite() {
    let (re, im) =
        parts(over(complex(1.0, 2.0), complex(1.0, 1.0), &sum, &difference, &product, &quotient));
    assert_eq!(re, f64::INFINITY);
    assert_eq!(im, f64::INFINITY);
    let (re, im) =
        parts(over(complex(1.0, 1.0), complex(2.0, -2.0), &sum, &difference, &product, &quotient));
    assert!(re.is_nan());
    assert_eq!(im, f64::INFINITY);
    let (re, im) =
        parts(over(complex(1.0, 2.0), complex(0.0, 0.0), &sum, &difference, &product, &quotient));
    assert!(re.is_nan() && im.is_nan());
}

#[test]
fn squared_magnitude_is_the_sum_of_the_squares() {
    assert_eq!(squared_magnitude(complex(3.0, -4.0), &sum, &product), scalar(25.0));
    assert_eq!(squared_magnitude(complex(0.0, 0.0), &sum, &product), scalar(0.0));
    assert_eq!(squared_magnitude(complex(1e-200, 0.0), &sum, &product), scalar(0.0));
}

#[test]
fn closer_orders_by_squared_magnitude() {
    assert!(closer(complex(1.0, 1.0), complex(0.0, 2.0), &sum, &product));
    assert!(!closer(complex(0.0, 2.0), complex(1.0, 1.0), &sum, &product));
    assert!(!closer(complex(3.0, 4.0), complex(-5.0, 0.0), &sum, &product));
    assert!(closer(complex(1e300, 0.0), complex(f64::NAN, 0.0), &sum, &product));
    assert!(!closer(complex(f64::NAN, 0.0), complex(1.0, 0.0), &sum, &product));
}
