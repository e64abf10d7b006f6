use polynomial_roots::complex::Complex;
use polynomial_roots::polynomial::Polynomial;
use polynomial_roots::scalar::Scalar;

fn complex(re: f64, im: f64) -> Complex {
    Complex { re: Scalar { bits: re.to_bits() }, im: Scalar { bits: im.to_bits() } }
}

fn parts(value: Complex) -> (f64, f64) {
    (f64::from_bits(value.re.bits), f64::from_bits(value.im.bits))
}

fn sum(a: Scalar, b: Scalar) -> Scalar {
    Scalar { bits: (f64::from_bits(a.bits) + f64::from_bits(b.bits)).to_bits() }
}

fn difference(a: Scalar, b: Scalar) -> Scalar {
    Scalar { bits: (f64::from_bits(a.bits) - f64::from_bits(b.bits)).to_bits() }
}

fn product(a: Scalar, b: Scalar) -> Scalar {
    Scalar { bits: (f64::from_bits(a.bits) * f64::from_bits(b.bits)).to_bits() }
}

fn reals(values: &[f64]) -> Polynomial {
    Polynomial::new(values.iter().map(|&x| complex(x, 0.0)).collect())
}

fn real_parts(polynomial: &Polynomial) -> Vec<f64> {
    polynomial.coefficients().iter().map(|c| parts(*c).0).collect()
}

#[test]
fn default_is_the_zero_polynomial() {
    let polynomial = Polynomial::default();
    assert!(polynomial.coefficients().is_empty());
    assert_eq!(polynomial.degree(), 0);
}

#[test]
fn degree_is_one_less_than_the_length() {
    assert_eq!(reals(&[]).degree(), 0);
    assert_eq!(reals(&[5.0]).degree(), 0);
    assert_eq!(reals(&[5.0, 1.0]).degree(), 1);
    assert_eq!(reals(&[-1.0, 0.0, 1.0]).degree(), 2);
    assert_eq!(reals(&[1.0, 0.0, 0.0]).degree(), 2);
}

#[test]
fn trim0s_drops_zeros_at_the_high_end() {
    let mut polynomial = reals(&[1.0, 0.0, 2.0, 0.0, -0.0]);
    polynomial.trim0s();
    assert_eq!(real_parts(&polynomial), vec![1.0, 0.0, 2.0]);
    polynomial.trim0s();
    assert_eq!(real_parts(&polynomial), vec![1.0, 0.0, 2.0]);
}

#[test]
fn trim0s_empties_a_polynomial_of_zeros() {
    let mut polynomial = reals(&[0.0, -0.0, 0.0]);
    polynomial.trim0s();
    assert!(polynomial.coefficients().is_empty());
    let mut empty = Polynomial::default();
    empty.trim0s();
    assert!(empty.coefficients().is_empty());
}

#[test]
fn trim0s_keeps_what_is_not_exactly_zero() {
    let mut polynomial = Polynomial::new(vec![
        complex(1.0, 0.0),
        complex(0.0, 5e-324),
        complex(f64::NAN, 0.0),
    ]);
    polynomial.trim0s();
    assert_eq!(polynomial.coefficients().len(), 3);
    let mut imaginary = Polynomial::new(vec![complex(0.0, 1.0), complex(0.0, 0.0)]);
    imaginary.trim0s();
    assert_eq!(imaginary.coefficients(), &vec![complex(0.0, 1.0)]);
}

#[test]
fn add0s_grows_to_the_power() {
    let mut polynomial = reals(&[3.0]);
    polynomial.add0s(2);
    assert_eq!(polynomial.coefficients(), &vec![complex(3.0, 0.0), complex(0.0, 0.0), complex(0.0, 0.0)]);
    polynomial.add0s(1);
    assert_eq!(polynomial.coefficients().len(), 3);
    polynomial.add0s(2);
    assert_eq!(polynomial.coefficients().len(), 3);
    let mut empty = Polynomial::default();
    empty.add0s(0);
    assert_eq!(empty.coefficients(), &vec![complex(0.0, 0.0)]);
}

#[test]
fn accumulate_adds_into_the_slot() {
    let mut polynomial = Polynomial::default();
    polynomial.accumulate(2, complex(1.0, 0.0), &sum);
    polynomial.accumulate(0, complex(-1.0, 0.0), &sum);
    assert_eq!(real_parts(&polynomial), vec![-1.0, 0.0, 1.0]);
    polynomial.accumulate(2, complex(2.5, 1.0), &sum);
    assert_eq!(
        polynomial.coefficients(),
        &vec![complex(-1.0, 0.0), complex(0.0, 0.0), complex(3.5, 1.0)]
    );
}

#[test]
fn horner_divides_a_root_out() {
    let mut polynomial = reals(&[-1.0, 0.0, 1.0]);
    polynomial.horner(complex(1.0, 0.0), &sum, &difference, &product);
    assert_eq!(real_parts(&polynomial), vec![1.0, 1.0]);
    polynomial.horner(complex(-1.0, 0.0), &sum, &difference, &product);
    assert_eq!(real_parts(&polynomial), vec![1.0]);
    polynomial.horner(complex(7.0, 0.0), &sum, &difference, &product);
    assert!(polynomial.coefficients().is_empty());
    polynomial.horner(complex(7.0, 0.0), &sum, &difference, &product);
    assert!(polynomial.coefficients().is_empty());
}

#[test]
fn horner_of_a_cubic() {
    // (X - 2)(X^2 + 3X + 5) = X^3 + X^2 - X - 10
    let mut polynomial = reals(&[-10.0, -1.0, 1.0, 1.0]);
    polynomial.horner(complex(2.0, 0.0), &sum, &difference, &product);
    assert_eq!(real_parts(&polynomial), vec![5.0, 3.0, 1.0]);
}

#[test]
fn horner_with_a_complex_root() {
    // X^2 + 1 = (X - i)(X + i)
    let mut polynomial = reals(&[1.0, 0.0, 1.0]);
    polynomial.horner(complex(0.0, 1.0), &sum, &difference, &product);
    assert_eq!(polynomial.coefficients(), &vec![complex(0.0, 1.0), complex(1.0, 0.0)]);
}

#[test]
fn deflation_leaves_one_coefficient_fewer() {
    for n in 1usize..8 {
        let mut values: Vec<f64> = (0..n).map(|k| k as f64 - 2.5).collect();
        values.push(1.0);
        let mut polynomial = reals(&values);
        assert_eq!(polynomial.degree(), n);
        polynomial.horner(complex(0.75, -1.5), &sum, &difference, &product);
        assert_eq!(polynomial.coefficients().len(), n);
        polynomial.trim0s();
        assert_eq!(polynomial.degree(), n - 1);
    }
}

#[test]
fn deflation_of_an_untrimmed_polynomial_may_lose_more() {
    let mut polynomial = reals(&[1.0, 1.0, 0.0]);
    assert_eq!(polynomial.degree(), 2);
    polynomial.horner(complex(3.0, 0.0), &sum, &difference, &product);
    assert_eq!(polynomial.coefficients().len(), 2);
    polynomial.trim0s();
    assert_eq!(polynomial.degree(), 0);
}

#[test]
fn value_at_sums_the_terms() {
    // X^2 - 1
    let polynomial = reals(&[-1.0, 0.0, 1.0]);
    assert_eq!(polynomial.value_at(complex(1.0, 0.0), &sum, &difference, &product), complex(0.0, 0.0));
    assert_eq!(polynomial.value_at(complex(3.0, 0.0), &sum, &difference, &product), complex(8.0, 0.0));
    assert_eq!(polynomial.value_at(complex(0.0, 1.0), &sum, &difference, &product), complex(-2.0, 0.0));
    assert_eq!(polynomial.value_at(complex(1.0, 1.0), &sum, &difference, &product), complex(-1.0, 2.0));
}

#[test]
fn value_of_the_zero_polynomial_is_zero() {
    let polynomial = Polynomial::default();
    assert_eq!(polynomial.value_at(complex(5.0, 5.0), &sum, &difference, &product), complex(0.0, 0.0));
}

#[test]
fn value_at_multiplies_the_power_by_the_coefficient_and_then_by_the_point() {
    let calls = std::cell::RefCell::new(Vec::new());
    let logged = |a: Scalar, b: Scalar| {
        calls.borrow_mut().push((f64::from_bits(a.bits), f64::from_bits(b.bits)));
        product(a, b)
    };
    let polynomial = reals(&[5.0, 7.0]);
    let value = polynomial.value_at(complex(2.0, 0.0), &sum, &difference, &logged);
    assert_eq!(value, complex(19.0, 0.0));
    assert_eq!(
        *calls.borrow(),
        vec![
            (1.0, 5.0), (0.0, 0.0), (1.0, 0.0), (0.0, 5.0),
            (1.0, 2.0), (0.0, 0.0), (1.0, 0.0), (0.0, 2.0),
            (2.0, 7.0), (0.0, 0.0), (2.0, 0.0), (0.0, 7.0),
            (2.0, 2.0), (0.0, 0.0), (2.0, 0.0), (0.0, 2.0),
        ]
    );
}

#[test]
fn horner_takes_carry_times_root_plus_coefficient() {
    let sums = std::cell::RefCell::new(Vec::new());
    let logged = |a: Scalar, b: Scalar| {
        sums.borrow_mut().push((f64::from_bits(a.bits), f64::from_bits(b.bits)));
        sum(a, b)
    };
    let mut polynomial = reals(&[-10.0, -1.0, 1.0, 1.0]);
    polynomial.horner(complex(2.0, 0.0), &logged, &difference, &product);
    // each step: the imaginary part of the product, then the two components of the sum
    assert_eq!(
        *sums.borrow(),
        vec![
            (0.0, 0.0), (0.0, 1.0), (0.0, 0.0),
            (0.0, 0.0), (2.0, 1.0), (0.0, 0.0),
            (0.0, 0.0), (6.0, -1.0), (0.0, 0.0),
        ]
    );
    assert_eq!(real_parts(&polynomial), vec![5.0, 3.0, 1.0]);
}
