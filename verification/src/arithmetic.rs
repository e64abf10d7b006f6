//! The arithmetic of complex numbers, component by component.
//!
//! The operations on real numbers are the caller's: `sum(a, b)` stands for
//! `a + b`, `difference(a, b)` for `a - b`, `product(a, b)` for `a * b` and
//! `quotient(a, b)` for `a / b`. What is fixed here is which of them make up
//! each operation on complex numbers.

use vstd::prelude::*;
use crate::complex::Complex;
use crate::scalar::Scalar;

verus! {

/// Whether an operation on two real numbers can be applied to any two.
pub open spec fn defined<F: Fn(Scalar, Scalar) -> Scalar>(operation: F) -> bool {
    forall|a: Scalar, b: Scalar| call_requires(operation, (a, b))
}

/// Whether `value` is `a + b`: the sums of the components.
pub open spec fn added<A: Fn(Scalar, Scalar) -> Scalar>(
    sum: A,
    a: Complex,
    b: Complex,
    value: Complex,
) -> bool {
    &&& call_ensures(sum, (a.re, b.re), value.re)
    &&& call_ensures(sum, (a.im, b.im), value.im)
}

/// Whether `value` is `a - b`: the differences of the components.
pub open spec fn subtracted<B: Fn(Scalar, Scalar) -> Scalar>(
    difference: B,
    a: Complex,
    b: Complex,
    value: Complex,
) -> bool {
    &&& call_ensures(difference, (a.re, b.re), value.re)
    &&& call_ensures(difference, (a.im, b.im), value.im)
}

/// Whether `value` combines two products: it is what `operation` makes of
/// `x1 * y1` and `x2 * y2`.
pub open spec fn combined<F: Fn(Scalar, Scalar) -> Scalar, M: Fn(Scalar, Scalar) -> Scalar>(
    operation: F,
    product: M,
    x1: Scalar,
    y1: Scalar,
    x2: Scalar,
    y2: Scalar,
    value: Scalar,
) -> bool {
    exists|first: Scalar, second: Scalar|
        {
            &&& call_ensures(product, (x1, y1), first)
            &&& call_ensures(product, (x2, y2), second)
            &&& #[trigger] call_ensures(operation, (first, second), value)
        }
}

/// Whether `value` is `a * b`: with `a = p + qi` and `b = r + si`, the real
/// component is `pr - qs` and the imaginary component is `ps + qr`.
pub open spec fn multiplied<
    A: Fn(Scalar, Scalar) -> Scalar,
    B: Fn(Scalar, Scalar) -> Scalar,
    M: Fn(Scalar, Scalar) -> Scalar,
>(sum: A, difference: B, product: M, a: Complex, b: Complex, value: Complex) -> bool {
    &&& combined(difference, product, a.re, b.re, a.im, b.im, value.re)
    &&& combined(sum, product, a.re, b.im, a.im, b.re, value.im)
}

/// Whether `divisor` is what both components of `a / b` are divided by,
/// with `b = r + si`: the difference `rr - ss`.
pub open spec fn divisor_of<B: Fn(Scalar, Scalar) -> Scalar, M: Fn(Scalar, Scalar) -> Scalar>(
    difference: B,
    product: M,
    b: Complex,
    divisor: Scalar,
) -> bool {
    combined(difference, product, b.re, b.re, b.im, b.im, divisor)
}

/// Whether `value` is a combination of two products, divided by `divisor`.
pub open spec fn over_divisor<
    F: Fn(Scalar, Scalar) -> Scalar,
    M: Fn(Scalar, Scalar) -> Scalar,
    Q: Fn(Scalar, Scalar) -> Scalar,
>(
    operation: F,
    product: M,
    quotient: Q,
    divisor: Scalar,
    x1: Scalar,
    y1: Scalar,
    x2: Scalar,
    y2: Scalar,
    value: Scalar,
) -> bool {
    exists|numerator: Scalar|
        {
            &&& combined(operation, product, x1, y1, x2, y2, numerator)
            &&& #[trigger] call_ensures(quotient, (numerator, divisor), value)
        }
}

/// Whether `value` is `a / b`: with `a = p + qi` and `b = r + si`, the real
/// component is `(pr + qs) / (rr - ss)` and the imaginary component is
/// `(qr - ps) / (rr - ss)`.
///
/// The divisor is the difference of the squares, not their sum, so this is
/// not the quotient of complex analysis. Where the squares are equal the
/// division is by zero, and the components are whatever `quotient` makes of
/// that.
pub open spec fn divided<
    A: Fn(Scalar, Scalar) -> Scalar,
    B: Fn(Scalar, Scalar) -> Scalar,
    M: Fn(Scalar, Scalar) -> Scalar,
    Q: Fn(Scalar, Scalar) -> Scalar,
>(
    sum: A,
    difference: B,
    product: M,
    quotient: Q,
    a: Complex,
    b: Complex,
    value: Complex,
) -> bool {
    exists|divisor: Scalar|
        {
            &&& #[trigger] divisor_of(difference, product, b, divisor)
            &&& over_divisor(sum, product, quotient, divisor, a.re, b.re, a.im, b.im, value.re)
            &&& over_divisor(
                difference,
                product,
                quotient,
                divisor,
                a.im,
                b.re,
                a.re,
                b.im,
                value.im,
            )
        }
}

/// Whether `value` is the squared magnitude of `a = p + qi`: `pp + qq`.
pub open spec fn magnitude_squared<
    A: Fn(Scalar, Scalar) -> Scalar,
    M: Fn(Scalar, Scalar) -> Scalar,
>(sum: A, product: M, a: Complex, value: Scalar) -> bool {
    combined(sum, product, a.re, a.re, a.im, a.im, value)
}

/// What `operation` makes of the two products `x1 * y1` and `x2 * y2`.
fn combine<F: Fn(Scalar, Scalar) -> Scalar, M: Fn(Scalar, Scalar) -> Scalar>(
    operation: &F,
    product: &M,
    x1: Scalar,
    y1: Scalar,
    x2: Scalar,
    y2: Scalar,
) -> (value: Scalar)
    requires
        defined(*operation),
        defined(*product),
    ensures
        combined(*operation, *product, x1, y1, x2, y2, value),
{
    let first = product(x1, y1);
    let second = product(x2, y2);
    operation(first, second)
}

/// The sum of two complex numbers.
pub fn plus<A: Fn(Scalar, Scalar) -> Scalar>(a: Complex, b: Complex, sum: &A) -> (value: Complex)
    requires
        defined(*sum),
    ensures
        added(*sum, a, b, value),
{
    Complex { re: sum(a.re, b.re), im: sum(a.im, b.im) }
}

/// The difference of two complex numbers.
pub fn minus<B: Fn(Scalar, Scalar) -> Scalar>(a: Complex, b: Complex, difference: &B) -> (value:
    Complex)
    requires
        defined(*difference),
    ensures
        subtracted(*difference, a, b, value),
{
    Complex { re: difference(a.re, b.re), im: difference(a.im, b.im) }
}

/// The product of two complex numbers.
pub fn times<
    A: Fn(Scalar, Scalar) -> Scalar,
    B: Fn(Scalar, Scalar) -> Scalar,
    M: Fn(Scalar, Scalar) -> Scalar,
>(a: Complex, b: Complex, sum: &A, difference: &B, product: &M) -> (value: Complex)
    requires
        defined(*sum),
        defined(*difference),
        defined(*product),
    ensures
        multiplied(*sum, *difference, *product, a, b, value),
{
    Complex {
        re: combine(difference, product, a.re, b.re, a.im, b.im),
        im: combine(sum, product, a.re, b.im, a.im, b.re),
    }
}

/// The quotient of two complex numbers, by the difference of the squares of
/// the divisor's components.
pub fn over<
    A: Fn(Scalar, Scalar) -> Scalar,
    B: Fn(Scalar, Scalar) -> Scalar,
    M: Fn(Scalar, Scalar) -> Scalar,
    Q: Fn(Scalar, Scalar) -> Scalar,
>(a: Complex, b: Complex, sum: &A, difference: &B, product: &M, quotient: &Q) -> (value: Complex)
    requires
        defined(*sum),
        defined(*difference),
        defined(*product),
        defined(*quotient),
    ensures
        divided(*sum, *difference, *product, *quotient, a, b, value),
{
    let divisor = combine(difference, product, b.re, b.re, b.im, b.im);
    let re = quotient(combine(sum, product, a.re, b.re, a.im, b.im), divisor);
    assert(over_divisor(*sum, *product, *quotient, divisor, a.re, b.re, a.im, b.im, re));
    let im = quotient(combine(difference, product, a.im, b.re, a.re, b.im), divisor);
    assert(over_divisor(*difference, *product, *quotient, divisor, a.im, b.re, a.re, b.im, im));
    assert(divisor_of(*difference, *product, b, divisor));
    Complex { re, im }
}

/// The squared magnitude of a complex number, by which the search orders
/// the values of a polynomial.
pub fn squared_magnitude<A: Fn(Scalar, Scalar) -> Scalar, M: Fn(Scalar, Scalar) -> Scalar>(
    a: Complex,
    sum: &A,
    product: &M,
) -> (value: Scalar)
    requires
        defined(*sum),
        defined(*product),
    ensures
        magnitude_squared(*sum, *product, a, value),
{
    combine(sum, product, a.re, a.re, a.im, a.im)
}

/// Whether `a` is strictly closer to zero than `b`: its squared magnitude
/// comes before that of `b` in the total order.
pub fn closer<A: Fn(Scalar, Scalar) -> Scalar, M: Fn(Scalar, Scalar) -> Scalar>(
    a: Complex,
    b: Complex,
    sum: &A,
    product: &M,
) -> (answer: bool)
    requires
        defined(*sum),
        defined(*product),
    ensures
        exists|mine: Scalar, theirs: Scalar|
            {
                &&& #[trigger] magnitude_squared(*sum, *product, a, mine)
                &&& #[trigger] magnitude_squared(*sum, *product, b, theirs)
                &&& answer == mine.spec_precedes(theirs)
            },
{
    let mine = squared_magnitude(a, sum, product);
    let theirs = squared_magnitude(b, sum, product);
    mine.precedes(theirs)
}

} // verus!
