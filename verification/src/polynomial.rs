//! Polynomials as sequences of coefficients, lowest power first.
//!
//! Sums and products of complex numbers are those of [`crate::arithmetic`],
//! made up from the caller's operations on real numbers: `sum(a, b)` stands
//! for `a + b`, `difference(a, b)` for `a - b` and `product(a, b)` for
//! `a * b`.

use vstd::prelude::*;
use crate::arithmetic::{added, defined, multiplied, plus, times};
use crate::complex::Complex;
use crate::scalar::{Scalar, ONE_BITS};

verus! {

/// A polynomial with complex coefficients. The coefficient of `X^i` stands
/// at index `i`; the zero polynomial has no coefficients at all.
#[derive(Clone, Debug, PartialEq, Eq)]
pub struct Polynomial {
    coefficients: Vec<Complex>,
}

impl View for Polynomial {
    type V = Seq<Complex>;

    closed spec fn view(&self) -> Seq<Complex> {
        self.coefficients@
    }
}

/// The number zero as a coefficient.
pub open spec fn zero_coefficient() -> Complex {
    Complex { re: Scalar { bits: 0 }, im: Scalar { bits: 0 } }
}

/// The number one as a coefficient.
pub open spec fn one_coefficient() -> Complex {
    Complex { re: Scalar { bits: ONE_BITS }, im: Scalar { bits: 0 } }
}

/// The degree that a sequence of coefficients stands for: the highest index,
/// and zero where there is none.
pub open spec fn degree_of(coefficients: Seq<Complex>) -> nat {
    if coefficients.len() == 0 {
        0
    } else {
        (coefficients.len() - 1) as nat
    }
}

/// The coefficients without the zeros at the high end.
pub open spec fn without_leading_zeros(coefficients: Seq<Complex>) -> Seq<Complex>
    decreases coefficients.len(),
{
    if coefficients.len() > 0 && coefficients.last().spec_is_zero() {
        without_leading_zeros(coefficients.drop_last())
    } else {
        coefficients
    }
}

/// The coefficients with zeros added at the high end until a coefficient
/// for `power` exists.
pub open spec fn grown_to(coefficients: Seq<Complex>, power: nat) -> Seq<Complex> {
    if coefficients.len() > power {
        coefficients
    } else {
        coefficients + Seq::new((power + 1 - coefficients.len()) as nat, |i: int| zero_coefficient())
    }
}

/// Whether `after` is `before` with `value` added to the coefficient of
/// `X^power`, which is made to exist first.
pub open spec fn accumulated<A: Fn(Scalar, Scalar) -> Scalar>(
    sum: A,
    before: Seq<Complex>,
    power: nat,
    value: Complex,
    after: Seq<Complex>,
) -> bool {
    &&& after.len() == grown_to(before, power).len()
    &&& forall|j: int|
        0 <= j < after.len() && j != power ==> after[j] == grown_to(before, power)[j]
    &&& added(sum, grown_to(before, power)[power as int], value, after[power as int])
}

/// Whether `value` is what `a * b + c` comes to: the sum of some product
/// of `a` and `b` with `c`.
pub open spec fn times_plus<
    A: Fn(Scalar, Scalar) -> Scalar,
    B: Fn(Scalar, Scalar) -> Scalar,
    M: Fn(Scalar, Scalar) -> Scalar,
>(sum: A, difference: B, product: M, a: Complex, b: Complex, c: Complex, value: Complex) -> bool {
    exists|term: Complex| #[trigger]
        multiplied(sum, difference, product, a, b, term) && added(sum, term, c, value)
}

/// Whether the coefficient `j` of `after` is the step of synthetic division
/// from the coefficient above it, or from zero where it is the highest:
/// that coefficient times `div`, plus the coefficient `j + 1` of `before`.
pub open spec fn step_taken<
    A: Fn(Scalar, Scalar) -> Scalar,
    B: Fn(Scalar, Scalar) -> Scalar,
    M: Fn(Scalar, Scalar) -> Scalar,
>(sum: A, difference: B, product: M, div: Complex, before: Seq<Complex>, after: Seq<Complex>, j: int) -> bool {
    times_plus(
        sum,
        difference,
        product,
        if j + 1 == after.len() {
            zero_coefficient()
        } else {
            after[j + 1]
        },
        div,
        before[j + 1],
        after[j],
    )
}

/// Whether `after` is what synthetic division by `X - div` makes of `before`:
/// one coefficient fewer, each the step from the one above it, the highest
/// from zero. The remainder is dropped.
pub open spec fn divided_out<
    A: Fn(Scalar, Scalar) -> Scalar,
    B: Fn(Scalar, Scalar) -> Scalar,
    M: Fn(Scalar, Scalar) -> Scalar,
>(sum: A, difference: B, product: M, div: Complex, before: Seq<Complex>, after: Seq<Complex>) -> bool {
    &&& after.len() == degree_of(before)
    &&& forall|j: int|
        0 <= j < after.len() ==> #[trigger] step_taken(sum, difference, product, div, before, after, j)
}

/// Whether the term of power `i` is added in an evaluation at `x`: the sum
/// after it is the sum before it plus the power of `x` times the
/// coefficient, and the next power is this power times `x`.
pub open spec fn term_added<
    A: Fn(Scalar, Scalar) -> Scalar,
    B: Fn(Scalar, Scalar) -> Scalar,
    M: Fn(Scalar, Scalar) -> Scalar,
>(
    sum: A,
    difference: B,
    product: M,
    coefficients: Seq<Complex>,
    x: Complex,
    powers: Seq<Complex>,
    sums: Seq<Complex>,
    i: int,
) -> bool {
    &&& exists|term: Complex| #[trigger]
        multiplied(sum, difference, product, powers[i], coefficients[i], term) && added(
            sum,
            sums[i],
            term,
            sums[i + 1],
        )
    &&& multiplied(sum, difference, product, powers[i], x, powers[i + 1])
}

/// Whether `powers` and `sums` are the powers of `x` and the partial sums of
/// an evaluation at `x`, term by term from the lowest power: the first power
/// is one, the first sum is zero, and every term is added in its turn.
pub open spec fn evaluation<
    A: Fn(Scalar, Scalar) -> Scalar,
    B: Fn(Scalar, Scalar) -> Scalar,
    M: Fn(Scalar, Scalar) -> Scalar,
>(
    sum: A,
    difference: B,
    product: M,
    coefficients: Seq<Complex>,
    x: Complex,
    powers: Seq<Complex>,
    sums: Seq<Complex>,
) -> bool {
    &&& powers.len() == coefficients.len() + 1
    &&& sums.len() == coefficients.len() + 1
    &&& powers[0] == one_coefficient()
    &&& sums[0] == zero_coefficient()
    &&& forall|i: int|
        0 <= i < coefficients.len() ==> #[trigger] term_added(
            sum,
            difference,
            product,
            coefficients,
            x,
            powers,
            sums,
            i,
        )
}

/// Whether `value` is what the polynomial comes to at `x`: the last sum of
/// an evaluation.
pub open spec fn evaluates_to<
    A: Fn(Scalar, Scalar) -> Scalar,
    B: Fn(Scalar, Scalar) -> Scalar,
    M: Fn(Scalar, Scalar) -> Scalar,
>(sum: A, difference: B, product: M, coefficients: Seq<Complex>, x: Complex, value: Complex) -> bool {
    exists|powers: Seq<Complex>, sums: Seq<Complex>| #[trigger]
        evaluation(sum, difference, product, coefficients, x, powers, sums) && sums[coefficients.len() as int]
            == value
}

/// What [`without_leading_zeros`] leaves: the low end of the coefficients,
/// up to the highest that is not zero.
pub proof fn leading_zeros_dropped(coefficients: Seq<Complex>)
    ensures
        without_leading_zeros(coefficients).len() <= coefficients.len(),
        without_leading_zeros(coefficients) == coefficients.take(
            without_leading_zeros(coefficients).len() as int,
        ),
        without_leading_zeros(coefficients).len() > 0 ==> !without_leading_zeros(
            coefficients,
        ).last().spec_is_zero(),
        forall|j: int|
            without_leading_zeros(coefficients).len() <= j < coefficients.len()
                ==> (#[trigger] coefficients[j]).spec_is_zero(),
    decreases coefficients.len(),
{
    if coefficients.len() > 0 && coefficients.last().spec_is_zero() {
        let shorter = coefficients.drop_last();
        leading_zeros_dropped(shorter);
        let kept = without_leading_zeros(shorter).len() as int;
        assert(shorter.take(kept) =~= coefficients.take(kept));
        assert forall|j: int| kept <= j < coefficients.len() implies (#[trigger] coefficients[j]).spec_is_zero() by {
            if j < shorter.len() {
                assert(shorter[j] == coefficients[j]);
            }
        }
    } else {
        assert(coefficients.take(coefficients.len() as int) =~= coefficients);
    }
}

/// Dropping the zeros at the high end a second time changes nothing.
pub proof fn dropping_twice_is_dropping_once(coefficients: Seq<Complex>)
    ensures
        without_leading_zeros(without_leading_zeros(coefficients)) == without_leading_zeros(
            coefficients,
        ),
    decreases coefficients.len(),
{
    if coefficients.len() > 0 && coefficients.last().spec_is_zero() {
        dropping_twice_is_dropping_once(coefficients.drop_last());
    }
}

/// Dividing a root out of a polynomial of degree `n >= 1` leaves exactly `n`
/// coefficients. Once the zeros at the high end are dropped the degree is
/// `n - 1`, provided the highest coefficient of the quotient is not zero;
/// for `n == 1` that holds without the proviso.
pub proof fn division_lowers_degree<
    A: Fn(Scalar, Scalar) -> Scalar,
    B: Fn(Scalar, Scalar) -> Scalar,
    M: Fn(Scalar, Scalar) -> Scalar,
>(
    sum: A,
    difference: B,
    product: M,
    div: Complex,
    before: Seq<Complex>,
    after: Seq<Complex>,
)
    requires
        degree_of(before) >= 1,
        divided_out(sum, difference, product, div, before, after),
        degree_of(before) >= 2 ==> !after.last().spec_is_zero(),
    ensures
        after.len() == degree_of(before),
        degree_of(without_leading_zeros(after)) == degree_of(before) - 1,
{
    leading_zeros_dropped(after);
}

/// Dividing a root out of a polynomial of degree `n >= 1` whose highest
/// coefficient is not zero leaves a quotient of `n` coefficients of which
/// none is dropped, so that its degree is `n - 1`. This holds of every
/// arithmetic in which zero times `div`, added to a number that is not zero,
/// is not zero.
pub proof fn division_keeps_the_lead<
    A: Fn(Scalar, Scalar) -> Scalar,
    B: Fn(Scalar, Scalar) -> Scalar,
    M: Fn(Scalar, Scalar) -> Scalar,
>(sum: A, difference: B, product: M, div: Complex, before: Seq<Complex>, after: Seq<Complex>)
    requires
        degree_of(before) >= 1,
        !before.last().spec_is_zero(),
        divided_out(sum, difference, product, div, before, after),
        forall|c: Complex, value: Complex|
            !c.spec_is_zero() && #[trigger] times_plus(
                sum,
                difference,
                product,
                zero_coefficient(),
                div,
                c,
                value,
            ) ==> !value.spec_is_zero(),
    ensures
        after.len() == degree_of(before),
        without_leading_zeros(after) == after,
        degree_of(without_leading_zeros(after)) == degree_of(before) - 1,
{
    let top = after.len() - 1;
    assert(step_taken(sum, difference, product, div, before, after, top));
    assert(before[top + 1] == before.last());
    assert(!after.last().spec_is_zero());
}

impl Polynomial {
    /// The polynomial with the given coefficients, lowest power first.
    pub fn new(coefficients: Vec<Complex>) -> (polynomial: Polynomial)
        ensures
            polynomial@ == coefficients@,
    {
        Polynomial { coefficients }
    }

    /// The coefficients, lowest power first.
    pub fn coefficients(&self) -> (coefficients: &Vec<Complex>)
        ensures
            coefficients@ == self@,
    {
        &self.coefficients
    }

    /// The degree: one less than the number of coefficients, and zero for
    /// the zero polynomial.
    pub fn degree(&self) -> (degree: usize)
        ensures
            degree == degree_of(self@),
    {
        if self.coefficients.len() == 0 {
            0
        } else {
            self.coefficients.len() - 1
        }
    }

    /// Drops the coefficients at the high end that equal zero.
    pub fn trim0s(&mut self)
        ensures
            final(self)@ == without_leading_zeros(old(self)@),
    {
        while self.coefficients.len() > 0 && self.coefficients[self.coefficients.len() - 1].is_zero()
            invariant
                without_leading_zeros(self@) == without_leading_zeros(old(self)@),
            decreases self.coefficients.len(),
        {
            self.coefficients.pop();
        }
    }

    /// Adds zero coefficients at the high end until the polynomial has a
    /// coefficient for `X^power`.
    pub fn add0s(&mut self, power: usize)
        requires
            power < usize::MAX,
        ensures
            final(self)@ == grown_to(old(self)@, power as nat),
    {
        let ghost before = self@;
        if self.coefficients.len() > power {
            return;
        }
        while self.coefficients.len() <= power
            invariant
                before.len() <= self@.len() <= power + 1,
                before.len() <= power,
                self@ == before + Seq::new(
                    (self@.len() - before.len()) as nat,
                    |i: int| zero_coefficient(),
                ),
            decreases power + 1 - self.coefficients.len(),
        {
            let ghost grown = self@;
            self.coefficients.push(Complex::zero());
            assert(self@ =~= before + Seq::new(
                (grown.len() + 1 - before.len()) as nat,
                |i: int| zero_coefficient(),
            ));
        }
    }

    /// Adds `value` to the coefficient of `X^power`, which is made to exist
    /// first.
    pub fn accumulate<A: Fn(Scalar, Scalar) -> Scalar>(
        &mut self,
        power: usize,
        value: Complex,
        sum: &A,
    )
        requires
            power < usize::MAX,
            defined(*sum),
        ensures
            accumulated(*sum, old(self)@, power as nat, value, final(self)@),
    {
        self.add0s(power);
        let total = plus(self.coefficients[power], value, sum);
        self.coefficients.set(power, total);
    }

    /// The value of the polynomial at `x`, summed term by term from the
    /// lowest power.
    pub fn value_at<
        A: Fn(Scalar, Scalar) -> Scalar,
        B: Fn(Scalar, Scalar) -> Scalar,
        M: Fn(Scalar, Scalar) -> Scalar,
    >(
        &self,
        x: Complex,
        sum: &A,
        difference: &B,
        product: &M,
    ) -> (value: Complex)
        requires
            defined(*sum),
            defined(*difference),
            defined(*product),
        ensures
            evaluates_to(*sum, *difference, *product, self@, x, value),
    {
        let mut power = Complex { re: Scalar::one(), im: Scalar::zero() };
        let mut total = Complex::zero();
        let ghost mut powers: Seq<Complex> = seq![power];
        let ghost mut sums: Seq<Complex> = seq![total];
        let mut at: usize = 0;
        while at < self.coefficients.len()
            invariant
                defined(*sum),
                defined(*difference),
                defined(*product),
                at <= self@.len(),
                powers.len() == at + 1,
                sums.len() == at + 1,
                powers[0] == one_coefficient(),
                sums[0] == zero_coefficient(),
                powers[at as int] == power,
                sums[at as int] == total,
                forall|i: int|
                    0 <= i < at ==> #[trigger] term_added(*sum, *difference, *product, self@, x, powers, sums, i),
            decreases self@.len() - at,
        {
            let ghost powers_before = powers;
            let ghost sums_before = sums;
            let term = times(power, self.coefficients[at], sum, difference, product);
            total = plus(total, term, sum);
            power = times(power, x, sum, difference, product);
            proof {
                powers = powers.push(power);
                sums = sums.push(total);
                assert forall|i: int| 0 <= i < at + 1 implies #[trigger] term_added(
                    *sum,
                    *difference,
                    *product,
                    self@,
                    x,
                    powers,
                    sums,
                    i,
                ) by {
                    if i < at {
                        assert(term_added(*sum, *difference, *product, self@, x, powers_before, sums_before, i));
                        assert(powers[i] == powers_before[i]);
                        assert(powers[i + 1] == powers_before[i + 1]);
                        assert(sums[i] == sums_before[i]);
                        assert(sums[i + 1] == sums_before[i + 1]);
                    } else {
                        assert(multiplied(*sum, *difference, *product, powers[i], self@[i], term));
                    }
                }
            }
            at += 1;
        }
        assert(evaluation(*sum, *difference, *product, self@, x, powers, sums));
        total
    }

    /// Divides the polynomial by `X - div`, dropping the remainder.
    ///
    /// The quotient is built from the highest power down: its highest
    /// coefficient is zero times `div` plus the highest coefficient of the
    /// polynomial, and each lower one is the one above it times `div` plus
    /// the coefficient of the polynomial one power up.
    pub fn horner<
        A: Fn(Scalar, Scalar) -> Scalar,
        B: Fn(Scalar, Scalar) -> Scalar,
        M: Fn(Scalar, Scalar) -> Scalar,
    >(
        &mut self,
        div: Complex,
        sum: &A,
        difference: &B,
        product: &M,
    )
        requires
            defined(*sum),
            defined(*difference),
            defined(*product),
        ensures
            divided_out(*sum, *difference, *product, div, old(self)@, final(self)@),
    {
        let ghost before = self@;
        let n = self.coefficients.len();
        if n == 0 {
            return;
        }
        let mut at: usize = n - 1;
        let mut carry = Complex::zero();
        let mut coefficient = self.coefficients[at];
        while at > 0
            invariant
                defined(*sum),
                defined(*difference),
                defined(*product),
                at < n,
                n == before.len(),
                self@.len() == n,
                forall|j: int| 0 <= j < at ==> self@[j] == before[j],
                coefficient == before[at as int],
                carry == if at + 1 == n {
                    zero_coefficient()
                } else {
                    self@[at as int]
                },
                forall|j: int|
                    at <= j < n - 1 ==> #[trigger] step_taken(
                        *sum,
                        *difference,
                        *product,
                        div,
                        before,
                        self@.take(n - 1),
                        j,
                    ),
            decreases at,
        {
            let ghost was = self@.take(n - 1);
            let term = times(carry, div, sum, difference, product);
            let value = plus(term, coefficient, sum);
            coefficient = self.coefficients[at - 1];
            self.coefficients.set(at - 1, value);
            proof {
                let now = self@.take(n - 1);
                assert forall|j: int| at - 1 <= j < n - 1 implies #[trigger] step_taken(
                    *sum,
                    *difference,
                    *product,
                    div,
                    before,
                    now,
                    j,
                ) by {
                    if j >= at {
                        assert(step_taken(*sum, *difference, *product, div, before, was, j));
                        assert(now[j] == was[j]);
                        if j + 1 < n - 1 {
                            assert(now[j + 1] == was[j + 1]);
                        }
                    } else {
                        assert(multiplied(*sum, *difference, *product, carry, div, term));
                    }
                }
            }
            carry = value;
            at -= 1;
        }
        let ghost full = self@;
        self.coefficients.pop();
        assert(self@ =~= full.take(n - 1));
    }
}

impl Default for Polynomial {
    /// The zero polynomial.
    fn default() -> (polynomial: Polynomial)
        ensures
            polynomial@ == Seq::<Complex>::empty(),
    {
        Polynomial { coefficients: Vec::new() }
    }
}

} // verus!
