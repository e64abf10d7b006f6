//! What the sums and terms of an expression are worth, and the polynomial
//! that the terms add up to.
//!
//! The numbers come from the caller: `number(text)` stands for the number
//! that a numeral writes, and `sum(a, b)`, `difference(a, b)` and
//! `product(a, b)` for `a + b`, `a - b` and `a * b` on real numbers. Sums and
//! products of complex numbers are made up from those as
//! [`crate::arithmetic`] says.

use vstd::prelude::*;
use crate::complex::{Complex, Magnitude, Part};
use crate::expression::{Coefficient, Term};
use crate::arithmetic::{added, defined, multiplied, plus, times};
use crate::polynomial::{accumulated, one_coefficient, Polynomial};
use crate::scalar::{Scalar, MINUS_ONE_BITS, ONE_BITS};

verus! {

/// The number that a sign stands for: one, or minus one.
pub open spec fn sign_of(negative: bool) -> Scalar {
    Scalar {
        bits: if negative {
            MINUS_ONE_BITS
        } else {
            ONE_BITS
        },
    }
}

/// A real number as the real or the imaginary component of a complex number
/// whose other component is zero.
pub open spec fn placed(imaginary: bool, component: Scalar) -> Complex {
    if imaginary {
        Complex { re: Scalar { bits: 0 }, im: component }
    } else {
        Complex { re: component, im: Scalar { bits: 0 } }
    }
}

/// Whether `value` is what a magnitude is worth: the number that its
/// numeral writes, and one where no numeral is written or what is written
/// does not read as a number.
pub open spec fn magnitude_read<N: Fn(&String) -> Scalar>(
    number: N,
    magnitude: Magnitude,
    value: Scalar,
) -> bool {
    match magnitude {
        Magnitude::Literal(text) => call_ensures(number, (&text,), value),
        Magnitude::One => value.bits == ONE_BITS,
        Magnitude::Unreadable => value.bits == ONE_BITS,
    }
}

/// Whether `value` is what a term of a sum is worth: its sign times its
/// magnitude, as the real or the imaginary component.
pub open spec fn part_valued<N: Fn(&String) -> Scalar, M: Fn(Scalar, Scalar) -> Scalar>(
    number: N,
    product: M,
    part: Part,
    value: Complex,
) -> bool {
    exists|magnitude: Scalar, scaled: Scalar|
        {
            &&& magnitude_read(number, part.magnitude, magnitude)
            &&& #[trigger] call_ensures(product, (sign_of(part.negative), magnitude), scaled)
            &&& value == placed(part.imaginary, scaled)
        }
}

/// Whether `sums[k]` is what the last `k + 1` terms of a sum are worth: the
/// last term alone, or the term before the others plus what they are worth.
pub open spec fn part_summed<
    N: Fn(&String) -> Scalar,
    A: Fn(Scalar, Scalar) -> Scalar,
    M: Fn(Scalar, Scalar) -> Scalar,
>(number: N, sum: A, product: M, parts: Seq<Part>, sums: Seq<Complex>, k: int) -> bool {
    if k == 0 {
        part_valued(number, product, parts[parts.len() - 1], sums[0])
    } else {
        exists|head: Complex| #[trigger]
            part_valued(number, product, parts[parts.len() - 1 - k], head) && added(
                sum,
                head,
                sums[k - 1],
                sums[k],
            )
    }
}

/// Whether `sums` are what the ends of a sum are worth, from the last term
/// alone to all of them.
pub open spec fn sum_traced<
    N: Fn(&String) -> Scalar,
    A: Fn(Scalar, Scalar) -> Scalar,
    M: Fn(Scalar, Scalar) -> Scalar,
>(number: N, sum: A, product: M, parts: Seq<Part>, sums: Seq<Complex>) -> bool {
    &&& sums.len() == parts.len()
    &&& forall|k: int|
        0 <= k < parts.len() ==> #[trigger] part_summed(number, sum, product, parts, sums, k)
}

/// Whether `value` is what a sum is worth: each term plus what the terms
/// after it are worth. A sum without terms is worth one.
pub open spec fn sum_valued<
    N: Fn(&String) -> Scalar,
    A: Fn(Scalar, Scalar) -> Scalar,
    M: Fn(Scalar, Scalar) -> Scalar,
>(number: N, sum: A, product: M, parts: Seq<Part>, value: Complex) -> bool {
    if parts.len() == 0 {
        value == one_coefficient()
    } else {
        exists|sums: Seq<Complex>| #[trigger]
            sum_traced(number, sum, product, parts, sums) && sums[parts.len() - 1] == value
    }
}

/// Whether `value` is what a term of an expression contributes to its
/// power: the sign for a bare variable, the sign times `i` for a bare `i`,
/// and a written coefficient times the sign.
pub open spec fn term_valued<
    N: Fn(&String) -> Scalar,
    A: Fn(Scalar, Scalar) -> Scalar,
    B: Fn(Scalar, Scalar) -> Scalar,
    M: Fn(Scalar, Scalar) -> Scalar,
>(number: N, sum: A, difference: B, product: M, term: Term, value: Complex) -> bool {
    match term.coefficient {
        Coefficient::One => value == placed(false, sign_of(term.negative)),
        Coefficient::ImaginaryUnit => value == placed(true, sign_of(term.negative)),
        Coefficient::Sum(parts) => exists|total: Complex| #[trigger]
            sum_valued(number, sum, product, parts@, total) && multiplied(
                sum,
                difference,
                product,
                total,
                placed(false, sign_of(term.negative)),
                value,
            ),
    }
}

/// Whether term `i` is entered: what it is worth is added to the
/// coefficient of its power, which leads from stage `i` to the next.
pub open spec fn term_entered<
    N: Fn(&String) -> Scalar,
    A: Fn(Scalar, Scalar) -> Scalar,
    B: Fn(Scalar, Scalar) -> Scalar,
    M: Fn(Scalar, Scalar) -> Scalar,
>(
    number: N,
    sum: A,
    difference: B,
    product: M,
    terms: Seq<Term>,
    stages: Seq<Seq<Complex>>,
    i: int,
) -> bool {
    exists|value: Complex| #[trigger]
        term_valued(number, sum, difference, product, terms[i], value) && accumulated(
            sum,
            stages[i],
            terms[i].power as nat,
            value,
            stages[i + 1],
        )
}

/// Whether `stages` are the coefficients that the terms build up, one term
/// at a time from no coefficients at all.
pub open spec fn built<
    N: Fn(&String) -> Scalar,
    A: Fn(Scalar, Scalar) -> Scalar,
    B: Fn(Scalar, Scalar) -> Scalar,
    M: Fn(Scalar, Scalar) -> Scalar,
>(number: N, sum: A, difference: B, product: M, terms: Seq<Term>, stages: Seq<Seq<Complex>>) -> bool {
    &&& stages.len() == terms.len() + 1
    &&& stages[0] == Seq::<Complex>::empty()
    &&& forall|i: int|
        0 <= i < terms.len() ==> #[trigger] term_entered(
            number,
            sum,
            difference,
            product,
            terms,
            stages,
            i,
        )
}

/// Whether `coefficients` are those of the polynomial that the terms add up
/// to.
pub open spec fn adds_up_to<
    N: Fn(&String) -> Scalar,
    A: Fn(Scalar, Scalar) -> Scalar,
    B: Fn(Scalar, Scalar) -> Scalar,
    M: Fn(Scalar, Scalar) -> Scalar,
>(
    number: N,
    sum: A,
    difference: B,
    product: M,
    terms: Seq<Term>,
    coefficients: Seq<Complex>,
) -> bool {
    exists|stages: Seq<Seq<Complex>>| #[trigger]
        built(number, sum, difference, product, terms, stages) && stages[terms.len() as int]
            == coefficients
}

/// The sign as a number.
fn sign_number(negative: bool) -> (sign: Scalar)
    ensures
        sign == sign_of(negative),
{
    if negative {
        Scalar { bits: MINUS_ONE_BITS }
    } else {
        Scalar { bits: ONE_BITS }
    }
}

/// A real number as a complex number on one of the two axes.
fn place(imaginary: bool, component: Scalar) -> (value: Complex)
    ensures
        value == placed(imaginary, component),
{
    if imaginary {
        Complex { re: Scalar::zero(), im: component }
    } else {
        Complex { re: component, im: Scalar::zero() }
    }
}

/// What a term of a sum is worth.
pub fn part_value<N: Fn(&String) -> Scalar, M: Fn(Scalar, Scalar) -> Scalar>(
    part: &Part,
    number: &N,
    product: &M,
) -> (value: Complex)
    requires
        forall|text: &String| call_requires(*number, (text,)),
        defined(*product),
    ensures
        part_valued(*number, *product, *part, value),
{
    let magnitude = match &part.magnitude {
        Magnitude::Literal(text) => number(text),
        Magnitude::One => Scalar::one(),
        Magnitude::Unreadable => Scalar::one(),
    };
    let scaled = product(sign_number(part.negative), magnitude);
    place(part.imaginary, scaled)
}

/// What a sum is worth, added up from its last term to its first.
pub fn sum_value<
    N: Fn(&String) -> Scalar,
    A: Fn(Scalar, Scalar) -> Scalar,
    M: Fn(Scalar, Scalar) -> Scalar,
>(parts: &[Part], number: &N, sum: &A, product: &M) -> (value: Complex)
    requires
        forall|text: &String| call_requires(*number, (text,)),
        defined(*sum),
        defined(*product),
    ensures
        sum_valued(*number, *sum, *product, parts@, value),
{
    let n = parts.len();
    if n == 0 {
        return Complex { re: Scalar::one(), im: Scalar::zero() };
    }
    let mut value = part_value(&parts[n - 1], number, product);
    let ghost mut sums: Seq<Complex> = seq![value];
    let mut done: usize = 1;
    while done < n
        invariant
            n == parts.len(),
            forall|text: &String| call_requires(*number, (text,)),
            defined(*sum),
            defined(*product),
            1 <= done <= n,
            sums.len() == done,
            sums[done - 1] == value,
            forall|k: int|
                0 <= k < done ==> #[trigger] part_summed(
                    *number,
                    *sum,
                    *product,
                    parts@,
                    sums,
                    k,
                ),
        decreases n - done,
    {
        let ghost before = sums;
        let head = part_value(&parts[n - 1 - done], number, product);
        value = plus(head, value, sum);
        proof {
            sums = sums.push(value);
            assert forall|k: int| 0 <= k < done + 1 implies #[trigger] part_summed(
                *number,
                *sum,
                *product,
                parts@,
                sums,
                k,
            ) by {
                if k < done {
                    assert(part_summed(*number, *sum, *product, parts@, before, k));
                    assert(sums[k] == before[k]);
                    if k > 0 {
                        assert(sums[k - 1] == before[k - 1]);
                    }
                } else {
                    assert(part_valued(*number, *product, parts@[n - 1 - k], head));
                }
            }
        }
        done += 1;
    }
    assert(sum_traced(*number, *sum, *product, parts@, sums));
    value
}

/// What a term of an expression contributes to the coefficient of its
/// power.
pub fn term_value<
    N: Fn(&String) -> Scalar,
    A: Fn(Scalar, Scalar) -> Scalar,
    B: Fn(Scalar, Scalar) -> Scalar,
    M: Fn(Scalar, Scalar) -> Scalar,
>(term: &Term, number: &N, sum: &A, difference: &B, product: &M) -> (value: Complex)
    requires
        forall|text: &String| call_requires(*number, (text,)),
        defined(*sum),
        defined(*difference),
        defined(*product),
    ensures
        term_valued(*number, *sum, *difference, *product, *term, value),
{
    let sign = sign_number(term.negative);
    match &term.coefficient {
        Coefficient::One => place(false, sign),
        Coefficient::ImaginaryUnit => place(true, sign),
        Coefficient::Sum(parts) => {
            let total = sum_value(parts.as_slice(), number, sum, product);
            times(total, place(false, sign), sum, difference, product)
        },
    }
}

/// The polynomial that the terms add up to: each term, in the order in
/// which it is written, is added to the coefficient of its power.
pub fn polynomial_of<
    N: Fn(&String) -> Scalar,
    A: Fn(Scalar, Scalar) -> Scalar,
    B: Fn(Scalar, Scalar) -> Scalar,
    M: Fn(Scalar, Scalar) -> Scalar,
>(terms: &[Term], number: &N, sum: &A, difference: &B, product: &M) -> (polynomial: Polynomial)
    requires
        forall|i: int| 0 <= i < terms@.len() ==> (#[trigger] terms@[i]).power < usize::MAX,
        forall|text: &String| call_requires(*number, (text,)),
        defined(*sum),
        defined(*difference),
        defined(*product),
    ensures
        adds_up_to(*number, *sum, *difference, *product, terms@, polynomial@),
{
    let mut polynomial = Polynomial::default();
    let ghost mut stages: Seq<Seq<Complex>> = seq![polynomial@];
    let mut at: usize = 0;
    while at < terms.len()
        invariant
            forall|i: int| 0 <= i < terms@.len() ==> (#[trigger] terms@[i]).power < usize::MAX,
            forall|text: &String| call_requires(*number, (text,)),
            defined(*sum),
            defined(*difference),
            defined(*product),
            at <= terms.len(),
            stages.len() == at + 1,
            stages[0] == Seq::<Complex>::empty(),
            stages[at as int] == polynomial@,
            forall|i: int|
                0 <= i < at ==> #[trigger] term_entered(
                    *number,
                    *sum,
                    *difference,
                    *product,
                    terms@,
                    stages,
                    i,
                ),
        decreases terms.len() - at,
    {
        let ghost before = stages;
        let value = term_value(&terms[at], number, sum, difference, product);
        polynomial.accumulate(terms[at].power, value, sum);
        proof {
            stages = stages.push(polynomial@);
            assert forall|i: int| 0 <= i < at + 1 implies #[trigger] term_entered(
                *number,
                *sum,
                *difference,
                *product,
                terms@,
                stages,
                i,
            ) by {
                if i < at {
                    assert(term_entered(*number, *sum, *difference, *product, terms@, before, i));
                    assert(stages[i] == before[i]);
                    assert(stages[i + 1] == before[i + 1]);
                } else {
                    assert(term_valued(*number, *sum, *difference, *product, terms@[i], value));
                }
            }
        }
        at += 1;
    }
    assert(built(*number, *sum, *difference, *product, terms@, stages));
    polynomial
}

} // verus!
