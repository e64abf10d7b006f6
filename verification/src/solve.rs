//! Finding every root of a polynomial: search for one, divide it out, and
//! go on with what is left.
//!
//! The operations on real numbers are the caller's, handed in as functions:
//! `number(text)` stands for the number that a numeral writes, `sum(a, b)`
//! for `a + b`, `difference(a, b)` for `a - b`, `product(a, b)` for `a * b`,
//! `halved(s)` for `s / 2`, `rounded(s)` for `s` rounded as it is shown,
//! `plain(s)` for the numeral of `s` and `signed(s)` for the numeral with its
//! sign always written. Everything on complex numbers is made up from
//! those here: sums, products and squared magnitudes as
//! [`crate::arithmetic`] says, and the text of a root as
//! [`crate::display`] lays it out.

use vstd::prelude::*;
use crate::complex::Complex;
use crate::expression::{
    begins_sign_or_term,
    expression_terms,
    polynomial_terms,
    powers_fit,
    read_expression,
    terms_of,
    unrecognized_start_is_zero,
    ParseError,
    Term,
    TermModel,
};
use crate::arithmetic::defined;
use crate::display::{show_complex, shown};
use crate::polynomial::{degree_of, divided_out, without_leading_zeros, Polynomial};
use crate::scalar::Scalar;
use crate::search::{found, search_min, Search};
use crate::text::{trimmed, trimmed_start, whitespace, whitespace_bounds};
use crate::value::{adds_up_to, polynomial_of};

verus! {

/// A root that was found: its two components, and the text that shows it.
#[derive(Clone, Debug, PartialEq, Eq)]
pub struct ComplexWithString {
    pub re: Scalar,
    pub im: Scalar,
    pub string: String,
}

impl ComplexWithString {
    /// The root as a complex number.
    pub open spec fn spec_value(&self) -> Complex {
        Complex { re: self.re, im: self.im }
    }

    /// The root as a complex number.
    #[verifier::when_used_as_spec(spec_value)]
    pub fn value(&self) -> (value: Complex)
        ensures
            value == self.spec_value(),
    {
        Complex { re: self.re, im: self.im }
    }
}

/// Whether `root` and `after` are what one round makes of `before`: the
/// root is what the search that begins as `first` finds in `before` and is
/// shown by its text, and `after` is `before` divided by the root, without
/// the zeros at its high end.
pub open spec fn extracted<
    A: Fn(Scalar, Scalar) -> Scalar,
    B: Fn(Scalar, Scalar) -> Scalar,
    M: Fn(Scalar, Scalar) -> Scalar,
    H: Fn(Scalar) -> Scalar,
    R: Fn(Scalar) -> Scalar,
    F: Fn(Scalar) -> String,
    G: Fn(Scalar) -> String,
>(
    sum: A,
    difference: B,
    product: M,
    halved: H,
    rounded: R,
    plain: F,
    signed: G,
    first: Search,
    before: Seq<Complex>,
    root: ComplexWithString,
    after: Seq<Complex>,
) -> bool {
    &&& found(sum, difference, product, halved, before, first, root.spec_value())
    &&& shown(rounded, plain, signed, root.spec_value(), root.string@)
    &&& exists|quotient: Seq<Complex>| #[trigger]
        divided_out(sum, difference, product, root.spec_value(), before, quotient) && after == without_leading_zeros(
            quotient,
        )
}

/// Whether round `i` leads from stage `i` to the next with root `i`.
pub open spec fn round_taken<
    A: Fn(Scalar, Scalar) -> Scalar,
    B: Fn(Scalar, Scalar) -> Scalar,
    M: Fn(Scalar, Scalar) -> Scalar,
    H: Fn(Scalar) -> Scalar,
    R: Fn(Scalar) -> Scalar,
    F: Fn(Scalar) -> String,
    G: Fn(Scalar) -> String,
>(
    sum: A,
    difference: B,
    product: M,
    halved: H,
    rounded: R,
    plain: F,
    signed: G,
    first: Search,
    stages: Seq<Seq<Complex>>,
    roots: Seq<ComplexWithString>,
    i: int,
) -> bool {
    extracted(sum, difference, product, halved, rounded, plain, signed, first, stages[i], roots[i], stages[i + 1])
}

/// Whether `roots` are the roots found in `start`, with `stages` the
/// polynomials that the rounds went through: the first is `start` without
/// the zeros at its high end, there is one round for each unit of its
/// degree, and each round leads to the next stage.
pub open spec fn solved<
    A: Fn(Scalar, Scalar) -> Scalar,
    B: Fn(Scalar, Scalar) -> Scalar,
    M: Fn(Scalar, Scalar) -> Scalar,
    H: Fn(Scalar) -> Scalar,
    R: Fn(Scalar) -> Scalar,
    F: Fn(Scalar) -> String,
    G: Fn(Scalar) -> String,
>(
    sum: A,
    difference: B,
    product: M,
    halved: H,
    rounded: R,
    plain: F,
    signed: G,
    first: Search,
    start: Seq<Complex>,
    stages: Seq<Seq<Complex>>,
    roots: Seq<ComplexWithString>,
) -> bool {
    &&& stages.len() == roots.len() + 1
    &&& stages[0] == without_leading_zeros(start)
    &&& roots.len() == degree_of(stages[0])
    &&& forall|i: int|
        0 <= i < roots.len() ==> #[trigger] round_taken(
            sum,
            difference,
            product,
            halved,
            rounded,
            plain,
            signed,
            first,
            stages,
            roots,
            i,
        )
}

/// Takes one root out of the polynomial: finds it by a search that begins
/// as `first`, shows it, divides it out and drops the zeros at the high end
/// of the quotient.
pub fn extract_root<
    A: Fn(Scalar, Scalar) -> Scalar,
    B: Fn(Scalar, Scalar) -> Scalar,
    M: Fn(Scalar, Scalar) -> Scalar,
    H: Fn(Scalar) -> Scalar,
    R: Fn(Scalar) -> Scalar,
    F: Fn(Scalar) -> String,
    G: Fn(Scalar) -> String,
>(
    polynomial: &mut Polynomial,
    first: Search,
    sum: &A,
    difference: &B,
    product: &M,
    halved: &H,
    rounded: &R,
    plain: &F,
    signed: &G,
) -> (root: ComplexWithString)
    requires
        first.schedule.wf(),
        defined(*sum),
        defined(*difference),
        defined(*product),
        forall|step: Scalar| call_requires(*halved, (step,)),
        forall|s: Scalar| call_requires(*rounded, (s,)),
        forall|s: Scalar| call_requires(*plain, (s,)),
        forall|s: Scalar| call_requires(*signed, (s,)),
    ensures
        extracted(
            *sum,
            *difference,
            *product,
            *halved,
            *rounded,
            *plain,
            *signed,
            first,
            old(polynomial)@,
            root,
            final(polynomial)@,
        ),
{
    let value = search_min(polynomial, first, sum, difference, product, halved);
    let display = show_complex(value, rounded, plain, signed);
    polynomial.horner(value, sum, difference, product);
    let ghost quotient = polynomial@;
    polynomial.trim0s();
    assert(divided_out(*sum, *difference, *product, value, old(polynomial)@, quotient));
    ComplexWithString { re: value.re, im: value.im, string: display }
}

/// Finds the roots of a polynomial, as many as its degree once the zeros at
/// its high end are dropped. Each root is searched for in what the ones
/// before it have left, by a search that begins as `first`, so a root that
/// counts twice is listed twice.
pub fn find_roots<
    A: Fn(Scalar, Scalar) -> Scalar,
    B: Fn(Scalar, Scalar) -> Scalar,
    M: Fn(Scalar, Scalar) -> Scalar,
    H: Fn(Scalar) -> Scalar,
    R: Fn(Scalar) -> Scalar,
    F: Fn(Scalar) -> String,
    G: Fn(Scalar) -> String,
>(
    polynomial: Polynomial,
    first: Search,
    sum: &A,
    difference: &B,
    product: &M,
    halved: &H,
    rounded: &R,
    plain: &F,
    signed: &G,
) -> (roots: Vec<ComplexWithString>)
    requires
        first.schedule.wf(),
        defined(*sum),
        defined(*difference),
        defined(*product),
        forall|step: Scalar| call_requires(*halved, (step,)),
        forall|s: Scalar| call_requires(*rounded, (s,)),
        forall|s: Scalar| call_requires(*plain, (s,)),
        forall|s: Scalar| call_requires(*signed, (s,)),
    ensures
        roots.len() == degree_of(without_leading_zeros(polynomial@)),
        exists|stages: Seq<Seq<Complex>>| #[trigger]
            solved(*sum, *difference, *product, *halved, *rounded, *plain, *signed, first, polynomial@, stages, roots@),
{
    let mut current = polynomial;
    current.trim0s();
    let degree = current.degree();
    let mut roots: Vec<ComplexWithString> = Vec::new();
    let ghost mut stages: Seq<Seq<Complex>> = seq![current@];
    let mut taken: usize = 0;
    while taken < degree
        invariant
            first.schedule.wf(),
            defined(*sum),
            defined(*difference),
            defined(*product),
            forall|step: Scalar| call_requires(*halved, (step,)),
            forall|s: Scalar| call_requires(*rounded, (s,)),
            forall|s: Scalar| call_requires(*plain, (s,)),
            forall|s: Scalar| call_requires(*signed, (s,)),
            taken <= degree,
            roots.len() == taken,
            stages.len() == taken + 1,
            stages[taken as int] == current@,
            stages[0] == without_leading_zeros(polynomial@),
            degree == degree_of(stages[0]),
            forall|i: int|
                0 <= i < taken ==> #[trigger] round_taken(
                    *sum,
                    *difference,
                    *product,
                    *halved,
                    *rounded,
                    *plain,
                    *signed,
                    first,
                    stages,
                    roots@,
                    i,
                ),
        decreases degree - taken,
    {
        let ghost before_stages = stages;
        let ghost before_roots = roots@;
        let root = extract_root(&mut current, first, sum, difference, product, halved, rounded, plain, signed);
        roots.push(root);
        proof {
            stages = stages.push(current@);
            assert forall|i: int| 0 <= i < taken + 1 implies #[trigger] round_taken(
                *sum,
                *difference,
                *product,
                *halved,
                *rounded,
                *plain,
                *signed,
                first,
                stages,
                roots@,
                i,
            ) by {
                if i < taken {
                    assert(round_taken(
                        *sum,
                        *difference,
                        *product,
                        *halved,
                        *rounded,
                        *plain,
                        *signed,
                        first,
                        before_stages,
                        before_roots,
                        i,
                    ));
                    assert(stages[i] == before_stages[i]);
                    assert(stages[i + 1] == before_stages[i + 1]);
                    assert(roots@[i] == before_roots[i]);
                }
            }
        }
        taken += 1;
    }
    assert(solved(*sum, *difference, *product, *halved, *rounded, *plain, *signed, first, polynomial@, stages, roots@));
    roots
}

/// Whether `roots` are the roots found in the polynomial with the
/// coefficients `start`, each by a search that begins as `first`.
pub open spec fn all_found<
    A: Fn(Scalar, Scalar) -> Scalar,
    B: Fn(Scalar, Scalar) -> Scalar,
    M: Fn(Scalar, Scalar) -> Scalar,
    H: Fn(Scalar) -> Scalar,
    R: Fn(Scalar) -> Scalar,
    F: Fn(Scalar) -> String,
    G: Fn(Scalar) -> String,
>(
    sum: A,
    difference: B,
    product: M,
    halved: H,
    rounded: R,
    plain: F,
    signed: G,
    first: Search,
    start: Seq<Complex>,
    roots: Seq<ComplexWithString>,
) -> bool {
    exists|stages: Seq<Seq<Complex>>| #[trigger]
        solved(sum, difference, product, halved, rounded, plain, signed, first, start, stages, roots)
}

/// Whether `roots` are the solutions of an expression with the given terms:
/// the roots found, by the usual search, in the polynomial that the terms
/// add up to.
pub open spec fn solutions_of<
    N: Fn(&String) -> Scalar,
    A: Fn(Scalar, Scalar) -> Scalar,
    B: Fn(Scalar, Scalar) -> Scalar,
    M: Fn(Scalar, Scalar) -> Scalar,
    H: Fn(Scalar) -> Scalar,
    R: Fn(Scalar) -> Scalar,
    F: Fn(Scalar) -> String,
    G: Fn(Scalar) -> String,
>(
    number: N,
    sum: A,
    difference: B,
    product: M,
    halved: H,
    rounded: R,
    plain: F,
    signed: G,
    terms: Seq<Term>,
    roots: Seq<ComplexWithString>,
) -> bool {
    exists|coefficients: Seq<Complex>| #[trigger]
        adds_up_to(number, sum, difference, product, terms, coefficients) && all_found(
            sum,
            difference,
            product,
            halved,
            rounded,
            plain,
            signed,
            Search::spec_usual(),
            coefficients,
            roots,
        )
}

/// Whether `roots` are the solutions of the expression `text`: it reads as
/// terms, and the roots are the solutions of those.
pub open spec fn solutions_read<
    N: Fn(&String) -> Scalar,
    A: Fn(Scalar, Scalar) -> Scalar,
    B: Fn(Scalar, Scalar) -> Scalar,
    M: Fn(Scalar, Scalar) -> Scalar,
    H: Fn(Scalar) -> Scalar,
    R: Fn(Scalar) -> Scalar,
    F: Fn(Scalar) -> String,
    G: Fn(Scalar) -> String,
>(
    number: N,
    sum: A,
    difference: B,
    product: M,
    halved: H,
    rounded: R,
    plain: F,
    signed: G,
    text: Seq<char>,
    roots: Seq<ComplexWithString>,
) -> bool {
    exists|terms: Vec<Term>|
        {
            &&& expression_terms(text) == Ok::<_, ParseError>(terms.deep_view())
            &&& #[trigger] solutions_of(
                number,
                sum,
                difference,
                product,
                halved,
                rounded,
                plain,
                signed,
                terms@,
                roots,
            )
        }
}

/// An expression without terms has no solutions.
pub proof fn no_terms_no_roots<
    N: Fn(&String) -> Scalar,
    A: Fn(Scalar, Scalar) -> Scalar,
    B: Fn(Scalar, Scalar) -> Scalar,
    M: Fn(Scalar, Scalar) -> Scalar,
    H: Fn(Scalar) -> Scalar,
    R: Fn(Scalar) -> Scalar,
    F: Fn(Scalar) -> String,
    G: Fn(Scalar) -> String,
>(number: N, sum: A, difference: B, product: M, halved: H, rounded: R, plain: F, signed: G, roots: Seq<ComplexWithString>)
    requires
        solutions_of(
            number,
            sum,
            difference,
            product,
            halved,
            rounded,
            plain,
            signed,
            Seq::<Term>::empty(),
            roots,
        ),
    ensures
        roots.len() == 0,
{
    let coefficients = choose|coefficients: Seq<Complex>| #[trigger]
        adds_up_to(number, sum, difference, product, Seq::<Term>::empty(), coefficients) && all_found(
            sum,
            difference,
            product,
            halved,
            rounded,
            plain,
            signed,
            Search::spec_usual(),
            coefficients,
            roots,
        );
    assert(coefficients =~= Seq::<Complex>::empty());
}

/// An expression whose first character, whitespace aside, can begin neither
/// a sign nor a term has no solutions, whatever follows that character.
pub proof fn unrecognized_start_has_no_roots<
    N: Fn(&String) -> Scalar,
    A: Fn(Scalar, Scalar) -> Scalar,
    B: Fn(Scalar, Scalar) -> Scalar,
    M: Fn(Scalar, Scalar) -> Scalar,
    H: Fn(Scalar) -> Scalar,
    R: Fn(Scalar) -> Scalar,
    F: Fn(Scalar) -> String,
    G: Fn(Scalar) -> String,
>(
    number: N,
    sum: A,
    difference: B,
    product: M,
    halved: H,
    rounded: R,
    plain: F,
    signed: G,
    text: Seq<char>,
    roots: Seq<ComplexWithString>,
)
    requires
        trimmed(text).len() > 0,
        !begins_sign_or_term(trimmed(text)[0]),
        solutions_read(number, sum, difference, product, halved, rounded, plain, signed, text, roots),
    ensures
        expression_terms(text) == Ok::<_, ParseError>(Seq::<TermModel>::empty()),
        roots.len() == 0,
{
    let inner = trimmed(text);
    whitespace_bounds(text, 0, text.len() as int);
    whitespace_bounds(text, trimmed_start(text), text.len() as int);
    assert(!whitespace(inner[0]));
    assert(trimmed_start(inner) == 0);
    unrecognized_start_is_zero(inner);
    let terms = choose|terms: Vec<Term>|
        {
            &&& expression_terms(text) == Ok::<_, ParseError>(terms.deep_view())
            &&& #[trigger] solutions_of(
                number,
                sum,
                difference,
                product,
                halved,
                rounded,
                plain,
                signed,
                terms@,
                roots,
            )
        };
    assert(terms.deep_view().len() == terms@.len());
    assert(terms@ =~= Seq::<Term>::empty());
    no_terms_no_roots(number, sum, difference, product, halved, rounded, plain, signed, roots);
}

/// Finds the roots of the polynomial that an expression denotes, one for
/// each unit of its degree, each with the text that shows it.
///
/// The expression is read without the whitespace at its ends. One with
/// something unrecognized in it denotes the zero polynomial and has no
/// roots. An unclosed parenthesis and a bad exponent are errors.
pub fn get_solutions<
    N: Fn(&String) -> Scalar,
    A: Fn(Scalar, Scalar) -> Scalar,
    B: Fn(Scalar, Scalar) -> Scalar,
    M: Fn(Scalar, Scalar) -> Scalar,
    H: Fn(Scalar) -> Scalar,
    R: Fn(Scalar) -> Scalar,
    F: Fn(Scalar) -> String,
    G: Fn(Scalar) -> String,
>(
    expression: &str,
    number: &N,
    sum: &A,
    difference: &B,
    product: &M,
    halved: &H,
    rounded: &R,
    plain: &F,
    signed: &G,
) -> (outcome: Result<Vec<ComplexWithString>, ParseError>)
    requires
        forall|text: &String| call_requires(*number, (text,)),
        defined(*sum),
        defined(*difference),
        defined(*product),
        forall|step: Scalar| call_requires(*halved, (step,)),
        forall|s: Scalar| call_requires(*rounded, (s,)),
        forall|s: Scalar| call_requires(*plain, (s,)),
        forall|s: Scalar| call_requires(*signed, (s,)),
    ensures
        match outcome {
            Err(error) => expression_terms(expression@) == Err::<Seq<TermModel>, _>(error),
            Ok(roots) => solutions_read(
                *number,
                *sum,
                *difference,
                *product,
                *halved,
                *rounded,
                *plain,
                *signed,
                expression@,
                roots@,
            ),
        },
{
    match read_expression(expression) {
        Err(error) => Err(error),
        Ok(terms) => {
            proof {
                let model = terms.deep_view();
                powers_fit(trimmed(expression@), 0, false);
                assert(model.len() == terms@.len());
                assert forall|i: int| 0 <= i < terms@.len() implies (#[trigger] terms@[i]).power
                    < usize::MAX by {
                    assert(model[i] == terms@[i].deep_view());
                    match terms_of(trimmed(expression@)) {
                        Ok(read) => {
                            assert(read == model);
                            assert(read[i].power < usize::MAX);
                        },
                        Err(_) => {
                            assert(polynomial_terms(trimmed(expression@)) == Ok::<_, ParseError>(
                                model,
                            ));
                            assert(model.len() == 0);
                        },
                    }
                }
            }
            let polynomial = polynomial_of(terms.as_slice(), number, sum, difference, product);
            let roots = find_roots(polynomial, Search::usual(), sum, difference, product, halved, rounded, plain, signed);
            assert(solutions_of(
                *number,
                *sum,
                *difference,
                *product,
                *halved,
                *rounded,
                *plain,
                *signed,
                terms@,
                roots@,
            ));
            assert(solutions_read(
                *number,
                *sum,
                *difference,
                *product,
                *halved,
                *rounded,
                *plain,
                *signed,
                expression@,
                roots@,
            ));
            Ok(roots)
        },
    }
}

} // verus!
