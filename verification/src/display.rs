//! How complex numbers and polynomials are written out.
//!
//! The numerals of the components come from the caller, who rounds and
//! formats them; what is decided here is which of them appear, in what order,
//! and with which signs and spaces between them.

use vstd::prelude::*;
use vstd::string::StringExecFns;
use crate::arithmetic::{defined, minus, subtracted};
use crate::complex::Complex;
use crate::polynomial::{zero_coefficient, Polynomial};
use crate::scalar::Scalar;
use crate::text::{decimal, push_decimal};

verus! {

/// The number of decimals to which the components of a complex number are
/// rounded where nothing else is asked for.
pub const DEFAULT_DECIMALS: usize = 2;

/// One component of a complex number as it is to be shown.
#[derive(Clone, Debug, PartialEq, Eq)]
pub struct Numeral {
    /// The component, rounded as it is shown.
    pub value: Scalar,
    /// Its numeral, with a sign only where it is negative.
    pub plain: String,
    /// Its numeral with the sign written in either case.
    pub signed: String,
}

/// One coefficient of a polynomial as it is to be shown.
#[derive(Clone, Debug, PartialEq, Eq)]
pub struct Written {
    /// The coefficient.
    pub value: Complex,
    /// The text of the coefficient.
    pub plain: String,
    /// The text of the coefficient subtracted from zero.
    pub negated: String,
}

/// [`Written`] over mathematical text.
pub struct WrittenModel {
    pub value: Complex,
    pub plain: Seq<char>,
    pub negated: Seq<char>,
}

impl DeepView for Written {
    type V = WrittenModel;

    open spec fn deep_view(&self) -> WrittenModel {
        WrittenModel { value: self.value, plain: self.plain@, negated: self.negated@ }
    }
}

/// The text of a complex number with the components `re` and `im`.
///
/// Zero is `0`. A number without imaginary part is its real numeral. One
/// without real part is `i`, `-i` or the imaginary numeral and `i`. Any
/// other is the real numeral, then the signed imaginary numeral and `i`, also
/// where the imaginary part is one or minus one: `3+1i`.
pub open spec fn complex_text(
    re: Scalar,
    re_plain: Seq<char>,
    im: Scalar,
    im_plain: Seq<char>,
    im_signed: Seq<char>,
) -> Seq<char> {
    if re.spec_is_zero() && im.spec_is_zero() {
        seq!['0']
    } else if im.spec_is_zero() {
        re_plain
    } else if re.spec_is_zero() {
        if im.spec_is_one() {
            seq!['i']
        } else if im.spec_is_minus_one() {
            seq!['-', 'i']
        } else {
            im_plain.push('i')
        }
    } else {
        (re_plain + im_signed).push('i')
    }
}

/// The variable raised to `power`: nothing, `X`, or `X^` and the exponent.
pub open spec fn power_text(power: nat) -> Seq<char> {
    if power == 0 {
        Seq::empty()
    } else if power == 1 {
        seq!['X']
    } else {
        seq!['X', '^'] + decimal(power)
    }
}

/// The term of `power` whose coefficient is one: `1`, `X`, or `X^` and the
/// exponent.
pub open spec fn unit_text(power: nat) -> Seq<char> {
    if power == 0 {
        seq!['1']
    } else {
        power_text(power)
    }
}

/// Whether a coefficient is written after a minus sign: its real part is
/// below zero, or is zero with an imaginary part that is not above zero.
pub open spec fn written_negative(value: Complex) -> bool {
    value.re.spec_is_negative() || (value.re.spec_is_zero() && value.im.spec_is_nonpositive())
}

/// What the term of `power` adds to the text `so_far` of the higher terms.
///
/// A zero coefficient adds nothing. The coefficients one and minus one are
/// left out before the variable. Where text stands before the term, the
/// sign is set off by spaces and the coefficient follows without its own.
pub open spec fn term_text(term: WrittenModel, power: nat, so_far: Seq<char>) -> Seq<char> {
    let unit = term.value.re.spec_is_one() && term.value.im.spec_is_zero();
    let minus_unit = term.value.re.spec_is_minus_one() && term.value.im.spec_is_zero();
    if term.value.spec_is_zero() {
        Seq::empty()
    } else if so_far.len() == 0 {
        if unit {
            unit_text(power)
        } else if minus_unit {
            seq!['-'] + unit_text(power)
        } else {
            term.plain + power_text(power)
        }
    } else {
        if unit {
            seq![' ', '+', ' '] + unit_text(power)
        } else if minus_unit {
            seq![' ', '-', ' '] + unit_text(power)
        } else if written_negative(term.value) {
            seq![' ', '-', ' '] + term.negated + power_text(power)
        } else {
            seq![' ', '+', ' '] + term.plain + power_text(power)
        }
    }
}

/// The text of the terms from the highest power down to `lowest`.
pub open spec fn terms_text(terms: Seq<WrittenModel>, lowest: int) -> Seq<char>
    decreases terms.len() - lowest,
{
    if 0 <= lowest < terms.len() {
        let so_far = terms_text(terms, lowest + 1);
        so_far + term_text(terms[lowest], lowest as nat, so_far)
    } else {
        Seq::empty()
    }
}

/// The text of a polynomial, highest power first; `0` where no term is
/// written.
pub open spec fn polynomial_text(terms: Seq<WrittenModel>) -> Seq<char> {
    if terms_text(terms, 0).len() == 0 {
        seq!['0']
    } else {
        terms_text(terms, 0)
    }
}

/// Writes out a complex number from its two components.
pub fn display_complex(re: &Numeral, im: &Numeral) -> (text: String)
    ensures
        text@ == complex_text(re.value, re.plain@, im.value, im.plain@, im.signed@),
{
    let mut text = String::new();
    if re.value.is_zero() && im.value.is_zero() {
        text.push('0');
    } else if im.value.is_zero() {
        text.append(re.plain.as_str());
    } else if re.value.is_zero() {
        if im.value.is_one() {
            text.push('i');
        } else if im.value.is_minus_one() {
            text.push('-');
            text.push('i');
        } else {
            text.append(im.plain.as_str());
            text.push('i');
        }
    } else {
        text.append(re.plain.as_str());
        text.append(im.signed.as_str());
        text.push('i');
    }
    assert(text@ =~= complex_text(re.value, re.plain@, im.value, im.plain@, im.signed@));
    text
}

/// Appends the variable raised to `power`.
fn push_power(out: &mut String, power: usize)
    ensures
        final(out)@ == old(out)@ + power_text(power as nat),
{
    if power == 1 {
        out.push('X');
    } else if power > 1 {
        out.push('X');
        out.push('^');
        let ghost with_caret = out@;
        push_decimal(out, power);
        assert(out@ =~= old(out)@ + (seq!['X', '^'] + decimal(power as nat)));
    }
    assert(out@ =~= old(out)@ + power_text(power as nat));
}

/// Appends the term of `power` whose coefficient is one.
fn push_unit(out: &mut String, power: usize)
    ensures
        final(out)@ == old(out)@ + unit_text(power as nat),
{
    if power == 0 {
        out.push('1');
        assert(out@ =~= old(out)@ + unit_text(power as nat));
    } else {
        push_power(out, power);
    }
}

/// Appends a sign set off by spaces.
fn push_sign(out: &mut String, minus: bool)
    ensures
        final(out)@ == old(out)@ + seq![' ', if minus { '-' } else { '+' }, ' '],
{
    out.push(' ');
    out.push(if minus { '-' } else { '+' });
    out.push(' ');
    assert(out@ =~= old(out)@ + seq![' ', if minus { '-' } else { '+' }, ' ']);
}

/// Appends the term of `power` to the text of the higher terms.
fn push_term(out: &mut String, term: &Written, power: usize)
    ensures
        final(out)@ == old(out)@ + term_text(term.deep_view(), power as nat, old(out)@),
{
    let ghost before = out@;
    let unit = term.value.re.is_one() && term.value.im.is_zero();
    let minus_unit = term.value.re.is_minus_one() && term.value.im.is_zero();
    if term.value.is_zero() {
        assert(out@ =~= before + Seq::<char>::empty());
    } else if out.as_str().is_empty() {
        if unit {
            push_unit(out, power);
        } else if minus_unit {
            out.push('-');
            push_unit(out, power);
            assert(out@ =~= before + (seq!['-'] + unit_text(power as nat)));
        } else {
            out.append(term.plain.as_str());
            push_power(out, power);
            assert(out@ =~= before + (term.plain@ + power_text(power as nat)));
        }
    } else {
        if unit {
            push_sign(out, false);
            push_unit(out, power);
            assert(out@ =~= before + (seq![' ', '+', ' '] + unit_text(power as nat)));
        } else if minus_unit {
            push_sign(out, true);
            push_unit(out, power);
            assert(out@ =~= before + (seq![' ', '-', ' '] + unit_text(power as nat)));
        } else if term.value.re.is_negative() || (term.value.re.is_zero()
            && term.value.im.is_nonpositive()) {
            push_sign(out, true);
            out.append(term.negated.as_str());
            push_power(out, power);
            assert(out@ =~= before + (seq![' ', '-', ' '] + term.negated@ + power_text(
                power as nat,
            )));
        } else {
            push_sign(out, false);
            out.append(term.plain.as_str());
            push_power(out, power);
            assert(out@ =~= before + (seq![' ', '+', ' '] + term.plain@ + power_text(
                power as nat,
            )));
        }
    }
}

/// Writes out a polynomial from its coefficients, lowest power first in
/// `terms`, highest power first in the text.
pub fn display_polynomial(terms: &[Written]) -> (text: String)
    ensures
        text@ == polynomial_text(terms.deep_view()),
{
    let mut text = String::new();
    let mut at: usize = terms.len();
    while at > 0
        invariant
            at <= terms.len(),
            text@ == terms_text(terms.deep_view(), at as int),
        decreases at,
    {
        at -= 1;
        assert(terms.deep_view()[at as int] == terms@[at as int].deep_view());
        push_term(&mut text, &terms[at], at);
    }
    if text.as_str().is_empty() {
        text.push('0');
        assert(text@ =~= seq!['0']);
    }
    text
}

/// Whether `numeral` shows `component`: its value is the component rounded,
/// and its two texts write that value. `rounded(s)` stands for `s` rounded
/// as it is shown, `plain(s)` for the numeral of `s` and `signed(s)` for the
/// numeral with its sign always written.
pub open spec fn numeral_made<
    R: Fn(Scalar) -> Scalar,
    F: Fn(Scalar) -> String,
    G: Fn(Scalar) -> String,
>(rounded: R, plain: F, signed: G, component: Scalar, numeral: Numeral) -> bool {
    &&& call_ensures(rounded, (component,), numeral.value)
    &&& call_ensures(plain, (numeral.value,), numeral.plain)
    &&& call_ensures(signed, (numeral.value,), numeral.signed)
}

/// Whether `text` shows the complex number `value`: it is laid out from the
/// numerals of the two rounded components.
pub open spec fn shown<
    R: Fn(Scalar) -> Scalar,
    F: Fn(Scalar) -> String,
    G: Fn(Scalar) -> String,
>(rounded: R, plain: F, signed: G, value: Complex, text: Seq<char>) -> bool {
    exists|re: Numeral, im: Numeral|
        #![trigger numeral_made(rounded, plain, signed, value.re, re), numeral_made(rounded, plain, signed, value.im, im)]
        {
            &&& numeral_made(rounded, plain, signed, value.re, re)
            &&& numeral_made(rounded, plain, signed, value.im, im)
            &&& text == complex_text(re.value, re.plain@, im.value, im.plain@, im.signed@)
        }
}

/// Whether `written` shows `coefficient`: with its text, and with the text
/// of the coefficient subtracted from zero. `difference(a, b)` stands for
/// `a - b` on real numbers.
pub open spec fn coefficient_written<
    B: Fn(Scalar, Scalar) -> Scalar,
    R: Fn(Scalar) -> Scalar,
    F: Fn(Scalar) -> String,
    G: Fn(Scalar) -> String,
>(
    difference: B,
    rounded: R,
    plain: F,
    signed: G,
    coefficient: Complex,
    written: Written,
) -> bool {
    &&& written.value == coefficient
    &&& shown(rounded, plain, signed, coefficient, written.plain@)
    &&& exists|opposite: Complex| #[trigger]
        subtracted(difference, zero_coefficient(), coefficient, opposite) && shown(
            rounded,
            plain,
            signed,
            opposite,
            written.negated@,
        )
}

/// Whether `text` shows the polynomial with the given coefficients: it is
/// laid out from the texts of the coefficients.
pub open spec fn polynomial_shown<
    B: Fn(Scalar, Scalar) -> Scalar,
    R: Fn(Scalar) -> Scalar,
    F: Fn(Scalar) -> String,
    G: Fn(Scalar) -> String,
>(
    difference: B,
    rounded: R,
    plain: F,
    signed: G,
    coefficients: Seq<Complex>,
    text: Seq<char>,
) -> bool {
    exists|terms: Vec<Written>|
        {
            &&& terms@.len() == coefficients.len()
            &&& forall|i: int|
                0 <= i < coefficients.len() ==> #[trigger] coefficient_written(
                    difference,
                    rounded,
                    plain,
                    signed,
                    coefficients[i],
                    terms@[i],
                )
            &&& text == #[trigger] polynomial_text(terms.deep_view())
        }
}

/// Makes the numeral of one component.
fn make_numeral<R: Fn(Scalar) -> Scalar, F: Fn(Scalar) -> String, G: Fn(Scalar) -> String>(
    component: Scalar,
    rounded: &R,
    plain: &F,
    signed: &G,
) -> (numeral: Numeral)
    requires
        forall|s: Scalar| call_requires(*rounded, (s,)),
        forall|s: Scalar| call_requires(*plain, (s,)),
        forall|s: Scalar| call_requires(*signed, (s,)),
    ensures
        numeral_made(*rounded, *plain, *signed, component, numeral),
{
    let value = rounded(component);
    Numeral { value, plain: plain(value), signed: signed(value) }
}

/// Writes out a complex number: rounds its components, has their numerals
/// written and lays them out.
pub fn show_complex<R: Fn(Scalar) -> Scalar, F: Fn(Scalar) -> String, G: Fn(Scalar) -> String>(
    value: Complex,
    rounded: &R,
    plain: &F,
    signed: &G,
) -> (text: String)
    requires
        forall|s: Scalar| call_requires(*rounded, (s,)),
        forall|s: Scalar| call_requires(*plain, (s,)),
        forall|s: Scalar| call_requires(*signed, (s,)),
    ensures
        shown(*rounded, *plain, *signed, value, text@),
{
    let re = make_numeral(value.re, rounded, plain, signed);
    let im = make_numeral(value.im, rounded, plain, signed);
    display_complex(&re, &im)
}

/// Writes out a polynomial: shows every coefficient and its opposite and
/// lays the texts out, highest power first.
pub fn show_polynomial<
    B: Fn(Scalar, Scalar) -> Scalar,
    R: Fn(Scalar) -> Scalar,
    F: Fn(Scalar) -> String,
    G: Fn(Scalar) -> String,
>(polynomial: &Polynomial, difference: &B, rounded: &R, plain: &F, signed: &G) -> (text: String)
    requires
        defined(*difference),
        forall|s: Scalar| call_requires(*rounded, (s,)),
        forall|s: Scalar| call_requires(*plain, (s,)),
        forall|s: Scalar| call_requires(*signed, (s,)),
    ensures
        polynomial_shown(*difference, *rounded, *plain, *signed, polynomial@, text@),
{
    let coefficients = polynomial.coefficients();
    let mut terms: Vec<Written> = Vec::new();
    let mut at: usize = 0;
    while at < coefficients.len()
        invariant
            defined(*difference),
            forall|s: Scalar| call_requires(*rounded, (s,)),
            forall|s: Scalar| call_requires(*plain, (s,)),
            forall|s: Scalar| call_requires(*signed, (s,)),
            at <= coefficients.len(),
            terms@.len() == at,
            forall|i: int|
                0 <= i < at ==> #[trigger] coefficient_written(
                    *difference,
                    *rounded,
                    *plain,
                    *signed,
                    coefficients@[i],
                    terms@[i],
                ),
        decreases coefficients.len() - at,
    {
        let value = coefficients[at];
        let text = show_complex(value, rounded, plain, signed);
        let opposite = minus(Complex::zero(), value, difference);
        let negated = show_complex(opposite, rounded, plain, signed);
        let ghost before = terms@;
        terms.push(Written { value, plain: text, negated });
        proof {
            assert(subtracted(*difference, zero_coefficient(), value, opposite));
            assert forall|i: int| 0 <= i < at + 1 implies #[trigger] coefficient_written(
                *difference,
                *rounded,
                *plain,
                *signed,
                coefficients@[i],
                terms@[i],
            ) by {
                if i < at {
                    assert(terms@[i] == before[i]);
                }
            }
        }
        at += 1;
    }
    let written = terms.as_slice();
    let text = display_polynomial(written);
    assert(written.deep_view() =~= terms.deep_view());
    text
}

} // verus!
