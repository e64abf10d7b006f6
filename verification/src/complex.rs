//! Complex numbers: their value, and the sums of terms that write them.

use vstd::prelude::*;
use vstd::slice::slice_subrange;
use crate::number::{is_number_literal, is_sign, number_literal};
use crate::scalar::Scalar;
use crate::text::{find_first, first_of, to_chars, to_text, trim, trimmed};

verus! {

/// A complex number by its real and imaginary components.
#[derive(Clone, Copy, Debug, PartialEq, Eq)]
pub struct Complex {
    pub re: Scalar,
    pub im: Scalar,
}

impl Complex {
    /// Numerically equal to zero: both components are.
    pub open spec fn spec_is_zero(self) -> bool {
        self.re.spec_is_zero() && self.im.spec_is_zero()
    }

    /// The number zero.
    pub fn zero() -> (value: Complex)
        ensures
            value.re.bits == 0,
            value.im.bits == 0,
    {
        Complex { re: Scalar::zero(), im: Scalar::zero() }
    }

    #[verifier::when_used_as_spec(spec_is_zero)]
    pub fn is_zero(self) -> (answer: bool)
        ensures
            answer == self.spec_is_zero(),
    {
        self.re.is_zero() && self.im.is_zero()
    }
}

/// How much one term of a sum is worth, before its sign.
#[derive(Clone, Debug, PartialEq, Eq)]
pub enum Magnitude {
    /// No number is written: the term is worth one.
    One,
    /// The number that this text writes. The text reads as a number.
    Literal(String),
    /// Something is written that does not read as a number. The term counts
    /// as one, and the sum ends with it.
    Unreadable,
}

/// One term of a sum: a real number, or a real multiple of `i`.
#[derive(Clone, Debug, PartialEq, Eq)]
pub struct Part {
    /// A minus sign stands before the term.
    pub negative: bool,
    /// The term is a multiple of `i`.
    pub imaginary: bool,
    pub magnitude: Magnitude,
}

/// [`Magnitude`] over mathematical text.
pub enum MagnitudeModel {
    One,
    Literal(Seq<char>),
    Unreadable,
}

/// [`Part`] over mathematical text.
pub struct PartModel {
    pub negative: bool,
    pub imaginary: bool,
    pub magnitude: MagnitudeModel,
}

impl DeepView for Magnitude {
    type V = MagnitudeModel;

    open spec fn deep_view(&self) -> MagnitudeModel {
        match self {
            Magnitude::One => MagnitudeModel::One,
            Magnitude::Literal(text) => MagnitudeModel::Literal(text@),
            Magnitude::Unreadable => MagnitudeModel::Unreadable,
        }
    }
}

impl DeepView for Part {
    type V = PartModel;

    open spec fn deep_view(&self) -> PartModel {
        PartModel {
            negative: self.negative,
            imaginary: self.imaginary,
            magnitude: self.magnitude.deep_view(),
        }
    }
}

/// The characters that end the number of a term.
pub open spec fn sum_delimiters() -> Seq<char> {
    seq!['+', '-', 'i']
}

/// The terms that `t` writes from the position `pos` on.
///
/// A term is an optional sign, then either a bare `i`, or the text up to the
/// next sign or `i`, which is the number of the term once whitespace is
/// dropped at its ends, and an `i` after it where the term is imaginary. The
/// next term follows at once. A text that does not read as a number ends the
/// sum.
pub open spec fn parts_from(t: Seq<char>, pos: int) -> Seq<PartModel>
    recommends
        0 <= pos < t.len(),
    decreases t.len() - pos,
{
    if 0 <= pos < t.len() {
        let negative = t[pos] == '-';
        let start = if is_sign(t[pos]) {
            pos + 1
        } else {
            pos
        };
        if start < t.len() && t[start] == 'i' {
            let part = PartModel { negative, imaginary: true, magnitude: MagnitudeModel::One };
            if start + 1 >= t.len() {
                seq![part]
            } else {
                seq![part] + parts_from(t, start + 1)
            }
        } else {
            let stop = first_of(t, start, sum_delimiters());
            let literal = trimmed(t.subrange(start, stop));
            if start < stop && number_literal(literal) {
                let imaginary = stop < t.len() && t[stop] == 'i';
                let next = if imaginary {
                    stop + 1
                } else {
                    stop
                };
                let part = PartModel {
                    negative,
                    imaginary,
                    magnitude: MagnitudeModel::Literal(literal),
                };
                if next >= t.len() {
                    seq![part]
                } else {
                    seq![part] + parts_from(t, next)
                }
            } else {
                seq![
                    PartModel {
                        negative,
                        imaginary: false,
                        magnitude: MagnitudeModel::Unreadable,
                    },
                ]
            }
        }
    } else {
        Seq::empty()
    }
}

/// The terms of the sum that `t` writes. The empty text writes the number
/// one.
pub open spec fn sum_parts(t: Seq<char>) -> Seq<PartModel> {
    if t.len() == 0 {
        seq![PartModel { negative: false, imaginary: false, magnitude: MagnitudeModel::One }]
    } else {
        parts_from(t, 0)
    }
}

/// Reads a sum of real and imaginary terms, such as `3+4i` or `-i`.
pub fn parse_sum(text: &[char]) -> (parts: Vec<Part>)
    ensures
        parts.deep_view() == sum_parts(text@),
        parts.len() > 0,
{
    let mut parts: Vec<Part> = Vec::new();
    if text.len() == 0 {
        parts.push(Part { negative: false, imaginary: false, magnitude: Magnitude::One });
        assert(parts.deep_view() =~= sum_parts(text@));
        return parts;
    }
    let delimiters = ['+', '-', 'i'];
    assert(delimiters@ =~= sum_delimiters());
    let mut pos: usize = 0;
    loop
        invariant
            pos < text.len(),
            delimiters@ == sum_delimiters(),
            sum_parts(text@) == parts.deep_view() + parts_from(text@, pos as int),
        decreases text.len() - pos,
    {
        let ghost before = parts.deep_view();
        let negative = text[pos] == '-';
        let start: usize = if text[pos] == '+' || text[pos] == '-' {
            pos + 1
        } else {
            pos
        };
        if start < text.len() && text[start] == 'i' {
            let part = Part { negative, imaginary: true, magnitude: Magnitude::One };
            let ghost model = part.deep_view();
            parts.push(part);
            assert(parts.deep_view() =~= before.push(model));
            if start + 1 >= text.len() {
                assert(before + seq![model] =~= before.push(model));
                return parts;
            }
            assert(before + (seq![model] + parts_from(text@, start + 1)) =~= before.push(model)
                + parts_from(text@, start + 1));
            pos = start + 1;
        } else {
            let stop = find_first(text, start, delimiters.as_slice());
            let literal = trim(slice_subrange(text, start, stop));
            if start < stop && is_number_literal(literal) {
                let imaginary = stop < text.len() && text[stop] == 'i';
                let next: usize = if imaginary {
                    stop + 1
                } else {
                    stop
                };
                let part = Part { negative, imaginary, magnitude: Magnitude::Literal(to_text(literal)) };
                let ghost model = part.deep_view();
                parts.push(part);
                assert(parts.deep_view() =~= before.push(model));
                if next >= text.len() {
                    assert(before + seq![model] =~= before.push(model));
                    return parts;
                }
                assert(before + (seq![model] + parts_from(text@, next as int)) =~= before.push(
                    model,
                ) + parts_from(text@, next as int));
                pos = next;
            } else {
                let part = Part { negative, imaginary: false, magnitude: Magnitude::Unreadable };
                let ghost model = part.deep_view();
                parts.push(part);
                assert(parts.deep_view() =~= before.push(model));
                assert(before + seq![model] =~= before.push(model));
                return parts;
            }
        }
    }
}

/// Reads the sum that a string writes.
pub fn read_sum(text: &str) -> (parts: Vec<Part>)
    ensures
        parts.deep_view() == sum_parts(text@),
        parts.len() > 0,
{
    let chars = to_chars(text);
    parse_sum(chars.as_slice())
}

} // verus!
