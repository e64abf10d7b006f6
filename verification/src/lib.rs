//! Approximate roots of polynomials with complex coefficients.
//!
//! The crate reads an expression such as `(3+2i)X^3+iX-5`, adds its terms up
//! to a polynomial, and finds one root for each unit of the degree: a
//! pattern search locates a root near zero, the root is divided out, and
//! the search goes on in the quotient. It also lays out the text in which
//! complex numbers and polynomials are shown.
//!
//! Numbers are binary64, carried as bit patterns ([`scalar::Scalar`]). The
//! crate decides on the encoding alone whether a number is zero, one or
//! negative and which of two comes first. It does no arithmetic on them:
//! every function that needs the sum or the product of two real numbers,
//! the number that a numeral writes or the numeral of a number takes the
//! operation as an argument, and its contract says which results of which
//! operations its own result is made of. The operations on complex numbers
//! are made up from those in [`arithmetic`], and everything else is built on
//! them.

pub mod scalar;
pub mod text;
pub mod number;
pub mod complex;
pub mod arithmetic;
pub mod expression;
pub mod polynomial;
pub mod display;
pub mod search;
pub mod value;
pub mod solve;
