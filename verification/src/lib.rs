//! Dense polynomials in one indeterminate over ring-like coefficient types.
//!
//! A [`poly::Polynomial`] keeps its coefficients in a shared, immutable
//! vector, index `i` holding the coefficient of `x^i`, and knows its degree.
//! Trailing zeros in the vector are allowed and never count: two
//! polynomials are equal when their degrees and their coefficients up to the
//! degree are.
//!
//! - [`traits`] states what a coefficient type has to offer, as the trait
//!   [`traits::RingType`].
//! - [`integers`] and [`modular`] hold coefficient types: `i32` and `i64`
//!   with wrapping arithmetic, and the integers modulo `N`.
//! - [`poly`] holds the polynomial type, its construction and equality;
//!   [`arith`] its sum, negative, difference and product; [`division`] its
//!   division with remainder, which reports an [`error::DivError`] where it
//!   cannot go through.
//! - [`nested`] makes polynomials a coefficient type themselves, which gives
//!   polynomials in several indeterminates.
//! - [`model`] defines every operation on coefficient sequences; the
//!   contracts of the executable code are written in its terms.
//! - [`laws`] states what holds of the operations, and [`lemmas`] holds the
//!   proofs underneath.
pub mod arith;
pub mod division;
pub mod error;
pub mod integers;
pub mod laws;
pub mod lemmas;
pub mod model;
pub mod modular;
pub mod nested;
pub mod poly;
pub mod traits;
