//! The ways in which a division can fail.
use vstd::prelude::*;

verus! {

/// Why a division did not go through.
#[derive(Debug, Clone, Copy, PartialEq, Eq, Structural)]
pub enum DivError {
    /// The divisor is the zero polynomial.
    DivisionByZero,
    /// The divisor's leading coefficient offers no inverse, and the
    /// division could not do without one.
    NotInvertible,
}

} // verus!
