//! The kinds of option contract that the pricer knows about.
use vstd::prelude::*;

verus! {

/// When an option may be exercised.
#[derive(Debug, Clone, Copy, PartialEq, Eq)]
pub enum ExerciseType {
    /// Exercised only at maturity.
    European,
    /// Exercised at any time before or at maturity.
    American,
    /// Exercised on specific dates before expiry.
    Bermudan,
}

/// Which side of the contract the holder takes.
#[derive(Debug, Clone, Copy, PartialEq, Eq)]
pub enum PayoffType {
    Buy,
    Sell,
}

} // verus!
