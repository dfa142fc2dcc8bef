//! The ways in which the core refuses its input.

use vstd::prelude::*;

verus! {

/// Why an operation of the core was refused.
#[derive(Clone, Copy, Debug, PartialEq, Eq, Structural)]
pub enum GameError {
    /// A level description that is ragged, holds an unknown cell value,
    /// declares a count of zero or is too large to place in the arena.
    MalformedLevel,
    /// An argument outside the domain of the operation, such as a vector
    /// of length zero handed to the direction classifier.
    InvalidArgument,
}

} // verus!
