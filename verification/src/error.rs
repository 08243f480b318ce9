//! The ways in which a call can be refused.

use vstd::prelude::*;

verus! {

/// A misuse of the engine by its caller. Nothing is changed when one is returned.
#[derive(Debug, Clone, PartialEq, Eq)]
pub enum EngineError {
    /// The operands of a binary operation have different shapes, which are given.
    ShapeMismatch(Vec<usize>, Vec<usize>),
    /// `backward` was called on a tensor that does not track gradients.
    NotDifferentiable,
    /// The seed handed to `backward` does not have the shape of the output.
    SeedShapeMismatch,
}

} // verus!
