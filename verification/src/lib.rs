//! A reverse-mode automatic-differentiation engine.
//!
//! An engine owns an arena of tensors and a table of numeric buffers. A tensor is a buffer with
//! its differentiation record: whether gradients are tracked through it, the gradient it has
//! accumulated, and the node that says from which tensors an operation made it. Operations on
//! tensors record new tensors as they are called, and `backward` walks the record from an
//! output back to the leaves, handing gradients on by the chain rule and adding up what a
//! tensor receives along different paths.
//!
//! The engine does no arithmetic on the elements of a buffer. A buffer is held as its shape
//! and its definition: supplied by the caller, or an elementwise operation on earlier buffers.
//! Data and gradients are handles into that table; whoever has a numeric array library walks
//! the table in order and computes the numbers. What is proved here is proved of the
//! definitions: the value of a buffer is an expression over the supplied buffers, and the
//! contracts say which expression each gradient is.
//!
//! - [`buffer`]: buffers, their definitions, and their values as expressions.
//! - [`tensor`]: tensors, nodes and the backward rules.
//! - [`model`]: the mathematical model of an engine, and the gradient each tensor is owed.
//! - [`engine`]: the engine itself.
//! - [`ops`]: leaves, the operations on tensors, and what can be read of a tensor.
//! - [`backward`]: the backward pass.
//! - [`laws`]: what holds of every engine.
//! - [`error`]: the ways in which a call can be refused.

pub mod backward;
pub mod buffer;
pub mod engine;
pub mod error;
pub mod laws;
pub mod model;
pub mod ops;
pub mod tensor;
