//! Tensors, the nodes that record how a tensor was produced, and the backward rules.

use crate::buffer::{BinaryOp, BufferDef, BufferRef, Term, UnaryOp, term_of};
use vstd::prelude::*;

verus! {

/// Handle of a tensor in an engine. Copies of a handle name the same tensor.
#[derive(Clone, Copy, Debug, PartialEq, Eq, Structural)]
pub struct TensorRef {
    pub index: usize,
}

/// Backward rule of an operation with one operand `x`, result `y` and upstream gradient `u`.
#[derive(Clone, Copy, Debug)]
pub enum UnaryBackwardFn<K> {
    /// Of `x^k`: the operand receives `u * k * x^(k-1)`.
    Pow(K),
    /// Of the rectifier: the operand receives `u` where `x > 0`.
    Relu,
    /// Of the sigmoid: the operand receives `u * y * (1 - y)`.
    Sigmoid,
    /// Of the hyperbolic tangent: the operand receives `u * (1 - y^2)`.
    Tanh,
}

/// Backward rule of an operation with two operands `l` and `r` and upstream gradient `u`.
#[derive(Clone, Copy, Debug, PartialEq, Eq, Structural)]
pub enum BinaryBackwardFn {
    /// Of `l + r`: each operand receives `u`.
    Add,
    /// Of `l * r`: the left operand receives `u * r`, the right one `u * l`.
    Mul,
}

/// How a tensor was produced.
#[allow(inconsistent_fields)]
#[derive(Debug)]
pub enum Node<K> {
    /// No operation. It stands for a tensor that nothing produced and is never attached to one.
    Leaf,
    /// An operation on one tensor.
    Unary { tensor: TensorRef, backward_fn: UnaryBackwardFn<K> },
    /// An operation on two tensors, the left one first.
    Binary { tensors: (TensorRef, TensorRef), backward_fn: BinaryBackwardFn },
}

impl<K: Copy> Clone for Node<K> {
    fn clone(&self) -> (r: Self)
        ensures
            r == *self,
    {
        *self
    }
}

impl<K: Copy> Copy for Node<K> {

}

/// A buffer with its differentiation record.
#[derive(Debug)]
pub struct Tensor<K> {
    /// The values. Fixed when the tensor is made.
    pub data: BufferRef,
    /// Whether gradients are tracked through this tensor.
    pub requires_grad: bool,
    /// The gradient accumulated so far, if any.
    pub grad: Option<BufferRef>,
    /// The operation that produced the tensor, if one did.
    pub grad_fn: Option<Node<K>>,
    /// Whether no operation produced the tensor.
    pub is_leaf: bool,
}

impl<K: Copy> Clone for Tensor<K> {
    fn clone(&self) -> (r: Self)
        ensures
            r == *self,
    {
        *self
    }
}

impl<K: Copy> Copy for Tensor<K> {

}

/// What a backward rule hands to one operand.
#[derive(Clone, Copy, Debug)]
pub enum LocalGradient<K> {
    /// The upstream gradient as it is.
    Upstream,
    /// A buffer that is still to be recorded, with this definition.
    Computed(BufferDef<K>),
}

impl<K> LocalGradient<K> {
    /// The value of the local gradient, where `upstream` is the buffer of the upstream gradient.
    pub open spec fn term(self, defs: Seq<BufferDef<K>>, upstream: BufferRef) -> Term<K> {
        match self {
            LocalGradient::Upstream => term_of(defs, upstream.index as int),
            LocalGradient::Computed(def) => match def {
                BufferDef::Input => Term::Input(defs.len() as int),
                BufferDef::Unary { op, input } => Term::unary(op, term_of(defs, input.index as int)),
                BufferDef::Binary { op, left, right } => Term::binary(
                    op,
                    term_of(defs, left.index as int),
                    term_of(defs, right.index as int),
                ),
            },
        }
    }
}

impl<K> UnaryBackwardFn<K> {
    /// The operation whose derivative this rule is.
    pub open spec fn forward(self) -> UnaryOp<K> {
        match self {
            UnaryBackwardFn::Pow(k) => UnaryOp::Pow(k),
            UnaryBackwardFn::Relu => UnaryOp::Relu,
            UnaryBackwardFn::Sigmoid => UnaryOp::Sigmoid,
            UnaryBackwardFn::Tanh => UnaryOp::Tanh,
        }
    }

    /// The gradient for the operand, given the upstream gradient `u`, the operand `x` and the
    /// result `y` of the operation.
    pub open spec fn local_term(self, u: Term<K>, x: Term<K>, y: Term<K>) -> Term<K> {
        match self {
            UnaryBackwardFn::Pow(k) => Term::binary(BinaryOp::PowGrad(k), u, x),
            UnaryBackwardFn::Relu => Term::binary(BinaryOp::ReluGrad, u, x),
            UnaryBackwardFn::Sigmoid => Term::binary(BinaryOp::SigmoidGrad, u, y),
            UnaryBackwardFn::Tanh => Term::binary(BinaryOp::TanhGrad, u, y),
        }
    }
}

impl<K: Copy> UnaryBackwardFn<K> {
    /// The local gradient of the operation: `upstream` times the derivative at `input`, which
    /// for the sigmoid and the hyperbolic tangent is written over `output`.
    pub fn backward(&self, upstream: BufferRef, input: BufferRef, output: BufferRef) -> (g:
        LocalGradient<K>)
        ensures
            g == LocalGradient::Computed(
                match *self {
                    UnaryBackwardFn::Pow(k) => (BufferDef::Binary {
                        op: BinaryOp::PowGrad(k),
                        left: upstream,
                        right: input,
                    }),
                    UnaryBackwardFn::Relu => (BufferDef::Binary {
                        op: BinaryOp::ReluGrad,
                        left: upstream,
                        right: input,
                    }),
                    UnaryBackwardFn::Sigmoid => (BufferDef::Binary {
                        op: BinaryOp::SigmoidGrad,
                        left: upstream,
                        right: output,
                    }),
                    UnaryBackwardFn::Tanh => (BufferDef::Binary {
                        op: BinaryOp::TanhGrad,
                        left: upstream,
                        right: output,
                    }),
                },
            ),
            forall|defs: Seq<BufferDef<K>>| #[trigger]
                g.term(defs, upstream) == self.local_term(
                    term_of(defs, upstream.index as int),
                    term_of(defs, input.index as int),
                    term_of(defs, output.index as int),
                ),
    {
        match *self {
            UnaryBackwardFn::Pow(k) => LocalGradient::Computed(
                BufferDef::Binary { op: BinaryOp::PowGrad(k), left: upstream, right: input },
            ),
            UnaryBackwardFn::Relu => LocalGradient::Computed(
                BufferDef::Binary { op: BinaryOp::ReluGrad, left: upstream, right: input },
            ),
            UnaryBackwardFn::Sigmoid => LocalGradient::Computed(
                BufferDef::Binary { op: BinaryOp::SigmoidGrad, left: upstream, right: output },
            ),
            UnaryBackwardFn::Tanh => LocalGradient::Computed(
                BufferDef::Binary { op: BinaryOp::TanhGrad, left: upstream, right: output },
            ),
        }
    }
}

impl BinaryBackwardFn {
    /// The operation whose derivative this rule is.
    pub open spec fn forward<K>(self) -> BinaryOp<K> {
        match self {
            BinaryBackwardFn::Add => BinaryOp::Add,
            BinaryBackwardFn::Mul => BinaryOp::Mul,
        }
    }

    /// The gradients for the left and the right operand, given the upstream gradient `u` and
    /// the operands `l` and `r`.
    pub open spec fn local_terms<K>(self, u: Term<K>, l: Term<K>, r: Term<K>) -> (Term<K>, Term<K>) {
        match self {
            BinaryBackwardFn::Add => (u, u),
            BinaryBackwardFn::Mul => (Term::product(u, r), Term::product(u, l)),
        }
    }

    /// The local gradients of the operation, for the left and for the right operand.
    pub fn backward<K>(&self, upstream: BufferRef, left: BufferRef, right: BufferRef) -> (g: (
        LocalGradient<K>,
        LocalGradient<K>,
    ))
        ensures
            g == match *self {
                BinaryBackwardFn::Add => (LocalGradient::<K>::Upstream, LocalGradient::<K>::Upstream),
                BinaryBackwardFn::Mul => (
                    LocalGradient::Computed(
                        BufferDef::Binary { op: BinaryOp::Mul, left: upstream, right: right },
                    ),
                    LocalGradient::Computed(
                        BufferDef::Binary { op: BinaryOp::Mul, left: upstream, right: left },
                    ),
                ),
            },
            forall|defs: Seq<BufferDef<K>>|
                (#[trigger] g.0.term(defs, upstream), #[trigger] g.1.term(defs, upstream))
                    == self.local_terms(
                    term_of(defs, upstream.index as int),
                    term_of(defs, left.index as int),
                    term_of(defs, right.index as int),
                ),
    {
        match *self {
            BinaryBackwardFn::Add => (LocalGradient::Upstream, LocalGradient::Upstream),
            BinaryBackwardFn::Mul => (
                LocalGradient::Computed(
                    BufferDef::Binary { op: BinaryOp::Mul, left: upstream, right: right },
                ),
                LocalGradient::Computed(
                    BufferDef::Binary { op: BinaryOp::Mul, left: upstream, right: left },
                ),
            ),
        }
    }
}

} // verus!
