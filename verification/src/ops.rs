//! Making tensors: leaves, and the results of operations on tensors.

use crate::buffer::{BinaryOp, BufferDef, BufferRef, UnaryOp};
use crate::engine::{GraphEngine, copy_shape, same_shape};
use crate::error::EngineError;
use crate::tensor::{BinaryBackwardFn, Node, Tensor, TensorRef, UnaryBackwardFn};
use vstd::prelude::*;

verus! {

impl<K: Copy> Tensor<K> {
    /// Makes a leaf tensor over `data`: it has no gradient and no node.
    pub fn new(engine: &mut GraphEngine<K>, data: BufferRef, requires_grad: bool) -> (t: TensorRef)
        requires
            old(engine)@.wf(),
            old(engine)@.has_buffer(data),
        ensures
            final(engine)@ == old(engine)@.with_leaf(data, requires_grad),
            final(engine)@.wf(),
            final(engine)@.keeps_data_of(old(engine)@),
            t == old(engine)@.next_tensor(),
            t.index == old(engine)@.tensors.len(),
    {
        engine.push_tensor(
            Tensor { data, requires_grad, grad: None, grad_fn: None, is_leaf: true },
        )
    }
}

impl<K: Copy> UnaryBackwardFn<K> {
    /// The operation whose derivative this rule is.
    pub fn forward_op(&self) -> (op: UnaryOp<K>)
        ensures
            op == self.forward(),
    {
        match *self {
            UnaryBackwardFn::Pow(k) => UnaryOp::Pow(k),
            UnaryBackwardFn::Relu => UnaryOp::Relu,
            UnaryBackwardFn::Sigmoid => UnaryOp::Sigmoid,
            UnaryBackwardFn::Tanh => UnaryOp::Tanh,
        }
    }
}

impl BinaryBackwardFn {
    /// The operation whose derivative this rule is.
    pub fn forward_op<K>(&self) -> (op: BinaryOp<K>)
        ensures
            op == self.forward::<K>(),
    {
        match *self {
            BinaryBackwardFn::Add => BinaryOp::Add,
            BinaryBackwardFn::Mul => BinaryOp::Mul,
        }
    }
}

/// Applies an elementwise operation to one tensor.
fn unary<K: Copy>(engine: &mut GraphEngine<K>, a: TensorRef, rule: UnaryBackwardFn<K>) -> (r:
    TensorRef)
    requires
        old(engine)@.wf(),
        old(engine)@.has_tensor(a),
    ensures
        final(engine)@ == old(engine)@.with_unary(a, rule),
        final(engine)@.wf(),
        final(engine)@.keeps_data_of(old(engine)@),
        r == old(engine)@.next_tensor(),
        r.index == old(engine)@.tensors.len(),
        final(engine)@.tensor(r).requires_grad == old(engine)@.tensor(a).requires_grad,
{
    let operand = engine.tensor(a);
    proof {
        assert(engine@.tensor_wf(a.index as int));
    }
    let shape = copy_shape(engine.buffer_shape(operand.data));
    let data = engine.push_buffer(
        shape,
        BufferDef::Unary { op: rule.forward_op(), input: operand.data },
    );
    let requires_grad = operand.requires_grad;
    let grad_fn = if requires_grad {
        Some(Node::Unary { tensor: a, backward_fn: rule })
    } else {
        None
    };
    engine.push_tensor(
        Tensor { data, requires_grad, grad: None, grad_fn, is_leaf: !requires_grad },
    )
}

/// Applies an elementwise operation to two tensors of one shape.
fn binary<K: Copy>(
    engine: &mut GraphEngine<K>,
    a: TensorRef,
    b: TensorRef,
    rule: BinaryBackwardFn,
) -> (r: Result<TensorRef, EngineError>)
    requires
        old(engine)@.wf(),
        old(engine)@.has_tensor(a),
        old(engine)@.has_tensor(b),
    ensures
        final(engine)@.wf(),
        final(engine)@.keeps_data_of(old(engine)@),
        match r {
            Ok(z) => {
                &&& old(engine)@.data_shape(a) == old(engine)@.data_shape(b)
                &&& final(engine)@ == old(engine)@.with_binary(a, b, rule)
                &&& z == old(engine)@.next_tensor()
                &&& z.index == old(engine)@.tensors.len()
                &&& final(engine)@.tensor(z).requires_grad == (old(engine)@.tensor(
                    a,
                ).requires_grad || old(engine)@.tensor(b).requires_grad)
            },
            Err(e) => {
                &&& old(engine)@.data_shape(a) != old(engine)@.data_shape(b)
                &&& final(engine)@ == old(engine)@
                &&& e matches EngineError::ShapeMismatch(shape_a, shape_b)
                &&& shape_a@ == old(engine)@.data_shape(a)
                &&& shape_b@ == old(engine)@.data_shape(b)
            },
        },
{
    let left = engine.tensor(a);
    let right = engine.tensor(b);
    proof {
        assert(engine@.tensor_wf(a.index as int));
        assert(engine@.tensor_wf(b.index as int));
    }
    let shape = copy_shape(engine.buffer_shape(left.data));
    if !same_shape(&shape, engine.buffer_shape(right.data)) {
        let other = copy_shape(engine.buffer_shape(right.data));
        return Err(EngineError::ShapeMismatch(shape, other));
    }
    let data = engine.push_buffer(
        shape,
        BufferDef::Binary { op: rule.forward_op(), left: left.data, right: right.data },
    );
    let requires_grad = left.requires_grad || right.requires_grad;
    let grad_fn = if requires_grad {
        Some(Node::Binary { tensors: (a, b), backward_fn: rule })
    } else {
        None
    };
    let z = engine.push_tensor(
        Tensor { data, requires_grad, grad: None, grad_fn, is_leaf: !requires_grad },
    );
    Ok(z)
}

impl TensorRef {
    /// The elementwise sum of two tensors of one shape.
    ///
    /// The result tracks gradients where an operand does; only then does it remember its
    /// operands. Operands of different shapes are refused, and nothing is recorded.
    pub fn add<K: Copy>(&self, engine: &mut GraphEngine<K>, other: &TensorRef) -> (r: Result<
        TensorRef,
        EngineError,
    >)
        requires
            old(engine)@.wf(),
            old(engine)@.has_tensor(*self),
            old(engine)@.has_tensor(*other),
        ensures
            final(engine)@.wf(),
            final(engine)@.keeps_data_of(old(engine)@),
            match r {
                Ok(z) => {
                    &&& old(engine)@.data_shape(*self) == old(engine)@.data_shape(*other)
                    &&& final(engine)@ == old(engine)@.with_binary(
                        *self,
                        *other,
                        BinaryBackwardFn::Add,
                    )
                    &&& z == old(engine)@.next_tensor()
                    &&& z.index == old(engine)@.tensors.len()
                    &&& final(engine)@.tensor(z).requires_grad == (old(engine)@.tensor(
                        *self,
                    ).requires_grad || old(engine)@.tensor(*other).requires_grad)
                },
                Err(e) => {
                    &&& old(engine)@.data_shape(*self) != old(engine)@.data_shape(*other)
                    &&& final(engine)@ == old(engine)@
                    &&& e matches EngineError::ShapeMismatch(shape_a, shape_b)
                    &&& shape_a@ == old(engine)@.data_shape(*self)
                    &&& shape_b@ == old(engine)@.data_shape(*other)
                },
            },
    {
        binary(engine, *self, *other, BinaryBackwardFn::Add)
    }

    /// The elementwise product of two tensors of one shape.
    ///
    /// The result tracks gradients where an operand does; only then does it remember its
    /// operands. Operands of different shapes are refused, and nothing is recorded.
    pub fn mul<K: Copy>(&self, engine: &mut GraphEngine<K>, other: &TensorRef) -> (r: Result<
        TensorRef,
        EngineError,
    >)
        requires
            old(engine)@.wf(),
            old(engine)@.has_tensor(*self),
            old(engine)@.has_tensor(*other),
        ensures
            final(engine)@.wf(),
            final(engine)@.keeps_data_of(old(engine)@),
            match r {
                Ok(z) => {
                    &&& old(engine)@.data_shape(*self) == old(engine)@.data_shape(*other)
                    &&& final(engine)@ == old(engine)@.with_binary(
                        *self,
                        *other,
                        BinaryBackwardFn::Mul,
                    )
                    &&& z == old(engine)@.next_tensor()
                    &&& z.index == old(engine)@.tensors.len()
                    &&& final(engine)@.tensor(z).requires_grad == (old(engine)@.tensor(
                        *self,
                    ).requires_grad || old(engine)@.tensor(*other).requires_grad)
                },
                Err(e) => {
                    &&& old(engine)@.data_shape(*self) != old(engine)@.data_shape(*other)
                    &&& final(engine)@ == old(engine)@
                    &&& e matches EngineError::ShapeMismatch(shape_a, shape_b)
                    &&& shape_a@ == old(engine)@.data_shape(*self)
                    &&& shape_b@ == old(engine)@.data_shape(*other)
                },
            },
    {
        binary(engine, *self, *other, BinaryBackwardFn::Mul)
    }

    /// Every element of the tensor raised to the power `exponent`.
    ///
    /// The result tracks gradients where the operand does; only then does it remember it.
    pub fn pow<K: Copy>(&self, engine: &mut GraphEngine<K>, exponent: K) -> (r: TensorRef)
        requires
            old(engine)@.wf(),
            old(engine)@.has_tensor(*self),
        ensures
            final(engine)@ == old(engine)@.with_unary(*self, UnaryBackwardFn::Pow(exponent)),
            final(engine)@.wf(),
            final(engine)@.keeps_data_of(old(engine)@),
            r == old(engine)@.next_tensor(),
            r.index == old(engine)@.tensors.len(),
            final(engine)@.tensor(r).requires_grad == old(engine)@.tensor(*self).requires_grad,
    {
        unary(engine, *self, UnaryBackwardFn::Pow(exponent))
    }

    /// The rectifier of every element of the tensor.
    ///
    /// The result tracks gradients where the operand does; only then does it remember it.
    pub fn relu<K: Copy>(&self, engine: &mut GraphEngine<K>) -> (r: TensorRef)
        requires
            old(engine)@.wf(),
            old(engine)@.has_tensor(*self),
        ensures
            final(engine)@ == old(engine)@.with_unary(*self, UnaryBackwardFn::Relu),
            final(engine)@.wf(),
            final(engine)@.keeps_data_of(old(engine)@),
            r == old(engine)@.next_tensor(),
            r.index == old(engine)@.tensors.len(),
            final(engine)@.tensor(r).requires_grad == old(engine)@.tensor(*self).requires_grad,
    {
        unary(engine, *self, UnaryBackwardFn::Relu)
    }

    /// The sigmoid of every element of the tensor.
    ///
    /// The result tracks gradients where the operand does; only then does it remember it.
    pub fn sigmoid<K: Copy>(&self, engine: &mut GraphEngine<K>) -> (r: TensorRef)
        requires
            old(engine)@.wf(),
            old(engine)@.has_tensor(*self),
        ensures
            final(engine)@ == old(engine)@.with_unary(*self, UnaryBackwardFn::Sigmoid),
            final(engine)@.wf(),
            final(engine)@.keeps_data_of(old(engine)@),
            r == old(engine)@.next_tensor(),
            r.index == old(engine)@.tensors.len(),
            final(engine)@.tensor(r).requires_grad == old(engine)@.tensor(*self).requires_grad,
    {
        unary(engine, *self, UnaryBackwardFn::Sigmoid)
    }

    /// The hyperbolic tangent of every element of the tensor.
    ///
    /// The result tracks gradients where the operand does; only then does it remember it.
    pub fn tanh<K: Copy>(&self, engine: &mut GraphEngine<K>) -> (r: TensorRef)
        requires
            old(engine)@.wf(),
            old(engine)@.has_tensor(*self),
        ensures
            final(engine)@ == old(engine)@.with_unary(*self, UnaryBackwardFn::Tanh),
            final(engine)@.wf(),
            final(engine)@.keeps_data_of(old(engine)@),
            r == old(engine)@.next_tensor(),
            r.index == old(engine)@.tensors.len(),
            final(engine)@.tensor(r).requires_grad == old(engine)@.tensor(*self).requires_grad,
    {
        unary(engine, *self, UnaryBackwardFn::Tanh)
    }

    /// The data of the tensor.
    pub fn data<K: Copy>(&self, engine: &GraphEngine<K>) -> (b: BufferRef)
        requires
            engine@.has_tensor(*self),
        ensures
            b == engine@.tensor(*self).data,
    {
        engine.tensor(*self).data
    }

    /// The gradient that the tensor has accumulated: none before the first backward pass that
    /// reaches it, and none after `zero_grad`.
    pub fn grad<K: Copy>(&self, engine: &GraphEngine<K>) -> (g: Option<BufferRef>)
        requires
            engine@.has_tensor(*self),
        ensures
            g == engine@.tensor(*self).grad,
    {
        engine.tensor(*self).grad
    }

    /// Whether gradients are tracked through the tensor.
    pub fn requires_grad<K: Copy>(&self, engine: &GraphEngine<K>) -> (r: bool)
        requires
            engine@.has_tensor(*self),
        ensures
            r == engine@.tensor(*self).requires_grad,
    {
        engine.tensor(*self).requires_grad
    }

    /// Whether no operation produced the tensor.
    pub fn is_leaf<K: Copy>(&self, engine: &GraphEngine<K>) -> (r: bool)
        requires
            engine@.has_tensor(*self),
        ensures
            r == engine@.tensor(*self).is_leaf,
    {
        engine.tensor(*self).is_leaf
    }

    /// The operation that produced the tensor, if one did.
    pub fn grad_fn<K: Copy>(&self, engine: &GraphEngine<K>) -> (n: Option<Node<K>>)
        requires
            engine@.has_tensor(*self),
        ensures
            n == engine@.tensor(*self).grad_fn,
    {
        engine.tensor(*self).grad_fn
    }
}

} // verus!
