//! The mathematical model of an engine: what it holds, when that is well formed, what an
//! operation adds to it, and which gradient each tensor is owed by a backward pass.

use crate::buffer::{BufferDef, BufferRef, Term, is_prefix, lemma_term_of_prefix, term_of};
use crate::tensor::{BinaryBackwardFn, Node, Tensor, TensorRef, UnaryBackwardFn};
use vstd::prelude::*;

verus! {

/// What an engine holds: the shape and the definition of every buffer, and every tensor.
pub struct EngineView<K> {
    pub shapes: Seq<Seq<usize>>,
    pub defs: Seq<BufferDef<K>>,
    pub tensors: Seq<Tensor<K>>,
}

/// A gradient after one more contribution: the contribution itself where nothing was there,
/// else the sum of what was there and the contribution.
pub open spec fn accumulate<K>(prev: Option<Term<K>>, g: Term<K>) -> Option<Term<K>> {
    Some(
        match prev {
            None => g,
            Some(p) => Term::sum(p, g),
        },
    )
}

impl<K> EngineView<K> {
    /// An engine without buffers and tensors.
    pub open spec fn empty() -> Self {
        EngineView { shapes: Seq::empty(), defs: Seq::empty(), tensors: Seq::empty() }
    }

    /// Does the handle name a buffer of this engine?
    pub open spec fn has_buffer(self, b: BufferRef) -> bool {
        b.index < self.defs.len()
    }

    /// Does the handle name a tensor of this engine?
    pub open spec fn has_tensor(self, t: TensorRef) -> bool {
        t.index < self.tensors.len()
    }

    /// The shape of a buffer.
    pub open spec fn shape(self, b: BufferRef) -> Seq<usize> {
        self.shapes[b.index as int]
    }

    /// The value of a buffer as an expression over the supplied buffers.
    pub open spec fn value(self, b: BufferRef) -> Term<K> {
        term_of(self.defs, b.index as int)
    }

    /// The record of a tensor.
    pub open spec fn tensor(self, t: TensorRef) -> Tensor<K> {
        self.tensors[t.index as int]
    }

    /// The shape of the data of a tensor.
    pub open spec fn data_shape(self, t: TensorRef) -> Seq<usize> {
        self.shape(self.tensor(t).data)
    }

    /// The value of the data of a tensor.
    pub open spec fn data_value(self, t: TensorRef) -> Term<K> {
        self.value(self.tensor(t).data)
    }

    /// The value of the gradient that a tensor has accumulated, if any.
    pub open spec fn grad_value(self, t: TensorRef) -> Option<Term<K>> {
        match self.tensor(t).grad {
            Some(g) => Some(self.value(g)),
            None => None,
        }
    }

    /// A definition refers to earlier buffers, and they have the shape of the buffer it defines.
    pub open spec fn def_wf(self, b: int) -> bool {
        match self.defs[b] {
            BufferDef::Input => true,
            BufferDef::Unary { op, input } => {
                &&& input.index < b
                &&& self.shapes[input.index as int] == self.shapes[b]
            },
            BufferDef::Binary { op, left, right } => {
                &&& left.index < b
                &&& right.index < b
                &&& self.shapes[left.index as int] == self.shapes[b]
                &&& self.shapes[right.index as int] == self.shapes[b]
            },
        }
    }

    /// A tensor's buffers exist, its gradient has the shape of its data, it is a leaf exactly
    /// when it has no node, and a node belongs to a tensor that tracks gradients, names earlier
    /// tensors, of which one tracks gradients, and agrees with the definition of the data.
    pub open spec fn tensor_wf(self, t: int) -> bool {
        let x = self.tensors[t];
        &&& x.data.index < self.defs.len()
        &&& x.grad matches Some(g) ==> g.index < self.defs.len() && self.shape(g) == self.shape(
            x.data,
        )
        &&& x.is_leaf == (x.grad_fn is None)
        &&& match x.grad_fn {
            None => true,
            Some(Node::Leaf) => false,
            Some(Node::Unary { tensor, backward_fn }) => {
                &&& x.requires_grad
                &&& self.tensor(tensor).requires_grad
                &&& tensor.index < t
                &&& self.defs[x.data.index as int] == (BufferDef::Unary {
                    op: backward_fn.forward(),
                    input: self.tensor(tensor).data,
                })
            },
            Some(Node::Binary { tensors, backward_fn }) => {
                &&& x.requires_grad
                &&& self.tensor(tensors.0).requires_grad || self.tensor(tensors.1).requires_grad
                &&& tensors.0.index < t
                &&& tensors.1.index < t
                &&& self.defs[x.data.index as int] == (BufferDef::Binary {
                    op: backward_fn.forward::<K>(),
                    left: self.tensor(tensors.0).data,
                    right: self.tensor(tensors.1).data,
                })
            },
        }
    }

    /// Is the engine well formed? There is a shape for every definition, and every definition
    /// and every tensor is well formed.
    pub open spec fn wf(self) -> bool {
        &&& self.shapes.len() == self.defs.len()
        &&& forall|b: int| 0 <= b < self.defs.len() ==> #[trigger] self.def_wf(b)
        &&& forall|t: int| 0 <= t < self.tensors.len() ==> #[trigger] self.tensor_wf(t)
    }

    /// The engine with one more buffer.
    pub open spec fn with_buffer(self, shape: Seq<usize>, def: BufferDef<K>) -> Self {
        EngineView { shapes: self.shapes.push(shape), defs: self.defs.push(def), ..self }
    }

    /// The engine with one more tensor.
    pub open spec fn with_tensor(self, tensor: Tensor<K>) -> Self {
        EngineView { tensors: self.tensors.push(tensor), ..self }
    }

    /// The handle that the next buffer gets.
    pub open spec fn next_buffer(self) -> BufferRef {
        BufferRef { index: self.defs.len() as usize }
    }

    /// The handle that the next tensor gets.
    pub open spec fn next_tensor(self) -> TensorRef {
        TensorRef { index: self.tensors.len() as usize }
    }

    /// The engine with one more tensor, a leaf over `data`.
    pub open spec fn with_leaf(self, data: BufferRef, requires_grad: bool) -> Self {
        self.with_tensor(
            Tensor { data, requires_grad, grad: None, grad_fn: None, is_leaf: true },
        )
    }

    /// The engine after an operation on `a`: one more buffer, the result of the operation on the
    /// data of `a`, and one more tensor over it, which tracks gradients where `a` does and has a
    /// node only then.
    pub open spec fn with_unary(self, a: TensorRef, rule: UnaryBackwardFn<K>) -> Self {
        let requires_grad = self.tensor(a).requires_grad;
        self.with_buffer(
            self.data_shape(a),
            BufferDef::Unary { op: rule.forward(), input: self.tensor(a).data },
        ).with_tensor(
            Tensor {
                data: self.next_buffer(),
                requires_grad,
                grad: None,
                grad_fn: if requires_grad {
                    Some(Node::Unary { tensor: a, backward_fn: rule })
                } else {
                    None
                },
                is_leaf: !requires_grad,
            },
        )
    }

    /// The engine after an operation on `a` and `b`: one more buffer, the result of the
    /// operation on the data of `a` and of `b`, and one more tensor over it, which tracks
    /// gradients where `a` or `b` does and has a node only then.
    pub open spec fn with_binary(self, a: TensorRef, b: TensorRef, rule: BinaryBackwardFn) -> Self {
        let requires_grad = self.tensor(a).requires_grad || self.tensor(b).requires_grad;
        self.with_buffer(
            self.data_shape(a),
            BufferDef::Binary {
                op: rule.forward(),
                left: self.tensor(a).data,
                right: self.tensor(b).data,
            },
        ).with_tensor(
            Tensor {
                data: self.next_buffer(),
                requires_grad,
                grad: None,
                grad_fn: if requires_grad {
                    Some(Node::Binary { tensors: (a, b), backward_fn: rule })
                } else {
                    None
                },
                is_leaf: !requires_grad,
            },
        )
    }

    /// Does `self` hold every buffer of `earlier`, under the same handle?
    pub open spec fn keeps_buffers_of(self, earlier: Self) -> bool {
        &&& is_prefix(earlier.shapes, self.shapes)
        &&& is_prefix(earlier.defs, self.defs)
    }

    /// Does `self` hold every buffer of `earlier`, under the same handle, and beyond them only
    /// buffers that are computed from others, none that a caller would have to supply?
    pub open spec fn adds_computed_to(self, earlier: Self) -> bool {
        &&& self.keeps_buffers_of(earlier)
        &&& forall|b: int|
            earlier.defs.len() <= b < self.defs.len() ==> !(#[trigger] self.defs[b] is Input)
    }

    /// What tensor `t`, which has received `prev` so far, has received once the tensor `c`
    /// has handed its gradient `u` on to its operands. A tensor that does not track gradients
    /// receives nothing. An operation hands each operand its local gradient, the left operand
    /// first; a tensor that is both operands receives both.
    pub open spec fn absorb(self, prev: Option<Term<K>>, c: int, u: Term<K>, t: int) -> Option<
        Term<K>,
    > {
        if !self.tensors[t].requires_grad {
            prev
        } else {
            match self.tensors[c].grad_fn {
                Some(Node::Unary { tensor, backward_fn }) => {
                    if tensor.index == t {
                        accumulate(
                            prev,
                            backward_fn.local_term(
                                u,
                                self.data_value(tensor),
                                self.value(self.tensors[c].data),
                            ),
                        )
                    } else {
                        prev
                    }
                },
                Some(Node::Binary { tensors, backward_fn }) => {
                    let g = backward_fn.local_terms(
                        u,
                        self.data_value(tensors.0),
                        self.data_value(tensors.1),
                    );
                    let first = if tensors.0.index == t {
                        accumulate(prev, g.0)
                    } else {
                        prev
                    };
                    if tensors.1.index == t {
                        accumulate(first, g.1)
                    } else {
                        first
                    }
                },
                _ => prev,
            }
        }
    }

    /// What tensor `t` has received from the tensors `c`, `c + 1`, .., `output`, in a backward
    /// pass from `output` with the gradient `seed`. The output receives the seed. Then the
    /// tensors hand their gradients on one after the other, the latest tensor first, each after
    /// all that were made from it: a tensor hands on what it has received from all later ones.
    pub open spec fn pending(self, output: int, seed: Term<K>, t: int, c: int) -> Option<Term<K>>
        decreases output - t, output + 1 - c,
    {
        if t < c <= output {
            let prev = self.pending(output, seed, t, c + 1);
            match self.pending(output, seed, c, c + 1) {
                Some(u) => self.absorb(prev, c, u, t),
                None => prev,
            }
        } else if t == output {
            Some(seed)
        } else {
            None
        }
    }

    /// What a tensor receives from another depends on the tensors and on the values of their
    /// data alone: an engine that keeps both lets it receive the same.
    pub proof fn lemma_absorb_kept(
        self,
        later: Self,
        prev: Option<Term<K>>,
        c: int,
        u: Term<K>,
        t: int,
    )
        requires
            self.wf(),
            later.keeps_buffers_of(self),
            later.tensors == self.tensors,
            0 <= c < self.tensors.len(),
        ensures
            later.absorb(prev, c, u, t) == self.absorb(prev, c, u, t),
    {
        assert(self.tensor_wf(c));
        lemma_term_of_prefix(self.defs, later.defs, self.tensors[c].data.index as int);
        match self.tensors[c].grad_fn {
            Some(Node::Unary { tensor, backward_fn }) => {
                assert(self.tensor_wf(tensor.index as int));
                lemma_term_of_prefix(self.defs, later.defs, self.tensor(tensor).data.index as int);
            },
            Some(Node::Binary { tensors, backward_fn }) => {
                assert(self.tensor_wf(tensors.0.index as int));
                assert(self.tensor_wf(tensors.1.index as int));
                lemma_term_of_prefix(
                    self.defs,
                    later.defs,
                    self.tensor(tensors.0).data.index as int,
                );
                lemma_term_of_prefix(
                    self.defs,
                    later.defs,
                    self.tensor(tensors.1).data.index as int,
                );
            },
            _ => {},
        }
    }

    /// The whole gradient of tensor `t` in a backward pass from `output` with the gradient
    /// `seed`: what `t` has received from all later tensors. `None` where the output does not
    /// depend on `t` through tensors that track gradients.
    pub open spec fn upstream(self, output: TensorRef, seed: Term<K>, t: TensorRef) -> Option<
        Term<K>,
    > {
        self.pending(output.index as int, seed, t.index as int, t.index + 1)
    }

    /// The gradient that tensor `t` keeps from a backward pass from `output` with the gradient
    /// `seed`: its whole gradient, if it is a leaf that tracks gradients.
    pub open spec fn deposit(self, output: TensorRef, seed: Term<K>, t: TensorRef) -> Option<
        Term<K>,
    > {
        if self.tensor(t).is_leaf && self.tensor(t).requires_grad {
            self.upstream(output, seed, t)
        } else {
            None
        }
    }

    /// Has tensor `t` in `post` what a backward pass on `self` from `output` with the seed
    /// `seed` owes it? It is what it was but for its gradient, and its gradient is what it was,
    /// with its deposit added where it has one.
    pub open spec fn settled(self, output: TensorRef, seed: BufferRef, post: Self, t: TensorRef) -> bool {
        &&& post.tensor(t) == Tensor { grad: post.tensor(t).grad, ..self.tensor(t) }
        &&& match self.deposit(output, self.value(seed), t) {
            Some(g) => post.grad_value(t) == accumulate(self.grad_value(t), g),
            None => post.tensor(t).grad == self.tensor(t).grad,
        }
    }

    /// Is `post` the engine `self` after a backward pass from `output` with the seed `seed`?
    /// The buffers of `self` are kept, every further buffer is computed from others, there are
    /// as many tensors as before, and each has what the pass owes it.
    pub open spec fn backward_to(self, output: TensorRef, seed: BufferRef, post: Self) -> bool {
        &&& post.adds_computed_to(self)
        &&& post.tensors.len() == self.tensors.len()
        &&& forall|t: TensorRef| #[trigger]
            self.has_tensor(t) ==> self.settled(output, seed, post, t)
    }
}

} // verus!
