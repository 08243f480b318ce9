//! What holds of every engine: which gradients a backward pass leaves at the leaves of the
//! basic operations, that a tensor used twice receives both gradients, that nothing changes
//! the data of a tensor, and how gradient tracking spreads.

use crate::buffer::{BinaryOp, BufferDef, BufferRef, Reading, Term, lemma_term_of_prefix};
use crate::model::{EngineView, accumulate};
use crate::tensor::{BinaryBackwardFn, Node, Tensor, TensorRef, UnaryBackwardFn};
use vstd::prelude::*;

verus! {

impl<K> EngineView<K> {
    /// Does tensor `c` hand no gradient to tensor `t`, whatever it has received itself?
    pub open spec fn hands_nothing(self, c: int, t: int) -> bool {
        ||| !self.tensors[t].requires_grad
        ||| match self.tensors[c].grad_fn {
            Some(Node::Unary { tensor, .. }) => tensor.index != t,
            Some(Node::Binary { tensors, .. }) => tensors.0.index != t && tensors.1.index != t,
            _ => true,
        }
    }

    /// Does the set hold, with each of its tensors, the operands that the tensor was made from?
    pub open spec fn holds_operands(self, live: Set<int>) -> bool {
        forall|c: int|
            0 <= c < self.tensors.len() && #[trigger] live.contains(c)
                ==> match self.tensors[c].grad_fn {
                Some(Node::Unary { tensor, .. }) => live.contains(tensor.index as int),
                Some(Node::Binary { tensors, .. }) => live.contains(tensors.0.index as int)
                    && live.contains(tensors.1.index as int),
                _ => true,
            }
    }

    /// Does `self` keep the data of every tensor of `earlier`: the same buffer, with the same
    /// value?
    pub open spec fn keeps_data_of(self, earlier: Self) -> bool {
        &&& self.keeps_buffers_of(earlier)
        &&& earlier.tensors.len() <= self.tensors.len()
        &&& forall|t: TensorRef| #[trigger]
            earlier.has_tensor(t) ==> self.tensor(t).data == earlier.tensor(t).data
    }

    /// Every operand was recorded before the tensor that was made from it. So the order from
    /// the last tensor back to the first, in which a backward pass visits the tensors, shows
    /// every tensor after all tensors that were made from it.
    pub proof fn law_operands_come_first(self, t: TensorRef)
        requires
            self.wf(),
            self.has_tensor(t),
        ensures
            match self.tensor(t).grad_fn {
                Some(Node::Unary { tensor, .. }) => tensor.index < t.index,
                Some(Node::Binary { tensors, .. }) => tensors.0.index < t.index && tensors.1.index
                    < t.index,
                Some(Node::Leaf) => false,
                None => true,
            },
    {
        assert(self.tensor_wf(t.index as int));
    }

    /// A backward pass reaches only what the output was made from: a tensor outside a set that
    /// holds the output and, with each tensor, its operands, receives no gradient.
    pub proof fn law_unreached(self, output: int, seed: Term<K>, live: Set<int>, t: int, c: int)
        requires
            self.holds_operands(live),
            live.contains(output),
            !live.contains(t),
            0 <= t,
            output < self.tensors.len(),
        ensures
            self.pending(output, seed, t, c) is None,
        decreases output - t, output + 1 - c,
    {
        if t < c <= output {
            self.law_unreached(output, seed, live, t, c + 1);
            if !live.contains(c) {
                self.law_unreached(output, seed, live, c, c + 1);
            }
        }
    }

    /// Tensors that hand nothing to `t`, or that the output was not made from, leave what `t`
    /// has received as it is.
    proof fn lemma_skip(self, output: int, seed: Term<K>, live: Set<int>, t: int, lo: int, hi: int)
        requires
            self.holds_operands(live),
            live.contains(output),
            0 <= t < lo <= hi <= output + 1,
            output < self.tensors.len(),
            forall|c: int| lo <= c < hi && live.contains(c) ==> #[trigger] self.hands_nothing(c, t),
        ensures
            self.pending(output, seed, t, lo) == self.pending(output, seed, t, hi),
        decreases hi - lo,
    {
        if lo < hi {
            self.lemma_skip(output, seed, live, t, lo + 1, hi);
            if live.contains(lo) {
                assert(self.hands_nothing(lo, t));
            } else {
                self.law_unreached(output, seed, live, lo, lo + 1);
            }
        }
    }

    /// What an operand of the output has received in all is what the output hands to it, where
    /// the operands are leaves.
    proof fn lemma_operand_of_output(
        self,
        output: TensorRef,
        seed: Term<K>,
        live: Set<int>,
        t: TensorRef,
    )
        requires
            self.wf(),
            self.has_tensor(output),
            self.holds_operands(live),
            live.contains(output.index as int),
            t.index < output.index,
            forall|c: int|
                t.index < c < output.index && live.contains(c) ==> #[trigger] self.hands_nothing(
                    c,
                    t.index as int,
                ),
        ensures
            self.upstream(output, seed, t) == self.absorb(
                None,
                output.index as int,
                seed,
                t.index as int,
            ),
    {
        let o = output.index as int;
        self.lemma_skip(o, seed, live, t.index as int, t.index + 1, o);
        assert(self.pending(o, seed, o, o + 1) == Some(seed));
        assert(self.pending(o, seed, t.index as int, o + 1) is None);
    }

    /// After a backward pass from the sum of two different leaves, each leaf that tracks
    /// gradients has had the seed added to its gradient: a leaf that had no gradient has the
    /// seed as its gradient.
    pub proof fn law_add_gradient(
        self,
        a: TensorRef,
        b: TensorRef,
        output: TensorRef,
        seed: BufferRef,
        post: Self,
    )
        requires
            self.wf(),
            self.has_tensor(output),
            self.tensor(output).grad_fn == Some(
                Node::<K>::Binary { tensors: (a, b), backward_fn: BinaryBackwardFn::Add },
            ),
            self.tensor(a).is_leaf,
            self.tensor(b).is_leaf,
            a != b,
            self.backward_to(output, seed, post),
        ensures
            self.tensor(a).requires_grad ==> post.grad_value(a) == accumulate(
                self.grad_value(a),
                self.value(seed),
            ),
            self.tensor(b).requires_grad ==> post.grad_value(b) == accumulate(
                self.grad_value(b),
                self.value(seed),
            ),
            !self.tensor(a).requires_grad ==> post.tensor(a) == self.tensor(a),
            !self.tensor(b).requires_grad ==> post.tensor(b) == self.tensor(b),
    {
        self.lemma_binary_of_leaves(a, b, output, BinaryBackwardFn::Add, self.value(seed));
        assert(self.has_tensor(a) && self.has_tensor(b));
        assert(self.settled(output, seed, post, a));
        assert(self.settled(output, seed, post, b));
    }

    /// After a backward pass from the product of two different leaves, each leaf that tracks
    /// gradients has had the product of the seed and the data of the other leaf added to its
    /// gradient: a leaf that had no gradient has that product as its gradient.
    pub proof fn law_mul_gradient(
        self,
        a: TensorRef,
        b: TensorRef,
        output: TensorRef,
        seed: BufferRef,
        post: Self,
    )
        requires
            self.wf(),
            self.has_tensor(output),
            self.tensor(output).grad_fn == Some(
                Node::<K>::Binary { tensors: (a, b), backward_fn: BinaryBackwardFn::Mul },
            ),
            self.tensor(a).is_leaf,
            self.tensor(b).is_leaf,
            a != b,
            self.backward_to(output, seed, post),
        ensures
            self.tensor(a).requires_grad ==> post.grad_value(a) == accumulate(
                self.grad_value(a),
                Term::product(self.value(seed), self.data_value(b)),
            ),
            self.tensor(b).requires_grad ==> post.grad_value(b) == accumulate(
                self.grad_value(b),
                Term::product(self.value(seed), self.data_value(a)),
            ),
            !self.tensor(a).requires_grad ==> post.tensor(a) == self.tensor(a),
            !self.tensor(b).requires_grad ==> post.tensor(b) == self.tensor(b),
    {
        self.lemma_binary_of_leaves(a, b, output, BinaryBackwardFn::Mul, self.value(seed));
        assert(self.has_tensor(a) && self.has_tensor(b));
        assert(self.settled(output, seed, post, a));
        assert(self.settled(output, seed, post, b));
    }

    /// After a backward pass from the sum or the product of a leaf with itself, the leaf has
    /// had the sum of both local gradients added to its gradient: the seed plus the seed for
    /// the sum, and twice the product of the seed and its data for the product.
    pub proof fn law_same_operand_twice(
        self,
        a: TensorRef,
        rule: BinaryBackwardFn,
        output: TensorRef,
        seed: BufferRef,
        post: Self,
    )
        requires
            self.wf(),
            self.has_tensor(output),
            self.tensor(output).grad_fn == Some(
                Node::<K>::Binary { tensors: (a, a), backward_fn: rule },
            ),
            self.tensor(a).is_leaf,
            self.backward_to(output, seed, post),
        ensures
            ({
                let g = rule.local_terms(self.value(seed), self.data_value(a), self.data_value(a));
                post.grad_value(a) == accumulate(self.grad_value(a), Term::sum(g.0, g.1))
            }),
            rule == BinaryBackwardFn::Add && self.tensor(a).grad is None ==> post.grad_value(a)
                == Some(Term::sum(self.value(seed), self.value(seed))),
            rule == BinaryBackwardFn::Mul && self.tensor(a).grad is None ==> post.grad_value(a)
                == Some(
                Term::sum(
                    Term::product(self.value(seed), self.data_value(a)),
                    Term::product(self.value(seed), self.data_value(a)),
                ),
            ),
    {
        self.lemma_binary_of_leaves(a, a, output, rule, self.value(seed));
        assert(self.tensor_wf(output.index as int));
        assert(self.has_tensor(a));
        assert(self.settled(output, seed, post, a));
    }

    /// What the leaves of a binary operation have received in all is what the operation hands
    /// to them.
    proof fn lemma_binary_of_leaves(
        self,
        a: TensorRef,
        b: TensorRef,
        output: TensorRef,
        rule: BinaryBackwardFn,
        seed: Term<K>,
    )
        requires
            self.wf(),
            self.has_tensor(output),
            self.tensor(output).grad_fn == Some(
                Node::<K>::Binary { tensors: (a, b), backward_fn: rule },
            ),
            self.tensor(a).is_leaf,
            self.tensor(b).is_leaf,
        ensures
            a.index < output.index,
            b.index < output.index,
            self.upstream(output, seed, a) == self.absorb(
                None,
                output.index as int,
                seed,
                a.index as int,
            ),
            self.upstream(output, seed, b) == self.absorb(
                None,
                output.index as int,
                seed,
                b.index as int,
            ),
    {
        let live = set![a.index as int, b.index as int, output.index as int];
        assert(self.tensor_wf(output.index as int));
        assert(self.tensor_wf(a.index as int));
        assert(self.tensor_wf(b.index as int));
        assert(self.holds_operands(live));
        self.lemma_operand_of_output(output, seed, live, a);
        self.lemma_operand_of_output(output, seed, live, b);
    }

    /// After a backward pass from a power of a leaf with the exponent `k`, the leaf has had the
    /// seed times `k` times its data to the power `k - 1` added to its gradient: a leaf that
    /// had no gradient has that as its gradient.
    pub proof fn law_pow_gradient(
        self,
        a: TensorRef,
        k: K,
        output: TensorRef,
        seed: BufferRef,
        post: Self,
    )
        requires
            self.wf(),
            self.has_tensor(output),
            self.tensor(output).grad_fn == Some(
                Node::Unary { tensor: a, backward_fn: UnaryBackwardFn::Pow(k) },
            ),
            self.tensor(a).is_leaf,
            self.backward_to(output, seed, post),
        ensures
            post.grad_value(a) == accumulate(
                self.grad_value(a),
                Term::binary(BinaryOp::PowGrad(k), self.value(seed), self.data_value(a)),
            ),
    {
        let live = set![a.index as int, output.index as int];
        assert(self.tensor_wf(output.index as int));
        assert(self.tensor_wf(a.index as int));
        assert(self.holds_operands(live));
        self.lemma_operand_of_output(output, self.value(seed), live, a);
        assert(self.has_tensor(a));
        assert(self.settled(output, seed, post, a));
    }

    /// A tensor that feeds an output along two paths receives the gradients of both: after a
    /// backward pass from `a * a + a`, where `a` is a leaf, the gradient of `a` has grown by
    /// the seed, which comes through the sum, plus the seed times `a`, once for each operand of
    /// the product. With a seed of ones that is `2 * a + 1`.
    pub proof fn law_fan_out(
        self,
        a: TensorRef,
        product: TensorRef,
        output: TensorRef,
        seed: BufferRef,
        post: Self,
    )
        requires
            self.wf(),
            self.has_tensor(output),
            self.tensor(product).grad_fn == Some(
                Node::<K>::Binary { tensors: (a, a), backward_fn: BinaryBackwardFn::Mul },
            ),
            self.tensor(output).grad_fn == Some(
                Node::<K>::Binary { tensors: (product, a), backward_fn: BinaryBackwardFn::Add },
            ),
            self.tensor(a).is_leaf,
            self.backward_to(output, seed, post),
        ensures
            post.grad_value(a) == accumulate(
                self.grad_value(a),
                Term::sum(
                    Term::sum(
                        self.value(seed),
                        Term::product(self.value(seed), self.data_value(a)),
                    ),
                    Term::product(self.value(seed), self.data_value(a)),
                ),
            ),
    {
        let s = self.value(seed);
        let o = output.index as int;
        let m = product.index as int;
        let x = a.index as int;
        let live = set![x, m, o];
        assert(self.tensor_wf(o));
        assert(self.tensor_wf(m));
        assert(self.tensor_wf(x));
        assert(self.holds_operands(live));
        assert(self.pending(o, s, o, o + 1) == Some(s));
        // The product receives the seed from the sum.
        self.lemma_skip(o, s, live, m, m + 1, o);
        assert(self.pending(o, s, m, o + 1) is None);
        assert(self.pending(o, s, m, o) == Some(s));
        // The leaf receives the seed from the sum, and twice from the product.
        self.lemma_skip(o, s, live, x, m + 1, o);
        assert(self.pending(o, s, x, o + 1) is None);
        assert(self.pending(o, s, x, o) == Some(s));
        self.lemma_skip(o, s, live, x, x + 1, m);
        assert(self.pending(o, s, x, m) == self.absorb(Some(s), m, s, x));
        assert(self.has_tensor(a));
        assert(self.settled(output, seed, post, a));
    }

    /// In exact arithmetic, and with a seed of ones, the gradient that a leaf `a` without a
    /// gradient has after a backward pass from `a * a + a` is `2 * a + 1`, at every position.
    pub proof fn law_fan_out_in_numbers(
        self,
        a: TensorRef,
        product: TensorRef,
        output: TensorRef,
        seed: BufferRef,
        post: Self,
        reading: Reading<K>,
    )
        requires
            self.wf(),
            self.has_tensor(output),
            self.tensor(product).grad_fn == Some(
                Node::<K>::Binary { tensors: (a, a), backward_fn: BinaryBackwardFn::Mul },
            ),
            self.tensor(output).grad_fn == Some(
                Node::<K>::Binary { tensors: (product, a), backward_fn: BinaryBackwardFn::Add },
            ),
            self.tensor(a).is_leaf,
            self.tensor(a).grad is None,
            self.backward_to(output, seed, post),
            self.value(seed).read(reading) == 1,
        ensures
            post.grad_value(a) matches Some(g) && g.read(reading) == 2 * self.data_value(a).read(
                reading,
            ) + 1,
    {
        self.law_fan_out(a, product, output, seed, post);
        let s = self.value(seed);
        let x = self.data_value(a);
        let g = Term::sum(Term::sum(s, Term::product(s, x)), Term::product(s, x));
        assert(post.grad_value(a) == Some(g));
        assert(Term::product(s, x).read(reading) == s.read(reading) * x.read(reading));
        assert(Term::sum(s, Term::product(s, x)).read(reading) == s.read(reading) + Term::product(
            s,
            x,
        ).read(reading));
        assert(g.read(reading) == Term::sum(s, Term::product(s, x)).read(reading) + Term::product(
            s,
            x,
        ).read(reading));
    }

    /// Recording a buffer or a tensor, and applying an operation, keep the data of every tensor.
    pub proof fn law_operations_keep_data(
        self,
        shape: Seq<usize>,
        data: BufferRef,
        requires_grad: bool,
        a: TensorRef,
        b: TensorRef,
        unary: UnaryBackwardFn<K>,
        binary: BinaryBackwardFn,
    )
        ensures
            self.with_buffer(shape, BufferDef::Input).keeps_data_of(self),
            self.with_leaf(data, requires_grad).keeps_data_of(self),
            self.with_unary(a, unary).keeps_data_of(self),
            self.with_binary(a, b, binary).keeps_data_of(self),
    {
    }

    /// A backward pass keeps the data of every tensor.
    pub proof fn law_backward_keeps_data(self, output: TensorRef, seed: BufferRef, post: Self)
        requires
            self.backward_to(output, seed, post),
        ensures
            post.keeps_data_of(self),
    {
        assert forall|t: TensorRef| #[trigger] self.has_tensor(t) implies post.tensor(t).data
            == self.tensor(t).data by {
            assert(self.settled(output, seed, post, t));
        }
    }

    /// Data that is kept step by step is kept in all.
    pub proof fn law_keeps_data_transitive(self, middle: Self, last: Self)
        requires
            middle.keeps_data_of(self),
            last.keeps_data_of(middle),
        ensures
            last.keeps_data_of(self),
    {
        assert forall|t: TensorRef| #[trigger] self.has_tensor(t) implies last.tensor(t).data
            == self.tensor(t).data by {
            assert(middle.has_tensor(t));
        }
    }

    /// Data that is kept has the value that it had.
    pub proof fn law_kept_data_value(self, later: Self, t: TensorRef)
        requires
            self.wf(),
            later.keeps_data_of(self),
            self.has_tensor(t),
        ensures
            later.data_value(t) == self.data_value(t),
            later.data_shape(t) == self.data_shape(t),
    {
        assert(self.tensor_wf(t.index as int));
        lemma_term_of_prefix(self.defs, later.defs, self.tensor(t).data.index as int);
    }

    /// The result of an operation tracks gradients exactly when an operand does, and it has a
    /// node exactly then: the result of operands that do not is a leaf.
    pub proof fn law_requires_grad_spreads(
        self,
        a: TensorRef,
        b: TensorRef,
        unary: UnaryBackwardFn<K>,
        binary: BinaryBackwardFn,
    )
        ensures
            ({
                let made = self.with_binary(a, b, binary).tensors.last();
                &&& made.requires_grad == (self.tensor(a).requires_grad || self.tensor(
                    b,
                ).requires_grad)
                &&& made.grad_fn is Some == made.requires_grad
                &&& made.is_leaf == !made.requires_grad
            }),
            ({
                let made = self.with_unary(a, unary).tensors.last();
                &&& made.requires_grad == self.tensor(a).requires_grad
                &&& made.grad_fn is Some == made.requires_grad
                &&& made.is_leaf == !made.requires_grad
            }),
    {
    }
}

} // verus!
