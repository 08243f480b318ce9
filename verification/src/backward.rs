//! The backward pass: from an output and the gradient handed to it, the gradients of the
//! leaves it was computed from.

use crate::buffer::{BinaryOp, BufferDef, BufferRef, Term, lemma_term_of_prefix, opt_term_of};
use crate::engine::{GraphEngine, copy_shape, same_shape};
use crate::error::EngineError;
use crate::model::{EngineView, accumulate};
use crate::tensor::{LocalGradient, Node, Tensor, TensorRef};
use vstd::prelude::*;

verus! {

/// Does each gradient that is pending for a tensor exist, with the shape of the tensor's data?
pub open spec fn pending_fits<K>(e: EngineView<K>, pending: Seq<Option<BufferRef>>) -> bool {
    forall|t: int|
        0 <= t < pending.len() ==> (#[trigger] pending[t] matches Some(g) ==> g.index
            < e.defs.len() && e.shapes[g.index as int] == e.shapes[e.tensors[t].data.index as int])
}

/// Buffers that are kept keep their values.
pub proof fn lemma_kept_values<K>(earlier: EngineView<K>, later: EngineView<K>)
    requires
        later.keeps_buffers_of(earlier),
    ensures
        forall|b: BufferRef| #[trigger]
            earlier.has_buffer(b) ==> later.value(b) == earlier.value(b),
{
    assert forall|b: BufferRef| #[trigger] earlier.has_buffer(b) implies later.value(b)
        == earlier.value(b) by {
        lemma_term_of_prefix(earlier.defs, later.defs, b.index as int);
    }
}

impl<K: Copy> GraphEngine<K> {
    /// Hands the local gradient `local` of a tensor whose gradient is `upstream` to its operand
    /// `target`: the first gradient that an operand receives is kept as it is, a later one is
    /// added to what is there.
    fn hand_on(
        &mut self,
        pending: &mut Vec<Option<BufferRef>>,
        target: TensorRef,
        upstream: BufferRef,
        local: LocalGradient<K>,
    )
        requires
            old(self)@.wf(),
            target.index < old(pending).len() <= old(self)@.tensors.len(),
            pending_fits(old(self)@, old(pending)@),
            old(self)@.has_buffer(upstream),
            old(self)@.shape(upstream) == old(self)@.data_shape(target),
            local matches LocalGradient::Computed(def) ==> {
                &&& def matches BufferDef::Binary { op, left, right }
                &&& old(self)@.has_buffer(left)
                &&& old(self)@.has_buffer(right)
                &&& old(self)@.shape(left) == old(self)@.data_shape(target)
                &&& old(self)@.shape(right) == old(self)@.data_shape(target)
            },
        ensures
            final(self)@.wf(),
            final(self)@.adds_computed_to(old(self)@),
            final(self)@.tensors == old(self)@.tensors,
            final(pending).len() == old(pending).len(),
            pending_fits(final(self)@, final(pending)@),
            forall|t: int|
                0 <= t < old(pending).len() && t != target.index ==> final(pending)@[t] == old(
                    pending,
                )@[t],
            opt_term_of(final(self)@.defs, final(pending)@[target.index as int]) == accumulate(
                opt_term_of(old(self)@.defs, old(pending)@[target.index as int]),
                local.term(old(self)@.defs, upstream),
            ),
    {
        let ghost pre = self@;
        let ghost before = pending@;
        proof {
            assert(pre.tensor_wf(target.index as int));
        }
        let data = self.tensor(target).data;
        let gradient = match local {
            LocalGradient::Upstream => upstream,
            LocalGradient::Computed(def) => {
                let shape = copy_shape(self.buffer_shape(data));
                self.push_buffer(shape, def)
            },
        };
        let ghost mid = self@;
        proof {
            lemma_kept_values(pre, mid);
            assert(mid.value(gradient) == local.term(pre.defs, upstream)) by {
                match local {
                    LocalGradient::Upstream => {},
                    LocalGradient::Computed(def) => {
                        assert(mid.defs[gradient.index as int] == def);
                        match def {
                            BufferDef::Binary { op, left, right } => {
                                assert(pre.has_buffer(left));
                                assert(pre.has_buffer(right));
                                assert(mid.value(left) == pre.value(left));
                                assert(mid.value(right) == pre.value(right));
                            },
                            _ => {},
                        }
                    },
                }
            }
            assert(before[target.index as int] matches Some(p) ==> pre.has_buffer(p));
        }
        let sum = match pending[target.index] {
            None => gradient,
            Some(earlier) => {
                let shape = copy_shape(self.buffer_shape(data));
                self.push_buffer(
                    shape,
                    BufferDef::Binary { op: BinaryOp::Add, left: earlier, right: gradient },
                )
            },
        };
        pending.set(target.index, Some(sum));
        proof {
            let post = self@;
            lemma_kept_values(mid, post);
            lemma_kept_values(pre, post);
            match before[target.index as int] {
                None => {},
                Some(earlier) => {
                    assert(pre.has_buffer(earlier));
                    assert(mid.has_buffer(earlier));
                    assert(mid.has_buffer(gradient));
                    assert(post.value(earlier) == pre.value(earlier));
                    assert(post.value(gradient) == mid.value(gradient));
                    assert(post.defs[sum.index as int] == (BufferDef::Binary {
                        op: BinaryOp::<K>::Add,
                        left: earlier,
                        right: gradient,
                    }));
                    assert(post.value(sum) == Term::sum(post.value(earlier), post.value(gradient)));
                },
            }
            assert forall|t: int| 0 <= t < pending@.len() implies (#[trigger] pending@[t] matches Some(
                g,
            ) ==> g.index < post.defs.len() && post.shapes[g.index as int]
                == post.shapes[post.tensors[t].data.index as int]) by {
                assert(pre.tensor_wf(t));
                if t != target.index {
                    assert(pending@[t] == before[t]);
                }
            }
        }
    }

    /// Lets the tensor `consumer`, whose gradient is `upstream`, hand its local gradients on to
    /// the operands that track gradients.
    fn hand_down(
        &mut self,
        pending: &mut Vec<Option<BufferRef>>,
        consumer: TensorRef,
        upstream: BufferRef,
    )
        requires
            old(self)@.wf(),
            consumer.index < old(pending).len() <= old(self)@.tensors.len(),
            pending_fits(old(self)@, old(pending)@),
            old(pending)@[consumer.index as int] == Some(upstream),
        ensures
            final(self)@.wf(),
            final(self)@.adds_computed_to(old(self)@),
            final(self)@.tensors == old(self)@.tensors,
            final(pending).len() == old(pending).len(),
            pending_fits(final(self)@, final(pending)@),
            forall|t: int|
                consumer.index <= t < old(pending).len() ==> final(pending)@[t] == old(
                    pending,
                )@[t],
            forall|t: int|
                0 <= t < consumer.index ==> opt_term_of(
                    final(self)@.defs,
                    #[trigger] final(pending)@[t],
                ) == old(self)@.absorb(
                    opt_term_of(old(self)@.defs, old(pending)@[t]),
                    consumer.index as int,
                    old(self)@.value(upstream),
                    t,
                ),
    {
        let ghost pre = self@;
        let ghost before = pending@;
        let ghost k = consumer.index as int;
        let ghost u = pre.value(upstream);
        let made = self.tensor(consumer);
        proof {
            assert(pre.tensor_wf(k));
            assert(pre.has_buffer(upstream));
            assert(pre.def_wf(made.data.index as int));
        }
        match made.grad_fn {
            Some(Node::Unary { tensor, backward_fn }) => {
                let operand = self.tensor(tensor);
                proof {
                    assert(pre.tensor_wf(tensor.index as int));
                }
                let local = backward_fn.backward(upstream, operand.data, made.data);
                if operand.requires_grad {
                    self.hand_on(pending, tensor, upstream, local);
                }
                proof {
                    let post = self@;
                    lemma_kept_values(pre, post);
                    let g = local.term(pre.defs, upstream);
                    assert(g == backward_fn.local_term(
                        u,
                        pre.data_value(tensor),
                        pre.value(made.data),
                    ));
                    assert forall|t: int| 0 <= t < k implies opt_term_of(
                        post.defs,
                        #[trigger] pending@[t],
                    ) == pre.absorb(opt_term_of(pre.defs, before[t]), k, u, t) by {
                        assert(before[t] matches Some(b) ==> pre.has_buffer(b));
                        if operand.requires_grad && t == tensor.index {
                        } else {
                            assert(pending@[t] == before[t]);
                        }
                    }
                }
            },
            Some(Node::Binary { tensors, backward_fn }) => {
                let left = self.tensor(tensors.0);
                let right = self.tensor(tensors.1);
                proof {
                    assert(pre.tensor_wf(tensors.0.index as int));
                    assert(pre.tensor_wf(tensors.1.index as int));
                }
                let local = backward_fn.backward::<K>(upstream, left.data, right.data);
                if left.requires_grad {
                    self.hand_on(pending, tensors.0, upstream, local.0);
                }
                let ghost halfway = self@;
                let ghost between = pending@;
                proof {
                    lemma_kept_values(pre, halfway);
                    assert(pre.has_buffer(left.data));
                    assert(pre.has_buffer(right.data));
                    assert(halfway.value(upstream) == pre.value(upstream));
                    assert(halfway.value(left.data) == pre.value(left.data));
                    assert(halfway.value(right.data) == pre.value(right.data));
                    assert(halfway.shape(upstream) == pre.shape(upstream));
                    assert(halfway.shape(left.data) == pre.shape(left.data));
                    assert(halfway.shape(right.data) == pre.shape(right.data));
                    assert(halfway.tensor_wf(tensors.1.index as int));
                }
                if right.requires_grad {
                    self.hand_on(pending, tensors.1, upstream, local.1);
                }
                proof {
                    let post = self@;
                    lemma_kept_values(pre, post);
                    lemma_kept_values(halfway, post);
                    let g = backward_fn.local_terms(
                        u,
                        pre.data_value(tensors.0),
                        pre.data_value(tensors.1),
                    );
                    assert(local.0.term(pre.defs, upstream) == g.0);
                    assert(local.1.term(pre.defs, upstream) == g.1);
                    assert(local.1.term(halfway.defs, upstream) == g.1);
                    assert forall|t: int| 0 <= t < k implies opt_term_of(
                        post.defs,
                        #[trigger] pending@[t],
                    ) == pre.absorb(opt_term_of(pre.defs, before[t]), k, u, t) by {
                        let prev = opt_term_of(pre.defs, before[t]);
                        assert(before[t] matches Some(b) ==> pre.has_buffer(b));
                        assert(between[t] matches Some(b) ==> halfway.has_buffer(b));
                        let first = if left.requires_grad && t == tensors.0.index {
                            accumulate(prev, g.0)
                        } else {
                            prev
                        };
                        assert(opt_term_of(halfway.defs, between[t]) == first) by {
                            if left.requires_grad && t == tensors.0.index {
                            } else {
                                assert(between[t] == before[t]);
                            }
                        }
                        let second = if right.requires_grad && t == tensors.1.index {
                            accumulate(first, g.1)
                        } else {
                            first
                        };
                        assert(opt_term_of(post.defs, pending@[t]) == second) by {
                            if right.requires_grad && t == tensors.1.index {
                            } else {
                                assert(pending@[t] == between[t]);
                            }
                        }
                    }
                }
            },
            _ => {
                proof {
                    assert forall|t: int| 0 <= t < k implies opt_term_of(
                        pre.defs,
                        #[trigger] pending@[t],
                    ) == pre.absorb(opt_term_of(pre.defs, before[t]), k, u, t) by {}
                }
            },
        }
    }

    /// Sweeps from the output back to the first tensor: each tensor that has received a
    /// gradient hands it on to the operands that it was made from. Returns, for each tensor up
    /// to the output, the gradient that it has received in all.
    fn propagate(&mut self, output: TensorRef, seed: BufferRef) -> (pending: Vec<Option<BufferRef>>)
        requires
            old(self)@.wf(),
            old(self)@.has_tensor(output),
            old(self)@.has_buffer(seed),
            old(self)@.shape(seed) == old(self)@.data_shape(output),
        ensures
            final(self)@.wf(),
            final(self)@.adds_computed_to(old(self)@),
            final(self)@.tensors == old(self)@.tensors,
            pending.len() == output.index + 1,
            pending_fits(final(self)@, pending@),
            forall|t: int|
                0 <= t <= output.index ==> opt_term_of(final(self)@.defs, #[trigger] pending@[t])
                    == old(self)@.pending(
                    output.index as int,
                    old(self)@.value(seed),
                    t,
                    t + 1,
                ),
    {
        let ghost pre = self@;
        let ghost o = output.index as int;
        let ghost s = pre.value(seed);
        let count = self.tensor_count();
        assert(output.index < count);
        let mut pending: Vec<Option<BufferRef>> = Vec::new();
        let mut i: usize = 0;
        while i < output.index
            invariant
                i <= output.index,
                pending.len() == i,
                forall|t: int| 0 <= t < i ==> #[trigger] pending@[t] is None,
            decreases output.index - i,
        {
            pending.push(None);
            i = i + 1;
        }
        pending.push(Some(seed));
        let mut c: usize = output.index + 1;
        while c > 0
            invariant
                pre.wf(),
                pre.has_tensor(output),
                o == output.index,
                s == pre.value(seed),
                c <= o + 1,
                self@.wf(),
                self@.adds_computed_to(pre),
                self@.tensors == pre.tensors,
                pending.len() == o + 1,
                pending_fits(self@, pending@),
                forall|t: int|
                    0 <= t < c ==> opt_term_of(self@.defs, #[trigger] pending@[t]) == pre.pending(
                        o,
                        s,
                        t,
                        c as int,
                    ),
                forall|t: int|
                    c <= t <= o ==> opt_term_of(self@.defs, #[trigger] pending@[t]) == pre.pending(
                        o,
                        s,
                        t,
                        t + 1,
                    ),
            decreases c,
        {
            c = c - 1;
            let ghost at_entry = self@;
            let ghost before = pending@;
            let ghost k = c as int;
            match pending[c] {
                None => {},
                Some(upstream) => {
                    self.hand_down(&mut pending, TensorRef { index: c }, upstream);
                },
            }
            proof {
                let now = self@;
                lemma_kept_values(at_entry, now);
                assert(opt_term_of(at_entry.defs, before[k]) == pre.pending(o, s, k, k + 1));
                assert forall|t: int| 0 <= t < k implies opt_term_of(
                    now.defs,
                    #[trigger] pending@[t],
                ) == pre.pending(o, s, t, k) by {
                    let prev = pre.pending(o, s, t, k + 1);
                    assert(opt_term_of(at_entry.defs, before[t]) == prev);
                    match before[k] {
                        None => {
                            assert(pending@[t] == before[t]);
                            assert(before[t] matches Some(g) ==> at_entry.has_buffer(g));
                        },
                        Some(upstream) => {
                            let u = at_entry.value(upstream);
                            pre.lemma_absorb_kept(at_entry, prev, k, u, t);
                        },
                    }
                }
                assert forall|t: int| k <= t <= o implies opt_term_of(
                    now.defs,
                    #[trigger] pending@[t],
                ) == pre.pending(o, s, t, t + 1) by {
                    assert(pending@[t] == before[t]);
                    assert(before[t] matches Some(g) ==> at_entry.has_buffer(g));
                }
            }
        }
        pending
    }

    /// Adds the gradient `g` to what the tensor `t` has accumulated.
    fn deposit(&mut self, t: TensorRef, g: BufferRef)
        requires
            old(self)@.wf(),
            old(self)@.has_tensor(t),
            old(self)@.has_buffer(g),
            old(self)@.shape(g) == old(self)@.data_shape(t),
        ensures
            final(self)@.wf(),
            final(self)@.adds_computed_to(old(self)@),
            final(self)@.tensors.len() == old(self)@.tensors.len(),
            forall|i: int|
                0 <= i < old(self)@.tensors.len() && i != t.index ==> final(self)@.tensors[i]
                    == old(self)@.tensors[i],
            final(self)@.tensor(t) == (Tensor {
                grad: final(self)@.tensor(t).grad,
                ..old(self)@.tensor(t)
            }),
            final(self)@.grad_value(t) == accumulate(
                old(self)@.grad_value(t),
                old(self)@.value(g),
            ),
    {
        let ghost pre = self@;
        proof {
            assert(pre.tensor_wf(t.index as int));
        }
        let tensor = self.tensor(t);
        let total = match tensor.grad {
            None => g,
            Some(earlier) => {
                let shape = copy_shape(self.buffer_shape(tensor.data));
                self.push_buffer(
                    shape,
                    BufferDef::Binary { op: BinaryOp::Add, left: earlier, right: g },
                )
            },
        };
        let ghost mid = self@;
        self.set_grad(t, Some(total));
        proof {
            let post = self@;
            lemma_kept_values(pre, mid);
            match pre.tensor(t).grad {
                None => {},
                Some(earlier) => {
                    assert(pre.has_buffer(earlier));
                    assert(pre.has_buffer(g));
                    assert(mid.defs[total.index as int] == (BufferDef::Binary {
                        op: BinaryOp::<K>::Add,
                        left: earlier,
                        right: g,
                    }));
                    assert(mid.value(total) == Term::sum(mid.value(earlier), mid.value(g)));
                },
            }
        }
    }

    /// Computes the gradients of `output` with respect to the leaves it was made from, given
    /// the gradient `seed` of the output itself.
    ///
    /// The tensors are visited from the output back to the first one, so that a tensor hands
    /// its gradient on only after every tensor that was made from it has handed on its own. A
    /// tensor that is reached along several paths receives the sum of what arrives along each.
    /// Every leaf that tracks gradients and is reached then adds what it has received to the
    /// gradient it has accumulated. The gradients are recorded as new buffers.
    ///
    /// An output that does not track gradients is refused, and then a seed whose shape is not
    /// that of the output; nothing is changed in either case.
    pub fn backward(&mut self, output: TensorRef, seed: BufferRef) -> (r: Result<(), EngineError>)
        requires
            old(self)@.wf(),
            old(self)@.has_tensor(output),
            old(self)@.has_buffer(seed),
        ensures
            final(self)@.wf(),
            final(self)@.keeps_data_of(old(self)@),
            match r {
                Ok(_) => {
                    &&& old(self)@.tensor(output).requires_grad
                    &&& old(self)@.shape(seed) == old(self)@.data_shape(output)
                    &&& old(self)@.backward_to(output, seed, final(self)@)
                },
                Err(e) => {
                    &&& final(self)@ == old(self)@
                    &&& if !old(self)@.tensor(output).requires_grad {
                        e is NotDifferentiable
                    } else {
                        old(self)@.shape(seed) != old(self)@.data_shape(output)
                            && e is SeedShapeMismatch
                    }
                },
            },
    {
        let ghost pre = self@;
        proof {
            assert(pre.tensor_wf(output.index as int));
        }
        let root = self.tensor(output);
        if !root.requires_grad {
            return Err(EngineError::NotDifferentiable);
        }
        if !same_shape(self.buffer_shape(seed), self.buffer_shape(root.data)) {
            return Err(EngineError::SeedShapeMismatch);
        }
        let pending = self.propagate(output, seed);
        let ghost swept = self@;
        let ghost o = output.index as int;
        let ghost s = pre.value(seed);
        let mut i: usize = 0;
        while i < pending.len()
            invariant
                pre.wf(),
                swept.wf(),
                swept.adds_computed_to(pre),
                swept.tensors == pre.tensors,
                o == output.index,
                s == pre.value(seed),
                pending.len() == o + 1,
                o < pre.tensors.len(),
                i <= pending.len(),
                pending_fits(swept, pending@),
                forall|t: int|
                    0 <= t <= o ==> opt_term_of(swept.defs, #[trigger] pending@[t]) == pre.pending(
                        o,
                        s,
                        t,
                        t + 1,
                    ),
                self@.wf(),
                self@.adds_computed_to(swept),
                self@.tensors.len() == pre.tensors.len(),
                forall|t: int| i <= t < pre.tensors.len() ==> self@.tensors[t] == pre.tensors[t],
                forall|t: int|
                    0 <= t < i ==> #[trigger] pre.settled(
                        output,
                        seed,
                        self@,
                        TensorRef { index: t as usize },
                    ),
            decreases pending.len() - i,
        {
            let ghost at_entry = self@;
            let t = TensorRef { index: i };
            let tensor = self.tensor(t);
            proof {
                lemma_kept_values(swept, at_entry);
                lemma_kept_values(pre, swept);
                assert(pre.tensor_wf(i as int));
                assert(pending@[i as int] matches Some(g) ==> swept.has_buffer(g));
            }
            if tensor.is_leaf && tensor.requires_grad {
                match pending[i] {
                    None => {},
                    Some(g) => {
                        self.deposit(t, g);
                    },
                }
            }
            proof {
                let now = self@;
                lemma_kept_values(at_entry, now);
                assert(pre.settled(output, seed, now, t)) by {
                    assert(pre.tensor(t).grad matches Some(b) ==> pre.has_buffer(b)
                        && swept.has_buffer(b));
                    assert(at_entry.tensor(t) == pre.tensor(t));
                    assert(at_entry.grad_value(t) == pre.grad_value(t));
                }
                assert forall|j: int| 0 <= j < i implies #[trigger] pre.settled(
                    output,
                    seed,
                    now,
                    TensorRef { index: j as usize },
                ) by {
                    let tj = TensorRef { index: j as usize };
                    assert(pre.settled(output, seed, at_entry, tj));
                    assert(now.tensor(tj) == at_entry.tensor(tj));
                    assert(at_entry.tensor_wf(j));
                    assert(at_entry.tensor(tj).grad matches Some(b) ==> at_entry.has_buffer(b));
                }
            }
            i = i + 1;
        }
        proof {
            let post = self@;
            lemma_kept_values(pre, swept);
            assert(post.adds_computed_to(pre));
            assert forall|t: TensorRef| #[trigger] pre.has_tensor(t) implies pre.settled(
                output,
                seed,
                post,
                t,
            ) by {
                if t.index <= o {
                    assert(pre.settled(output, seed, post, TensorRef { index: t.index as int as usize }));
                } else {
                    assert(post.tensors[t.index as int] == pre.tensors[t.index as int]);
                }
            }
        }
        proof {
            pre.law_backward_keeps_data(output, seed, self@);
        }
        Ok(())
    }

    /// Forgets the gradient that a tensor has accumulated.
    pub fn zero_grad(&mut self, tensor: TensorRef)
        requires
            old(self)@.wf(),
            old(self)@.has_tensor(tensor),
        ensures
            final(self)@.wf(),
            final(self)@.keeps_data_of(old(self)@),
            final(self)@ == (EngineView {
                tensors: old(self)@.tensors.update(
                    tensor.index as int,
                    Tensor { grad: None, ..old(self)@.tensor(tensor) },
                ),
                ..old(self)@
            }),
    {
        self.set_grad(tensor, None);
    }
}

} // verus!
