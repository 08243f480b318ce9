//! The engine: the table of buffers and the arena of tensors.

use crate::buffer::{BufferDef, BufferRef};
use crate::model::EngineView;
use crate::tensor::{Node, Tensor, TensorRef};
use vstd::prelude::*;

verus! {

/// Owner of every buffer and every tensor of a computation.
///
/// Tensors and buffers are named by handles, which stay valid as long as the engine lives. A
/// tensor may be an operand of any number of later operations.
pub struct GraphEngine<K> {
    shapes: Vec<Vec<usize>>,
    defs: Vec<BufferDef<K>>,
    tensors: Vec<Tensor<K>>,
}

impl<K> View for GraphEngine<K> {
    type V = EngineView<K>;

    closed spec fn view(&self) -> EngineView<K> {
        EngineView {
            shapes: Seq::new(self.shapes.len() as nat, |i: int| self.shapes[i]@),
            defs: self.defs@,
            tensors: self.tensors@,
        }
    }
}

/// Are two shapes the same?
pub fn same_shape(a: &Vec<usize>, b: &Vec<usize>) -> (r: bool)
    ensures
        r == (a@ == b@),
{
    if a.len() != b.len() {
        return false;
    }
    let mut i: usize = 0;
    while i < a.len()
        invariant
            a.len() == b.len(),
            i <= a.len(),
            forall|j: int| 0 <= j < i ==> a@[j] == b@[j],
        decreases a.len() - i,
    {
        if a[i] != b[i] {
            return false;
        }
        i = i + 1;
    }
    assert(a@ =~= b@);
    true
}

/// A copy of a shape.
pub fn copy_shape(a: &Vec<usize>) -> (r: Vec<usize>)
    ensures
        r@ == a@,
{
    let mut r: Vec<usize> = Vec::new();
    let mut i: usize = 0;
    while i < a.len()
        invariant
            i <= a.len(),
            r@ == a@.subrange(0, i as int),
        decreases a.len() - i,
    {
        r.push(a[i]);
        assert(a@.subrange(0, i as int).push(a@[i as int]) =~= a@.subrange(0, i + 1));
        i = i + 1;
    }
    assert(a@.subrange(0, a@.len() as int) =~= a@);
    r
}

impl<K: Copy> GraphEngine<K> {
    /// An engine without buffers and tensors.
    pub fn new() -> (engine: Self)
        ensures
            engine@ == EngineView::<K>::empty(),
            engine@.wf(),
    {
        let engine = GraphEngine { shapes: Vec::new(), defs: Vec::new(), tensors: Vec::new() };
        assert(engine@.shapes =~= Seq::<Seq<usize>>::empty());
        engine
    }

    /// Records a buffer of the given shape whose numbers the caller supplies.
    pub fn buffer(&mut self, shape: Vec<usize>) -> (b: BufferRef)
        requires
            old(self)@.wf(),
        ensures
            final(self)@ == old(self)@.with_buffer(shape@, BufferDef::Input),
            final(self)@.wf(),
            final(self)@.keeps_data_of(old(self)@),
            b == old(self)@.next_buffer(),
            b.index == old(self)@.defs.len(),
    {
        self.push_buffer(shape, BufferDef::Input)
    }

    /// The number of buffers.
    pub fn buffer_count(&self) -> (n: usize)
        ensures
            n == self@.defs.len(),
    {
        self.defs.len()
    }

    /// The number of tensors.
    pub fn tensor_count(&self) -> (n: usize)
        ensures
            n == self@.tensors.len(),
    {
        self.tensors.len()
    }

    /// The shape of a buffer.
    pub fn buffer_shape(&self, b: BufferRef) -> (shape: &Vec<usize>)
        requires
            self@.wf(),
            self@.has_buffer(b),
        ensures
            shape@ == self@.shape(b),
    {
        &self.shapes[b.index]
    }

    /// How a buffer is obtained.
    pub fn buffer_def(&self, b: BufferRef) -> (def: BufferDef<K>)
        requires
            self@.has_buffer(b),
        ensures
            def == self@.defs[b.index as int],
    {
        self.defs[b.index]
    }

    /// The record of a tensor.
    pub fn tensor(&self, t: TensorRef) -> (tensor: Tensor<K>)
        requires
            self@.has_tensor(t),
        ensures
            tensor == self@.tensor(t),
    {
        self.tensors[t.index]
    }

    /// Records a buffer with the given definition.
    pub(crate) fn push_buffer(&mut self, shape: Vec<usize>, def: BufferDef<K>) -> (b: BufferRef)
        requires
            old(self)@.wf(),
            match def {
                BufferDef::Input => true,
                BufferDef::Unary { op, input } => old(self)@.has_buffer(input) && old(self)@.shape(
                    input,
                ) == shape@,
                BufferDef::Binary { op, left, right } => {
                    &&& old(self)@.has_buffer(left)
                    &&& old(self)@.has_buffer(right)
                    &&& old(self)@.shape(left) == shape@
                    &&& old(self)@.shape(right) == shape@
                },
            },
        ensures
            final(self)@ == old(self)@.with_buffer(shape@, def),
            final(self)@.wf(),
            b == old(self)@.next_buffer(),
            b.index == old(self)@.defs.len(),
    {
        let index = self.defs.len();
        let ghost pre = self@;
        self.shapes.push(shape);
        self.defs.push(def);
        proof {
            let post = self@;
            assert(post.shapes =~= pre.shapes.push(shape@));
            assert forall|i: int| 0 <= i < post.defs.len() implies #[trigger] post.def_wf(i) by {
                if i < pre.defs.len() {
                    assert(pre.def_wf(i));
                }
            }
            assert forall|t: int| 0 <= t < post.tensors.len() implies #[trigger] post.tensor_wf(
                t,
            ) by {
                assert(pre.tensor_wf(t));
            }
        }
        BufferRef { index }
    }

    /// Records a tensor.
    pub(crate) fn push_tensor(&mut self, tensor: Tensor<K>) -> (t: TensorRef)
        requires
            old(self)@.wf(),
            old(self)@.with_tensor(tensor).tensor_wf(old(self)@.tensors.len() as int),
        ensures
            final(self)@ == old(self)@.with_tensor(tensor),
            final(self)@.wf(),
            t == old(self)@.next_tensor(),
            t.index == old(self)@.tensors.len(),
    {
        let index = self.tensors.len();
        let ghost pre = self@;
        self.tensors.push(tensor);
        proof {
            let post = self@;
            assert(post.shapes =~= pre.shapes);
            assert forall|i: int| 0 <= i < post.defs.len() implies #[trigger] post.def_wf(i) by {
                assert(pre.def_wf(i));
            }
            assert forall|t: int| 0 <= t < post.tensors.len() implies #[trigger] post.tensor_wf(
                t,
            ) by {
                if t < pre.tensors.len() {
                    assert(pre.tensor_wf(t));
                }
            }
        }
        TensorRef { index }
    }

    /// Replaces the accumulated gradient of a tensor.
    pub(crate) fn set_grad(&mut self, t: TensorRef, grad: Option<BufferRef>)
        requires
            old(self)@.wf(),
            old(self)@.has_tensor(t),
            grad matches Some(g) ==> old(self)@.has_buffer(g) && old(self)@.shape(g) == old(
                self,
            )@.data_shape(t),
        ensures
            final(self)@ == (EngineView {
                tensors: old(self)@.tensors.update(
                    t.index as int,
                    Tensor { grad, ..old(self)@.tensor(t) },
                ),
                ..old(self)@
            }),
            final(self)@.wf(),
    {
        let ghost pre = self@;
        let old_tensor = self.tensors[t.index];
        self.tensors.set(t.index, Tensor { grad, ..old_tensor });
        proof {
            let post = self@;
            assert(post.shapes =~= pre.shapes);
            assert forall|i: int| 0 <= i < post.defs.len() implies #[trigger] post.def_wf(i) by {
                assert(pre.def_wf(i));
            }
            assert forall|i: int| 0 <= i < post.tensors.len() implies #[trigger] post.tensor_wf(
                i,
            ) by {
                assert(pre.tensor_wf(i));
                assert(pre.tensor_wf(t.index as int));
                match pre.tensors[i].grad_fn {
                    Some(Node::Unary { tensor, backward_fn }) => {
                        assert(post.tensor(tensor).data == pre.tensor(tensor).data);
                    },
                    Some(Node::Binary { tensors, backward_fn }) => {
                        assert(post.tensor(tensors.0).data == pre.tensor(tensors.0).data);
                        assert(post.tensor(tensors.1).data == pre.tensor(tensors.1).data);
                    },
                    _ => {},
                }
            }
        }
    }
}

} // verus!
