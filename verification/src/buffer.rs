//! Numeric buffers, held symbolically.
//!
//! The engine never touches the numbers inside a buffer. It records the shape of every buffer
//! and how the buffer is obtained: either the caller supplies it, or it is the elementwise
//! result of an operation on buffers recorded earlier. Whoever evaluates the table walks it in
//! index order with a numeric array library and fills in the numbers.

use vstd::prelude::*;

verus! {

/// Handle of a buffer in an engine's buffer table.
#[derive(Clone, Copy, Debug, PartialEq, Eq, Structural)]
pub struct BufferRef {
    pub index: usize,
}

/// Elementwise operation with one operand. `K` is the scalar type of a captured parameter.
#[derive(Clone, Copy, Debug)]
pub enum UnaryOp<K> {
    /// `x^k`.
    Pow(K),
    /// `max(x, 0)`.
    Relu,
    /// `1 / (1 + e^(-x))`.
    Sigmoid,
    /// `tanh(x)`.
    Tanh,
}

/// Elementwise operation with two operands of equal shape.
///
/// The four `*Grad` operations are the local derivatives of the unary operations; their left
/// operand is the upstream gradient `u`.
#[derive(Clone, Copy, Debug)]
pub enum BinaryOp<K> {
    /// `l + r`.
    Add,
    /// `l * r`.
    Mul,
    /// `u * k * x^(k-1)`, where `x` is the operand of the power.
    PowGrad(K),
    /// `u` where `x > 0` and `0` elsewhere, where `x` is the operand of the rectifier.
    ReluGrad,
    /// `u * y * (1 - y)`, where `y` is the result of the sigmoid.
    SigmoidGrad,
    /// `u * (1 - y^2)`, where `y` is the result of the hyperbolic tangent.
    TanhGrad,
}

/// How a buffer is obtained.
#[allow(inconsistent_fields)]
#[derive(Clone, Copy, Debug)]
pub enum BufferDef<K> {
    /// The caller supplies the numbers.
    Input,
    /// An elementwise operation on one earlier buffer.
    Unary { op: UnaryOp<K>, input: BufferRef },
    /// An elementwise operation on two earlier buffers.
    Binary { op: BinaryOp<K>, left: BufferRef, right: BufferRef },
}

/// The value of a buffer as an expression over the supplied buffers.
pub enum Term<K> {
    /// The supplied buffer with this index.
    Input(int),
    /// An operation on one expression.
    Unary(UnaryOp<K>, Box<Term<K>>),
    /// An operation on two expressions.
    Binary(BinaryOp<K>, Box<Term<K>>, Box<Term<K>>),
}

impl<K> Term<K> {
    /// The operation `op` on `x`.
    pub open spec fn unary(op: UnaryOp<K>, x: Term<K>) -> Term<K> {
        Term::Unary(op, Box::new(x))
    }

    /// The operation `op` on `l` and `r`.
    pub open spec fn binary(op: BinaryOp<K>, l: Term<K>, r: Term<K>) -> Term<K> {
        Term::Binary(op, Box::new(l), Box::new(r))
    }

    /// `l + r`.
    pub open spec fn sum(l: Term<K>, r: Term<K>) -> Term<K> {
        Term::binary(BinaryOp::Add, l, r)
    }

    /// `l * r`.
    pub open spec fn product(l: Term<K>, r: Term<K>) -> Term<K> {
        Term::binary(BinaryOp::Mul, l, r)
    }
}

/// A reading of expressions as whole numbers, at one position of the buffers: the number of
/// each supplied buffer there, and what every operation but the sum and the product makes of
/// its operands.
#[verifier::reject_recursive_types(K)]
pub struct Reading<K> {
    pub input: spec_fn(int) -> int,
    pub unary: spec_fn(UnaryOp<K>, int) -> int,
    pub binary: spec_fn(BinaryOp<K>, int, int) -> int,
}

impl<K> Term<K> {
    /// The number that the expression stands for under a reading, in exact arithmetic.
    pub open spec fn read(self, reading: Reading<K>) -> int
        decreases self,
    {
        match self {
            Term::Input(i) => (reading.input)(i),
            Term::Unary(op, x) => (reading.unary)(op, x.read(reading)),
            Term::Binary(op, l, r) => match op {
                BinaryOp::Add => l.read(reading) + r.read(reading),
                BinaryOp::Mul => l.read(reading) * r.read(reading),
                _ => (reading.binary)(op, l.read(reading), r.read(reading)),
            },
        }
    }
}

/// The value of buffer `b` under the definitions `defs`.
pub open spec fn term_of<K>(defs: Seq<BufferDef<K>>, b: int) -> Term<K>
    decreases b,
{
    if 0 <= b < defs.len() {
        match defs[b] {
            BufferDef::Input => Term::Input(b),
            BufferDef::Unary { op, input } => if input.index < b {
                Term::unary(op, term_of(defs, input.index as int))
            } else {
                Term::Input(b)
            },
            BufferDef::Binary { op, left, right } => if left.index < b && right.index < b {
                Term::binary(op, term_of(defs, left.index as int), term_of(defs, right.index as int))
            } else {
                Term::Input(b)
            },
        }
    } else {
        Term::Input(b)
    }
}

/// The value of an optional buffer.
pub open spec fn opt_term_of<K>(defs: Seq<BufferDef<K>>, b: Option<BufferRef>) -> Option<Term<K>> {
    match b {
        Some(r) => Some(term_of(defs, r.index as int)),
        None => None,
    }
}

/// Is `small` an initial part of `big`?
pub open spec fn is_prefix<A>(small: Seq<A>, big: Seq<A>) -> bool {
    &&& small.len() <= big.len()
    &&& forall|i: int| 0 <= i < small.len() ==> small[i] == big[i]
}

/// Recording further buffers does not change the value of those already recorded.
pub proof fn lemma_term_of_prefix<K>(small: Seq<BufferDef<K>>, big: Seq<BufferDef<K>>, b: int)
    requires
        is_prefix(small, big),
        0 <= b < small.len(),
    ensures
        term_of(big, b) == term_of(small, b),
    decreases b,
{
    match small[b] {
        BufferDef::Input => {},
        BufferDef::Unary { op, input } => {
            if input.index < b {
                lemma_term_of_prefix(small, big, input.index as int);
            }
        },
        BufferDef::Binary { op, left, right } => {
            if left.index < b && right.index < b {
                lemma_term_of_prefix(small, big, left.index as int);
                lemma_term_of_prefix(small, big, right.index as int);
            }
        },
    }
}

} // verus!
