use ndarray::{arr1, arr2, ArrayD};
use num_traits::Float;
use revgrad::buffer::{BinaryOp, BufferDef, BufferRef, UnaryOp};
use revgrad::engine::GraphEngine;
use revgrad::error::EngineError;
use revgrad::tensor::{Node, Tensor, TensorRef, UnaryBackwardFn, BinaryBackwardFn};

/// The numbers of every buffer of an engine, given those of the supplied buffers.
fn evaluate(engine: &GraphEngine<f64>, supplied: &[(BufferRef, ArrayD<f64>)]) -> Vec<ArrayD<f64>> {
    let mut values: Vec<ArrayD<f64>> = Vec::new();
    for index in 0..engine.buffer_count() {
        let handle = BufferRef { index };
        let value = match engine.buffer_def(handle) {
            BufferDef::Input => supplied
                .iter()
                .find(|(b, _)| *b == handle)
                .map(|(_, v)| v.clone())
                .unwrap_or_else(|| panic!("buffer {} was not supplied", index)),
            BufferDef::Unary { op, input } => {
                let x = &values[input.index];
                match op {
                    UnaryOp::Pow(k) => x.mapv(|v| Float::powf(v, k)),
                    UnaryOp::Relu => x.mapv(|v| if v > 0.0 { v } else { 0.0 }),
                    UnaryOp::Sigmoid => x.mapv(|v| 1.0 / (1.0 + Float::exp(-v))),
                    UnaryOp::Tanh => x.mapv(|v| Float::tanh(v)),
                }
            }
            BufferDef::Binary { op, left, right } => {
                let l = &values[left.index];
                let r = &values[right.index];
                match op {
                    BinaryOp::Add => l + r,
                    BinaryOp::Mul => l * r,
                    BinaryOp::PowGrad(k) => (l * k) * r.mapv(|v| Float::powf(v, k - 1.0)),
                    BinaryOp::ReluGrad => l * &r.mapv(|v| if v > 0.0 { 1.0 } else { 0.0 }),
                    BinaryOp::SigmoidGrad => l * &r.mapv(|y| y * (1.0 - y)),
                    BinaryOp::TanhGrad => l * &r.mapv(|y| 1.0 - y * y),
                }
            }
        };
        assert_eq!(value.shape(), engine.buffer_shape(handle).as_slice());
        values.push(value);
    }
    values
}

fn vector(xs: &[f64]) -> ArrayD<f64> {
    arr1(xs).into_dyn()
}

fn close(a: &ArrayD<f64>, b: &ArrayD<f64>) -> bool {
    a.shape() == b.shape() && a.iter().zip(b.iter()).all(|(x, y)| (x - y).abs() < 1e-12)
}

/// An engine with one supplied buffer of shape `[2]` for each flag, and a leaf over each.
fn leaves(flags: &[bool]) -> (GraphEngine<f64>, Vec<BufferRef>, Vec<TensorRef>) {
    let mut engine: GraphEngine<f64> = GraphEngine::new();
    let mut buffers = Vec::new();
    let mut tensors = Vec::new();
    for flag in flags {
        let b = engine.buffer(vec![2]);
        buffers.push(b);
        tensors.push(Tensor::new(&mut engine, b, *flag));
    }
    (engine, buffers, tensors)
}

#[test]
fn product_of_two_leaves() {
    let (mut engine, buffers, tensors) = leaves(&[true, true]);
    let (a, b) = (tensors[0], tensors[1]);
    let z = a.mul(&mut engine, &b).unwrap();
    let seed = engine.buffer(vec![2]);
    assert_eq!(engine.backward(z, seed), Ok(()));
    let values = evaluate(
        &engine,
        &[
            (buffers[0], vector(&[3.0, 2.0])),
            (buffers[1], vector(&[2.0, 0.1])),
            (seed, vector(&[1.0, 1.0])),
        ],
    );
    assert_eq!(values[z.data(&engine).index], vector(&[6.0, 0.2]));
    assert_eq!(values[a.grad(&engine).unwrap().index], vector(&[2.0, 0.1]));
    assert_eq!(values[b.grad(&engine).unwrap().index], vector(&[3.0, 2.0]));
}

#[test]
fn product_gradient_is_seed_times_other_operand() {
    let (mut engine, buffers, tensors) = leaves(&[true, true]);
    let (a, b) = (tensors[0], tensors[1]);
    let z = a.mul(&mut engine, &b).unwrap();
    let seed = engine.buffer(vec![2]);
    engine.backward(z, seed).unwrap();
    let values = evaluate(
        &engine,
        &[
            (buffers[0], vector(&[-1.5, 4.0])),
            (buffers[1], vector(&[0.5, 8.0])),
            (seed, vector(&[2.0, -3.0])),
        ],
    );
    assert_eq!(values[a.grad(&engine).unwrap().index], vector(&[1.0, -24.0]));
    assert_eq!(values[b.grad(&engine).unwrap().index], vector(&[-3.0, -12.0]));
    assert!(matches!(
        engine.buffer_def(a.grad(&engine).unwrap()),
        BufferDef::Binary { op: BinaryOp::Mul, left, right } if left == seed && right == buffers[1]
    ));
    assert!(matches!(
        engine.buffer_def(b.grad(&engine).unwrap()),
        BufferDef::Binary { op: BinaryOp::Mul, left, right } if left == seed && right == buffers[0]
    ));
}

#[test]
fn sum_gradient_is_the_seed() {
    let (mut engine, buffers, tensors) = leaves(&[true, true]);
    let (a, b) = (tensors[0], tensors[1]);
    let z = a.add(&mut engine, &b).unwrap();
    let seed = engine.buffer(vec![2]);
    engine.backward(z, seed).unwrap();
    assert_eq!(a.grad(&engine), Some(seed));
    assert_eq!(b.grad(&engine), Some(seed));
    let values = evaluate(
        &engine,
        &[
            (buffers[0], vector(&[3.0, 2.0])),
            (buffers[1], vector(&[2.0, 0.1])),
            (seed, vector(&[1.0, 1.0])),
        ],
    );
    assert_eq!(values[z.data(&engine).index], vector(&[5.0, 2.1]));
    assert_eq!(values[a.grad(&engine).unwrap().index], vector(&[1.0, 1.0]));
    assert_eq!(values[b.grad(&engine).unwrap().index], vector(&[1.0, 1.0]));
}

#[test]
fn power_gradient() {
    let (mut engine, buffers, tensors) = leaves(&[true]);
    let a = tensors[0];
    let z = a.pow(&mut engine, 3.0);
    let seed = engine.buffer(vec![2]);
    engine.backward(z, seed).unwrap();
    let values = evaluate(
        &engine,
        &[(buffers[0], vector(&[3.0, 2.0])), (seed, vector(&[1.0, 0.5]))],
    );
    assert_eq!(values[z.data(&engine).index], vector(&[27.0, 8.0]));
    assert_eq!(values[a.grad(&engine).unwrap().index], vector(&[27.0, 6.0]));
    assert!(matches!(
        engine.buffer_def(a.grad(&engine).unwrap()),
        BufferDef::Binary { op: BinaryOp::PowGrad(k), left, right }
            if k == 3.0 && left == seed && right == buffers[0]
    ));
}

#[test]
fn tensor_used_along_two_paths_receives_both_gradients() {
    let (mut engine, buffers, tensors) = leaves(&[true]);
    let a = tensors[0];
    let square = a.mul(&mut engine, &a).unwrap();
    let y = square.add(&mut engine, &a).unwrap();
    let seed = engine.buffer(vec![2]);
    engine.backward(y, seed).unwrap();
    let values = evaluate(
        &engine,
        &[(buffers[0], vector(&[3.0, 2.0])), (seed, vector(&[1.0, 1.0]))],
    );
    assert_eq!(values[y.data(&engine).index], vector(&[12.0, 6.0]));
    assert_eq!(values[a.grad(&engine).unwrap().index], vector(&[7.0, 5.0]));
    assert_eq!(square.grad(&engine), None);
    assert_eq!(y.grad(&engine), None);
}

#[test]
fn square_of_a_leaf_receives_twice() {
    let (mut engine, buffers, tensors) = leaves(&[true]);
    let a = tensors[0];
    let square = a.mul(&mut engine, &a).unwrap();
    let seed = engine.buffer(vec![2]);
    engine.backward(square, seed).unwrap();
    let values = evaluate(
        &engine,
        &[(buffers[0], vector(&[3.0, -2.0])), (seed, vector(&[1.0, 1.0]))],
    );
    assert_eq!(values[a.grad(&engine).unwrap().index], vector(&[6.0, -4.0]));
}

#[test]
fn diamond_over_two_levels() {
    // y = (a + b) * (a * b); dy/da = a*b + (a+b)*b, dy/db = a*b + (a+b)*a.
    let (mut engine, buffers, tensors) = leaves(&[true, true]);
    let (a, b) = (tensors[0], tensors[1]);
    let sum = a.add(&mut engine, &b).unwrap();
    let product = a.mul(&mut engine, &b).unwrap();
    let y = sum.mul(&mut engine, &product).unwrap();
    let seed = engine.buffer(vec![2]);
    engine.backward(y, seed).unwrap();
    let values = evaluate(
        &engine,
        &[
            (buffers[0], vector(&[3.0, 1.0])),
            (buffers[1], vector(&[2.0, -4.0])),
            (seed, vector(&[1.0, 1.0])),
        ],
    );
    assert_eq!(values[y.data(&engine).index], vector(&[30.0, 12.0]));
    assert_eq!(values[a.grad(&engine).unwrap().index], vector(&[16.0, 8.0]));
    assert_eq!(values[b.grad(&engine).unwrap().index], vector(&[21.0, -7.0]));
}

#[test]
fn operations_leave_data_alone() {
    let (mut engine, buffers, tensors) = leaves(&[true, false]);
    let (a, b) = (tensors[0], tensors[1]);
    let z = a.mul(&mut engine, &b).unwrap();
    let w = z.pow(&mut engine, 2.0);
    let y = w.add(&mut engine, &a).unwrap();
    let seed = engine.buffer(vec![2]);
    engine.backward(y, seed).unwrap();
    engine.zero_grad(a);
    assert_eq!(a.data(&engine), buffers[0]);
    assert_eq!(b.data(&engine), buffers[1]);
    assert!(matches!(engine.buffer_def(buffers[0]), BufferDef::Input));
    assert!(matches!(engine.buffer_def(buffers[1]), BufferDef::Input));
    assert_eq!(engine.buffer_shape(buffers[0]), &vec![2]);
    let values = evaluate(
        &engine,
        &[
            (buffers[0], vector(&[3.0, 2.0])),
            (buffers[1], vector(&[2.0, 0.1])),
            (seed, vector(&[1.0, 1.0])),
        ],
    );
    assert_eq!(values[a.data(&engine).index], vector(&[3.0, 2.0]));
    assert_eq!(values[b.data(&engine).index], vector(&[2.0, 0.1]));
}

#[test]
fn gradient_tracking_spreads_from_either_operand() {
    let (mut engine, _, tensors) = leaves(&[true, false, false]);
    let (a, b, c) = (tensors[0], tensors[1], tensors[2]);
    let with_left = a.add(&mut engine, &b).unwrap();
    let with_right = b.add(&mut engine, &a).unwrap();
    let without = b.add(&mut engine, &c).unwrap();
    assert!(with_left.requires_grad(&engine));
    assert!(with_right.requires_grad(&engine));
    assert!(!without.requires_grad(&engine));
    assert!(!with_left.is_leaf(&engine));
    assert!(matches!(
        with_left.grad_fn(&engine),
        Some(Node::Binary { tensors: (l, r), backward_fn: BinaryBackwardFn::Add }) if l == a && r == b
    ));
    assert!(without.grad_fn(&engine).is_none());
    assert!(without.is_leaf(&engine));
    assert_eq!(without.grad(&engine), None);
}

#[test]
fn unary_results_follow_their_operand() {
    let (mut engine, _, tensors) = leaves(&[true, false]);
    let (a, b) = (tensors[0], tensors[1]);
    let with_grad = a.pow(&mut engine, 2.0);
    let without_grad = b.pow(&mut engine, 2.0);
    assert!(with_grad.requires_grad(&engine));
    assert!(matches!(
        with_grad.grad_fn(&engine),
        Some(Node::Unary { tensor, backward_fn: UnaryBackwardFn::Pow(k) }) if tensor == a && k == 2.0
    ));
    assert!(!with_grad.is_leaf(&engine));
    assert!(!without_grad.requires_grad(&engine));
    assert!(without_grad.grad_fn(&engine).is_none());
    assert!(without_grad.is_leaf(&engine));
    assert!(matches!(
        engine.buffer_def(without_grad.data(&engine)),
        BufferDef::Unary { op: UnaryOp::Pow(k), input } if k == 2.0 && input == b.data(&engine)
    ));
}

#[test]
fn sum_of_different_shapes_is_refused() {
    let mut engine: GraphEngine<f64> = GraphEngine::new();
    let two = engine.buffer(vec![2]);
    let three = engine.buffer(vec![3]);
    let a = Tensor::new(&mut engine, two, true);
    let b = Tensor::new(&mut engine, three, true);
    let buffers_before = engine.buffer_count();
    let tensors_before = engine.tensor_count();
    assert_eq!(
        a.add(&mut engine, &b),
        Err(EngineError::ShapeMismatch(vec![2], vec![3]))
    );
    assert_eq!(
        b.mul(&mut engine, &a),
        Err(EngineError::ShapeMismatch(vec![3], vec![2]))
    );
    assert_eq!(engine.buffer_count(), buffers_before);
    assert_eq!(engine.tensor_count(), tensors_before);
}

#[test]
fn shapes_of_different_rank_do_not_match() {
    let mut engine: GraphEngine<f64> = GraphEngine::new();
    let flat = engine.buffer(vec![4]);
    let square = engine.buffer(vec![2, 2]);
    let a = Tensor::new(&mut engine, flat, true);
    let b = Tensor::new(&mut engine, square, true);
    assert_eq!(
        a.add(&mut engine, &b),
        Err(EngineError::ShapeMismatch(vec![4], vec![2, 2]))
    );
}

#[test]
fn backward_needs_an_output_that_tracks_gradients() {
    let (mut engine, buffers, tensors) = leaves(&[false, false]);
    let (a, b) = (tensors[0], tensors[1]);
    let z = a.mul(&mut engine, &b).unwrap();
    let seed = engine.buffer(vec![2]);
    let buffers_before = engine.buffer_count();
    assert_eq!(engine.backward(z, seed), Err(EngineError::NotDifferentiable));
    assert_eq!(engine.backward(a, buffers[0]), Err(EngineError::NotDifferentiable));
    assert_eq!(engine.buffer_count(), buffers_before);
    assert_eq!(a.grad(&engine), None);
    assert_eq!(b.grad(&engine), None);
    assert_eq!(z.grad(&engine), None);
}

#[test]
fn backward_needs_a_seed_of_the_output_shape() {
    let (mut engine, _, tensors) = leaves(&[true, true]);
    let (a, b) = (tensors[0], tensors[1]);
    let z = a.mul(&mut engine, &b).unwrap();
    let seed = engine.buffer(vec![3]);
    let buffers_before = engine.buffer_count();
    assert_eq!(engine.backward(z, seed), Err(EngineError::SeedShapeMismatch));
    assert_eq!(engine.buffer_count(), buffers_before);
    assert_eq!(a.grad(&engine), None);
    assert_eq!(b.grad(&engine), None);
}

#[test]
fn not_differentiable_comes_before_the_seed_shape() {
    let (mut engine, _, tensors) = leaves(&[false]);
    let seed = engine.buffer(vec![3]);
    assert_eq!(engine.backward(tensors[0], seed), Err(EngineError::NotDifferentiable));
}

#[test]
fn gradient_is_absent_before_backward() {
    let (mut engine, _, tensors) = leaves(&[true, true]);
    let (a, b) = (tensors[0], tensors[1]);
    let z = a.mul(&mut engine, &b).unwrap();
    assert_eq!(a.grad(&engine), None);
    assert_eq!(b.grad(&engine), None);
    assert_eq!(z.grad(&engine), None);
    assert!(a.is_leaf(&engine));
    assert!(a.grad_fn(&engine).is_none());
    assert!(a.requires_grad(&engine));
}

#[test]
fn operand_that_does_not_track_gradients_receives_none() {
    let (mut engine, buffers, tensors) = leaves(&[true, false]);
    let (a, b) = (tensors[0], tensors[1]);
    let z = a.mul(&mut engine, &b).unwrap();
    let seed = engine.buffer(vec![2]);
    engine.backward(z, seed).unwrap();
    assert_eq!(b.grad(&engine), None);
    let values = evaluate(
        &engine,
        &[
            (buffers[0], vector(&[3.0, 2.0])),
            (buffers[1], vector(&[2.0, 0.1])),
            (seed, vector(&[1.0, 1.0])),
        ],
    );
    assert_eq!(values[a.grad(&engine).unwrap().index], vector(&[2.0, 0.1]));
}

#[test]
fn tensor_that_the_output_was_not_made_from_receives_none() {
    let (mut engine, _, tensors) = leaves(&[true, true, true]);
    let (a, b, c) = (tensors[0], tensors[1], tensors[2]);
    let z = a.mul(&mut engine, &b).unwrap();
    let later = z.add(&mut engine, &c).unwrap();
    let seed = engine.buffer(vec![2]);
    engine.backward(z, seed).unwrap();
    assert!(a.grad(&engine).is_some());
    assert!(b.grad(&engine).is_some());
    assert_eq!(c.grad(&engine), None);
    assert_eq!(later.grad(&engine), None);
}

#[test]
fn second_backward_adds_to_the_gradient() {
    let (mut engine, buffers, tensors) = leaves(&[true, true]);
    let (a, b) = (tensors[0], tensors[1]);
    let z = a.mul(&mut engine, &b).unwrap();
    let seed = engine.buffer(vec![2]);
    engine.backward(z, seed).unwrap();
    engine.backward(z, seed).unwrap();
    let values = evaluate(
        &engine,
        &[
            (buffers[0], vector(&[3.0, 2.0])),
            (buffers[1], vector(&[2.0, 0.5])),
            (seed, vector(&[1.0, 1.0])),
        ],
    );
    assert_eq!(values[a.grad(&engine).unwrap().index], vector(&[4.0, 1.0]));
    assert_eq!(values[b.grad(&engine).unwrap().index], vector(&[6.0, 4.0]));
}

#[test]
fn zero_grad_forgets_the_gradient() {
    let (mut engine, buffers, tensors) = leaves(&[true, true]);
    let (a, b) = (tensors[0], tensors[1]);
    let z = a.mul(&mut engine, &b).unwrap();
    let seed = engine.buffer(vec![2]);
    engine.backward(z, seed).unwrap();
    engine.zero_grad(a);
    assert_eq!(a.grad(&engine), None);
    assert!(b.grad(&engine).is_some());
    assert_eq!(a.data(&engine), buffers[0]);
    assert!(a.requires_grad(&engine));
    engine.backward(z, seed).unwrap();
    let values = evaluate(
        &engine,
        &[
            (buffers[0], vector(&[3.0, 2.0])),
            (buffers[1], vector(&[2.0, 0.5])),
            (seed, vector(&[1.0, 1.0])),
        ],
    );
    assert_eq!(values[a.grad(&engine).unwrap().index], vector(&[2.0, 0.5]));
    assert_eq!(values[b.grad(&engine).unwrap().index], vector(&[6.0, 4.0]));
}

#[test]
fn backward_from_a_leaf_leaves_the_seed() {
    let (mut engine, _, tensors) = leaves(&[true]);
    let seed = engine.buffer(vec![2]);
    engine.backward(tensors[0], seed).unwrap();
    assert_eq!(tensors[0].grad(&engine), Some(seed));
}

#[test]
fn rectifier_forward_and_backward() {
    let (mut engine, buffers, tensors) = leaves(&[true]);
    let a = tensors[0];
    let y = a.relu(&mut engine);
    let seed = engine.buffer(vec![2]);
    engine.backward(y, seed).unwrap();
    let values = evaluate(
        &engine,
        &[(buffers[0], vector(&[-3.0, 2.0])), (seed, vector(&[5.0, 7.0]))],
    );
    assert_eq!(values[y.data(&engine).index], vector(&[0.0, 2.0]));
    assert_eq!(values[a.grad(&engine).unwrap().index], vector(&[0.0, 7.0]));
}

#[test]
fn sigmoid_forward_and_backward() {
    let (mut engine, buffers, tensors) = leaves(&[true]);
    let a = tensors[0];
    let y = a.sigmoid(&mut engine);
    let seed = engine.buffer(vec![2]);
    engine.backward(y, seed).unwrap();
    let values = evaluate(
        &engine,
        &[(buffers[0], vector(&[0.0, 1.0])), (seed, vector(&[1.0, 2.0]))],
    );
    let s1 = 1.0 / (1.0 + (-1.0f64).exp());
    assert!(close(&values[y.data(&engine).index], &vector(&[0.5, s1])));
    assert!(close(
        &values[a.grad(&engine).unwrap().index],
        &vector(&[0.25, 2.0 * s1 * (1.0 - s1)])
    ));
    assert!(matches!(
        engine.buffer_def(a.grad(&engine).unwrap()),
        BufferDef::Binary { op: BinaryOp::SigmoidGrad, left, right }
            if left == seed && right == y.data(&engine)
    ));
}

#[test]
fn hyperbolic_tangent_forward_and_backward() {
    let (mut engine, buffers, tensors) = leaves(&[true]);
    let a = tensors[0];
    let y = a.tanh(&mut engine);
    let seed = engine.buffer(vec![2]);
    engine.backward(y, seed).unwrap();
    let values = evaluate(
        &engine,
        &[(buffers[0], vector(&[0.0, 0.5])), (seed, vector(&[1.0, 3.0]))],
    );
    let t = 0.5f64.tanh();
    assert!(close(&values[y.data(&engine).index], &vector(&[0.0, t])));
    assert!(close(
        &values[a.grad(&engine).unwrap().index],
        &vector(&[1.0, 3.0 * (1.0 - t * t)])
    ));
}

#[test]
fn chain_through_an_activation() {
    // y = tanh(a * b); dy/da = (1 - y^2) * b.
    let (mut engine, buffers, tensors) = leaves(&[true, false]);
    let (a, b) = (tensors[0], tensors[1]);
    let z = a.mul(&mut engine, &b).unwrap();
    let y = z.tanh(&mut engine);
    let seed = engine.buffer(vec![2]);
    engine.backward(y, seed).unwrap();
    let values = evaluate(
        &engine,
        &[
            (buffers[0], vector(&[0.5, -1.0])),
            (buffers[1], vector(&[2.0, 0.25])),
            (seed, vector(&[1.0, 1.0])),
        ],
    );
    let y0 = 1.0f64.tanh();
    let y1 = (-0.25f64).tanh();
    assert!(close(
        &values[a.grad(&engine).unwrap().index],
        &vector(&[(1.0 - y0 * y0) * 2.0, (1.0 - y1 * y1) * 0.25])
    ));
    assert_eq!(b.grad(&engine), None);
}

#[test]
fn matrices_keep_their_shape() {
    let mut engine: GraphEngine<f64> = GraphEngine::new();
    let ba = engine.buffer(vec![2, 2]);
    let bb = engine.buffer(vec![2, 2]);
    let a = Tensor::new(&mut engine, ba, true);
    let b = Tensor::new(&mut engine, bb, true);
    let z = a.mul(&mut engine, &b).unwrap();
    let seed = engine.buffer(vec![2, 2]);
    engine.backward(z, seed).unwrap();
    assert_eq!(engine.buffer_shape(z.data(&engine)), &vec![2, 2]);
    assert_eq!(engine.buffer_shape(a.grad(&engine).unwrap()), &vec![2, 2]);
    let values = evaluate(
        &engine,
        &[
            (ba, arr2(&[[1.0, 2.0], [3.0, 4.0]]).into_dyn()),
            (bb, arr2(&[[5.0, 6.0], [7.0, 8.0]]).into_dyn()),
            (seed, arr2(&[[1.0, 1.0], [1.0, 1.0]]).into_dyn()),
        ],
    );
    assert_eq!(
        values[z.data(&engine).index],
        arr2(&[[5.0, 12.0], [21.0, 32.0]]).into_dyn()
    );
    assert_eq!(
        values[a.grad(&engine).unwrap().index],
        arr2(&[[5.0, 6.0], [7.0, 8.0]]).into_dyn()
    );
    assert_eq!(
        values[b.grad(&engine).unwrap().index],
        arr2(&[[1.0, 2.0], [3.0, 4.0]]).into_dyn()
    );
}

#[test]
fn handles_are_given_in_order() {
    let mut engine: GraphEngine<f64> = GraphEngine::new();
    assert_eq!(engine.buffer_count(), 0);
    assert_eq!(engine.tensor_count(), 0);
    let first = engine.buffer(vec![1]);
    let second = engine.buffer(vec![]);
    assert_eq!(first, BufferRef { index: 0 });
    assert_eq!(second, BufferRef { index: 1 });
    assert_eq!(engine.buffer_shape(second), &Vec::<usize>::new());
    let a = Tensor::new(&mut engine, first, true);
    let b = Tensor::new(&mut engine, first, false);
    assert_eq!(a, TensorRef { index: 0 });
    assert_eq!(b, TensorRef { index: 1 });
    let z = a.add(&mut engine, &b).unwrap();
    assert_eq!(z, TensorRef { index: 2 });
    assert_eq!(z.data(&engine), BufferRef { index: 2 });
    assert_eq!(engine.buffer_count(), 3);
    assert_eq!(engine.tensor_count(), 3);
    let record = engine.tensor(z);
    assert_eq!(record.data, BufferRef { index: 2 });
    assert!(record.requires_grad);
    assert_eq!(record.grad, None);
    assert!(!record.is_leaf);
}

#[test]
fn backward_records_only_computed_buffers() {
    let (mut engine, _, tensors) = leaves(&[true, true]);
    let (a, b) = (tensors[0], tensors[1]);
    let sum = a.add(&mut engine, &b).unwrap();
    let product = sum.mul(&mut engine, &a).unwrap();
    let seed = engine.buffer(vec![2]);
    let before = engine.buffer_count();
    for index in 0..before {
        assert_eq!(engine.buffer_shape(BufferRef { index }), &vec![2]);
    }
    engine.backward(product, seed).unwrap();
    assert!(engine.buffer_count() > before);
    for index in before..engine.buffer_count() {
        assert!(!matches!(engine.buffer_def(BufferRef { index }), BufferDef::Input));
        assert_eq!(engine.buffer_shape(BufferRef { index }), &vec![2]);
    }
    assert_eq!(engine.tensor_count(), 4);
}
