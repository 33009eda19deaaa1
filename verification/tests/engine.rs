use autograd_core::engine::ExecutionEngine;
use autograd_core::error::GraphError;
use autograd_core::float::Float32;
use autograd_core::function::{Forward, FuncIntf};
use autograd_core::record::{Function, VariableArgs};
use autograd_core::session::Session;
use autograd_core::tensor::{Tensor, TensorKind};
use autograd_core::variable::{VarKind, Variable};

/// The operations that these tests build graphs of.
enum Op {
    /// Adds its two inputs; backward hands the output gradient to both.
    Sum,
    /// Multiplies its input by a constant; backward multiplies the gradient by it.
    Scale(i64),
    /// Gives its input twice; backward adds the gradients of both outputs.
    Split,
    /// Doubles its input in place.
    DoubleInPlace,
    /// Forward passes its input on; backward fails.
    FailBackward,
    /// Forward fails.
    FailForward,
    /// Forward passes its input on; backward gives two gradients for one input.
    TooMany,
    /// Forward passes its input on; backward gives a gradient of another shape.
    WrongShape,
    /// Claims to have changed an input that does not exist.
    BadDirty,
}

fn scaled(t: &TensorKind, k: i64) -> TensorKind {
    match t {
        TensorKind::LongTensor(x) => TensorKind::LongTensor(x.mul(&x.filled_like(k)).unwrap()),
        TensorKind::FloatTensor(x) => {
            let by = Float32::from_bits((k as f32).to_bits());
            TensorKind::FloatTensor(x.mul(&x.filled_like(by)).unwrap())
        }
    }
}

impl FuncIntf for Op {
    fn forward(&mut self, input: &mut Vec<TensorKind>) -> Result<Forward, GraphError> {
        match self {
            Op::Sum => Ok(Forward { outputs: vec![input[0].add(&input[1])?], dirty: vec![] }),
            Op::Scale(k) => Ok(Forward { outputs: vec![scaled(&input[0], *k)], dirty: vec![] }),
            Op::Split => Ok(Forward { outputs: vec![input[0].copy(), input[0].copy()], dirty: vec![] }),
            Op::DoubleInPlace => {
                input[0] = scaled(&input[0], 2);
                Ok(Forward { outputs: vec![input[0].copy()], dirty: vec![0] })
            }
            Op::FailForward => Err(GraphError::ShapeMismatch),
            Op::BadDirty => Ok(Forward { outputs: vec![input[0].copy()], dirty: vec![3] }),
            _ => Ok(Forward { outputs: vec![input[0].copy()], dirty: vec![] }),
        }
    }

    fn backward(&mut self, grad_output: &Vec<Option<TensorKind>>) -> Result<Vec<Option<TensorKind>>, GraphError> {
        self.backward_retained(grad_output)
    }

    fn backward_retained(&self, grad_output: &Vec<Option<TensorKind>>) -> Result<Vec<Option<TensorKind>>, GraphError> {
        let first = grad_output[0].as_ref().map(|g| g.copy());
        match self {
            Op::Sum => Ok(vec![first, grad_output[0].as_ref().map(|g| g.copy())]),
            Op::Scale(k) => Ok(vec![first.map(|g| scaled(&g, *k))]),
            Op::Split => {
                let second = grad_output[1].as_ref().map(|g| g.copy());
                Ok(vec![match (first, second) {
                    (Some(a), Some(b)) => Some(a.add(&b)?),
                    (Some(a), None) => Some(a),
                    (None, b) => b,
                }])
            }
            Op::DoubleInPlace => Ok(vec![first.map(|g| scaled(&g, 2))]),
            Op::FailBackward => Err(GraphError::TypeMismatch),
            Op::TooMany => Ok(vec![first, None]),
            Op::WrongShape => Ok(vec![Some(TensorKind::LongTensor(Tensor::scalar(1i64)))]),
            _ => Ok(vec![first]),
        }
    }

    fn release(&mut self) {}
}

fn long(values: Vec<i64>) -> Tensor<i64> {
    let n = values.len();
    Tensor::new(vec![n], values).unwrap()
}

fn leaf(session: &mut Session<Op>, values: Vec<i64>) -> Variable<i64> {
    Variable::new(session, long(values)).unwrap()
}

fn one(session: &mut Session<Op>, op: Op, inputs: Vec<VarKind>) -> Variable<i64> {
    let out = session.apply(op, &inputs).unwrap();
    assert_eq!(out.len(), 1);
    out[0].typed().unwrap()
}

fn grad_of(session: &Session<Op>, v: &Variable<i64>) -> Option<Vec<i64>> {
    match session.arena().get(v.id).unwrap().peek_grad() {
        Some(TensorKind::LongTensor(t)) => Some(t.elems().clone()),
        Some(_) => panic!("gradient of another kind"),
        None => None,
    }
}

#[test]
fn shared_leaf_gets_both_contributions() {
    let mut session: Session<Op> = Session::new();
    let x = leaf(&mut session, vec![1, 2, 3]);
    let y = one(&mut session, Op::Sum, vec![x.kind(), x.kind()]);
    assert!(y.data(session.arena()).unwrap().equals(&long(vec![2, 4, 6])));
    y.backward_args(&mut session, Some(&long(vec![10, 20, 30])), false).unwrap();
    assert_eq!(grad_of(&session, &x), Some(vec![20, 40, 60]));
}

#[test]
fn chain_multiplies_the_factors() {
    let mut session: Session<Op> = Session::new();
    let x = leaf(&mut session, vec![1, 2]);
    let y = one(&mut session, Op::Scale(2), vec![x.kind()]);
    let z = one(&mut session, Op::Scale(3), vec![y.kind()]);
    assert!(z.data(session.arena()).unwrap().equals(&long(vec![6, 12])));
    z.backward_args(&mut session, Some(&long(vec![1, 1])), false).unwrap();
    assert_eq!(grad_of(&session, &x), Some(vec![6, 6]));
    assert_eq!(grad_of(&session, &y), None);
    assert_eq!(grad_of(&session, &z), None);
}

#[test]
fn variable_consumed_by_two_functions_gets_the_sum() {
    let mut session: Session<Op> = Session::new();
    let x = leaf(&mut session, vec![1, 1]);
    let a = one(&mut session, Op::Scale(2), vec![x.kind()]);
    let b = one(&mut session, Op::Scale(5), vec![x.kind()]);
    let c = one(&mut session, Op::Sum, vec![a.kind(), b.kind()]);
    c.backward_args(&mut session, Some(&long(vec![1, 10])), false).unwrap();
    assert_eq!(grad_of(&session, &x), Some(vec![7, 70]));
}

#[test]
fn sum_does_not_depend_on_the_order_of_the_consumers() {
    let mut first: Session<Op> = Session::new();
    let x = leaf(&mut first, vec![3]);
    let a = one(&mut first, Op::Scale(2), vec![x.kind()]);
    let b = one(&mut first, Op::Scale(5), vec![x.kind()]);
    let c = one(&mut first, Op::Sum, vec![a.kind(), b.kind()]);
    c.backward_args(&mut first, Some(&long(vec![1])), false).unwrap();

    let mut second: Session<Op> = Session::new();
    let y = leaf(&mut second, vec![3]);
    let b2 = one(&mut second, Op::Scale(5), vec![y.kind()]);
    let a2 = one(&mut second, Op::Scale(2), vec![y.kind()]);
    let c2 = one(&mut second, Op::Sum, vec![b2.kind(), a2.kind()]);
    c2.backward_args(&mut second, Some(&long(vec![1])), false).unwrap();

    assert_eq!(grad_of(&first, &x), Some(vec![7]));
    assert_eq!(grad_of(&second, &y), grad_of(&first, &x));
}

#[test]
fn producer_runs_after_all_consumers() {
    let mut session: Session<Op> = Session::new();
    let x = leaf(&mut session, vec![1]);
    let y = one(&mut session, Op::Scale(2), vec![x.kind()]);
    let a = one(&mut session, Op::Scale(3), vec![y.kind()]);
    let b = one(&mut session, Op::Scale(4), vec![y.kind()]);
    let c = one(&mut session, Op::Sum, vec![a.kind(), b.kind()]);
    c.backward_args(&mut session, Some(&long(vec![1])), false).unwrap();
    assert_eq!(grad_of(&session, &x), Some(vec![14]));
}

#[test]
fn node_with_two_outputs_runs_once_with_both_gradients() {
    let mut session: Session<Op> = Session::new();
    let x = leaf(&mut session, vec![1]);
    let pair = session.apply(Op::Split, &vec![x.kind()]).unwrap();
    assert_eq!(pair.len(), 2);
    let a = one(&mut session, Op::Scale(3), vec![pair[0]]);
    let b = one(&mut session, Op::Scale(4), vec![pair[1]]);
    let c = one(&mut session, Op::Sum, vec![a.kind(), b.kind()]);
    c.backward_args(&mut session, Some(&long(vec![1])), false).unwrap();
    assert_eq!(grad_of(&session, &x), Some(vec![7]));
}

#[test]
fn only_one_output_reached() {
    let mut session: Session<Op> = Session::new();
    let x = leaf(&mut session, vec![1]);
    let pair = session.apply(Op::Split, &vec![x.kind()]).unwrap();
    let b = one(&mut session, Op::Scale(4), vec![pair[1]]);
    b.backward_args(&mut session, Some(&long(vec![2])), false).unwrap();
    assert_eq!(grad_of(&session, &x), Some(vec![8]));
}

#[test]
fn scalar_backward_without_gradient_starts_from_ones() {
    let mut implicit: Session<Op> = Session::new();
    let x = Variable::new(&mut implicit, Tensor::scalar(5i64)).unwrap();
    let y = one(&mut implicit, Op::Scale(3), vec![x.kind()]);
    y.backward(&mut implicit).unwrap();

    let mut explicit: Session<Op> = Session::new();
    let x2 = Variable::new(&mut explicit, Tensor::scalar(5i64)).unwrap();
    let y2 = one(&mut explicit, Op::Scale(3), vec![x2.kind()]);
    let ones = y2.data(explicit.arena()).unwrap().filled_like(1);
    y2.backward_args(&mut explicit, Some(&ones), false).unwrap();

    assert_eq!(grad_of(&implicit, &x), Some(vec![3]));
    assert_eq!(grad_of(&explicit, &x2), grad_of(&implicit, &x));
}

#[test]
fn backward_on_a_leaf_adds_the_gradient_to_it() {
    let mut session: Session<Op> = Session::new();
    let x = Variable::new(&mut session, Tensor::scalar(5i64)).unwrap();
    x.backward(&mut session).unwrap();
    x.backward(&mut session).unwrap();
    assert_eq!(grad_of(&session, &x), Some(vec![2]));
}

#[test]
fn backward_on_a_volatile_variable_fails() {
    let mut session: Session<Op> = Session::new();
    let args = VariableArgs { creator: None, volatile: true, requires_grad: true };
    let x = Variable::new_args(&mut session, Tensor::scalar(5i64), &args).unwrap();
    assert_eq!(x.backward(&mut session), Err(GraphError::InvalidBackward));
    assert_eq!(x.backward_args(&mut session, Some(&Tensor::scalar(1i64)), true), Err(GraphError::InvalidBackward));
    assert_eq!(grad_of(&session, &x), None);
}

#[test]
fn failed_backward_on_a_volatile_variable_changes_nothing() {
    let mut session: Session<Op> = Session::new();
    let w = leaf(&mut session, vec![2]);
    let y = one(&mut session, Op::Scale(3), vec![w.kind()]);
    let args = VariableArgs { creator: Some(Function { id: 0 }), volatile: true, requires_grad: true };
    let x = Variable::new_args(&mut session, Tensor::scalar(5i64), &args).unwrap();
    assert_eq!(x.grad_fn(session.arena()), Ok(None));
    assert_eq!(x.backward(&mut session), Err(GraphError::InvalidBackward));
    assert!(!session.arena().get(x.id).unwrap().is_dirty());
    assert!(x.data(session.arena()).unwrap().equals(&Tensor::scalar(5i64)));
    assert_eq!(grad_of(&session, &x), None);
    assert_eq!(grad_of(&session, &w), None);
    assert_eq!(y.backward_args(&mut session, Some(&long(vec![1])), false), Ok(()));
    assert_eq!(grad_of(&session, &w), Some(vec![3]));
}

#[test]
fn volatile_wins_over_no_grad() {
    let mut session: Session<Op> = Session::new();
    let args = VariableArgs { creator: None, volatile: true, requires_grad: false };
    let x = Variable::new_args(&mut session, Tensor::scalar(5i64), &args).unwrap();
    assert_eq!(x.backward(&mut session), Err(GraphError::InvalidBackward));
}

#[test]
fn backward_without_grad_required_fails() {
    let mut session: Session<Op> = Session::new();
    let x = Variable::new(&mut session, Tensor::scalar(5i64)).unwrap();
    x.requires_nograd(&mut session).unwrap();
    assert_eq!(x.backward(&mut session), Err(GraphError::NoGradRequired));
    assert_eq!(grad_of(&session, &x), None);
}

#[test]
fn backward_without_gradient_needs_a_scalar() {
    let mut session: Session<Op> = Session::new();
    let x = leaf(&mut session, vec![1, 2]);
    assert_eq!(x.backward(&mut session), Err(GraphError::ShapeMismatch));
    let one_element = leaf(&mut session, vec![1]);
    assert_eq!(one_element.backward(&mut session), Err(GraphError::ShapeMismatch));
    assert_eq!(grad_of(&session, &x), None);
}

#[test]
fn gradient_must_have_the_shape_of_the_data() {
    let mut session: Session<Op> = Session::new();
    let x = leaf(&mut session, vec![1, 2]);
    assert_eq!(x.backward_args(&mut session, Some(&long(vec![1, 2, 3])), false), Err(GraphError::ShapeMismatch));
    assert_eq!(grad_of(&session, &x), None);
}

#[test]
fn engine_checks_identity_kind_and_shape() {
    let mut session: Session<Op> = Session::new();
    let x = leaf(&mut session, vec![1, 2]);
    let g = TensorKind::LongTensor(long(vec![1, 1]));
    assert_eq!(ExecutionEngine::run_backward(&mut session, 9, g.copy(), false), Err(GraphError::OutOfRangeIdentity));
    assert_eq!(ExecutionEngine::run_backward(&mut session, -1, g.copy(), false), Err(GraphError::OutOfRangeIdentity));
    let float = TensorKind::FloatTensor(Tensor::new(vec![2], vec![Float32::from_bits(0); 2]).unwrap());
    assert_eq!(ExecutionEngine::run_backward(&mut session, x.id, float, false), Err(GraphError::TypeMismatch));
    let short = TensorKind::LongTensor(long(vec![1]));
    assert_eq!(ExecutionEngine::run_backward(&mut session, x.id, short, false), Err(GraphError::ShapeMismatch));
    assert_eq!(ExecutionEngine::run_backward(&mut session, x.id, g, false), Ok(()));
    assert_eq!(grad_of(&session, &x), Some(vec![1, 1]));
}

#[test]
fn second_backward_fails_once_the_graph_is_freed() {
    let mut session: Session<Op> = Session::new();
    let x = leaf(&mut session, vec![1]);
    let y = one(&mut session, Op::Scale(2), vec![x.kind()]);
    let g = long(vec![1]);
    assert_eq!(y.backward_args(&mut session, Some(&g), false), Ok(()));
    assert_eq!(y.backward_args(&mut session, Some(&g), false), Err(GraphError::GraphAlreadyFreed));
    assert_eq!(y.backward_args(&mut session, Some(&g), true), Err(GraphError::GraphAlreadyFreed));
    assert_eq!(grad_of(&session, &x), Some(vec![2]));
}

#[test]
fn retained_graph_can_be_walked_again() {
    let mut session: Session<Op> = Session::new();
    let x = leaf(&mut session, vec![1]);
    let y = one(&mut session, Op::Scale(2), vec![x.kind()]);
    let g = long(vec![1]);
    assert_eq!(y.backward_args(&mut session, Some(&g), true), Ok(()));
    assert_eq!(y.backward_args(&mut session, Some(&g), true), Ok(()));
    assert_eq!(grad_of(&session, &x), Some(vec![4]));
    assert_eq!(y.backward_args(&mut session, Some(&g), false), Ok(()));
    assert_eq!(y.backward_args(&mut session, Some(&g), true), Err(GraphError::GraphAlreadyFreed));
    assert_eq!(grad_of(&session, &x), Some(vec![6]));
}

#[test]
fn freed_part_blocks_only_what_needs_it() {
    let mut session: Session<Op> = Session::new();
    let x = leaf(&mut session, vec![1]);
    let y = one(&mut session, Op::Scale(2), vec![x.kind()]);
    let z = one(&mut session, Op::Scale(3), vec![y.kind()]);
    let g = long(vec![1]);
    assert_eq!(y.backward_args(&mut session, Some(&g), false), Ok(()));
    assert_eq!(z.backward_args(&mut session, Some(&g), false), Err(GraphError::GraphAlreadyFreed));
}

#[test]
fn outputs_name_their_producer() {
    let mut session: Session<Op> = Session::new();
    let x = leaf(&mut session, vec![1]);
    let y = one(&mut session, Op::Scale(2), vec![x.kind()]);
    let z = one(&mut session, Op::Scale(3), vec![y.kind()]);
    assert_eq!(session.node_count(), 2);
    assert_eq!(x.grad_fn(session.arena()), Ok(None));
    assert_eq!(y.grad_fn(session.arena()), Ok(Some(Function { id: 0 })));
    assert_eq!(z.grad_fn(session.arena()), Ok(Some(Function { id: 1 })));
    assert_eq!((x.id, y.id, z.id), (0, 1, 2));
    assert_eq!(z.requires_grad(session.arena()), Ok(true));
    assert_eq!(z.is_volatile(session.arena()), Ok(false));
}

#[test]
fn volatile_input_makes_volatile_outputs_and_no_node() {
    let mut session: Session<Op> = Session::new();
    let args = VariableArgs { creator: None, volatile: true, requires_grad: false };
    let x = Variable::new_args(&mut session, long(vec![1]), &args).unwrap();
    let w = leaf(&mut session, vec![2]);
    let y = one(&mut session, Op::Sum, vec![x.kind(), w.kind()]);
    assert_eq!(session.node_count(), 0);
    assert_eq!(y.is_volatile(session.arena()), Ok(true));
    assert_eq!(y.requires_grad(session.arena()), Ok(false));
    assert_eq!(y.grad_fn(session.arena()), Ok(None));
    assert!(y.data(session.arena()).unwrap().equals(&long(vec![3])));
    assert_eq!(y.backward_args(&mut session, Some(&long(vec![1])), false), Err(GraphError::InvalidBackward));
}

#[test]
fn input_without_grad_gets_none() {
    let mut session: Session<Op> = Session::new();
    let x = leaf(&mut session, vec![1]);
    x.requires_nograd(&mut session).unwrap();
    let w = leaf(&mut session, vec![2]);
    let y = one(&mut session, Op::Sum, vec![x.kind(), w.kind()]);
    assert_eq!(y.requires_grad(session.arena()), Ok(true));
    y.backward_args(&mut session, Some(&long(vec![5])), false).unwrap();
    assert_eq!(grad_of(&session, &x), None);
    assert_eq!(grad_of(&session, &w), Some(vec![5]));
}

#[test]
fn outputs_of_inputs_without_grad_do_not_require_it() {
    let mut session: Session<Op> = Session::new();
    let x = leaf(&mut session, vec![1]);
    x.requires_nograd(&mut session).unwrap();
    let y = one(&mut session, Op::Scale(2), vec![x.kind()]);
    assert_eq!(y.requires_grad(session.arena()), Ok(false));
    assert_eq!(y.backward_args(&mut session, Some(&long(vec![5])), false), Err(GraphError::NoGradRequired));
}

#[test]
fn in_place_operation_marks_its_input_dirty() {
    let mut session: Session<Op> = Session::new();
    let x = leaf(&mut session, vec![1, 2]);
    let y = one(&mut session, Op::DoubleInPlace, vec![x.kind()]);
    assert!(session.arena().get(x.id).unwrap().is_dirty());
    assert!(x.data(session.arena()).unwrap().equals(&long(vec![2, 4])));
    assert!(y.data(session.arena()).unwrap().equals(&long(vec![2, 4])));
    assert_eq!(y.backward_args(&mut session, Some(&long(vec![1, 1])), false), Err(GraphError::DirtyVariableError));
    assert_eq!(grad_of(&session, &x), None);
}

#[test]
fn failing_backward_aborts_the_pass() {
    let mut session: Session<Op> = Session::new();
    let x = leaf(&mut session, vec![1]);
    let y = one(&mut session, Op::FailBackward, vec![x.kind()]);
    let z = one(&mut session, Op::Scale(3), vec![y.kind()]);
    assert_eq!(z.backward_args(&mut session, Some(&long(vec![1])), false), Err(GraphError::TypeMismatch));
    assert_eq!(grad_of(&session, &x), None);
}

#[test]
fn backward_must_give_one_gradient_per_input() {
    let mut session: Session<Op> = Session::new();
    let x = leaf(&mut session, vec![1]);
    let y = one(&mut session, Op::TooMany, vec![x.kind()]);
    assert_eq!(y.backward_args(&mut session, Some(&long(vec![1])), false), Err(GraphError::ShapeMismatch));
}

#[test]
fn contribution_must_have_the_shape_of_the_input() {
    let mut session: Session<Op> = Session::new();
    let x = leaf(&mut session, vec![1]);
    let y = one(&mut session, Op::WrongShape, vec![x.kind()]);
    assert_eq!(y.backward_args(&mut session, Some(&long(vec![1])), false), Err(GraphError::ShapeMismatch));
    assert_eq!(grad_of(&session, &x), None);
}

#[test]
fn apply_checks_its_handles() {
    let mut session: Session<Op> = Session::new();
    let x = leaf(&mut session, vec![1]);
    let stranger = VarKind::of(5, autograd_core::tensor::ElemKind::Long);
    assert!(matches!(session.apply(Op::Scale(2), &vec![x.kind(), stranger]), Err(GraphError::OutOfRangeIdentity)));
    let wrong = VarKind::of(x.id, autograd_core::tensor::ElemKind::Float);
    assert!(matches!(session.apply(Op::Scale(2), &vec![wrong]), Err(GraphError::TypeMismatch)));
    assert!(matches!(session.apply(Op::FailForward, &vec![x.kind()]), Err(GraphError::ShapeMismatch)));
    assert!(matches!(session.apply(Op::BadDirty, &vec![x.kind()]), Err(GraphError::ShapeMismatch)));
    assert_eq!(session.node_count(), 0);
    assert_eq!(session.arena().len(), 1);
    assert!(!session.arena().get(x.id).unwrap().is_dirty());
}

#[test]
fn record_checks_what_forward_gave() {
    let mut session: Session<Op> = Session::new();
    let x = leaf(&mut session, vec![1]);
    let data = vec![TensorKind::LongTensor(long(vec![1]))];
    let good = Forward { outputs: vec![TensorKind::LongTensor(long(vec![2]))], dirty: vec![] };
    assert!(matches!(session.record(Op::Scale(2), &vec![7], &data, &good), Err(GraphError::OutOfRangeIdentity)));
    assert!(matches!(session.record(Op::Scale(2), &vec![x.id], &Vec::new(), &good), Err(GraphError::ShapeMismatch)));
    let float = vec![TensorKind::FloatTensor(Tensor::scalar(Float32::from_bits(0)))];
    let kind_changed = Forward { outputs: vec![], dirty: vec![0] };
    assert!(matches!(session.record(Op::Scale(2), &vec![x.id], &float, &kind_changed), Err(GraphError::TypeMismatch)));
    assert_eq!(session.arena().len(), 1);
    let out = session.record(Op::Scale(2), &vec![x.id], &data, &good).unwrap();
    assert_eq!(out.len(), 1);
    assert_eq!(out[0].varid(), 1);
    assert_eq!(session.node_count(), 1);
}

#[test]
fn float_graph_adds_up_in_ieee_arithmetic() {
    let f = |x: f32| Float32::from_bits(x.to_bits());
    let mut session: Session<Op> = Session::new();
    let data = Tensor::new(vec![2], vec![f(0.1), f(1.5)]).unwrap();
    let x = Variable::new(&mut session, data).unwrap();
    let a = session.apply(Op::Scale(3), &vec![x.kind()]).unwrap();
    let b = session.apply(Op::Sum, &vec![a[0], x.kind()]).unwrap();
    let out: Variable<Float32> = b[0].typed().unwrap();
    let seed = Tensor::new(vec![2], vec![f(0.7), f(2.0)]).unwrap();
    out.backward_args(&mut session, Some(&seed), false).unwrap();
    let g = x.grad(&mut session).unwrap();
    let expect: Vec<Float32> = vec![f(0.0f32 + (0.7f32 + 0.7f32 * 3.0f32)), f(0.0f32 + (2.0f32 + 2.0f32 * 3.0f32))];
    assert_eq!(g.elems(), &expect);
}

#[test]
fn clear_ends_the_computation() {
    let mut session: Session<Op> = Session::new();
    let x = leaf(&mut session, vec![1]);
    let _ = one(&mut session, Op::Scale(2), vec![x.kind()]);
    session.clear();
    assert_eq!(session.node_count(), 0);
    assert_eq!(session.arena().len(), 0);
    assert!(matches!(x.data(session.arena()), Err(GraphError::OutOfRangeIdentity)));
    let y = leaf(&mut session, vec![5]);
    assert_eq!(y.id, 0);
}

#[test]
fn variable_that_claims_a_producer_which_does_not_list_it_is_a_leaf() {
    let mut session: Session<Op> = Session::new();
    let w = leaf(&mut session, vec![2]);
    let _ = one(&mut session, Op::Scale(3), vec![w.kind()]);
    let args = VariableArgs { creator: Some(Function { id: 0 }), volatile: false, requires_grad: true };
    let x = Variable::new_args(&mut session, long(vec![1]), &args).unwrap();
    assert_eq!(x.grad_fn(session.arena()), Ok(Some(Function { id: 0 })));
    let y = one(&mut session, Op::Scale(5), vec![x.kind()]);
    y.backward_args(&mut session, Some(&long(vec![1])), false).unwrap();
    assert_eq!(grad_of(&session, &x), Some(vec![5]));
    assert_eq!(grad_of(&session, &w), None);
}

#[test]
fn replacing_the_data_by_another_shape_drops_the_gradient() {
    let mut session: Session<Op> = Session::new();
    let x = leaf(&mut session, vec![1, 2]);
    x.backward_args(&mut session, Some(&long(vec![3, 4])), false).unwrap();
    assert_eq!(grad_of(&session, &x), Some(vec![3, 4]));
    x.set(&mut session, long(vec![7, 8])).unwrap();
    assert_eq!(grad_of(&session, &x), Some(vec![3, 4]));
    x.set(&mut session, long(vec![7, 8, 9])).unwrap();
    assert_eq!(grad_of(&session, &x), None);
    x.backward_args(&mut session, Some(&long(vec![1, 1, 1])), false).unwrap();
    assert_eq!(grad_of(&session, &x), Some(vec![1, 1, 1]));
}
