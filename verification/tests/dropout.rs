use autograd_core::error::GraphError;
use autograd_core::float::{Float32, Float64};
use autograd_core::function::FuncIntf;
use autograd_core::nn::dropout::{
    dropout_backward, dropout_forward, keep_flag, masked, Dropout1d, Dropout2d, DropoutArgs, Noise,
};
use autograd_core::session::Session;
use autograd_core::tensor::{Tensor, TensorKind};
use autograd_core::variable::Variable;

fn f(x: f32) -> Float32 {
    Float32::from_bits(x.to_bits())
}

fn native(x: &Float32) -> f32 {
    f32::from_bits(x.to_bits())
}

fn floats(shape: Vec<usize>, values: Vec<f32>) -> Tensor<Float32> {
    Tensor::new(shape, values.into_iter().map(f).collect()).unwrap()
}

fn args(p: f64, training: bool, inplace: bool) -> DropoutArgs {
    DropoutArgs { p: Float64::from_bits(p.to_bits()), training, inplace }
}

fn float_elems(t: &TensorKind) -> Vec<f32> {
    match t {
        TensorKind::FloatTensor(x) => x.elems().iter().map(native).collect(),
        TensorKind::LongTensor(_) => panic!("a long value"),
    }
}

#[test]
fn idle_dropout_is_the_identity() {
    for a in [args(0.5, false, false), args(0.0, true, false), args(-0.0, true, false), args(0.9, false, false)] {
        let mut node = Dropout1d::new(a);
        let x = TensorKind::FloatTensor(floats(vec![3], vec![1.5, -2.0, 0.25]));
        let mut input = vec![x.copy()];
        let out = node.forward(&mut input).unwrap();
        assert_eq!(out.outputs.len(), 1);
        assert!(out.outputs[0].equals(&x));
        assert!(out.dirty.is_empty());
        assert!(input[0].equals(&x));
        assert!(node.saved_tensors.is_empty());
        let g = TensorKind::FloatTensor(floats(vec![3], vec![0.1, 0.2, 0.3]));
        let back = node.backward(&vec![Some(g.copy())]).unwrap();
        assert_eq!(back.len(), 1);
        assert!(back[0].as_ref().unwrap().equals(&g));
    }
}

#[test]
fn idle_dropout_passes_long_values() {
    let mut node = Dropout2d::new(args(0.5, false, false));
    let x = TensorKind::LongTensor(Tensor::new(vec![2], vec![4i64, 5]).unwrap());
    let out = node.forward(&mut vec![x.copy()]).unwrap();
    assert!(out.outputs[0].equals(&x));
    let back = node.backward(&vec![Some(x.copy())]).unwrap();
    assert!(back[0].as_ref().unwrap().equals(&x));
}

#[test]
fn masking_gives_zero_or_twice_the_input_at_one_half() {
    let mut node = Dropout1d::new(args(0.5, true, false));
    let values: Vec<f32> = (1..=200).map(|i| i as f32).collect();
    let x = TensorKind::FloatTensor(floats(vec![200], values.clone()));
    let out = node.forward(&mut vec![x.copy()]).unwrap();
    assert_eq!(out.outputs.len(), 1);
    let y = float_elems(&out.outputs[0]);
    assert_eq!(node.saved_tensors.len(), 1);
    let noise = float_elems(&node.saved_tensors[0]);
    let g: Vec<f32> = (1..=200).map(|i| 0.5 + i as f32).collect();
    let back = node.backward(&vec![Some(TensorKind::FloatTensor(floats(vec![200], g.clone())))]).unwrap();
    let gx = float_elems(back[0].as_ref().unwrap());
    let mut kept = 0;
    for i in 0..200 {
        assert!(noise[i] == 0.0 || noise[i] == 2.0);
        assert!(y[i] == 0.0 || y[i] == 2.0 * values[i]);
        assert_eq!(y[i] == 0.0, noise[i] == 0.0);
        assert_eq!(gx[i] == 0.0, noise[i] == 0.0);
        assert_eq!(gx[i], g[i] * noise[i]);
        if noise[i] != 0.0 {
            kept += 1;
        }
    }
    assert!(kept > 0 && kept < 200);
}

#[test]
fn masking_scales_by_one_over_the_keep_probability() {
    let mut node = Dropout1d::new(args(0.75, true, false));
    let x = TensorKind::FloatTensor(floats(vec![64], vec![3.0; 64]));
    let out = node.forward(&mut vec![x]).unwrap();
    for y in float_elems(&out.outputs[0]) {
        assert!(y == 0.0 || y == 3.0 * (1.0f32 / 0.25f32));
    }
}

#[test]
fn masking_refuses_long_values() {
    let mut node = Dropout1d::new(args(0.5, true, false));
    let x = TensorKind::LongTensor(Tensor::new(vec![2], vec![4i64, 5]).unwrap());
    let mut input = vec![x.copy()];
    assert!(matches!(node.forward(&mut input), Err(GraphError::TypeMismatch)));
    assert!(input[0].equals(&x));
    assert!(node.saved_tensors.is_empty());
}

#[test]
fn forward_needs_an_input() {
    let mut node = Dropout1d::new(args(0.5, true, false));
    assert!(matches!(node.forward(&mut Vec::new()), Err(GraphError::ShapeMismatch)));
    let mut idle = Dropout2d::new(args(0.5, false, false));
    assert!(matches!(idle.forward(&mut Vec::new()), Err(GraphError::ShapeMismatch)));
}

#[test]
fn in_place_masking_overwrites_the_input() {
    let mut node = Dropout1d::new(args(0.5, true, true));
    let x = TensorKind::FloatTensor(floats(vec![4], vec![1.0, 2.0, 3.0, 4.0]));
    let mut input = vec![x];
    let out = node.forward(&mut input).unwrap();
    assert_eq!(out.dirty, vec![0]);
    assert!(input[0].equals(&out.outputs[0]));
    let mut idle = Dropout1d::new(args(0.5, false, true));
    let same = idle.forward(&mut input).unwrap();
    assert_eq!(same.dirty, vec![0]);
}

#[test]
fn channel_masking_shares_one_cell_per_feature_map() {
    let mut node = Dropout2d::new(args(0.5, true, false));
    let values: Vec<f32> = (0..2 * 8 * 3 * 2).map(|i| 1.0 + i as f32).collect();
    let x = TensorKind::FloatTensor(floats(vec![2, 8, 3, 2], values));
    let out = node.forward(&mut vec![x]).unwrap();
    let noise = float_elems(&node.saved_tensors[0]);
    assert_eq!(noise.len(), 96);
    for cell in 0..16 {
        for j in 0..6 {
            assert_eq!(noise[cell * 6 + j], noise[cell * 6]);
            assert!(noise[cell * 6 + j] == 0.0 || noise[cell * 6 + j] == 2.0);
        }
    }
    assert_eq!(float_elems(&out.outputs[0]).len(), 96);
}

#[test]
fn channel_masking_needs_two_dimensions() {
    let mut node = Dropout2d::new(args(0.5, true, false));
    let x = TensorKind::FloatTensor(floats(vec![4], vec![1.0, 2.0, 3.0, 4.0]));
    assert!(matches!(node.forward(&mut vec![x]), Err(GraphError::ShapeMismatch)));
    let two = TensorKind::FloatTensor(floats(vec![2, 2], vec![1.0, 2.0, 3.0, 4.0]));
    assert!(node.forward(&mut vec![two]).is_ok());
    let empty = TensorKind::FloatTensor(floats(vec![2, 0, 3], vec![]));
    let out = node.forward(&mut vec![empty.copy()]).unwrap();
    assert!(out.outputs[0].equals(&empty));
}

#[test]
fn noise_layouts() {
    let x = floats(vec![2, 3, 4], vec![0.0; 24]);
    let one = Dropout1d::new(DropoutArgs::default()).make_noise(&x).unwrap();
    assert_eq!((one.cells, one.inner), (24, 1));
    let two = Dropout2d::new(DropoutArgs::default()).make_noise(&x).unwrap();
    assert_eq!((two.cells, two.inner), (6, 4));
    let flat = floats(vec![2, 3], vec![0.0; 6]);
    let plain = Dropout2d::new(DropoutArgs::default()).make_noise(&flat).unwrap();
    assert_eq!((plain.cells, plain.inner), (6, 1));
}

#[test]
fn masked_follows_the_flags() {
    let x = floats(vec![2, 2], vec![1.0, 2.0, 3.0, 4.0]);
    let (noise, output) = masked(&x, &vec![true, false], f(0.5), 2).unwrap();
    assert!(noise.equals(&floats(vec![2, 2], vec![2.0, 2.0, 0.0, 0.0])));
    assert!(output.equals(&floats(vec![2, 2], vec![2.0, 4.0, 0.0, 0.0])));
    let (noise, output) = masked(&x, &vec![false, true, true, false], f(0.25), 1).unwrap();
    assert!(noise.equals(&floats(vec![2, 2], vec![0.0, 4.0, 4.0, 0.0])));
    assert!(output.equals(&floats(vec![2, 2], vec![0.0, 8.0, 12.0, 0.0])));
}

#[test]
fn masked_needs_enough_flags() {
    let x = floats(vec![4], vec![1.0, 2.0, 3.0, 4.0]);
    assert!(matches!(masked(&x, &vec![true], f(0.5), 2), Err(GraphError::ShapeMismatch)));
    assert!(matches!(masked(&x, &vec![true; 4], f(0.5), 0), Err(GraphError::ShapeMismatch)));
    assert!(masked(&x, &vec![true, true], f(0.5), 2).is_ok());
    let empty = floats(vec![0], vec![]);
    assert!(masked(&empty, &vec![], f(0.5), 1).is_ok());
}

#[test]
fn nothing_kept_divides_zero_by_zero() {
    let x = floats(vec![2], vec![1.0, 2.0]);
    let (noise, output) = masked(&x, &vec![false, false], f(0.0), 1).unwrap();
    assert!(noise.elems().iter().all(|n| native(n).is_nan()));
    assert!(output.elems().iter().all(|n| native(n).is_nan()));
}

#[test]
fn forward_with_flags_gives_noise_and_output() {
    let a = args(0.5, true, false);
    let x = TensorKind::FloatTensor(floats(vec![3], vec![1.0, 2.0, 3.0]));
    let mut input = vec![x.copy()];
    let out = dropout_forward(&mut input, &a, &vec![true, false, true], 1).unwrap();
    assert_eq!(out.len(), 2);
    assert_eq!(float_elems(&out[0]), vec![2.0, 0.0, 2.0]);
    assert_eq!(float_elems(&out[1]), vec![2.0, 0.0, 6.0]);
    assert!(input[0].equals(&x));
    let idle = dropout_forward(&mut input, &args(0.5, false, false), &vec![], 1).unwrap();
    assert_eq!(idle.len(), 1);
    assert!(idle[0].equals(&x));
    assert!(matches!(dropout_forward(&mut input, &a, &vec![true], 1), Err(GraphError::ShapeMismatch)));
}

#[test]
fn backward_multiplies_by_the_saved_noise() {
    let a = args(0.5, true, false);
    let noise = TensorKind::FloatTensor(floats(vec![3], vec![2.0, 0.0, 2.0]));
    let g = TensorKind::FloatTensor(floats(vec![3], vec![0.5, 0.5, 4.0]));
    let back = dropout_backward(&vec![Some(g.copy())], &a, Some(&noise)).unwrap();
    assert_eq!(float_elems(back[0].as_ref().unwrap()), vec![1.0, 0.0, 8.0]);
    let none = dropout_backward(&vec![None], &a, Some(&noise)).unwrap();
    assert!(none.len() == 1 && none[0].is_none());
    assert!(matches!(dropout_backward(&vec![Some(g.copy())], &a, None), Err(GraphError::GraphAlreadyFreed)));
    assert!(matches!(dropout_backward(&Vec::new(), &a, Some(&noise)), Err(GraphError::ShapeMismatch)));
    let short = TensorKind::FloatTensor(floats(vec![1], vec![1.0]));
    assert!(matches!(dropout_backward(&vec![Some(short)], &a, Some(&noise)), Err(GraphError::ShapeMismatch)));
    let long = TensorKind::LongTensor(Tensor::new(vec![3], vec![1i64, 2, 3]).unwrap());
    assert!(matches!(dropout_backward(&vec![Some(long)], &a, Some(&noise)), Err(GraphError::TypeMismatch)));
}

#[test]
fn release_drops_the_saved_noise() {
    let mut node = Dropout1d::new(args(0.5, true, false));
    let x = TensorKind::FloatTensor(floats(vec![3], vec![1.0, 2.0, 3.0]));
    node.forward(&mut vec![x.copy()]).unwrap();
    assert_eq!(node.saved_tensors.len(), 1);
    node.release();
    assert!(node.saved_tensors.is_empty());
    assert!(matches!(node.backward(&vec![Some(x)]), Err(GraphError::GraphAlreadyFreed)));
}

#[test]
fn keep_flag_compares_with_the_threshold() {
    assert!(!keep_flag(0, 0));
    assert!(keep_flag(4, 5));
    assert!(!keep_flag(5, 5));
    assert!(!keep_flag(6, 5));
    assert!(keep_flag(0, 1));
    assert!(keep_flag(u32::MAX, 1u64 << 32));
    assert!(!keep_flag(u32::MAX, (1u64 << 31)));
    assert!(keep_flag((1u32 << 31) - 1, 1u64 << 31));
    assert!(!keep_flag(1u32 << 31, 1u64 << 31));
}

#[test]
fn nothing_is_kept_at_probability_one() {
    let mut node = Dropout1d::new(args(1.0, true, false));
    let x = TensorKind::FloatTensor(floats(vec![64], vec![3.0; 64]));
    node.forward(&mut vec![x]).unwrap();
    let noise = float_elems(&node.saved_tensors[0]);
    assert!(noise.iter().all(|n| n.is_nan()));
}

#[test]
fn second_backward_without_forward_fails() {
    let mut node = Dropout1d::new(args(0.5, true, false));
    let x = TensorKind::FloatTensor(floats(vec![3], vec![1.0, 2.0, 3.0]));
    node.forward(&mut vec![x.copy()]).unwrap();
    assert_eq!(node.saved_tensors.len(), 1);
    assert!(node.backward(&vec![Some(x.copy())]).is_ok());
    assert!(node.saved_tensors.is_empty());
    assert!(matches!(node.backward(&vec![Some(x.copy())]), Err(GraphError::GraphAlreadyFreed)));
    assert!(matches!(node.backward(&vec![None]), Err(GraphError::GraphAlreadyFreed)));
    assert!(matches!(node.backward_retained(&vec![Some(x.copy())]), Err(GraphError::GraphAlreadyFreed)));
    node.forward(&mut vec![x.copy()]).unwrap();
    assert!(node.backward(&vec![Some(x)]).is_ok());
}

#[test]
fn backward_uses_the_noise_of_each_forward_in_turn() {
    let mut node = Dropout1d::new(args(0.5, true, false));
    let x = TensorKind::FloatTensor(floats(vec![40], vec![1.0; 40]));
    node.forward(&mut vec![x.copy()]).unwrap();
    node.forward(&mut vec![x.copy()]).unwrap();
    assert_eq!(node.saved_tensors.len(), 2);
    let first = float_elems(&node.saved_tensors[0]);
    let second = float_elems(&node.saved_tensors[1]);
    let a = node.backward(&vec![Some(x.copy())]).unwrap();
    assert_eq!(node.saved_tensors.len(), 1);
    let b = node.backward(&vec![Some(x.copy())]).unwrap();
    assert!(node.saved_tensors.is_empty());
    assert_eq!(float_elems(a[0].as_ref().unwrap()), first);
    assert_eq!(float_elems(b[0].as_ref().unwrap()), second);
}

#[test]
fn failed_backward_uses_up_the_noise_too() {
    let mut node = Dropout1d::new(args(0.5, true, false));
    let x = TensorKind::FloatTensor(floats(vec![3], vec![1.0, 2.0, 3.0]));
    node.forward(&mut vec![x.copy()]).unwrap();
    let short = TensorKind::FloatTensor(floats(vec![1], vec![1.0]));
    assert!(matches!(node.backward(&vec![Some(short)]), Err(GraphError::ShapeMismatch)));
    assert!(node.saved_tensors.is_empty());
    node.forward(&mut vec![x.copy()]).unwrap();
    assert!(matches!(node.backward(&Vec::new()), Err(GraphError::ShapeMismatch)));
    assert_eq!(node.saved_tensors.len(), 1);
}

#[test]
fn retained_backward_leaves_the_noise_in_place() {
    let mut node = Dropout2d::new(args(0.5, true, false));
    let x = TensorKind::FloatTensor(floats(vec![2, 2], vec![1.0, 2.0, 3.0, 4.0]));
    node.forward(&mut vec![x.copy()]).unwrap();
    let a = node.backward_retained(&vec![Some(x.copy())]).unwrap();
    let b = node.backward_retained(&vec![Some(x.copy())]).unwrap();
    assert_eq!(node.saved_tensors.len(), 1);
    assert!(a[0].as_ref().unwrap().equals(b[0].as_ref().unwrap()));
    let c = node.backward(&vec![Some(x.copy())]).unwrap();
    assert!(a[0].as_ref().unwrap().equals(c[0].as_ref().unwrap()));
    assert!(node.saved_tensors.is_empty());
}

#[test]
fn idle_backward_uses_nothing_up() {
    let mut node = Dropout1d::new(args(0.5, false, false));
    let g = TensorKind::FloatTensor(floats(vec![2], vec![1.0, 2.0]));
    for _ in 0..3 {
        let back = node.backward(&vec![Some(g.copy())]).unwrap();
        assert!(back[0].as_ref().unwrap().equals(&g));
    }
    let none = node.backward(&vec![None]).unwrap();
    assert!(none.len() == 1 && none[0].is_none());
}

#[test]
fn retained_pass_in_a_session_keeps_the_noise() {
    let mut session: Session<Dropout1d> = Session::new();
    let x = Variable::new(&mut session, floats(vec![30], vec![1.0; 30])).unwrap();
    let out = session.apply(Dropout1d::new(args(0.5, true, false)), &vec![x.kind()]).unwrap();
    let y: Variable<Float32> = out[0].typed().unwrap();
    let seen: Vec<f32> = y.data(session.arena()).unwrap().elems().iter().map(native).collect();
    let seed = floats(vec![30], vec![1.0; 30]);
    y.backward_args(&mut session, Some(&seed), true).unwrap();
    y.backward_args(&mut session, Some(&seed), true).unwrap();
    let twice: Vec<f32> = x.grad(&mut session).unwrap().elems().iter().map(native).collect();
    for i in 0..30 {
        assert_eq!(twice[i], 2.0 * seen[i]);
    }
    y.backward_args(&mut session, Some(&seed), false).unwrap();
    assert_eq!(y.backward_args(&mut session, Some(&seed), true), Err(GraphError::GraphAlreadyFreed));
}

#[test]
fn dropout_in_a_session_masks_the_gradient_like_the_output() {
    let mut session: Session<Dropout1d> = Session::new();
    let values: Vec<f32> = (1..=50).map(|i| i as f32).collect();
    let x = Variable::new(&mut session, floats(vec![50], values.clone())).unwrap();
    let out = session.apply(Dropout1d::new(args(0.5, true, false)), &vec![x.kind()]).unwrap();
    let y: Variable<Float32> = out[0].typed().unwrap();
    let seen: Vec<f32> = y.data(session.arena()).unwrap().elems().iter().map(native).collect();
    y.backward_args(&mut session, Some(&floats(vec![50], vec![1.0; 50])), false).unwrap();
    let g: Vec<f32> = x.grad(&mut session).unwrap().elems().iter().map(native).collect();
    for i in 0..50 {
        assert!(seen[i] == 0.0 || seen[i] == 2.0 * values[i]);
        assert_eq!(g[i], if seen[i] == 0.0 { 0.0 } else { 2.0 });
    }
    assert_eq!(
        y.backward_args(&mut session, Some(&floats(vec![50], vec![1.0; 50])), false),
        Err(GraphError::GraphAlreadyFreed)
    );
}

#[test]
fn in_place_dropout_in_a_session_dirties_its_input() {
    let mut session: Session<Dropout1d> = Session::new();
    let x = Variable::new(&mut session, floats(vec![2], vec![1.0, 2.0])).unwrap();
    let out = session.apply(Dropout1d::new(args(0.5, false, true)), &vec![x.kind()]).unwrap();
    let y: Variable<Float32> = out[0].typed().unwrap();
    assert!(session.arena().get(x.id).unwrap().is_dirty());
    assert!(y.data(session.arena()).unwrap().equals(&floats(vec![2], vec![1.0, 2.0])));
}
