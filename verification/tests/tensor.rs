use autograd_core::error::GraphError;
use autograd_core::float::{Float32, Float64};
use autograd_core::tensor::{count, ElemKind, Element, Tensor, TensorKind};

fn f(x: f32) -> Float32 {
    Float32::from_bits(x.to_bits())
}

fn d(x: f64) -> Float64 {
    Float64::from_bits(x.to_bits())
}

fn long(shape: Vec<usize>, values: Vec<i64>) -> Tensor<i64> {
    Tensor::new(shape, values).unwrap()
}

fn floats(shape: Vec<usize>, values: Vec<f32>) -> Tensor<Float32> {
    Tensor::new(shape, values.into_iter().map(f).collect()).unwrap()
}

#[test]
fn count_is_the_product_of_the_dimensions() {
    assert_eq!(count(&vec![]), Some(1));
    assert_eq!(count(&vec![2, 3, 4]), Some(24));
    assert_eq!(count(&vec![5, 0, 7]), Some(0));
    assert_eq!(count(&vec![usize::MAX, 2]), None);
    assert_eq!(count(&vec![usize::MAX, 2, 0]), Some(0));
}

#[test]
fn new_checks_the_number_of_elements() {
    assert!(Tensor::new(vec![2, 2], vec![1i64, 2, 3, 4]).is_ok());
    assert!(matches!(Tensor::new(vec![2, 2], vec![1i64, 2, 3]), Err(GraphError::ShapeMismatch)));
    assert!(matches!(Tensor::new(vec![], vec![1i64, 2]), Err(GraphError::ShapeMismatch)));
    assert!(Tensor::new(vec![], vec![9i64]).unwrap().is_scalar());
}

#[test]
fn scalar_has_rank_zero_and_one_element() {
    let s = Tensor::scalar(7i64);
    assert!(s.is_scalar());
    assert_eq!(s.dim(), 0);
    assert_eq!(s.len(), 1);
    assert_eq!(s.elems(), &vec![7i64]);
}

#[test]
fn long_sum_and_product_are_elementwise() {
    let a = long(vec![3], vec![1, 2, 3]);
    let b = long(vec![3], vec![10, 20, 30]);
    assert!(a.add(&b).unwrap().equals(&long(vec![3], vec![11, 22, 33])));
    assert!(a.mul(&b).unwrap().equals(&long(vec![3], vec![10, 40, 90])));
}

#[test]
fn long_arithmetic_wraps() {
    let a = long(vec![2], vec![i64::MAX, i64::MIN]);
    let b = long(vec![2], vec![1, -1]);
    assert!(a.add(&b).unwrap().equals(&long(vec![2], vec![i64::MIN, i64::MAX])));
    let c = long(vec![1], vec![i64::MAX]);
    let two = long(vec![1], vec![2]);
    assert!(c.mul(&two).unwrap().equals(&long(vec![1], vec![-2])));
}

#[test]
fn shapes_must_agree() {
    let a = long(vec![2, 3], vec![0; 6]);
    let b = long(vec![3, 2], vec![0; 6]);
    assert!(matches!(a.add(&b), Err(GraphError::ShapeMismatch)));
    assert!(matches!(a.mul(&b), Err(GraphError::ShapeMismatch)));
    assert!(!a.same_shape(&b));
    assert!(!a.equals(&b));
}

#[test]
fn float_sum_is_the_ieee_sum() {
    let a = floats(vec![3], vec![1.5, -0.25, 1.0e30]);
    let b = floats(vec![3], vec![2.25, 0.25, 1.0e30]);
    let sum = a.add(&b).unwrap();
    let expect: Vec<Float32> = vec![f(1.5 + 2.25), f(-0.25 + 0.25), f(1.0e30f32 + 1.0e30f32)];
    assert_eq!(sum.elems(), &expect);
}

#[test]
fn float_product_is_the_ieee_product() {
    let a = floats(vec![3], vec![1.5, -0.25, 0.1]);
    let b = floats(vec![3], vec![2.0, 4.0, 0.1]);
    let product = a.mul(&b).unwrap();
    let expect: Vec<Float32> = vec![f(3.0), f(-1.0), f(0.1f32 * 0.1f32)];
    assert_eq!(product.elems(), &expect);
}

#[test]
fn float_quotient_is_the_ieee_quotient() {
    assert_eq!(f(1.0).divided_by(f(0.5)), f(2.0));
    assert_eq!(f(1.0).divided_by(f(3.0)), f(1.0f32 / 3.0f32));
    assert_eq!(f(0.0).divided_by(f(0.5)), f(0.0));
}

#[test]
fn element_constants() {
    assert_eq!(<Float32 as Element>::zero(), f(0.0));
    assert_eq!(<Float32 as Element>::one(), f(1.0));
    assert_eq!(<i64 as Element>::zero(), 0);
    assert_eq!(<i64 as Element>::one(), 1);
    assert_eq!(<Float32 as Element>::elem_kind(), ElemKind::Float);
    assert_eq!(<i64 as Element>::elem_kind(), ElemKind::Long);
    assert_eq!(f(1.5).plus(f(2.0)), f(3.5));
    assert_eq!(f(1.5).times(f(2.0)), f(3.0));
    assert!(f(1.5).same(f(1.5)));
    assert!(!f(0.0).same(f(-0.0)));
}

#[test]
fn double_complement_threshold_and_narrowing() {
    assert_eq!(d(0.5).complement(), d(0.5));
    assert_eq!(d(0.25).complement(), d(0.75));
    assert_eq!(d(0.3).complement(), d(1.0 - 0.3));
    assert_eq!(d(0.5).threshold(), 1u64 << 31);
    assert_eq!(d(1.0).threshold(), 1u64 << 32);
    assert_eq!(d(0.0).threshold(), 0);
    assert_eq!(d(-0.5).threshold(), 0);
    assert_eq!(d(0.7).narrowed(), f(0.7f64 as f32));
    assert_eq!(d(0.5).narrowed(), f(0.5));
}

#[test]
fn double_sign_test() {
    assert!(d(0.5).is_positive());
    assert!(d(f64::INFINITY).is_positive());
    assert!(d(f64::MIN_POSITIVE).is_positive());
    assert!(!d(0.0).is_positive());
    assert!(!d(-0.0).is_positive());
    assert!(!d(-1.0).is_positive());
    assert!(!d(f64::NAN).is_positive());
}

#[test]
fn kinds_do_not_mix() {
    let a = TensorKind::LongTensor(long(vec![2], vec![1, 2]));
    let b = TensorKind::FloatTensor(floats(vec![2], vec![1.0, 2.0]));
    assert!(matches!(a.add(&b), Err(GraphError::TypeMismatch)));
    assert!(matches!(a.mul(&b), Err(GraphError::TypeMismatch)));
    assert_eq!(a.mismatch(&b), Some(GraphError::TypeMismatch));
    assert!(!a.like(&b));
    assert!(!a.equals(&b));
    assert_eq!(a.kind(), ElemKind::Long);
    assert_eq!(b.kind(), ElemKind::Float);
}

#[test]
fn kind_mismatch_reports_type_before_shape() {
    let a = TensorKind::LongTensor(long(vec![2], vec![1, 2]));
    let b = TensorKind::FloatTensor(floats(vec![3], vec![1.0, 2.0, 3.0]));
    let c = TensorKind::LongTensor(long(vec![3], vec![1, 2, 3]));
    assert_eq!(a.mismatch(&b), Some(GraphError::TypeMismatch));
    assert_eq!(a.mismatch(&c), Some(GraphError::ShapeMismatch));
    assert_eq!(a.mismatch(&a.copy()), None);
}

#[test]
fn narrowing_a_value_checks_the_kind() {
    let a = TensorKind::LongTensor(long(vec![2], vec![1, 2]));
    assert!(a.copy().typed::<i64>().unwrap().equals(&long(vec![2], vec![1, 2])));
    assert!(matches!(a.typed::<Float32>(), Err(GraphError::TypeMismatch)));
    let t = long(vec![1], vec![5]).kind();
    assert_eq!(t.kind(), ElemKind::Long);
}

#[test]
fn zeros_and_ones_keep_kind_and_shape() {
    let a = TensorKind::FloatTensor(floats(vec![2, 2], vec![1.0, 2.0, 3.0, 4.0]));
    let z = a.zeros_like();
    let o = a.ones_like();
    assert!(z.equals(&TensorKind::FloatTensor(floats(vec![2, 2], vec![0.0; 4]))));
    assert!(o.equals(&TensorKind::FloatTensor(floats(vec![2, 2], vec![1.0; 4]))));
    assert_eq!(a.dim(), 2);
    assert_eq!(a.size(), &vec![2usize, 2]);
    assert!(!a.is_scalar());
}

#[test]
fn copy_is_equal_and_with_elems_keeps_the_shape() {
    let a = long(vec![2, 2], vec![1, 2, 3, 4]);
    assert!(a.copy().equals(&a));
    let b = a.with_elems(vec![5, 6, 7, 8]).unwrap();
    assert_eq!(b.size(), &vec![2usize, 2]);
    assert_eq!(b.elems(), &vec![5i64, 6, 7, 8]);
    assert!(matches!(a.with_elems(vec![1]), Err(GraphError::ShapeMismatch)));
    assert!(a.filled_like(9).equals(&long(vec![2, 2], vec![9; 4])));
}

#[test]
fn every_error_has_its_message() {
    assert_eq!(GraphError::InvalidBackward.message(), "calling backward on a volatile variable");
    assert_eq!(
        GraphError::NoGradRequired.message(),
        "calling backward on a variable that doesn't require a gradient"
    );
    assert_eq!(GraphError::TypeMismatch.message(), "bad cast");
    assert_eq!(GraphError::OutOfRangeIdentity.message(), "no variable with this identity");
    assert_eq!(GraphError::ShapeMismatch.message(), "shape mismatch");
    assert_eq!(
        GraphError::DirtyVariableError.message(),
        "gradient for a variable modified in place"
    );
    assert_eq!(GraphError::GraphAlreadyFreed.message(), "graph state already freed");
}
