use vstd::prelude::*;
use crate::error::GraphError;
use crate::float::Float32;

verus! {

/// The element types that a numeric value can be made of.
#[derive(Clone, Copy, Debug, PartialEq, Eq, Structural)]
pub enum ElemKind {
    Float,
    Long,
}

/// What the graph needs of an element type: a zero, a one, a sum and a
/// product. The spec functions are the meaning; the exec functions compute it.
pub trait Element: Copy + Sized {
    spec fn kind_of() -> ElemKind;

    spec fn zero_value() -> Self;

    spec fn one_value() -> Self;

    spec fn sum(a: Self, b: Self) -> Self;

    spec fn product(a: Self, b: Self) -> Self;

    fn elem_kind() -> (k: ElemKind)
        ensures
            k == Self::kind_of(),
    ;

    fn zero() -> (z: Self)
        ensures
            z == Self::zero_value(),
    ;

    fn one() -> (o: Self)
        ensures
            o == Self::one_value(),
    ;

    fn plus(self, rhs: Self) -> (r: Self)
        ensures
            r == Self::sum(self, rhs),
    ;

    fn times(self, rhs: Self) -> (r: Self)
        ensures
            r == Self::product(self, rhs),
    ;

    fn same(self, rhs: Self) -> (b: bool)
        ensures
            b == (self == rhs),
    ;
}

impl Element for i64 {
    open spec fn kind_of() -> ElemKind {
        ElemKind::Long
    }

    open spec fn zero_value() -> i64 {
        0
    }

    open spec fn one_value() -> i64 {
        1
    }

    open spec fn sum(a: i64, b: i64) -> i64 {
        a.wrapping_add(b)
    }

    open spec fn product(a: i64, b: i64) -> i64 {
        a.wrapping_mul(b)
    }

    fn elem_kind() -> (k: ElemKind) {
        ElemKind::Long
    }

    fn zero() -> (z: i64) {
        0
    }

    fn one() -> (o: i64) {
        1
    }

    fn plus(self, rhs: i64) -> (r: i64) {
        self.wrapping_add(rhs)
    }

    fn times(self, rhs: i64) -> (r: i64) {
        self.wrapping_mul(rhs)
    }

    fn same(self, rhs: i64) -> (b: bool) {
        self == rhs
    }
}

/// The number of elements that a value of the given shape holds: the product
/// of its dimensions, which is 1 for a scalar (no dimensions).
pub open spec fn numel(shape: Seq<usize>) -> nat
    decreases shape.len(),
{
    if shape.len() == 0 {
        1
    } else {
        (shape[0] as nat) * numel(shape.skip(1))
    }
}

/// The mathematical content of a numeric value: its shape and its elements
/// in row-major order.
pub ghost struct TensorValue<T> {
    pub shape: Seq<usize>,
    pub data: Seq<T>,
}

impl<T> TensorValue<T> {
    /// A value holds exactly as many elements as its shape asks for.
    pub open spec fn valid(self) -> bool {
        self.data.len() == numel(self.shape)
    }

    /// Whether the value has no dimensions.
    pub open spec fn is_scalar(self) -> bool {
        self.shape.len() == 0
    }

    /// The value of the same shape with every element replaced by `x`.
    pub open spec fn filled(self, x: T) -> TensorValue<T> {
        TensorValue { shape: self.shape, data: Seq::new(self.data.len(), |i: int| x) }
    }

}

impl<T: Element> TensorValue<T> {
    /// The elementwise sum; meaningful where the two shapes agree.
    pub open spec fn plus(self, rhs: TensorValue<T>) -> TensorValue<T> {
        TensorValue {
            shape: self.shape,
            data: Seq::new(self.data.len(), |i: int| T::sum(self.data[i], rhs.data[i])),
        }
    }

    /// The elementwise product; meaningful where the two shapes agree.
    pub open spec fn times(self, rhs: TensorValue<T>) -> TensorValue<T> {
        TensorValue {
            shape: self.shape,
            data: Seq::new(self.data.len(), |i: int| T::product(self.data[i], rhs.data[i])),
        }
    }
}

/// If one dimension is zero, the shape holds no element.
pub proof fn lemma_numel_zero_dim(shape: Seq<usize>, k: int)
    requires
        0 <= k < shape.len(),
        shape[k] == 0,
    ensures
        numel(shape) == 0,
    decreases shape.len(),
{
    let first = shape[0] as nat;
    let rest = numel(shape.skip(1));
    if k > 0 {
        lemma_numel_zero_dim(shape.skip(1), k - 1);
    }
    assert(first * rest == 0) by (nonlinear_arith)
        requires
            first == 0 || rest == 0,
    ;
}

/// Unfolds `numel` at dimension `i`.
pub proof fn lemma_numel_step(shape: Seq<usize>, i: int)
    requires
        0 <= i < shape.len(),
    ensures
        numel(shape.skip(i)) == (shape[i] as nat) * numel(shape.skip(i + 1)),
{
    assert(shape.skip(i).skip(1) =~= shape.skip(i + 1));
}

/// Without a zero dimension, dropping leading dimensions never adds elements.
pub proof fn lemma_numel_suffix(shape: Seq<usize>, i: int)
    requires
        0 <= i <= shape.len(),
        forall|j: int| 0 <= j < shape.len() ==> shape[j] >= 1,
    ensures
        numel(shape.skip(i)) <= numel(shape),
    decreases i,
{
    if i == 0 {
        assert(shape.skip(0) =~= shape);
    } else {
        lemma_numel_suffix(shape, i - 1);
        lemma_numel_step(shape, i - 1);
        let rest = numel(shape.skip(i));
        let d = shape[i - 1] as nat;
        assert(rest <= d * rest) by (nonlinear_arith)
            requires
                d >= 1,
        ;
    }
}

/// The number of elements that `shape` asks for, if a `usize` can hold it.
pub fn count(shape: &Vec<usize>) -> (r: Option<usize>)
    ensures
        match r {
            Some(n) => n == numel(shape@),
            None => numel(shape@) > usize::MAX,
        },
{
    let mut k: usize = 0;
    while k < shape.len()
        invariant
            k <= shape.len(),
            forall|j: int| 0 <= j < k ==> shape@[j] >= 1,
        decreases shape.len() - k,
    {
        if shape[k] == 0 {
            proof {
                lemma_numel_zero_dim(shape@, k as int);
            }
            return Some(0);
        }
        k += 1;
    }
    let mut acc: usize = 1;
    let mut i: usize = shape.len();
    while i > 0
        invariant
            i <= shape.len(),
            acc == numel(shape@.skip(i as int)),
            forall|j: int| 0 <= j < shape.len() ==> shape@[j] >= 1,
        decreases i,
    {
        i -= 1;
        proof {
            lemma_numel_step(shape@, i as int);
        }
        match acc.checked_mul(shape[i]) {
            None => {
                proof {
                    lemma_numel_suffix(shape@, i as int);
                    assert(acc * shape@[i as int] == shape@[i as int] * acc) by (nonlinear_arith);
                }
                return None;
            },
            Some(next) => {
                proof {
                    assert(acc * shape@[i as int] == shape@[i as int] * acc) by (nonlinear_arith);
                }
                acc = next;
            },
        }
    }
    assert(shape@.skip(0) =~= shape@);
    Some(acc)
}

/// A copy of `v`, element by element.
pub fn copy_elems<T: Copy>(v: &Vec<T>) -> (r: Vec<T>)
    ensures
        r@ == v@,
{
    let mut r: Vec<T> = Vec::new();
    let mut i: usize = 0;
    while i < v.len()
        invariant
            i <= v.len(),
            r@ == v@.take(i as int),
        decreases v.len() - i,
    {
        r.push(v[i]);
        i += 1;
    }
    r
}

/// A numeric value: a multi-dimensional array of one element type, held as
/// its shape and its elements in row-major order.
pub struct Tensor<T> {
    shape: Vec<usize>,
    data: Vec<T>,
}

impl<T> View for Tensor<T> {
    type V = TensorValue<T>;

    closed spec fn view(&self) -> TensorValue<T> {
        TensorValue { shape: self.shape@, data: self.data@ }
    }
}

impl<T> Tensor<T> {
    #[verifier::type_invariant]
    spec fn well_formed(self) -> bool {
        self.data@.len() == numel(self.shape@)
    }
}

impl<T: Element> Tensor<T> {
    /// Makes a value from a shape and its elements in row-major order.
    /// Fails with `ShapeMismatch` exactly when the number of elements is not
    /// the product of the dimensions.
    pub fn new(shape: Vec<usize>, data: Vec<T>) -> (r: Result<Tensor<T>, GraphError>)
        ensures
            data@.len() == numel(shape@) ==> r is Ok && r->Ok_0@ == (TensorValue {
                shape: shape@,
                data: data@,
            }),
            data@.len() != numel(shape@) ==> r == Err::<Tensor<T>, GraphError>(
                GraphError::ShapeMismatch,
            ),
    {
        let have: usize = data.len();
        match count(&shape) {
            Some(n) => {
                if n == have {
                    Ok(Tensor { shape, data })
                } else {
                    Err(GraphError::ShapeMismatch)
                }
            },
            None => Err(GraphError::ShapeMismatch),
        }
    }

    /// The scalar (rank 0) value that holds `x`.
    pub fn scalar(x: T) -> (r: Tensor<T>)
        ensures
            r@ == (TensorValue { shape: Seq::<usize>::empty(), data: seq![x] }),
    {
        let shape: Vec<usize> = Vec::new();
        let mut data: Vec<T> = Vec::new();
        data.push(x);
        Tensor { shape, data }
    }

    /// The dimensions.
    pub fn size(&self) -> (r: &Vec<usize>)
        ensures
            r@ == self@.shape,
    {
        &self.shape
    }

    /// The elements in row-major order.
    pub fn elems(&self) -> (r: &Vec<T>)
        ensures
            r@ == self@.data,
            self@.valid(),
    {
        proof {
            use_type_invariant(self);
        }
        &self.data
    }

    /// The number of dimensions; 0 for a scalar.
    pub fn dim(&self) -> (r: usize)
        ensures
            r == self@.shape.len(),
    {
        self.shape.len()
    }

    /// The number of elements.
    pub fn len(&self) -> (r: usize)
        ensures
            r == self@.data.len(),
            r == numel(self@.shape),
    {
        proof {
            use_type_invariant(self);
        }
        self.data.len()
    }

    /// Whether the value has no dimensions.
    pub fn is_scalar(&self) -> (b: bool)
        ensures
            b == self@.is_scalar(),
    {
        self.shape.len() == 0
    }

    /// A deep copy: an equal value that shares nothing with this one.
    pub fn copy(&self) -> (r: Tensor<T>)
        ensures
            r@ == self@,
    {
        proof {
            use_type_invariant(self);
        }
        Tensor { shape: copy_elems(&self.shape), data: copy_elems(&self.data) }
    }

    /// A value of this shape with the elements `data`. Fails with
    /// `ShapeMismatch` exactly when their number is not this value's.
    pub fn with_elems(&self, data: Vec<T>) -> (r: Result<Tensor<T>, GraphError>)
        ensures
            data@.len() == self@.data.len() ==> r is Ok && r->Ok_0@ == (TensorValue {
                shape: self@.shape,
                data: data@,
            }),
            data@.len() != self@.data.len() ==> r == Err::<Tensor<T>, GraphError>(
                GraphError::ShapeMismatch,
            ),
    {
        proof {
            use_type_invariant(self);
        }
        if data.len() == self.data.len() {
            Ok(Tensor { shape: copy_elems(&self.shape), data })
        } else {
            Err(GraphError::ShapeMismatch)
        }
    }

    /// A value of this shape with every element `x`.
    pub fn filled_like(&self, x: T) -> (r: Tensor<T>)
        ensures
            r@ == self@.filled(x),
    {
        proof {
            use_type_invariant(self);
        }
        let mut data: Vec<T> = Vec::new();
        let mut i: usize = 0;
        while i < self.data.len()
            invariant
                i <= self.data.len(),
                data@ == Seq::new(i as nat, |j: int| x),
            decreases self.data.len() - i,
        {
            data.push(x);
            i += 1;
        }
        Tensor { shape: copy_elems(&self.shape), data }
    }

    /// Whether the two values have the same dimensions.
    pub fn same_shape(&self, other: &Tensor<T>) -> (b: bool)
        ensures
            b == (self@.shape == other@.shape),
    {
        if self.shape.len() != other.shape.len() {
            return false;
        }
        let mut i: usize = 0;
        while i < self.shape.len()
            invariant
                i <= self.shape.len(),
                self.shape.len() == other.shape.len(),
                forall|j: int| 0 <= j < i ==> self.shape@[j] == other.shape@[j],
            decreases self.shape.len() - i,
        {
            if self.shape[i] != other.shape[i] {
                return false;
            }
            i += 1;
        }
        assert(self.shape@ =~= other.shape@);
        true
    }

    /// Whether the two values are equal: same dimensions, same elements.
    pub fn equals(&self, other: &Tensor<T>) -> (b: bool)
        ensures
            b == (self@ == other@),
    {
        if !self.same_shape(other) {
            return false;
        }
        proof {
            use_type_invariant(self);
            use_type_invariant(other);
        }
        let mut i: usize = 0;
        while i < self.data.len()
            invariant
                i <= self.data.len(),
                self.data.len() == other.data.len(),
                forall|j: int| 0 <= j < i ==> self.data@[j] == other.data@[j],
            decreases self.data.len() - i,
        {
            if !self.data[i].same(other.data[i]) {
                return false;
            }
            i += 1;
        }
        assert(self.data@ =~= other.data@);
        true
    }

    /// The elementwise sum. Fails with `ShapeMismatch` exactly when the
    /// dimensions differ.
    pub fn add(&self, rhs: &Tensor<T>) -> (r: Result<Tensor<T>, GraphError>)
        ensures
            self@.shape == rhs@.shape ==> r is Ok && r->Ok_0@ == self@.plus(rhs@),
            self@.shape != rhs@.shape ==> r == Err::<Tensor<T>, GraphError>(
                GraphError::ShapeMismatch,
            ),
    {
        if !self.same_shape(rhs) {
            return Err(GraphError::ShapeMismatch);
        }
        proof {
            use_type_invariant(self);
            use_type_invariant(rhs);
        }
        let mut data: Vec<T> = Vec::new();
        let mut i: usize = 0;
        while i < self.data.len()
            invariant
                i <= self.data.len(),
                self.data.len() == rhs.data.len(),
                data@ == Seq::new(i as nat, |j: int| T::sum(self.data@[j], rhs.data@[j])),
            decreases self.data.len() - i,
        {
            data.push(self.data[i].plus(rhs.data[i]));
            i += 1;
        }
        Ok(Tensor { shape: copy_elems(&self.shape), data })
    }

    /// The elementwise product. Fails with `ShapeMismatch` exactly when the
    /// dimensions differ.
    pub fn mul(&self, rhs: &Tensor<T>) -> (r: Result<Tensor<T>, GraphError>)
        ensures
            self@.shape == rhs@.shape ==> r is Ok && r->Ok_0@ == self@.times(rhs@),
            self@.shape != rhs@.shape ==> r == Err::<Tensor<T>, GraphError>(
                GraphError::ShapeMismatch,
            ),
    {
        if !self.same_shape(rhs) {
            return Err(GraphError::ShapeMismatch);
        }
        proof {
            use_type_invariant(self);
            use_type_invariant(rhs);
        }
        let mut data: Vec<T> = Vec::new();
        let mut i: usize = 0;
        while i < self.data.len()
            invariant
                i <= self.data.len(),
                self.data.len() == rhs.data.len(),
                data@ == Seq::new(i as nat, |j: int| T::product(self.data@[j], rhs.data@[j])),
            decreases self.data.len() - i,
        {
            data.push(self.data[i].times(rhs.data[i]));
            i += 1;
        }
        Ok(Tensor { shape: copy_elems(&self.shape), data })
    }
}

/// A numeric value of one of the supported element types.
pub enum TensorKind {
    FloatTensor(Tensor<Float32>),
    LongTensor(Tensor<i64>),
}

/// The mathematical content of a numeric value of some kind.
pub ghost enum KindValue {
    Float(TensorValue<Float32>),
    Long(TensorValue<i64>),
}

impl KindValue {
    /// The element type.
    pub open spec fn kind(self) -> ElemKind {
        match self {
            KindValue::Float(_) => ElemKind::Float,
            KindValue::Long(_) => ElemKind::Long,
        }
    }

    /// The dimensions.
    pub open spec fn shape(self) -> Seq<usize> {
        match self {
            KindValue::Float(v) => v.shape,
            KindValue::Long(v) => v.shape,
        }
    }

    /// A value holds exactly as many elements as its shape asks for.
    pub open spec fn valid(self) -> bool {
        match self {
            KindValue::Float(v) => v.valid(),
            KindValue::Long(v) => v.valid(),
        }
    }

    /// Whether the value has no dimensions.
    pub open spec fn is_scalar(self) -> bool {
        self.shape().len() == 0
    }

    /// Whether the two values have the same element type and dimensions.
    pub open spec fn like(self, other: KindValue) -> bool {
        self.kind() == other.kind() && self.shape() == other.shape()
    }

    /// The value of the same kind and shape, filled with zeros.
    pub open spec fn zeros(self) -> KindValue {
        match self {
            KindValue::Float(v) => KindValue::Float(v.filled(Float32::zero_value())),
            KindValue::Long(v) => KindValue::Long(v.filled(i64::zero_value())),
        }
    }

    /// The value of the same kind and shape, filled with ones.
    pub open spec fn ones(self) -> KindValue {
        match self {
            KindValue::Float(v) => KindValue::Float(v.filled(Float32::one_value())),
            KindValue::Long(v) => KindValue::Long(v.filled(i64::one_value())),
        }
    }

    /// The elementwise sum of two values that are `like` each other.
    pub open spec fn plus(self, rhs: KindValue) -> KindValue {
        match (self, rhs) {
            (KindValue::Float(a), KindValue::Float(b)) => KindValue::Float(a.plus(b)),
            (KindValue::Long(a), KindValue::Long(b)) => KindValue::Long(a.plus(b)),
            _ => self,
        }
    }

    /// The elementwise product of two values that are `like` each other.
    pub open spec fn times(self, rhs: KindValue) -> KindValue {
        match (self, rhs) {
            (KindValue::Float(a), KindValue::Float(b)) => KindValue::Float(a.times(b)),
            (KindValue::Long(a), KindValue::Long(b)) => KindValue::Long(a.times(b)),
            _ => self,
        }
    }

    /// What combining two values elementwise fails with, if it fails: the
    /// element types are compared first, then the dimensions.
    pub open spec fn mismatch(self, rhs: KindValue) -> Option<GraphError> {
        if self.kind() != rhs.kind() {
            Some(GraphError::TypeMismatch)
        } else if self.shape() != rhs.shape() {
            Some(GraphError::ShapeMismatch)
        } else {
            None
        }
    }
}

/// An element type that is one of the kinds a value can be of: its values
/// can be wrapped as values of some kind and narrowed back.
pub trait Kinded: Element {
    /// A value of this element type, as a value of some kind.
    spec fn lift(v: TensorValue<Self>) -> KindValue;

    /// A value of some kind, as a value of this element type if it is one.
    spec fn lower(k: KindValue) -> Option<TensorValue<Self>>;

    /// `lift` and `lower` undo each other, and `lower` succeeds exactly on
    /// the values of this kind.
    proof fn lemma_kinds()
        ensures
            forall|v: TensorValue<Self>| #[trigger] Self::lower(Self::lift(v)) == Some(v),
            forall|v: TensorValue<Self>| #[trigger] Self::lift(v).kind() == Self::kind_of(),
            forall|k: KindValue| #[trigger]
                Self::lower(k) is Some <==> k.kind() == Self::kind_of(),
            forall|k: KindValue|
                k.kind() == Self::kind_of() ==> Self::lift(#[trigger] Self::lower(k)->Some_0)
                    == k,
            forall|v: TensorValue<Self>| #[trigger] Self::lift(v).shape() == v.shape,
            forall|v: TensorValue<Self>| #[trigger] Self::lift(v).valid() == v.valid(),
            forall|v: TensorValue<Self>| #[trigger]
                Self::lift(v).zeros() == Self::lift(v.filled(Self::zero_value())),
            forall|v: TensorValue<Self>| #[trigger]
                Self::lift(v).ones() == Self::lift(v.filled(Self::one_value())),
            forall|a: TensorValue<Self>, b: TensorValue<Self>| #[trigger]
                Self::lift(a).plus(Self::lift(b)) == Self::lift(a.plus(b)),
            forall|a: TensorValue<Self>, b: TensorValue<Self>| #[trigger]
                Self::lift(a).times(Self::lift(b)) == Self::lift(a.times(b)),
    ;

    fn into_kind(t: Tensor<Self>) -> (k: TensorKind)
        ensures
            k@ == Self::lift(t@),
    ;

    fn from_kind(k: TensorKind) -> (r: Result<Tensor<Self>, GraphError>)
        ensures
            match Self::lower(k@) {
                Some(v) => r is Ok && r->Ok_0@ == v,
                None => r == Err::<Tensor<Self>, GraphError>(GraphError::TypeMismatch),
            },
    ;
}

impl Kinded for i64 {
    open spec fn lift(v: TensorValue<i64>) -> KindValue {
        KindValue::Long(v)
    }

    open spec fn lower(k: KindValue) -> Option<TensorValue<i64>> {
        match k {
            KindValue::Long(v) => Some(v),
            KindValue::Float(_) => None,
        }
    }

    proof fn lemma_kinds() {
    }

    fn into_kind(t: Tensor<i64>) -> (k: TensorKind) {
        TensorKind::LongTensor(t)
    }

    fn from_kind(k: TensorKind) -> (r: Result<Tensor<i64>, GraphError>) {
        match k {
            TensorKind::LongTensor(t) => Ok(t),
            TensorKind::FloatTensor(_) => Err(GraphError::TypeMismatch),
        }
    }
}

impl View for TensorKind {
    type V = KindValue;

    open spec fn view(&self) -> KindValue {
        match self {
            TensorKind::FloatTensor(t) => KindValue::Float(t@),
            TensorKind::LongTensor(t) => KindValue::Long(t@),
        }
    }
}

impl TensorKind {
    /// The element type.
    pub fn kind(&self) -> (k: ElemKind)
        ensures
            k == self@.kind(),
    {
        match self {
            TensorKind::FloatTensor(_) => ElemKind::Float,
            TensorKind::LongTensor(_) => ElemKind::Long,
        }
    }

    /// Narrows to a value of element type `T`; `TypeMismatch` exactly when
    /// this value is of another element type.
    pub fn typed<T: Kinded>(self) -> (r: Result<Tensor<T>, GraphError>)
        ensures
            self@.kind() == T::kind_of() ==> r is Ok && T::lift(r->Ok_0@) == self@,
            self@.kind() != T::kind_of() ==> r == Err::<Tensor<T>, GraphError>(
                GraphError::TypeMismatch,
            ),
    {
        proof {
            T::lemma_kinds();
        }
        T::from_kind(self)
    }

    /// The number of dimensions; 0 for a scalar.
    pub fn dim(&self) -> (r: usize)
        ensures
            r == self@.shape().len(),
    {
        match self {
            TensorKind::FloatTensor(t) => t.dim(),
            TensorKind::LongTensor(t) => t.dim(),
        }
    }

    /// The number of elements, which is the product of the dimensions.
    pub fn len(&self) -> (r: usize)
        ensures
            r == numel(self@.shape()),
            self@.valid(),
    {
        match self {
            TensorKind::FloatTensor(t) => t.len(),
            TensorKind::LongTensor(t) => t.len(),
        }
    }

    /// The dimensions.
    pub fn size(&self) -> (r: &Vec<usize>)
        ensures
            r@ == self@.shape(),
    {
        match self {
            TensorKind::FloatTensor(t) => t.size(),
            TensorKind::LongTensor(t) => t.size(),
        }
    }

    /// Whether the value has no dimensions.
    pub fn is_scalar(&self) -> (b: bool)
        ensures
            b == self@.is_scalar(),
    {
        match self {
            TensorKind::FloatTensor(t) => t.is_scalar(),
            TensorKind::LongTensor(t) => t.is_scalar(),
        }
    }

    /// A deep copy: an equal value that shares nothing with this one.
    pub fn copy(&self) -> (r: TensorKind)
        ensures
            r@ == self@,
    {
        match self {
            TensorKind::FloatTensor(t) => TensorKind::FloatTensor(t.copy()),
            TensorKind::LongTensor(t) => TensorKind::LongTensor(t.copy()),
        }
    }

    /// Whether the two values have the same element type and dimensions.
    pub fn like(&self, other: &TensorKind) -> (b: bool)
        ensures
            b == self@.like(other@),
    {
        match (self, other) {
            (TensorKind::FloatTensor(a), TensorKind::FloatTensor(b)) => a.same_shape(b),
            (TensorKind::LongTensor(a), TensorKind::LongTensor(b)) => a.same_shape(b),
            _ => false,
        }
    }

    /// Whether the two values are equal: same element type, dimensions and
    /// elements.
    pub fn equals(&self, other: &TensorKind) -> (b: bool)
        ensures
            b == (self@ == other@),
    {
        match (self, other) {
            (TensorKind::FloatTensor(a), TensorKind::FloatTensor(b)) => a.equals(b),
            (TensorKind::LongTensor(a), TensorKind::LongTensor(b)) => a.equals(b),
            _ => false,
        }
    }

    /// What combining this value with `other` elementwise would fail with,
    /// if it would.
    pub fn mismatch(&self, other: &TensorKind) -> (r: Option<GraphError>)
        ensures
            r == self@.mismatch(other@),
    {
        match (self, other) {
            (TensorKind::FloatTensor(a), TensorKind::FloatTensor(b)) => if a.same_shape(b) {
                None
            } else {
                Some(GraphError::ShapeMismatch)
            },
            (TensorKind::LongTensor(a), TensorKind::LongTensor(b)) => if a.same_shape(b) {
                None
            } else {
                Some(GraphError::ShapeMismatch)
            },
            _ => Some(GraphError::TypeMismatch),
        }
    }

    /// A value of the same kind and shape, filled with zeros.
    pub fn zeros_like(&self) -> (r: TensorKind)
        ensures
            r@ == self@.zeros(),
    {
        match self {
            TensorKind::FloatTensor(t) => TensorKind::FloatTensor(t.filled_like(Float32::zero())),
            TensorKind::LongTensor(t) => TensorKind::LongTensor(t.filled_like(i64::zero())),
        }
    }

    /// A value of the same kind and shape, filled with ones.
    pub fn ones_like(&self) -> (r: TensorKind)
        ensures
            r@ == self@.ones(),
    {
        match self {
            TensorKind::FloatTensor(t) => TensorKind::FloatTensor(t.filled_like(Float32::one())),
            TensorKind::LongTensor(t) => TensorKind::LongTensor(t.filled_like(i64::one())),
        }
    }

    /// The elementwise sum. Fails with `TypeMismatch` when the element types
    /// differ, else with `ShapeMismatch` when the dimensions differ.
    pub fn add(&self, rhs: &TensorKind) -> (r: Result<TensorKind, GraphError>)
        ensures
            match self@.mismatch(rhs@) {
                Some(e) => r == Err::<TensorKind, GraphError>(e),
                None => r is Ok && r->Ok_0@ == self@.plus(rhs@),
            },
    {
        match (self, rhs) {
            (TensorKind::FloatTensor(a), TensorKind::FloatTensor(b)) => {
                match a.add(b) {
                    Ok(t) => Ok(TensorKind::FloatTensor(t)),
                    Err(e) => Err(e),
                }
            },
            (TensorKind::LongTensor(a), TensorKind::LongTensor(b)) => {
                match a.add(b) {
                    Ok(t) => Ok(TensorKind::LongTensor(t)),
                    Err(e) => Err(e),
                }
            },
            _ => Err(GraphError::TypeMismatch),
        }
    }

    /// The elementwise product. Fails with `TypeMismatch` when the element
    /// types differ, else with `ShapeMismatch` when the dimensions differ.
    pub fn mul(&self, rhs: &TensorKind) -> (r: Result<TensorKind, GraphError>)
        ensures
            match self@.mismatch(rhs@) {
                Some(e) => r == Err::<TensorKind, GraphError>(e),
                None => r is Ok && r->Ok_0@ == self@.times(rhs@),
            },
    {
        match (self, rhs) {
            (TensorKind::FloatTensor(a), TensorKind::FloatTensor(b)) => {
                match a.mul(b) {
                    Ok(t) => Ok(TensorKind::FloatTensor(t)),
                    Err(e) => Err(e),
                }
            },
            (TensorKind::LongTensor(a), TensorKind::LongTensor(b)) => {
                match a.mul(b) {
                    Ok(t) => Ok(TensorKind::LongTensor(t)),
                    Err(e) => Err(e),
                }
            },
            _ => Err(GraphError::TypeMismatch),
        }
    }
}

impl<T: Kinded> Tensor<T> {
    /// This value, as a value of some kind.
    pub fn kind(self) -> (k: TensorKind)
        ensures
            k@ == T::lift(self@),
    {
        T::into_kind(self)
    }
}

} // verus!
