use vstd::prelude::*;
use vstd::std_specs::convert::FromSpecImpl;
use vstd::string::StringExecFns;
use crate::error::GraphError;
use crate::float::Float32;
use crate::tensor::{ElemKind, Element, KindValue, Kinded, Tensor, TensorKind};

verus! {

/// The identity of a function node within one session.
pub type FuncId = usize;

/// A handle to a function node: its identity, nothing else.
#[derive(Clone, Copy, Debug, PartialEq, Eq, Structural)]
pub struct Function {
    pub id: FuncId,
}

/// How a variable is made: its producer and its flags. The producer counts
/// only for a variable that is not volatile.
pub struct VariableArgs {
    pub creator: Option<Function>,
    pub volatile: bool,
    pub requires_grad: bool,
}

impl VariableArgs {
    /// What a variable is made with when nothing else is said: a leaf that
    /// is not volatile and requires a gradient.
    pub open spec fn default_args() -> VariableArgs {
        VariableArgs { creator: None, volatile: false, requires_grad: true }
    }
}

impl Default for VariableArgs {
    fn default() -> (r: VariableArgs)
        ensures
            r == VariableArgs::default_args(),
    {
        VariableArgs { creator: None, volatile: false, requires_grad: true }
    }
}

impl VariableArgs {
    /// Starts a description of a variable with nothing said yet.
    pub fn build() -> (b: VariableArgsBuilder)
        ensures
            b == (VariableArgsBuilder { creator: None, volatile: None, requires_grad: None }),
    {
        VariableArgsBuilder { creator: None, volatile: None, requires_grad: None }
    }
}

/// A description of a variable in the making: what was said so far. None of
/// the three has a default: each must be said before the description is
/// finished.
pub struct VariableArgsBuilder {
    pub creator: Option<Option<Function>>,
    pub volatile: Option<bool>,
    pub requires_grad: Option<bool>,
}

impl VariableArgsBuilder {
    /// Whether everything was said.
    pub open spec fn complete(self) -> bool {
        self.creator is Some && self.volatile is Some && self.requires_grad is Some
    }

    /// The description, once everything was said.
    pub open spec fn built(self) -> VariableArgs {
        VariableArgs {
            creator: self.creator->Some_0,
            volatile: self.volatile->Some_0,
            requires_grad: self.requires_grad->Some_0,
        }
    }

    /// What is told of the first thing that was not said.
    pub open spec fn missing(self) -> Seq<char> {
        if self.creator is None {
            "`creator` must be initialized"@
        } else if self.volatile is None {
            "`volatile` must be initialized"@
        } else {
            "`requires_grad` must be initialized"@
        }
    }

    /// Says which function produced the variable, if one did.
    pub fn creator(self, value: Option<Function>) -> (b: VariableArgsBuilder)
        ensures
            b == (VariableArgsBuilder { creator: Some(value), ..self }),
    {
        VariableArgsBuilder {
            creator: Some(value),
            volatile: self.volatile,
            requires_grad: self.requires_grad,
        }
    }

    /// Says whether the variable is volatile.
    pub fn volatile(self, value: bool) -> (b: VariableArgsBuilder)
        ensures
            b == (VariableArgsBuilder { volatile: Some(value), ..self }),
    {
        VariableArgsBuilder {
            creator: self.creator,
            volatile: Some(value),
            requires_grad: self.requires_grad,
        }
    }

    /// Says whether the variable requires a gradient.
    pub fn requires_grad(self, value: bool) -> (b: VariableArgsBuilder)
        ensures
            b == (VariableArgsBuilder { requires_grad: Some(value), ..self }),
    {
        VariableArgsBuilder {
            creator: self.creator,
            volatile: self.volatile,
            requires_grad: Some(value),
        }
    }

    /// The description, if everything was said; else the name of the first
    /// thing that was not.
    pub fn build(self) -> (r: Result<VariableArgs, String>)
        ensures
            self.complete() ==> r is Ok && r->Ok_0 == self.built(),
            !self.complete() ==> r is Err && r->Err_0@ == self.missing(),
    {
        let creator = match self.creator {
            Some(c) => c,
            None => {
                return Err(String::from_str("`creator` must be initialized"));
            },
        };
        let volatile = match self.volatile {
            Some(v) => v,
            None => {
                return Err(String::from_str("`volatile` must be initialized"));
            },
        };
        let requires_grad = match self.requires_grad {
            Some(r) => r,
            None => {
                return Err(String::from_str("`requires_grad` must be initialized"));
            },
        };
        Ok(VariableArgs { creator, volatile, requires_grad })
    }

    /// The finished description. Everything must have been said.
    pub fn done(self) -> (r: VariableArgs)
        requires
            self.complete(),
        ensures
            r == self.built(),
    {
        match self.build() {
            Ok(args) => args,
            Err(_) => VariableArgs { creator: None, volatile: false, requires_grad: true },
        }
    }
}

/// Options of a backward pass; there are none yet.
#[derive(Clone, Copy, Debug, Default)]
pub struct BackwardArgs {}

/// The mathematical content of a variable record, whatever its element type.
pub ghost struct RecordValue {
    pub data: KindValue,
    pub grad: Option<KindValue>,
    pub grad_fn: Option<Function>,
    pub dirty: bool,
    pub volatile: bool,
    pub requires_grad: bool,
}

impl RecordValue {
    /// The record that `args` ask for around `data`: no gradient yet, not
    /// dirty. A volatile record stays out of the graph, so it has no
    /// producer, whatever creator `args` name.
    pub open spec fn fresh(data: KindValue, args: VariableArgs) -> RecordValue {
        RecordValue {
            data,
            grad: None,
            grad_fn: if args.volatile {
                None
            } else {
                args.creator
            },
            dirty: false,
            volatile: args.volatile,
            requires_grad: args.requires_grad,
        }
    }

    /// The gradient as it reads: zeros of the data's kind and shape until
    /// something was accumulated.
    pub open spec fn grad_or_zeros(self) -> KindValue {
        match self.grad {
            Some(g) => g,
            None => self.data.zeros(),
        }
    }

    /// What accumulating `value` fails with, if it fails.
    pub open spec fn accumulate_error(self, value: KindValue) -> Option<GraphError> {
        if self.dirty {
            Some(GraphError::DirtyVariableError)
        } else {
            self.grad_or_zeros().mismatch(value)
        }
    }

    /// The record after `value` was added into its gradient.
    pub open spec fn accumulated(self, value: KindValue) -> RecordValue {
        RecordValue { grad: Some(self.grad_or_zeros().plus(value)), ..self }
    }

    /// The gradient, if there is one, has the element type and the shape
    /// of the data.
    pub open spec fn grad_fits(self) -> bool {
        self.grad is Some ==> self.data.like(self.grad->Some_0)
    }

    /// The record with its data replaced. A gradient that has the element
    /// type and the shape of the new data stays; one that has not is
    /// dropped, since it is the gradient of no value that the record holds.
    pub open spec fn with_data(self, data: KindValue) -> RecordValue {
        RecordValue {
            data,
            grad: if self.grad is Some && data.like(self.grad->Some_0) {
                self.grad
            } else {
                None
            },
            ..self
        }
    }

    /// The record with its gradient in place: zeros if there was none.
    pub open spec fn with_grad_allocated(self) -> RecordValue {
        RecordValue { grad: Some(self.grad_or_zeros()), ..self }
    }

    /// The record, marked as mutated in place.
    pub open spec fn marked_dirty(self) -> RecordValue {
        RecordValue { dirty: true, ..self }
    }

    /// The record, no longer requiring a gradient.
    pub open spec fn without_grad_required(self) -> RecordValue {
        RecordValue { requires_grad: false, ..self }
    }
}

/// Every gradient among the records has the element type and the shape of
/// its data.
pub open spec fn all_fit(records: Seq<RecordValue>) -> bool {
    forall|v: int| 0 <= v < records.len() ==> (#[trigger] records[v]).grad_fits()
}

/// The state behind one variable of element type `T`: its data, the gradient
/// accumulated so far, the function that produced it, and its flags.
pub struct VariableImpl<T> {
    pub data: Tensor<T>,
    pub grad_fn: Option<Function>,
    pub grad: Option<Tensor<T>>,
    pub dirty: bool,
    pub volatile: bool,
    pub requires_grad: bool,
}

impl<T: Kinded> View for VariableImpl<T> {
    type V = RecordValue;

    open spec fn view(&self) -> RecordValue {
        RecordValue {
            data: T::lift(self.data@),
            grad: match self.grad {
                Some(g) => Some(T::lift(g@)),
                None => None,
            },
            grad_fn: self.grad_fn,
            dirty: self.dirty,
            volatile: self.volatile,
            requires_grad: self.requires_grad,
        }
    }
}

impl<T: Kinded> VariableImpl<T> {
    /// The record that `args` ask for around `data`; see `RecordValue::fresh`.
    pub fn new(data: Tensor<T>, args: &VariableArgs) -> (r: VariableImpl<T>)
        ensures
            r@ == RecordValue::fresh(T::lift(data@), *args),
            r@.grad_fits(),
    {
        let creator = if args.volatile {
            None
        } else {
            args.creator
        };
        VariableImpl {
            data,
            grad_fn: creator,
            grad: None,
            dirty: false,
            volatile: args.volatile,
            requires_grad: args.requires_grad,
        }
    }

    /// Replaces the data, and drops a gradient of another shape than the
    /// new data.
    pub fn set_data(&mut self, data: Tensor<T>)
        ensures
            final(self)@ == old(self)@.with_data(T::lift(data@)),
            final(self)@.grad_fits(),
    {
        proof {
            T::lemma_kinds();
        }
        let keep = match &self.grad {
            Some(g) => g.same_shape(&data),
            None => false,
        };
        if !keep {
            self.grad = None;
        }
        self.data = data;
    }

    /// The gradient, made of zeros in the data's shape on first use.
    pub fn grad(&mut self) -> (g: &Tensor<T>)
        ensures
            final(self)@ == old(self)@.with_grad_allocated(),
            T::lift(g@) == old(self)@.grad_or_zeros(),
            old(self)@.grad_fits() ==> final(self)@.grad_fits(),
    {
        proof {
            T::lemma_kinds();
        }
        if self.grad.is_none() {
            let zeros = self.data.filled_like(T::zero());
            self.grad = Some(zeros);
        }
        self.grad.as_ref().unwrap()
    }
}

impl<T: Kinded> VariableImpl<T> {
    /// Adds `value` into the gradient, which starts from zeros in the data's
    /// shape. Fails with `DirtyVariableError` on a record mutated in place,
    /// else with `ShapeMismatch` when `value` has other dimensions than the
    /// gradient; a failure changes nothing.
    pub fn accumulate_grad(&mut self, value: &Tensor<T>) -> (r: Result<(), GraphError>)
        ensures
            match old(self)@.accumulate_error(T::lift(value@)) {
                Some(e) => r == Err::<(), GraphError>(e) && final(self)@ == old(self)@,
                None => r is Ok && final(self)@ == old(self)@.accumulated(T::lift(value@)),
            },
            old(self)@.grad_fits() ==> final(self)@.grad_fits(),
    {
        proof {
            T::lemma_kinds();
        }
        if self.dirty {
            return Err(GraphError::DirtyVariableError);
        }
        let sum = match &self.grad {
            Some(g) => g.add(value),
            None => self.data.filled_like(T::zero()).add(value),
        };
        match sum {
            Ok(total) => {
                self.grad = Some(total);
                Ok(())
            },
            Err(e) => Err(e),
        }
    }
}

/// One variable record of any supported element type.
pub enum VarKindImpl {
    FloatVariable(VariableImpl<Float32>),
    LongVariable(VariableImpl<i64>),
}

impl From<VariableImpl<Float32>> for VarKindImpl {
    fn from(input: VariableImpl<Float32>) -> (r: VarKindImpl) {
        VarKindImpl::FloatVariable(input)
    }
}

impl FromSpecImpl<VariableImpl<Float32>> for VarKindImpl {
    open spec fn obeys_from_spec() -> bool {
        true
    }

    open spec fn from_spec(input: VariableImpl<Float32>) -> VarKindImpl {
        VarKindImpl::FloatVariable(input)
    }
}

impl From<VariableImpl<i64>> for VarKindImpl {
    fn from(input: VariableImpl<i64>) -> (r: VarKindImpl) {
        VarKindImpl::LongVariable(input)
    }
}

impl FromSpecImpl<VariableImpl<i64>> for VarKindImpl {
    open spec fn obeys_from_spec() -> bool {
        true
    }

    open spec fn from_spec(input: VariableImpl<i64>) -> VarKindImpl {
        VarKindImpl::LongVariable(input)
    }
}

impl View for VarKindImpl {
    type V = RecordValue;

    open spec fn view(&self) -> RecordValue {
        match self {
            VarKindImpl::FloatVariable(r) => r@,
            VarKindImpl::LongVariable(r) => r@,
        }
    }
}

impl VarKindImpl {
    /// The record that `args` ask for around `data`; see `RecordValue::fresh`.
    pub fn new_args(data: TensorKind, args: &VariableArgs) -> (r: VarKindImpl)
        ensures
            r@ == RecordValue::fresh(data@, *args),
            r@.grad_fits(),
    {
        match data {
            TensorKind::FloatTensor(t) => VarKindImpl::FloatVariable(VariableImpl::new(t, args)),
            TensorKind::LongTensor(t) => VarKindImpl::LongVariable(VariableImpl::new(t, args)),
        }
    }

    /// Narrows to a record of float elements; `TypeMismatch` exactly when
    /// the record is of another element type.
    pub fn into_float(self) -> (r: Result<VariableImpl<Float32>, GraphError>)
        ensures
            self is FloatVariable ==> r is Ok && r->Ok_0 == self->FloatVariable_0,
            !(self is FloatVariable) ==> r is Err && r->Err_0 == GraphError::TypeMismatch,
    {
        match self {
            VarKindImpl::FloatVariable(v) => Ok(v),
            VarKindImpl::LongVariable(_) => Err(GraphError::TypeMismatch),
        }
    }

    /// Narrows to a record of long elements; `TypeMismatch` exactly when the
    /// record is of another element type.
    pub fn into_long(self) -> (r: Result<VariableImpl<i64>, GraphError>)
        ensures
            self is LongVariable ==> r is Ok && r->Ok_0 == self->LongVariable_0,
            !(self is LongVariable) ==> r is Err && r->Err_0 == GraphError::TypeMismatch,
    {
        match self {
            VarKindImpl::LongVariable(v) => Ok(v),
            VarKindImpl::FloatVariable(_) => Err(GraphError::TypeMismatch),
        }
    }

    /// The element type of the record's data.
    pub fn elem_kind(&self) -> (k: ElemKind)
        ensures
            k == self@.data.kind(),
    {
        match self {
            VarKindImpl::FloatVariable(_) => ElemKind::Float,
            VarKindImpl::LongVariable(_) => ElemKind::Long,
        }
    }

    /// What combining the data with `value` elementwise would fail with, if
    /// it would.
    pub fn mismatch(&self, value: &TensorKind) -> (r: Option<GraphError>)
        ensures
            r == self@.data.mismatch(value@),
    {
        match (self, value) {
            (VarKindImpl::FloatVariable(rec), TensorKind::FloatTensor(t)) => if rec.data.same_shape(
                t,
            ) {
                None
            } else {
                Some(GraphError::ShapeMismatch)
            },
            (VarKindImpl::LongVariable(rec), TensorKind::LongTensor(t)) => if rec.data.same_shape(
                t,
            ) {
                None
            } else {
                Some(GraphError::ShapeMismatch)
            },
            _ => Some(GraphError::TypeMismatch),
        }
    }

    /// Whether the data is a scalar.
    pub fn is_scalar(&self) -> (b: bool)
        ensures
            b == self@.data.is_scalar(),
    {
        match self {
            VarKindImpl::FloatVariable(rec) => rec.data.is_scalar(),
            VarKindImpl::LongVariable(rec) => rec.data.is_scalar(),
        }
    }

    /// A value of the data's kind and shape, filled with ones.
    pub fn ones_like_data(&self) -> (r: TensorKind)
        ensures
            r@ == self@.data.ones(),
    {
        match self {
            VarKindImpl::FloatVariable(rec) => TensorKind::FloatTensor(
                rec.data.filled_like(Float32::one()),
            ),
            VarKindImpl::LongVariable(rec) => TensorKind::LongTensor(
                rec.data.filled_like(i64::one()),
            ),
        }
    }

    /// A copy of the data.
    pub fn data(&self) -> (d: TensorKind)
        ensures
            d@ == self@.data,
    {
        match self {
            VarKindImpl::FloatVariable(r) => TensorKind::FloatTensor(r.data.copy()),
            VarKindImpl::LongVariable(r) => TensorKind::LongTensor(r.data.copy()),
        }
    }

    /// A copy of what was accumulated so far, if anything was.
    pub fn peek_grad(&self) -> (g: Option<TensorKind>)
        ensures
            match g {
                Some(t) => self@.grad == Some(t@),
                None => self@.grad is None,
            },
    {
        match self {
            VarKindImpl::FloatVariable(r) => match &r.grad {
                Some(g) => Some(TensorKind::FloatTensor(g.copy())),
                None => None,
            },
            VarKindImpl::LongVariable(r) => match &r.grad {
                Some(g) => Some(TensorKind::LongTensor(g.copy())),
                None => None,
            },
        }
    }

    /// Whether the variable is excluded from graph construction.
    pub fn is_volatile(&self) -> (b: bool)
        ensures
            b == self@.volatile,
    {
        match self {
            VarKindImpl::FloatVariable(r) => r.volatile,
            VarKindImpl::LongVariable(r) => r.volatile,
        }
    }

    /// Whether gradients are accumulated for the variable.
    pub fn requires_grad(&self) -> (b: bool)
        ensures
            b == self@.requires_grad,
    {
        match self {
            VarKindImpl::FloatVariable(r) => r.requires_grad,
            VarKindImpl::LongVariable(r) => r.requires_grad,
        }
    }

    /// Whether the data was mutated in place.
    pub fn is_dirty(&self) -> (b: bool)
        ensures
            b == self@.dirty,
    {
        match self {
            VarKindImpl::FloatVariable(r) => r.dirty,
            VarKindImpl::LongVariable(r) => r.dirty,
        }
    }

    /// The function that the record names as its producer, if it names one.
    pub fn grad_fn(&self) -> (f: Option<Function>)
        ensures
            f == self@.grad_fn,
    {
        match self {
            VarKindImpl::FloatVariable(r) => r.grad_fn,
            VarKindImpl::LongVariable(r) => r.grad_fn,
        }
    }

    /// Records that the data was mutated in place.
    pub fn mark_dirty(&mut self)
        ensures
            final(self)@ == old(self)@.marked_dirty(),
            old(self)@.grad_fits() ==> final(self)@.grad_fits(),
    {
        match self {
            VarKindImpl::FloatVariable(r) => {
                r.dirty = true;
            },
            VarKindImpl::LongVariable(r) => {
                r.dirty = true;
            },
        }
    }

    /// Stops gradients from being accumulated for this record.
    pub fn requires_nograd(&mut self)
        ensures
            final(self)@ == old(self)@.without_grad_required(),
            old(self)@.grad_fits() ==> final(self)@.grad_fits(),
    {
        match self {
            VarKindImpl::FloatVariable(r) => {
                r.requires_grad = false;
            },
            VarKindImpl::LongVariable(r) => {
                r.requires_grad = false;
            },
        }
    }

    /// Replaces the data, and drops a gradient of another shape than the
    /// new data. Fails with `TypeMismatch`, and changes nothing, exactly when
    /// `data` is of another element type than the record.
    pub fn set_data(&mut self, data: TensorKind) -> (r: Result<(), GraphError>)
        ensures
            old(self)@.data.kind() == data@.kind() ==> r is Ok && final(self)@ == old(
                self,
            )@.with_data(data@),
            old(self)@.data.kind() != data@.kind() ==> r == Err::<(), GraphError>(
                GraphError::TypeMismatch,
            ) && final(self)@ == old(self)@,
            old(self)@.grad_fits() || r is Ok ==> final(self)@.grad_fits(),
    {
        match self {
            VarKindImpl::FloatVariable(r) => match data {
                TensorKind::FloatTensor(t) => {
                    r.set_data(t);
                    Ok(())
                },
                TensorKind::LongTensor(_) => Err(GraphError::TypeMismatch),
            },
            VarKindImpl::LongVariable(r) => match data {
                TensorKind::LongTensor(t) => {
                    r.set_data(t);
                    Ok(())
                },
                TensorKind::FloatTensor(_) => Err(GraphError::TypeMismatch),
            },
        }
    }

    /// A copy of the gradient, which is made of zeros in the data's shape on
    /// first use.
    pub fn grad(&mut self) -> (g: TensorKind)
        ensures
            final(self)@ == old(self)@.with_grad_allocated(),
            g@ == old(self)@.grad_or_zeros(),
            old(self)@.grad_fits() ==> final(self)@.grad_fits(),
    {
        match self {
            VarKindImpl::FloatVariable(r) => TensorKind::FloatTensor(r.grad().copy()),
            VarKindImpl::LongVariable(r) => TensorKind::LongTensor(r.grad().copy()),
        }
    }

    /// Adds `value` into the gradient, which starts from zeros in the data's
    /// shape. Fails with `DirtyVariableError` on a record mutated in place,
    /// else with `TypeMismatch` when `value` is of another element type, else
    /// with `ShapeMismatch` when it has other dimensions than the gradient;
    /// a failure changes nothing.
    pub fn accumulate_grad(&mut self, value: &TensorKind) -> (r: Result<(), GraphError>)
        ensures
            match old(self)@.accumulate_error(value@) {
                Some(e) => r == Err::<(), GraphError>(e) && final(self)@ == old(self)@,
                None => r is Ok && final(self)@ == old(self)@.accumulated(value@),
            },
            old(self)@.grad_fits() ==> final(self)@.grad_fits(),
    {
        match self {
            VarKindImpl::FloatVariable(r) => match value {
                TensorKind::FloatTensor(t) => r.accumulate_grad(t),
                TensorKind::LongTensor(_) => if r.dirty {
                    Err(GraphError::DirtyVariableError)
                } else {
                    Err(GraphError::TypeMismatch)
                },
            },
            VarKindImpl::LongVariable(r) => match value {
                TensorKind::LongTensor(t) => r.accumulate_grad(t),
                TensorKind::FloatTensor(_) => if r.dirty {
                    Err(GraphError::DirtyVariableError)
                } else {
                    Err(GraphError::TypeMismatch)
                },
            },
        }
    }
}

} // verus!
