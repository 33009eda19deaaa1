use vstd::prelude::*;
use vstd::std_specs::convert::FromSpecImpl;
use core::marker::PhantomData;
use crate::arena::{in_range, VarId, VarTable};
use crate::error::GraphError;
use crate::float::Float32;
use crate::record::{Function, RecordValue, VarKindImpl, VariableArgs, VariableImpl};
use crate::tensor::{ElemKind, Kinded, Tensor, TensorKind};

verus! {

/// A handle to a variable whose elements are of type `T`: the identity of
/// its record, and nothing else. Handles are copied freely; two handles with
/// the same identity name the same record.
pub struct Variable<T> {
    pub id: VarId,
    pub phantom: PhantomData<T>,
}

/// A handle to a variable of any supported element type.
pub enum VarKind {
    FloatVariable(Variable<Float32>),
    LongVariable(Variable<i64>),
}

/// What resolving identity `id` to a record of element type `kind` fails
/// with, if it fails: `OutOfRangeIdentity` when there is no such record, else
/// `TypeMismatch` when the record is of another element type.
pub open spec fn resolve_error(records: Seq<RecordValue>, id: VarId, kind: ElemKind) -> Option<
    GraphError,
> {
    if !in_range(id, records.len()) {
        Some(GraphError::OutOfRangeIdentity)
    } else if records[id as int].data.kind() != kind {
        Some(GraphError::TypeMismatch)
    } else {
        None
    }
}

/// The record that `id` names, if it is of element type `kind`.
pub fn resolve<S: VarTable>(table: &S, id: VarId, kind: ElemKind)
    -> (r: Result<&VarKindImpl, GraphError>)
    ensures
        match resolve_error(table.records(), id, kind) {
            Some(e) => r == Err::<&VarKindImpl, GraphError>(e),
            None => r is Ok && r->Ok_0@ == table.records()[id as int],
        },
{
    match table.get(id) {
        Ok(rec) => {
            if rec.elem_kind() == kind {
                Ok(rec)
            } else {
                Err(GraphError::TypeMismatch)
            }
        },
        Err(e) => Err(e),
    }
}

/// The record that `id` names, for changing it, if it is of element type
/// `kind`: whatever the caller leaves there is the table's record at `id`
/// afterwards, and no other record changes.
pub fn resolve_mut<S: VarTable>(table: &mut S, id: VarId, kind: ElemKind) -> (r: Result<
    &mut VarKindImpl,
    GraphError,
>)
    ensures
        match resolve_error(old(table).records(), id, kind) {
            Some(e) => r is Err && r->Err_0 == e && final(table).records() == old(table).records(),
            None => r is Ok && (*r->Ok_0)@ == old(table).records()[id as int]
                && final(table).records()
                    == old(table).records().update(id as int, (*final(r->Ok_0))@),
        },
        final(table).frame() == old(table).frame(),
{
    match table.get_mut(id) {
        Ok(rec) => {
            if rec.elem_kind() == kind {
                Ok(rec)
            } else {
                Err(GraphError::TypeMismatch)
            }
        },
        Err(e) => Err(e),
    }
}

impl<T> Variable<T> {
    /// The handle with identity `id`.
    pub fn from_id(id: VarId) -> (v: Variable<T>)
        ensures
            v.id == id,
    {
        Variable { id, phantom: PhantomData }
    }
}

impl<T> Clone for Variable<T> {
    fn clone(&self) -> (v: Variable<T>)
        ensures
            v.id == self.id,
    {
        Variable { id: self.id, phantom: PhantomData }
    }
}

impl<T> Copy for Variable<T> {

}

impl<T> From<i32> for Variable<T> {
    fn from(id: i32) -> (v: Variable<T>) {
        Variable { id, phantom: PhantomData }
    }
}

impl<T> FromSpecImpl<i32> for Variable<T> {
    open spec fn obeys_from_spec() -> bool {
        true
    }

    open spec fn from_spec(id: i32) -> Variable<T> {
        Variable { id, phantom: PhantomData }
    }
}

impl<'a, T> From<&'a i32> for Variable<T> {
    fn from(id: &'a i32) -> (v: Variable<T>) {
        Variable { id: *id, phantom: PhantomData }
    }
}

impl<'a, T> FromSpecImpl<&'a i32> for Variable<T> {
    open spec fn obeys_from_spec() -> bool {
        true
    }

    open spec fn from_spec(id: &'a i32) -> Variable<T> {
        Variable { id: *id, phantom: PhantomData }
    }
}

/// The identity that a number stands for: the number itself, or -1, which
/// names no record, where the number is too large to be an identity.
pub open spec fn identity_of(number: int) -> VarId {
    if 0 <= number <= i32::MAX {
        number as i32
    } else {
        -1i32
    }
}

impl<T> From<u32> for Variable<T> {
    /// The handle with identity `id`; what is too large to be an identity
    /// names no record.
    fn from(id: u32) -> (v: Variable<T>) {
        if id <= 0x7fff_ffff {
            Variable { id: id as i32, phantom: PhantomData }
        } else {
            Variable { id: -1, phantom: PhantomData }
        }
    }
}

impl<T> FromSpecImpl<u32> for Variable<T> {
    open spec fn obeys_from_spec() -> bool {
        true
    }

    open spec fn from_spec(id: u32) -> Variable<T> {
        Variable { id: identity_of(id as int), phantom: PhantomData }
    }
}

impl<T> From<usize> for Variable<T> {
    /// The handle with identity `id`; what is too large to be an identity
    /// names no record.
    fn from(id: usize) -> (v: Variable<T>) {
        if id <= 0x7fff_ffff {
            Variable { id: id as i32, phantom: PhantomData }
        } else {
            Variable { id: -1, phantom: PhantomData }
        }
    }
}

impl<T> FromSpecImpl<usize> for Variable<T> {
    open spec fn obeys_from_spec() -> bool {
        true
    }

    open spec fn from_spec(id: usize) -> Variable<T> {
        Variable { id: identity_of(id as int), phantom: PhantomData }
    }
}

impl<T> Default for Variable<T> {
    /// A handle that names no record.
    fn default() -> (v: Variable<T>)
        ensures
            v.id == -1,
    {
        Variable { id: -1, phantom: PhantomData }
    }
}

impl<T: Kinded> Variable<T> {
    /// Makes a leaf variable around `data` that requires a gradient, and
    /// gives its handle. Fails with `OutOfRangeIdentity`, and changes nothing,
    /// exactly when the table is full.
    pub fn new<S: VarTable>(table: &mut S, data: Tensor<T>) -> (r: Result<Variable<T>, GraphError>)
        ensures
            old(table).records().len() < crate::arena::MAX_RECORDS ==> r is Ok
                && r->Ok_0.id == old(table).records().len()
                    && final(table).records() == old(table).records().push(
                RecordValue::fresh(T::lift(data@), VariableArgs::default_args()),
            ),
            old(table).records().len() >= crate::arena::MAX_RECORDS ==> r is Err && r->Err_0
                == GraphError::OutOfRangeIdentity && final(table).records() == old(table).records(),
            final(table).frame() == old(table).frame(),
    {
        let args = VariableArgs { creator: None, volatile: false, requires_grad: true };
        Variable::new_args(table, data, &args)
    }

    /// Makes a variable around `data` as `args` ask, and gives its handle.
    /// Fails with `OutOfRangeIdentity`, and changes nothing, exactly when the
    /// table is full.
    pub fn new_args<S: VarTable>(table: &mut S, data: Tensor<T>, args: &VariableArgs) -> (r: Result<
        Variable<T>,
        GraphError,
    >)
        ensures
            old(table).records().len() < crate::arena::MAX_RECORDS ==> r is Ok
                && r->Ok_0.id == old(table).records().len()
                    && final(table).records() == old(table).records().push(
                RecordValue::fresh(T::lift(data@), *args),
            ),
            old(table).records().len() >= crate::arena::MAX_RECORDS ==> r is Err && r->Err_0
                == GraphError::OutOfRangeIdentity && final(table).records() == old(table).records(),
            final(table).frame() == old(table).frame(),
    {
        let record = VarKindImpl::new_args(T::into_kind(data), args);
        match table.allocate(record) {
            Ok(id) => Ok(Variable { id, phantom: PhantomData }),
            Err(e) => Err(e),
        }
    }

    /// Whether the variable is excluded from graph construction.
    pub fn is_volatile<S: VarTable>(&self, table: &S) -> (r: Result<bool, GraphError>)
        ensures
            match resolve_error(table.records(), self.id, T::kind_of()) {
                Some(e) => r == Err::<bool, GraphError>(e),
                None => r == Ok::<bool, GraphError>(table.records()[self.id as int].volatile),
            },
    {
        match resolve(table, self.id, T::elem_kind()) {
            Ok(rec) => Ok(rec.is_volatile()),
            Err(e) => Err(e),
        }
    }

    /// Whether gradients are accumulated for the variable.
    pub fn requires_grad<S: VarTable>(&self, table: &S) -> (r: Result<bool, GraphError>)
        ensures
            match resolve_error(table.records(), self.id, T::kind_of()) {
                Some(e) => r == Err::<bool, GraphError>(e),
                None => r == Ok::<bool, GraphError>(table.records()[self.id as int].requires_grad),
            },
    {
        match resolve(table, self.id, T::elem_kind()) {
            Ok(rec) => Ok(rec.requires_grad()),
            Err(e) => Err(e),
        }
    }

    /// The function that the record names as its producer, if it names one.
    pub fn grad_fn<S: VarTable>(&self, table: &S) -> (r: Result<Option<Function>, GraphError>)
        ensures
            match resolve_error(table.records(), self.id, T::kind_of()) {
                Some(e) => r == Err::<Option<Function>, GraphError>(e),
                None => r == Ok::<Option<Function>, GraphError>(table.records()[self.id as
                    int].grad_fn),
            },
    {
        match resolve(table, self.id, T::elem_kind()) {
            Ok(rec) => Ok(rec.grad_fn()),
            Err(e) => Err(e),
        }
    }

    /// This handle, as a handle of some kind.
    pub fn kind(self) -> (k: VarKind)
        ensures
            k.varid_spec() == self.id,
            k.kind_spec() == T::kind_of(),
    {
        match T::elem_kind() {
            ElemKind::Float => VarKind::FloatVariable(Variable { id: self.id, phantom: PhantomData
                }),
            ElemKind::Long => VarKind::LongVariable(Variable { id: self.id, phantom: PhantomData }),
        }
    }

    /// A copy of the variable's data.
    pub fn data<S: VarTable>(&self, table: &S) -> (r: Result<Tensor<T>, GraphError>)
        ensures
            match resolve_error(table.records(), self.id, T::kind_of()) {
                Some(e) => r == Err::<Tensor<T>, GraphError>(e),
                None => r is Ok && T::lift(r->Ok_0@) == table.records()[self.id as int].data,
            },
    {
        proof {
            T::lemma_kinds();
        }
        match resolve(table, self.id, T::elem_kind()) {
            Ok(rec) => T::from_kind(rec.data()),
            Err(e) => Err(e),
        }
    }

    /// Replaces the variable's data by `value`; nothing else changes.
    pub fn set<S: VarTable>(&self, table: &mut S, value: Tensor<T>) -> (r: Result<(), GraphError>)
        ensures
            match resolve_error(old(table).records(), self.id, T::kind_of()) {
                Some(e) => r == Err::<(), GraphError>(e)
                    && final(table).records() == old(table).records(),
                None => r is Ok && final(table).records() == old(table).records().update(
                    self.id as int,
                    old(table).records()[self.id as int].with_data(T::lift(value@)),
                ),
            },
            final(table).frame() == old(table).frame(),
    {
        proof {
            T::lemma_kinds();
        }
        match resolve_mut(table, self.id, T::elem_kind()) {
            Ok(rec) => rec.set_data(T::into_kind(value)),
            Err(e) => Err(e),
        }
    }

    /// Records that the variable's data was mutated in place.
    pub fn mark_dirty<S: VarTable>(&self, table: &mut S) -> (r: Result<(), GraphError>)
        ensures
            match resolve_error(old(table).records(), self.id, T::kind_of()) {
                Some(e) => r == Err::<(), GraphError>(e)
                    && final(table).records() == old(table).records(),
                None => r is Ok && final(table).records() == old(table).records().update(
                    self.id as int,
                    old(table).records()[self.id as int].marked_dirty(),
                ),
            },
            final(table).frame() == old(table).frame(),
    {
        match resolve_mut(table, self.id, T::elem_kind()) {
            Ok(rec) => {
                rec.mark_dirty();
                Ok(())
            },
            Err(e) => Err(e),
        }
    }

    /// Stops gradients from being accumulated for the variable. There is no
    /// way back.
    pub fn requires_nograd<S: VarTable>(&self, table: &mut S) -> (r: Result<(), GraphError>)
        ensures
            match resolve_error(old(table).records(), self.id, T::kind_of()) {
                Some(e) => r == Err::<(), GraphError>(e)
                    && final(table).records() == old(table).records(),
                None => r is Ok && final(table).records() == old(table).records().update(
                    self.id as int,
                    old(table).records()[self.id as int].without_grad_required(),
                ),
            },
            final(table).frame() == old(table).frame(),
    {
        match resolve_mut(table, self.id, T::elem_kind()) {
            Ok(rec) => {
                rec.requires_nograd();
                Ok(())
            },
            Err(e) => Err(e),
        }
    }

    /// A copy of the variable's gradient, which is made of zeros in the
    /// data's shape on first use.
    pub fn grad<S: VarTable>(&self, table: &mut S) -> (r: Result<Tensor<T>, GraphError>)
        ensures
            match resolve_error(old(table).records(), self.id, T::kind_of()) {
                Some(e) => r == Err::<Tensor<T>, GraphError>(e)
                    && final(table).records() == old(table).records(),
                None => r is Ok && T::lift(r->Ok_0@)
                    == old(table).records()[self.id as int].grad_or_zeros()
                    && final(table).records() == old(table).records().update(
                    self.id as int,
                    old(table).records()[self.id as int].with_grad_allocated(),
                ),
            },
            final(table).frame() == old(table).frame(),
    {
        proof {
            T::lemma_kinds();
        }
        match resolve_mut(table, self.id, T::elem_kind()) {
            Ok(rec) => {
                let g = rec.grad();
                T::from_kind(g)
            },
            Err(e) => Err(e),
        }
    }

    /// Adds `value` into the variable's gradient. Fails with
    /// `DirtyVariableError` on a record mutated in place, else with
    /// `ShapeMismatch` when `value` has other dimensions than the gradient; a
    /// failure changes nothing.
    pub fn accumulate_grad<S: VarTable>(&self, table: &mut S, value: &Tensor<T>) -> (r: Result<
        (),
        GraphError,
    >)
        ensures
            match resolve_error(old(table).records(), self.id, T::kind_of()) {
                Some(e) => r == Err::<(), GraphError>(e)
                    && final(table).records() == old(table).records(),
                None => match old(table).records()[self.id as
                    int].accumulate_error(T::lift(value@)) {
                    Some(e) => r == Err::<(), GraphError>(e)
                        && final(table).records() == old(table).records(),
                    None => r is Ok && final(table).records() == old(table).records().update(
                        self.id as int,
                        old(table).records()[self.id as int].accumulated(T::lift(value@)),
                    ),
                },
            },
            final(table).frame() == old(table).frame(),
    {
        proof {
            T::lemma_kinds();
        }
        match resolve_mut(table, self.id, T::elem_kind()) {
            Ok(rec) => {
                let v = T::into_kind(value.copy());
                rec.accumulate_grad(&v)
            },
            Err(e) => Err(e),
        }
    }
}

impl From<Variable<Float32>> for VarKind {
    fn from(input: Variable<Float32>) -> (k: VarKind) {
        VarKind::FloatVariable(input)
    }
}

impl FromSpecImpl<Variable<Float32>> for VarKind {
    open spec fn obeys_from_spec() -> bool {
        true
    }

    open spec fn from_spec(input: Variable<Float32>) -> VarKind {
        VarKind::FloatVariable(input)
    }
}

impl From<Variable<i64>> for VarKind {
    fn from(input: Variable<i64>) -> (k: VarKind) {
        VarKind::LongVariable(input)
    }
}

impl FromSpecImpl<Variable<i64>> for VarKind {
    open spec fn obeys_from_spec() -> bool {
        true
    }

    open spec fn from_spec(input: Variable<i64>) -> VarKind {
        VarKind::LongVariable(input)
    }
}

impl VarKind {
    /// The identity that the handle holds.
    pub open spec fn varid_spec(self) -> VarId {
        match self {
            VarKind::FloatVariable(v) => v.id,
            VarKind::LongVariable(v) => v.id,
        }
    }

    /// The element type that the handle claims.
    pub open spec fn kind_spec(self) -> ElemKind {
        match self {
            VarKind::FloatVariable(_) => ElemKind::Float,
            VarKind::LongVariable(_) => ElemKind::Long,
        }
    }

    /// What narrowing the handle to element type `kind` gives: its identity,
    /// or `TypeMismatch` when it claims another element type.
    pub open spec fn typed_spec(self, kind: ElemKind) -> Result<VarId, GraphError> {
        if self.kind_spec() == kind {
            Ok(self.varid_spec())
        } else {
            Err(GraphError::TypeMismatch)
        }
    }

    /// The handle with identity `id` that claims element type `kind`.
    pub fn of(id: VarId, kind: ElemKind) -> (k: VarKind)
        ensures
            k.varid_spec() == id,
            k.kind_spec() == kind,
    {
        match kind {
            ElemKind::Float => VarKind::FloatVariable(Variable { id, phantom: PhantomData }),
            ElemKind::Long => VarKind::LongVariable(Variable { id, phantom: PhantomData }),
        }
    }

    /// The handle to the record that `id` names, of the record's element
    /// type; `OutOfRangeIdentity` exactly when `id` names none.
    pub fn from_id<S: VarTable>(table: &S, id: VarId) -> (r: Result<VarKind, GraphError>)
        ensures
            in_range(id, table.records().len()) ==> r is Ok && r->Ok_0.varid_spec() == id
                && r->Ok_0.kind_spec() == table.records()[id as int].data.kind(),
            !in_range(id, table.records().len()) ==> r is Err && r->Err_0
                == GraphError::OutOfRangeIdentity,
    {
        match table.get(id) {
            Ok(rec) => Ok(VarKind::of(id, rec.elem_kind())),
            Err(e) => Err(e),
        }
    }

    /// Makes a variable around `data` as `args` ask, and gives its handle.
    /// Fails with `OutOfRangeIdentity`, and changes nothing, exactly when the
    /// table is full.
    pub fn new_args<S: VarTable>(table: &mut S, data: TensorKind, args: &VariableArgs)
        -> (r: Result<
        VarKind,
        GraphError,
    >)
        ensures
            old(table).records().len() < crate::arena::MAX_RECORDS ==> r is Ok
                && r->Ok_0.varid_spec()
                == old(table).records().len() && r->Ok_0.kind_spec() == data@.kind()
                    && final(table).records()
                == old(table).records().push(RecordValue::fresh(data@, *args)),
            old(table).records().len() >= crate::arena::MAX_RECORDS ==> r is Err && r->Err_0
                == GraphError::OutOfRangeIdentity && final(table).records() == old(table).records(),
            final(table).frame() == old(table).frame(),
    {
        let kind = data.kind();
        let record = VarKindImpl::new_args(data, args);
        match table.allocate(record) {
            Ok(id) => Ok(VarKind::of(id, kind)),
            Err(e) => Err(e),
        }
    }

    /// The identity that the handle holds.
    pub fn varid(&self) -> (id: VarId)
        ensures
            id == self.varid_spec(),
    {
        match self {
            VarKind::FloatVariable(v) => v.id,
            VarKind::LongVariable(v) => v.id,
        }
    }

    /// The element type that the handle claims.
    pub fn elem_kind(&self) -> (k: ElemKind)
        ensures
            k == self.kind_spec(),
    {
        match self {
            VarKind::FloatVariable(_) => ElemKind::Float,
            VarKind::LongVariable(_) => ElemKind::Long,
        }
    }

    /// Narrows to a handle of element type `T`. Fails with `TypeMismatch`
    /// exactly when the handle claims another element type. No record is
    /// read or changed.
    pub fn typed<T: Kinded>(self) -> (r: Result<Variable<T>, GraphError>)
        ensures
            match self.typed_spec(T::kind_of()) {
                Ok(id) => r is Ok && r->Ok_0.id == id,
                Err(e) => r is Err && r->Err_0 == e,
            },
    {
        if self.elem_kind() == T::elem_kind() {
            Ok(Variable { id: self.varid(), phantom: PhantomData })
        } else {
            Err(GraphError::TypeMismatch)
        }
    }

    /// Whether the variable is excluded from graph construction.
    pub fn is_volatile<S: VarTable>(&self, table: &S) -> (r: Result<bool, GraphError>)
        ensures
            match resolve_error(table.records(), self.varid_spec(), self.kind_spec()) {
                Some(e) => r == Err::<bool, GraphError>(e),
                None => r == Ok::<bool, GraphError>(table.records()[self.varid_spec() as
                    int].volatile),
            },
    {
        match resolve(table, self.varid(), self.elem_kind()) {
            Ok(rec) => Ok(rec.is_volatile()),
            Err(e) => Err(e),
        }
    }

    /// Whether gradients are accumulated for the variable.
    pub fn requires_grad<S: VarTable>(&self, table: &S) -> (r: Result<bool, GraphError>)
        ensures
            match resolve_error(table.records(), self.varid_spec(), self.kind_spec()) {
                Some(e) => r == Err::<bool, GraphError>(e),
                None => r == Ok::<bool, GraphError>(
                    table.records()[self.varid_spec() as int].requires_grad,
                ),
            },
    {
        match resolve(table, self.varid(), self.elem_kind()) {
            Ok(rec) => Ok(rec.requires_grad()),
            Err(e) => Err(e),
        }
    }

    /// The function that the record names as its producer, if it names one.
    pub fn grad_fn<S: VarTable>(&self, table: &S) -> (r: Result<Option<Function>, GraphError>)
        ensures
            match resolve_error(table.records(), self.varid_spec(), self.kind_spec()) {
                Some(e) => r == Err::<Option<Function>, GraphError>(e),
                None => r == Ok::<Option<Function>, GraphError>(
                    table.records()[self.varid_spec() as int].grad_fn,
                ),
            },
    {
        match resolve(table, self.varid(), self.elem_kind()) {
            Ok(rec) => Ok(rec.grad_fn()),
            Err(e) => Err(e),
        }
    }

    /// A copy of the variable's data.
    pub fn data<S: VarTable>(&self, table: &S) -> (r: Result<TensorKind, GraphError>)
        ensures
            match resolve_error(table.records(), self.varid_spec(), self.kind_spec()) {
                Some(e) => r == Err::<TensorKind, GraphError>(e),
                None => r is Ok && r->Ok_0@ == table.records()[self.varid_spec() as int].data,
            },
    {
        match resolve(table, self.varid(), self.elem_kind()) {
            Ok(rec) => Ok(rec.data()),
            Err(e) => Err(e),
        }
    }

    /// Stops gradients from being accumulated for the variable. There is no
    /// way back.
    pub fn requires_nograd<S: VarTable>(&self, table: &mut S) -> (r: Result<(), GraphError>)
        ensures
            match resolve_error(old(table).records(), self.varid_spec(), self.kind_spec()) {
                Some(e) => r == Err::<(), GraphError>(e)
                    && final(table).records() == old(table).records(),
                None => r is Ok && final(table).records() == old(table).records().update(
                    self.varid_spec() as int,
                    old(table).records()[self.varid_spec() as int].without_grad_required(),
                ),
            },
            final(table).frame() == old(table).frame(),
    {
        match resolve_mut(table, self.varid(), self.elem_kind()) {
            Ok(rec) => {
                rec.requires_nograd();
                Ok(())
            },
            Err(e) => Err(e),
        }
    }
}

impl Clone for VarKind {
    fn clone(&self) -> (k: VarKind)
        ensures
            k == *self,
    {
        match self {
            VarKind::FloatVariable(v) => VarKind::FloatVariable(
                Variable { id: v.id, phantom: PhantomData },
            ),
            VarKind::LongVariable(v) => VarKind::LongVariable(
                Variable { id: v.id, phantom: PhantomData },
            ),
        }
    }
}

impl Copy for VarKind {

}

/// Access to the record behind a handle of element type `T`.
pub trait VarAccess<T: Kinded>: Sized {
    /// The identity that the handle holds.
    spec fn identity(&self) -> VarId;

    /// The record, for changing it: whatever the caller leaves there is the
    /// table's record at the handle's identity afterwards, and no other record
    /// changes. Fails as `resolve_error` says.
    fn access<'a, S: VarTable>(&self, table: &'a mut S)
        -> (r: Result<&'a mut VariableImpl<T>, GraphError>)
        ensures
            match resolve_error(old(table).records(), self.identity(), T::kind_of()) {
                Some(e) => r is Err && r->Err_0 == e
                    && final(table).records() == old(table).records(),
                None => r is Ok && (*r->Ok_0)@ == old(table).records()[self.identity() as int]
                    && final(table).records() == old(table).records().update(
                    self.identity() as int,
                    (*final(r->Ok_0))@,
                ),
            },
            final(table).frame() == old(table).frame(),
    ;

    /// The record, for reading. Fails as `resolve_error` says.
    fn borrow<'a, S: VarTable>(&self, table: &'a S) -> (r: Result<&'a VariableImpl<T>, GraphError>)
        ensures
            match resolve_error(table.records(), self.identity(), T::kind_of()) {
                Some(e) => r is Err && r->Err_0 == e,
                None => r is Ok && r->Ok_0@ == table.records()[self.identity() as int],
            },
    ;

    /// Makes a variable around `data` as `args` ask, and gives its handle.
    /// Fails with `OutOfRangeIdentity`, and changes nothing, exactly when the
    /// table is full.
    fn new_args<S: VarTable>(table: &mut S, data: Tensor<T>, args: &VariableArgs) -> (r: Result<
        Self,
        GraphError,
    >)
        ensures
            old(table).records().len() < crate::arena::MAX_RECORDS ==> r is Ok
                && r->Ok_0.identity() == old(table).records().len()
                    && final(table).records() == old(table).records().push(
                RecordValue::fresh(T::lift(data@), *args),
            ),
            old(table).records().len() >= crate::arena::MAX_RECORDS ==> r is Err && r->Err_0
                == GraphError::OutOfRangeIdentity && final(table).records() == old(table).records(),
            final(table).frame() == old(table).frame(),
    ;
}

impl VarAccess<Float32> for Variable<Float32> {
    open spec fn identity(&self) -> VarId {
        self.id
    }

    fn access<'a, S: VarTable>(&self, table: &'a mut S) -> (r: Result<
        &'a mut VariableImpl<Float32>,
        GraphError,
    >) {
        match table.get_mut(self.id) {
            Ok(rec) => match rec {
                VarKindImpl::FloatVariable(typed) => Ok(typed),
                VarKindImpl::LongVariable(_) => Err(GraphError::TypeMismatch),
            },
            Err(e) => Err(e),
        }
    }

    fn borrow<'a, S: VarTable>(&self, table: &'a S)
        -> (r: Result<&'a VariableImpl<Float32>, GraphError>) {
        match table.get(self.id) {
            Ok(rec) => match rec {
                VarKindImpl::FloatVariable(typed) => Ok(typed),
                VarKindImpl::LongVariable(_) => Err(GraphError::TypeMismatch),
            },
            Err(e) => Err(e),
        }
    }

    fn new_args<S: VarTable>(table: &mut S, data: Tensor<Float32>, args: &VariableArgs)
        -> (r: Result<
        Variable<Float32>,
        GraphError,
    >) {
        let value = VariableImpl::new(data, args);
        match table.allocate(VarKindImpl::FloatVariable(value)) {
            Ok(id) => Ok(Variable { id, phantom: PhantomData }),
            Err(e) => Err(e),
        }
    }
}

impl VarAccess<i64> for Variable<i64> {
    open spec fn identity(&self) -> VarId {
        self.id
    }

    fn access<'a, S: VarTable>(&self, table: &'a mut S)
        -> (r: Result<&'a mut VariableImpl<i64>, GraphError>) {
        match table.get_mut(self.id) {
            Ok(rec) => match rec {
                VarKindImpl::LongVariable(typed) => Ok(typed),
                VarKindImpl::FloatVariable(_) => Err(GraphError::TypeMismatch),
            },
            Err(e) => Err(e),
        }
    }

    fn borrow<'a, S: VarTable>(&self, table: &'a S)
        -> (r: Result<&'a VariableImpl<i64>, GraphError>) {
        match table.get(self.id) {
            Ok(rec) => match rec {
                VarKindImpl::LongVariable(typed) => Ok(typed),
                VarKindImpl::FloatVariable(_) => Err(GraphError::TypeMismatch),
            },
            Err(e) => Err(e),
        }
    }

    fn new_args<S: VarTable>(table: &mut S, data: Tensor<i64>, args: &VariableArgs) -> (r: Result<
        Variable<i64>,
        GraphError,
    >) {
        let value = VariableImpl::new(data, args);
        match table.allocate(VarKindImpl::LongVariable(value)) {
            Ok(id) => Ok(Variable { id, phantom: PhantomData }),
            Err(e) => Err(e),
        }
    }
}

impl Variable<Float32> {
    /// The variable's data, for reading.
    pub fn data_borrow<'a, S: VarTable>(&self, table: &'a S)
        -> (r: Result<&'a Tensor<Float32>, GraphError>)
        ensures
            match resolve_error(table.records(), self.id, ElemKind::Float) {
                Some(e) => r is Err && r->Err_0 == e,
                None => r is Ok && crate::tensor::KindValue::Float(r->Ok_0@)
                    == table.records()[self.id as int].data,
            },
    {
        match self.borrow(table) {
            Ok(rec) => Ok(&rec.data),
            Err(e) => Err(e),
        }
    }
}

impl Variable<i64> {
    /// The variable's data, for reading.
    pub fn data_borrow<'a, S: VarTable>(&self, table: &'a S)
        -> (r: Result<&'a Tensor<i64>, GraphError>)
        ensures
            match resolve_error(table.records(), self.id, ElemKind::Long) {
                Some(e) => r is Err && r->Err_0 == e,
                None => r is Ok && crate::tensor::KindValue::Long(r->Ok_0@)
                    == table.records()[self.id as int].data,
            },
    {
        match self.borrow(table) {
            Ok(rec) => Ok(&rec.data),
            Err(e) => Err(e),
        }
    }
}

impl<T: Kinded> Variable<T> {
    /// Replaces the variable's data by what `callback` makes of it. Fails as
    /// `resolve_error` says, and then `callback` is not called.
    pub fn apply<S: VarTable, C: FnOnce(Tensor<T>) -> Tensor<T>>(
        &self,
        table: &mut S,
        callback: C,
    ) -> (r:
        Result<(), GraphError>)
        requires
            forall|t: Tensor<T>| call_requires(callback, (t,)),
        ensures
            match resolve_error(old(table).records(), self.id, T::kind_of()) {
                Some(e) => r == Err::<(), GraphError>(e)
                    && final(table).records() == old(table).records(),
                None => r is Ok && exists|before: Tensor<T>, after: Tensor<T>|
                    {
                        &&& T::lift(before@) == old(table).records()[self.id as int].data
                        &&& #[trigger] call_ensures(callback, (before,), after)
                        &&& final(table).records() == old(table).records().update(
                            self.id as int,
                            old(table).records()[self.id as int].with_data(T::lift(after@)),
                        )
                    },
            },
            final(table).frame() == old(table).frame(),
    {
        let before = match self.data(table) {
            Ok(t) => t,
            Err(e) => {
                return Err(e);
            },
        };
        let after = callback(before);
        self.set(table, after)
    }
}

} // verus!
