use vstd::prelude::*;
use crate::arena::{in_range, Arena, VarId, VarTable, MAX_RECORDS};
use crate::error::GraphError;
use crate::function::{backward_outcome, kinds, opt_kinds, Forward, FuncIntf, FuncNode, NodeValue};
use crate::pass::SessionValue;
use crate::record::{all_fit, Function, RecordValue, VarKindImpl, VariableArgs};
use crate::tensor::{copy_elems, KindValue, TensorKind};
use crate::variable::VarKind;

verus! {

/// Whether every identity of `ids` names one of the records.
pub open spec fn all_in_range(ids: Seq<VarId>, count: nat) -> bool {
    forall|p: int| 0 <= p < ids.len() ==> in_range(#[trigger] ids[p], count)
}

/// Whether one of the inputs is volatile.
pub open spec fn any_volatile(records: Seq<RecordValue>, inputs: Seq<VarId>) -> bool {
    exists|p: int| 0 <= p < inputs.len() && (#[trigger] records[inputs[p] as int]).volatile
}

/// Whether one of the inputs requires a gradient.
pub open spec fn any_requires_grad(records: Seq<RecordValue>, inputs: Seq<VarId>) -> bool {
    exists|p: int| 0 <= p < inputs.len() && (#[trigger] records[inputs[p] as int]).requires_grad
}

/// What is wrong with the claim that the input at position `p` was changed
/// in place into `data[p]`: there is no such input (`ShapeMismatch`), or the
/// new value is of another element type than the record (`TypeMismatch`).
pub open spec fn dirty_error_one(
    records: Seq<RecordValue>,
    inputs: Seq<VarId>,
    data: Seq<KindValue>,
    p: usize,
) -> Option<GraphError> {
    if p >= inputs.len() {
        Some(GraphError::ShapeMismatch)
    } else if data[p as int].kind() != records[inputs[p as int] as int].data.kind() {
        Some(GraphError::TypeMismatch)
    } else {
        None
    }
}

/// The first thing wrong among the first `upto` in-place claims, if any.
pub open spec fn dirty_error(
    records: Seq<RecordValue>,
    inputs: Seq<VarId>,
    data: Seq<KindValue>,
    dirty: Seq<usize>,
    upto: nat,
) -> Option<GraphError>
    decreases upto,
{
    if upto == 0 {
        None
    } else {
        match dirty_error(records, inputs, data, dirty, (upto - 1) as nat) {
            Some(e) => Some(e),
            None => dirty_error_one(records, inputs, data, dirty[upto - 1]),
        }
    }
}

/// The records after the first `upto` in-place changes were written back:
/// each such input holds its new data and is marked dirty.
pub open spec fn written_back(
    records: Seq<RecordValue>,
    inputs: Seq<VarId>,
    data: Seq<KindValue>,
    dirty: Seq<usize>,
    upto: nat,
) -> Seq<RecordValue>
    decreases upto,
{
    if upto == 0 {
        records
    } else {
        let r = written_back(records, inputs, data, dirty, (upto - 1) as nat);
        let p = dirty[upto - 1] as int;
        let v = inputs[p] as int;
        r.update(v, r[v].with_data(data[p]).marked_dirty())
    }
}

impl<F: FuncIntf> SessionValue<F> {
    /// How the outputs of an operation on `inputs` are made. With a volatile
    /// input the outputs are volatile and have no producer; otherwise the
    /// producer is the node about to be recorded, and the outputs require a
    /// gradient when one of the inputs does.
    pub open spec fn output_args(self, inputs: Seq<VarId>) -> VariableArgs {
        let volatile = any_volatile(self.records, inputs);
        VariableArgs {
            creator: if volatile {
                None
            } else {
                Some(Function { id: self.nodes.len() as usize })
            },
            volatile,
            requires_grad: !volatile && any_requires_grad(self.records, inputs),
        }
    }

    /// What recording an operation fails with, if it fails.
    pub open spec fn record_error(
        self,
        inputs: Seq<VarId>,
        data: Seq<KindValue>,
        outputs: Seq<KindValue>,
        dirty: Seq<usize>,
    ) -> Option<GraphError> {
        if !all_in_range(inputs, self.records.len()) {
            Some(GraphError::OutOfRangeIdentity)
        } else if data.len() != inputs.len() {
            Some(GraphError::ShapeMismatch)
        } else {
            match dirty_error(self.records, inputs, data, dirty, dirty.len()) {
                Some(e) => Some(e),
                None => if self.records.len() + outputs.len() > MAX_RECORDS {
                    Some(GraphError::OutOfRangeIdentity)
                } else {
                    None
                },
            }
        }
    }

    /// What holds of a session `after` recording an operation, and of the
    /// handles or the error `r` that recording gave: a failure is the one
    /// that `record_error` names, and changes nothing; otherwise the session
    /// is as `recorded` says, with one handle per output, which holds the
    /// identity of the output's record and the element type of its value.
    pub open spec fn applied(
        self,
        op: F,
        inputs: Seq<VarId>,
        data: Seq<KindValue>,
        outputs: Seq<KindValue>,
        dirty: Seq<usize>,
        after: SessionValue<F>,
        r: Result<Vec<VarKind>, GraphError>,
    ) -> bool {
        match self.record_error(inputs, data, outputs, dirty) {
            Some(e) => r is Err && r->Err_0 == e && after == self,
            None => r is Ok && after == self.recorded(op, inputs, data, outputs, dirty)
                && r->Ok_0@.len() == outputs.len() && forall|i: int|
                0 <= i < outputs.len() ==> (#[trigger] r->Ok_0@[i]).varid_spec()
                    == self.records.len() + i && r->Ok_0@[i].kind_spec() == outputs[i].kind(),
        }
    }

    /// The session after an operation was recorded: the inputs changed in
    /// place hold their new data and are dirty, one record per output is
    /// appended, and, unless an input is volatile, the node is appended.
    pub open spec fn recorded(
        self,
        op: F,
        inputs: Seq<VarId>,
        data: Seq<KindValue>,
        outputs: Seq<KindValue>,
        dirty: Seq<usize>,
    ) -> SessionValue<F> {
        let args = self.output_args(inputs);
        let n = self.records.len();
        SessionValue {
            records: written_back(self.records, inputs, data, dirty, dirty.len()) + Seq::new(
                outputs.len(),
                |i: int| RecordValue::fresh(outputs[i], args),
            ),
            nodes: if args.volatile {
                self.nodes
            } else {
                self.nodes.push(
                    NodeValue {
                        op,
                        inputs,
                        outputs: Seq::new(outputs.len(), |i: int| (n + i) as VarId),
                        freed: false,
                    },
                )
            },
        }
    }
}

/// Writing back keeps the number of records and the element type of each.
pub proof fn lemma_written_back(
    records: Seq<RecordValue>,
    inputs: Seq<VarId>,
    data: Seq<KindValue>,
    dirty: Seq<usize>,
    upto: nat,
)
    requires
        upto <= dirty.len(),
        all_in_range(inputs, records.len()),
        dirty_error(records, inputs, data, dirty, upto) is None,
    ensures
        written_back(records, inputs, data, dirty, upto).len() == records.len(),
        forall|v: int|
            0 <= v < records.len() ==> (#[trigger] written_back(
                records,
                inputs,
                data,
                dirty,
                upto,
            )[v]).data.kind() == records[v].data.kind(),
    decreases upto,
{
    if upto > 0 {
        lemma_written_back(records, inputs, data, dirty, (upto - 1) as nat);
    }
}

/// Whether every identity of `ids` names a record of the arena.
fn check_inputs(arena: &Arena, ids: &Vec<VarId>) -> (b: bool)
    ensures
        b == all_in_range(ids@, arena@.len()),
{
    let mut p: usize = 0;
    while p < ids.len()
        invariant
            p <= ids.len(),
            forall|q: int| 0 <= q < p ==> in_range(#[trigger] ids@[q], arena@.len()),
        decreases ids.len() - p,
    {
        if !arena.contains(ids[p]) {
            return false;
        }
        p += 1;
    }
    true
}

/// Whether one of the inputs is volatile, and whether one requires a
/// gradient.
fn scan_flags(arena: &Arena, inputs: &Vec<VarId>) -> (r: (bool, bool))
    requires
        all_in_range(inputs@, arena@.len()),
    ensures
        r.0 == any_volatile(arena@, inputs@),
        r.1 == any_requires_grad(arena@, inputs@),
{
    let mut volatile = false;
    let mut requires_grad = false;
    let mut p: usize = 0;
    while p < inputs.len()
        invariant
            p <= inputs.len(),
            all_in_range(inputs@, arena@.len()),
            volatile == (exists|q: int|
                0 <= q < p && (#[trigger] arena@[inputs@[q] as int]).volatile),
            requires_grad == (exists|q: int|
                0 <= q < p && (#[trigger] arena@[inputs@[q] as int]).requires_grad),
        decreases inputs.len() - p,
    {
        match arena.get(inputs[p]) {
            Ok(rec) => {
                if rec.is_volatile() {
                    volatile = true;
                }
                if rec.requires_grad() {
                    requires_grad = true;
                }
            },
            // Checked before: the identity names a record, and the arena has room.
            Err(_) => {},
        }
        p += 1;
    }
    (volatile, requires_grad)
}

/// The first thing wrong among the in-place claims, if any.
fn check_dirty(arena: &Arena, inputs: &Vec<VarId>, data: &Vec<TensorKind>, dirty: &Vec<usize>)
    -> (r: Option<GraphError>)
    requires
        all_in_range(inputs@, arena@.len()),
        data@.len() == inputs@.len(),
    ensures
        r == dirty_error(arena@, inputs@, kinds(data@), dirty@, dirty@.len()),
{
    let mut k: usize = 0;
    while k < dirty.len()
        invariant
            k <= dirty.len(),
            all_in_range(inputs@, arena@.len()),
            data@.len() == inputs@.len(),
            dirty_error(arena@, inputs@, kinds(data@), dirty@, k as nat) is None,
        decreases dirty.len() - k,
    {
        let p: usize = dirty[k];
        let ghost upto = (k + 1) as nat;
        if p >= inputs.len() {
            proof {
                lemma_dirty_error_stays(arena@, inputs@, kinds(data@), dirty@, upto, dirty@.len());
            }
            return Some(GraphError::ShapeMismatch);
        }
        match arena.get(inputs[p]) {
            Ok(rec) => {
                if data[p].kind() != rec.elem_kind() {
                    proof {
                        lemma_dirty_error_stays(
                            arena@,
                            inputs@,
                            kinds(data@),
                            dirty@,
                            upto,
                            dirty@.len(),
                        );
                    }
                    return Some(GraphError::TypeMismatch);
                }
            },
            // Checked before: the identity names a record, and the arena has room.
            Err(_) => {},
        }
        k += 1;
    }
    None
}

/// Once an in-place claim is wrong, looking at more claims changes nothing.
pub proof fn lemma_dirty_error_stays(
    records: Seq<RecordValue>,
    inputs: Seq<VarId>,
    data: Seq<KindValue>,
    dirty: Seq<usize>,
    upto: nat,
    more: nat,
)
    requires
        upto <= more,
        dirty_error(records, inputs, data, dirty, upto) is Some,
    ensures
        dirty_error(records, inputs, data, dirty, more) == dirty_error(
            records,
            inputs,
            data,
            dirty,
            upto,
        ),
    decreases more,
{
    if more > upto {
        lemma_dirty_error_stays(records, inputs, data, dirty, upto, (more - 1) as nat);
    }
}

/// Writes the inputs changed in place back into their records and marks
/// them dirty.
fn write_back(arena: &mut Arena, inputs: &Vec<VarId>, data: &Vec<TensorKind>, dirty: &Vec<usize>)
    requires
        all_in_range(inputs@, old(arena)@.len()),
        data@.len() == inputs@.len(),
        dirty_error(old(arena)@, inputs@, kinds(data@), dirty@, dirty@.len()) is None,
    ensures
        final(arena)@ == written_back(old(arena)@, inputs@, kinds(data@), dirty@, dirty@.len()),
        all_fit(old(arena)@) ==> all_fit(final(arena)@),
{
    let mut k: usize = 0;
    while k < dirty.len()
        invariant
            k <= dirty.len(),
            all_in_range(inputs@, old(arena)@.len()),
            data@.len() == inputs@.len(),
            dirty_error(old(arena)@, inputs@, kinds(data@), dirty@, dirty@.len()) is None,
            arena@ == written_back(old(arena)@, inputs@, kinds(data@), dirty@, k as nat),
            all_fit(old(arena)@) ==> all_fit(arena@),
        decreases dirty.len() - k,
    {
        proof {
            lemma_dirty_error_prefix(
                old(arena)@,
                inputs@,
                kinds(data@),
                dirty@,
                (k + 1) as nat,
                dirty@.len(),
            );
            lemma_written_back(old(arena)@, inputs@, kinds(data@), dirty@, k as nat);
        }
        let p: usize = dirty[k];
        match arena.get_mut(inputs[p]) {
            Ok(rec) => {
                let _ = rec.set_data(data[p].copy());
                rec.mark_dirty();
            },
            // Checked before: the identity names a record, and the arena has room.
            Err(_) => {},
        }
        k += 1;
    }
}

/// Where no claim is wrong among `more`, none is wrong among fewer.
pub proof fn lemma_dirty_error_prefix(
    records: Seq<RecordValue>,
    inputs: Seq<VarId>,
    data: Seq<KindValue>,
    dirty: Seq<usize>,
    upto: nat,
    more: nat,
)
    requires
        upto <= more,
        dirty_error(records, inputs, data, dirty, more) is None,
    ensures
        dirty_error(records, inputs, data, dirty, upto) is None,
    decreases more,
{
    if more > upto {
        lemma_dirty_error_prefix(records, inputs, data, dirty, upto, (more - 1) as nat);
    }
}

/// Appends one record per output, made as `args` ask, and gives their
/// identities.
fn append_outputs(arena: &mut Arena, outputs: &Vec<TensorKind>, args: &VariableArgs) -> (ids: Vec<
    VarId,
>)
    requires
        old(arena)@.len() + outputs@.len() <= MAX_RECORDS,
    ensures
        final(arena)@ == old(arena)@ + Seq::new(
            outputs@.len(),
            |i: int| RecordValue::fresh(kinds(outputs@)[i], *args),
        ),
        ids@ == Seq::new(outputs@.len(), |i: int| (old(arena)@.len() + i) as VarId),
        all_fit(old(arena)@) ==> all_fit(final(arena)@),
{
    let mut ids: Vec<VarId> = Vec::new();
    let mut i: usize = 0;
    while i < outputs.len()
        invariant
            i <= outputs.len(),
            old(arena)@.len() + outputs@.len() <= MAX_RECORDS,
            arena@ == old(arena)@ + Seq::new(
                i as nat,
                |j: int| RecordValue::fresh(kinds(outputs@)[j], *args),
            ),
            ids@ == Seq::new(i as nat, |j: int| (old(arena)@.len() + j) as VarId),
            all_fit(old(arena)@) ==> all_fit(arena@),
        decreases outputs.len() - i,
    {
        let record = VarKindImpl::new_args(outputs[i].copy(), args);
        match arena.allocate(record) {
            Ok(id) => {
                ids.push(id);
            },
            // Checked before: the identity names a record, and the arena has room.
            Err(_) => {},
        }
        i += 1;
    }
    ids
}

/// The identities that the handles hold, in order.
pub open spec fn handle_ids(handles: Seq<VarKind>) -> Seq<VarId> {
    Seq::new(handles.len(), |p: int| handles[p].varid_spec())
}

/// Whether every handle claims the element type of the record it names.
pub open spec fn all_kinds_match(records: Seq<RecordValue>, handles: Seq<VarKind>) -> bool {
    forall|p: int|
        0 <= p < handles.len() ==> (#[trigger] handles[p]).kind_spec()
            == records[handles[p].varid_spec() as int].data.kind()
}

/// What is wrong with the handles given to an operation, if anything:
/// `OutOfRangeIdentity` when one names no record, else `TypeMismatch` when
/// one claims another element type than its record has.
pub open spec fn inputs_error(records: Seq<RecordValue>, handles: Seq<VarKind>) -> Option<
    GraphError,
> {
    if !all_in_range(handle_ids(handles), records.len()) {
        Some(GraphError::OutOfRangeIdentity)
    } else if !all_kinds_match(records, handles) {
        Some(GraphError::TypeMismatch)
    } else {
        None
    }
}

/// The data of the records that the handles name, in order.
pub open spec fn gathered(records: Seq<RecordValue>, handles: Seq<VarKind>) -> Seq<KindValue> {
    Seq::new(handles.len(), |p: int| records[handles[p].varid_spec() as int].data)
}

/// The identities of the handles and a copy of the data of each.
fn gather(arena: &Arena, handles: &Vec<VarKind>) -> (r: Result<
    (Vec<VarId>, Vec<TensorKind>),
    GraphError,
>)
    ensures
        match inputs_error(arena@, handles@) {
            Some(e) => r is Err && r->Err_0 == e,
            None => r is Ok && r->Ok_0.0@ == handle_ids(handles@) && kinds(r->Ok_0.1@)
                == gathered(arena@, handles@),
        },
{
    let mut ids: Vec<VarId> = Vec::new();
    let mut p: usize = 0;
    while p < handles.len()
        invariant
            p <= handles.len(),
            ids@ == Seq::new(p as nat, |q: int| handles@[q].varid_spec()),
        decreases handles.len() - p,
    {
        ids.push(handles[p].varid());
        p += 1;
    }
    if !check_inputs(arena, &ids) {
        return Err(GraphError::OutOfRangeIdentity);
    }
    let mut data: Vec<TensorKind> = Vec::new();
    let mut p: usize = 0;
    while p < handles.len()
        invariant
            p <= handles.len(),
            all_in_range(handle_ids(handles@), arena@.len()),
            forall|q: int|
                0 <= q < p ==> (#[trigger] handles@[q]).kind_spec()
                    == arena@[handles@[q].varid_spec() as int].data.kind(),
            data@.len() == p,
            kinds(data@) == Seq::new(
                p as nat,
                |q: int| arena@[handles@[q].varid_spec() as int].data,
            ),
        decreases handles.len() - p,
    {
        assert(in_range(handle_ids(handles@)[p as int], arena@.len()));
        let ghost before = data@;
        match arena.get(handles[p].varid()) {
            Ok(rec) => {
                if rec.elem_kind() != handles[p].elem_kind() {
                    return Err(GraphError::TypeMismatch);
                }
                data.push(rec.data());
            },
            // Checked before: the identity names a record, and the arena has room.
            Err(_) => {},
        }
        assert forall|q: int| 0 <= q < p + 1 implies #[trigger] kinds(data@)[q]
            == arena@[handles@[q].varid_spec() as int].data by {
            if q < p {
                assert(kinds(before)[q] == before[q]@);
            }
        }
        p += 1;
    }
    Ok((ids, data))
}

/// The handles to freshly made records, of the element types of the values
/// they were made around.
fn output_handles(ids: &Vec<VarId>, outputs: &Vec<TensorKind>) -> (r: Vec<VarKind>)
    requires
        ids@.len() == outputs@.len(),
    ensures
        r@.len() == ids@.len(),
        forall|i: int|
            0 <= i < r@.len() ==> (#[trigger] r@[i]).varid_spec() == ids@[i] && r@[i].kind_spec()
                == outputs@[i]@.kind(),
{
    let mut r: Vec<VarKind> = Vec::new();
    let mut i: usize = 0;
    while i < ids.len()
        invariant
            i <= ids.len(),
            ids@.len() == outputs@.len(),
            r@.len() == i,
            forall|j: int|
                0 <= j < i ==> (#[trigger] r@[j]).varid_spec() == ids@[j] && r@[j].kind_spec()
                    == outputs@[j]@.kind(),
        decreases ids.len() - i,
    {
        r.push(VarKind::of(ids[i], outputs[i].kind()));
        i += 1;
    }
    r
}

/// One computation session: the arena of variable records and the function
/// nodes recorded over them. Records and nodes are only ever added, until
/// the session is cleared or dropped, which frees them all at once.
pub struct Session<F> {
    arena: Arena,
    nodes: Vec<FuncNode<F>>,
}

impl<F> View for Session<F> {
    type V = SessionValue<F>;

    closed spec fn view(&self) -> SessionValue<F> {
        SessionValue {
            records: self.arena@,
            nodes: Seq::new(self.nodes@.len(), |f: int| self.nodes@[f]@),
        }
    }
}

impl<F: FuncIntf> Session<F> {
    /// The graph is well formed; see `SessionValue::wf`.
    pub open spec fn wf(&self) -> bool {
        self@.wf()
    }

    /// A session without records or nodes.
    pub fn new() -> (s: Session<F>)
        ensures
            s@.records == Seq::<RecordValue>::empty(),
            s@.nodes == Seq::<NodeValue<F>>::empty(),
            s.wf(),
    {
        let s = Session { arena: Arena::new(), nodes: Vec::new() };
        s
    }

    /// Records an operation whose forward has run: `data` are the input
    /// values as forward left them, `fwd` is what forward gave. The inputs
    /// that forward changed in place get their new data and are marked dirty;
    /// one record per output is appended; unless an input is volatile, the
    /// node is appended with `op` in it. Gives the handles of the outputs. A
    /// failure changes nothing.
    pub fn record(
        &mut self,
        op: F,
        inputs: &Vec<VarId>,
        data: &Vec<TensorKind>,
        fwd: &Forward,
    ) -> (r: Result<Vec<VarKind>, GraphError>)
        requires
            old(self).wf(),
        ensures
            final(self).wf(),
            old(self)@.applied(
                op,
                inputs@,
                kinds(data@),
                kinds(fwd.outputs@),
                fwd.dirty@,
                final(self)@,
                r,
            ),
            all_fit(old(self)@.records) ==> all_fit(final(self)@.records),
    {
        if !check_inputs(&self.arena, inputs) {
            return Err(GraphError::OutOfRangeIdentity);
        }
        if data.len() != inputs.len() {
            return Err(GraphError::ShapeMismatch);
        }
        match check_dirty(&self.arena, inputs, data, &fwd.dirty) {
            Some(e) => {
                return Err(e);
            },
            None => {},
        }
        let n: usize = self.arena.len();
        if n > MAX_RECORDS || fwd.outputs.len() > MAX_RECORDS - n {
            return Err(GraphError::OutOfRangeIdentity);
        }
        let (volatile, requires_any) = scan_flags(&self.arena, inputs);
        let args = VariableArgs {
            creator: if volatile {
                None
            } else {
                Some(Function { id: self.nodes.len() })
            },
            volatile,
            requires_grad: !volatile && requires_any,
        };
        proof {
            lemma_written_back(
                old(self)@.records,
                inputs@,
                kinds(data@),
                fwd.dirty@,
                fwd.dirty@.len(),
            );
        }
        write_back(&mut self.arena, inputs, data, &fwd.dirty);
        let ids = append_outputs(&mut self.arena, &fwd.outputs, &args);
        let handles = output_handles(&ids, &fwd.outputs);
        if !volatile {
            let node = FuncNode { op, inputs: copy_elems(inputs), outputs: ids, freed: false };
            self.nodes.push(node);
            assert(self@.nodes =~= old(self)@.nodes.push(node@));
        }
        proof {
            let now = self@;
            let was = old(self)@;
            assert forall|f: int, p: int, c: int, q: int|
                0 <= f < now.nodes.len() && 0 <= p < now.nodes[f].outputs.len() && 0 <= c
                    < now.nodes.len() && 0 <= q < now.nodes[c].inputs.len()
                    && #[trigger] now.nodes[f].outputs[p] == #[trigger] now.nodes[c].inputs[q]
                    implies f < c by {
                if f < was.nodes.len() && c < was.nodes.len() {
                    assert(was.nodes[f].outputs[p] == was.nodes[c].inputs[q]);
                } else if f >= was.nodes.len() && c < was.nodes.len() {
                    assert(in_range(was.nodes[c].inputs[q], was.records.len()));
                } else if f >= was.nodes.len() {
                    assert(in_range(inputs@[q], was.records.len()));
                }
            }
            assert forall|f: int, p: int, c: int, q: int|
                0 <= f < now.nodes.len() && 0 <= p < now.nodes[f].outputs.len() && 0 <= c
                    < now.nodes.len() && 0 <= q < now.nodes[c].outputs.len()
                    && #[trigger] now.nodes[f].outputs[p] == #[trigger] now.nodes[c].outputs[q]
                    implies f == c && p == q by {
                if f < was.nodes.len() && c < was.nodes.len() {
                    assert(was.nodes[f].outputs[p] == was.nodes[c].outputs[q]);
                } else if f < was.nodes.len() {
                    assert(in_range(was.nodes[f].outputs[p], was.records.len()));
                } else if c < was.nodes.len() {
                    assert(in_range(was.nodes[c].outputs[q], was.records.len()));
                }
            }
            assert forall|f: int, p: int|
                0 <= f < now.nodes.len() && 0 <= p < now.nodes[f].inputs.len() implies in_range(
                #[trigger] now.nodes[f].inputs[p],
                now.records.len(),
            ) by {
                if f < was.nodes.len() {
                    assert(in_range(was.nodes[f].inputs[p], was.records.len()));
                } else {
                    assert(in_range(inputs@[p], was.records.len()));
                }
            }
            assert forall|f: int, p: int|
                0 <= f < now.nodes.len() && 0 <= p < now.nodes[f].outputs.len() implies in_range(
                #[trigger] now.nodes[f].outputs[p],
                now.records.len(),
            ) by {
                if f < was.nodes.len() {
                    assert(in_range(was.nodes[f].outputs[p], was.records.len()));
                }
            }
        }
        Ok(handles)
    }

    /// Runs the forward of `op` on copies of the data of `inputs` and
    /// records the outcome: see `record`. Fails first on the handles: see
    /// `inputs_error`. Then whatever forward fails with is the failure, and
    /// after that whatever `record` fails with. A failure changes nothing.
    /// What forward made of the node and of the input values is what its
    /// `forward_spec` allows.
    pub fn apply(&mut self, op: F, inputs: &Vec<VarKind>) -> (r: Result<Vec<VarKind>, GraphError>)
        requires
            old(self).wf(),
        ensures
            final(self).wf(),
            r is Err ==> final(self)@ == old(self)@,
            all_fit(old(self)@.records) ==> all_fit(final(self)@.records),
            match inputs_error(old(self)@.records, inputs@) {
                Some(e) => r is Err && r->Err_0 == e,
                None => exists|done: F, data: Seq<KindValue>, given: Result<Forward, GraphError>|
                    {
                        &&& data.len() == inputs@.len()
                        &&& #[trigger] op.forward_spec(
                            gathered(old(self)@.records, inputs@),
                            done,
                            data,
                            given,
                        )
                        &&& match given {
                            Err(e) => r is Err && r->Err_0 == e,
                            Ok(fwd) => old(self)@.applied(
                                done,
                                handle_ids(inputs@),
                                data,
                                kinds(fwd.outputs@),
                                fwd.dirty@,
                                final(self)@,
                                r,
                            ),
                        }
                    },
            },
    {
        let mut op = op;
        let ghost before = op;
        let (ids, mut data) = match gather(&self.arena, inputs) {
            Ok(pair) => pair,
            Err(e) => {
                return Err(e);
            },
        };
        let ghost copies = kinds(data@);
        let given = op.forward(&mut data);
        let ghost made = given;
        let ghost after = kinds(data@);
        let ghost done = op;
        assert(copies == gathered(old(self)@.records, inputs@));
        assert(after.len() == inputs@.len());
        assert(before.forward_spec(copies, done, after, made));
        let fwd = match given {
            Ok(fwd) => fwd,
            Err(e) => {
                assert(made == Err::<Forward, GraphError>(e));
                return Err(e);
            },
        };
        assert(made == Ok::<Forward, GraphError>(fwd));
        let r = self.record(op, &ids, &data, &fwd);
        assert(old(self)@.applied(
            done,
            handle_ids(inputs@),
            after,
            kinds(fwd.outputs@),
            fwd.dirty@,
            self@,
            r,
        ));
        r
    }

    /// Ends the computation: drops every record and every node. Handles
    /// made before name nothing afterwards, until new records take their
    /// identities.
    pub fn clear(&mut self)
        ensures
            final(self)@.records == Seq::<RecordValue>::empty(),
            final(self)@.nodes == Seq::<NodeValue<F>>::empty(),
            final(self).wf(),
    {
        self.arena = Arena::new();
        self.nodes = Vec::new();
    }

    /// The arena, for reading.
    pub fn arena(&self) -> (a: &Arena)
        ensures
            a@ == self@.records,
    {
        &self.arena
    }

    /// The arena, for changing records or adding some: what the caller
    /// leaves there are the session's records afterwards; the nodes stay.
    pub(crate) fn arena_mut(&mut self) -> (a: &mut Arena)
        ensures
            (*a)@ == old(self)@.records,
            final(self)@.nodes == old(self)@.nodes,
            final(self)@.records == (*final(a))@,
    {
        &mut self.arena
    }

    /// The number of function nodes, which is also the next node identity.
    pub fn node_count(&self) -> (n: usize)
        ensures
            n == self@.nodes.len(),
    {
        self.nodes.len()
    }

    /// The variables that node `f` consumed, in order.
    pub(crate) fn node_inputs(&self, f: usize) -> (r: &Vec<VarId>)
        requires
            f < self@.nodes.len(),
        ensures
            r@ == self@.nodes[f as int].inputs,
    {
        &self.nodes[f].inputs
    }

    /// The variables that node `f` produced, in order.
    pub(crate) fn node_outputs(&self, f: usize) -> (r: &Vec<VarId>)
        requires
            f < self@.nodes.len(),
        ensures
            r@ == self@.nodes[f as int].outputs,
    {
        &self.nodes[f].outputs
    }

    /// Whether the saved state of node `f` was released.
    pub(crate) fn node_freed(&self, f: usize) -> (b: bool)
        requires
            f < self@.nodes.len(),
        ensures
            b == self@.nodes[f as int].freed,
    {
        self.nodes[f].freed
    }

    /// Runs the backward of node `f` on the gradients of its outputs, which
    /// consumes what the node kept for it. Nothing else changes.
    pub(crate) fn node_backward(&mut self, f: usize, grad_output: &Vec<Option<TensorKind>>) -> (r:
        Result<Vec<Option<TensorKind>>, GraphError>)
        requires
            f < old(self)@.nodes.len(),
        ensures
            backward_outcome(r) == old(self)@.nodes[f as int].op.backward_spec(
                opt_kinds(grad_output@),
            ),
            old(self)@.nodes[f as int].op.consumed(
                opt_kinds(grad_output@),
                final(self)@.nodes[f as int].op,
            ),
            final(self)@.records == old(self)@.records,
            final(self)@.nodes.len() == old(self)@.nodes.len(),
            forall|g: int|
                0 <= g < old(self)@.nodes.len() && g != f ==> #[trigger] final(self)@.nodes[g]
                    == old(self)@.nodes[g],
            final(self)@.nodes[f as int].inputs == old(self)@.nodes[f as int].inputs,
            final(self)@.nodes[f as int].outputs == old(self)@.nodes[f as int].outputs,
            final(self)@.nodes[f as int].freed == old(self)@.nodes[f as int].freed,
    {
        let node = &mut self.nodes[f];
        node.op.backward(grad_output)
    }

    /// Runs the backward of node `f` on the gradients of its outputs and
    /// leaves what the node kept in place.
    pub(crate) fn node_backward_retained(
        &self,
        f: usize,
        grad_output: &Vec<Option<TensorKind>>,
    ) -> (r: Result<Vec<Option<TensorKind>>, GraphError>)
        requires
            f < self@.nodes.len(),
        ensures
            backward_outcome(r) == self@.nodes[f as int].op.backward_spec(opt_kinds(grad_output@)),
    {
        self.nodes[f].op.backward_retained(grad_output)
    }

    /// Releases the saved state of node `f` and marks the node as freed.
    /// Nothing else changes.
    pub(crate) fn node_release(&mut self, f: usize)
        requires
            f < old(self)@.nodes.len(),
        ensures
            final(self)@.records == old(self)@.records,
            final(self)@.nodes.len() == old(self)@.nodes.len(),
            forall|g: int|
                0 <= g < old(self)@.nodes.len() && g != f ==> #[trigger] final(self)@.nodes[g]
                    == old(self)@.nodes[g],
            final(self)@.nodes[f as int].inputs == old(self)@.nodes[f as int].inputs,
            final(self)@.nodes[f as int].outputs == old(self)@.nodes[f as int].outputs,
            final(self)@.nodes[f as int].freed,
    {
        let node = &mut self.nodes[f];
        node.op.release();
        node.freed = true;
    }
}

impl<F: FuncIntf> VarTable for Session<F> {
    type Frame = Seq<NodeValue<F>>;

    open spec fn records(&self) -> Seq<RecordValue> {
        self@.records
    }

    open spec fn frame(&self) -> Seq<NodeValue<F>> {
        self@.nodes
    }

    fn get(&self, id: VarId) -> (r: Result<&VarKindImpl, GraphError>) {
        self.arena.get(id)
    }

    fn get_mut(&mut self, id: VarId) -> (r: Result<&mut VarKindImpl, GraphError>) {
        self.arena.get_mut(id)
    }

    fn allocate(&mut self, record: VarKindImpl) -> (r: Result<VarId, GraphError>) {
        self.arena.allocate(record)
    }
}

} // verus!
