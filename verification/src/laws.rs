use vstd::prelude::*;
use crate::arena::{in_range, VarId, MAX_RECORDS};
use crate::error::GraphError;
use crate::float::Float32;
use crate::function::{kinds, Forward, FuncIntf, Gradients};
use crate::nn::dropout::{
    backward_result, forward_post, forward_result, noise_cell, overwritten, run_length,
    saved_after_backward, DropoutArgs, Noise,
};
use crate::pass::{
    deliver, merged, output_grads, reached, settle, settle_one, start_gradient,
    NodeState, Pass, SessionValue,
};
use crate::session::all_in_range;
use crate::record::{RecordValue, VariableArgs};
use crate::tensor::{ElemKind, Element, KindValue, Kinded, TensorValue};
use crate::variable::{resolve_error, VarKind};

verus! {

/// A backward pass from a scalar without a gradient is the pass with a
/// gradient of ones in the scalar's shape.
pub proof fn law_scalar_backward_starts_from_ones<F: FuncIntf>(
    s: SessionValue<F>,
    v: VarId,
    retain: bool,
)
    requires
        in_range(v, s.records.len()),
        !s.records[v as int].volatile,
        s.records[v as int].requires_grad,
        s.records[v as int].data.is_scalar(),
    ensures
        s.backward(v, None, retain) == s.backward(
            v,
            Some(s.records[v as int].data.ones()),
            retain,
        ),
{
}

/// A volatile record is made without a producer, whatever creator was named
/// for it, and keeps none when its data is replaced, when it is marked dirty,
/// when it stops requiring a gradient and when a gradient is added to it.
pub proof fn law_volatile_record_has_no_producer(
    data: KindValue,
    args: VariableArgs,
    other: KindValue,
)
    requires
        args.volatile,
    ensures
        RecordValue::fresh(data, args).volatile,
        RecordValue::fresh(data, args).grad_fn is None,
        RecordValue::fresh(data, args).with_data(other).grad_fn is None,
        RecordValue::fresh(data, args).marked_dirty().grad_fn is None,
        RecordValue::fresh(data, args).without_grad_required().grad_fn is None,
        RecordValue::fresh(data, args).with_grad_allocated().grad_fn is None,
        RecordValue::fresh(data, args).accumulated(other).grad_fn is None,
{
}

/// A backward pass from a volatile variable fails with `InvalidBackward`,
/// whatever the gradient and whatever the graph.
pub proof fn law_volatile_backward_fails<F: FuncIntf>(
    s: SessionValue<F>,
    v: VarId,
    gradient: Option<KindValue>,
    retain: bool,
)
    requires
        in_range(v, s.records.len()),
        s.records[v as int].volatile,
    ensures
        s.backward(v, gradient, retain) == Err::<(Seq<RecordValue>, Seq<bool>), GraphError>(
            GraphError::InvalidBackward,
        ),
{
}

/// Narrowing a handle of one element type to another fails with
/// `TypeMismatch`; so does resolving an identity to a record of another
/// element type than the record has.
pub proof fn law_narrowing_to_other_type_fails(
    handle: VarKind,
    kind: ElemKind,
    records: Seq<RecordValue>,
    id: VarId,
)
    requires
        handle.kind_spec() != kind,
    ensures
        handle.typed_spec(kind) == Err::<VarId, GraphError>(GraphError::TypeMismatch),
        in_range(id, records.len()) && records[id as int].data.kind() != kind ==> resolve_error(
            records,
            id,
            kind,
        ) == Some(GraphError::TypeMismatch),
{
}

/// After a record was allocated around some data and its data was then set
/// to `value`, its data reads as `value`.
pub proof fn law_set_then_data_round_trip<T: Kinded>(
    records: Seq<RecordValue>,
    first: TensorValue<T>,
    args: VariableArgs,
    value: TensorValue<T>,
)
    requires
        records.len() < MAX_RECORDS,
    ensures
        ({
            let id = records.len() as VarId;
            let allocated = records.push(RecordValue::fresh(T::lift(first), args));
            let set = allocated.update(id as int, allocated[id as int].with_data(T::lift(value)));
            &&& resolve_error(allocated, id, T::kind_of()) is None
            &&& resolve_error(set, id, T::kind_of()) is None
            &&& T::lower(set[id as int].data) == Some(value)
        }),
{
    T::lemma_kinds();
}

/// A dropout node that does not mask, because it is not training or because
/// `p` is not above zero, is the identity both ways: forward gives its first
/// input, and backward gives the gradient it got.
pub proof fn law_idle_dropout_is_identity<N: Noise>(
    args: DropoutArgs,
    saved_before: Seq<KindValue>,
    input_before: Seq<KindValue>,
    saved_after: Seq<KindValue>,
    input_after: Seq<KindValue>,
    r: Result<Forward, GraphError>,
    g: KindValue,
    noise: Option<KindValue>,
)
    requires
        !args.training || !args.p.positive(),
        input_before.len() > 0,
        forward_post::<N>(args, saved_before, input_before, saved_after, input_after, r),
    ensures
        r is Ok,
        kinds(r->Ok_0.outputs@) == seq![input_before[0]],
        input_after == input_before,
        saved_after == saved_before,
        backward_result(seq![Some(g)], args, noise) == Ok::<Gradients, GraphError>(seq![Some(g)]),
{
    let inner = run_length::<N>(input_before);
    let flags = choose|flags: Seq<bool>| #[trigger]
        forward_result(input_before, args, flags, inner) is Ok;
    assert(forward_result(input_before, args, flags, inner) == Ok::<Seq<KindValue>, GraphError>(
        seq![input_before[0]],
    ));
}

/// A dropout node that masks a float input `x` saves a noise of `x`'s
/// shape in which every element is one of two values, the kept and the
/// dropped cell; each output element is the input's times the noise's; and
/// backward, given that noise, multiplies each gradient element by the same
/// noise element, so a position is dropped in both or in neither.
pub proof fn law_dropout_masks_both_ways_alike<N: Noise>(
    args: DropoutArgs,
    saved_before: Seq<KindValue>,
    input_before: Seq<KindValue>,
    saved_after: Seq<KindValue>,
    input_after: Seq<KindValue>,
    r: Result<Forward, GraphError>,
    g: TensorValue<Float32>,
)
    requires
        args.training && args.p.positive(),
        input_before.len() > 0,
        input_before[0] is Float,
        r is Ok,
        forward_post::<N>(args, saved_before, input_before, saved_after, input_after, r),
        g.shape == input_before[0]->Float_0.shape,
        g.data.len() == input_before[0]->Float_0.data.len(),
    ensures
        ({
            let x = input_before[0]->Float_0;
            let noise = saved_after.last();
            let output = kinds(r->Ok_0.outputs@)[0];
            let back = backward_result(seq![Some(KindValue::Float(g))], args, Some(noise));
            &&& saved_after.len() == saved_before.len() + 1
            &&& noise is Float && output is Float
            &&& noise->Float_0.shape == x.shape && output->Float_0.shape == x.shape
            &&& noise->Float_0.data.len() == x.data.len()
            &&& output->Float_0.data.len() == x.data.len()
            &&& back is Ok && back->Ok_0.len() == 1 && back->Ok_0[0] is Some
            &&& back->Ok_0[0]->Some_0 is Float
            &&& forall|i: int|
                0 <= i < x.data.len() ==> {
                    let n = #[trigger] noise->Float_0.data[i];
                    &&& n == noise_cell(true, args.keep_value()) || n == noise_cell(
                        false,
                        args.keep_value(),
                    )
                    &&& output->Float_0.data[i] == Float32::product(x.data[i], n)
                    &&& back->Ok_0[0]->Some_0->Float_0.data[i] == Float32::product(g.data[i], n)
                }
        }),
{
    let inner = run_length::<N>(input_before);
    let flags = choose|flags: Seq<bool>| #[trigger]
        forward_result(input_before, args, flags, inner) is Ok && {
            let out = forward_result(input_before, args, flags, inner)->Ok_0;
            &&& kinds(r->Ok_0.outputs@) == seq![out.last()]
            &&& input_after == overwritten(
                input_before,
                args.inplace,
                out.last(),
            )
            &&& saved_after == if args.active() {
                saved_before.push(out[0])
            } else {
                saved_before
            }
            &&& r->Ok_0.dirty@ == if args.inplace {
                seq![0usize]
            } else {
                Seq::<usize>::empty()
            }
        };
    assert(forward_result(input_before, args, flags, inner)->Ok_0.len() == 2);
}

/// The backward of a dropout node that masks uses up the noise that the
/// node saved first. After one forward on a node that had saved nothing, one
/// backward leaves nothing saved, and a second backward, without a forward
/// in between, fails with `GraphAlreadyFreed`, whatever gradient it is given.
/// After two forwards, the second backward works with the noise of the
/// second forward.
pub proof fn law_dropout_backward_consumes_its_noise(
    args: DropoutArgs,
    first: KindValue,
    second: KindValue,
    g: Gradients,
    h: Gradients,
)
    requires
        args.training && args.p.positive(),
        g.len() > 0,
        h.len() > 0,
    ensures
        saved_after_backward(seq![first], args, g) == Seq::<KindValue>::empty(),
        backward_result(h, args, None) == Err::<Gradients, GraphError>(
            GraphError::GraphAlreadyFreed,
        ),
        saved_after_backward(seq![first, second], args, g) == seq![second],
        saved_after_backward(Seq::<KindValue>::empty(), args, g) == Seq::<KindValue>::empty(),
{
    assert(seq![first].skip(1) =~= Seq::<KindValue>::empty());
    assert(seq![first, second].skip(1) =~= seq![second]);
}

/// A gradient has the element type and the shape of its data: a record is
/// made so, replacing the data makes it so, and marking the record dirty,
/// taking the need for a gradient from it, putting zeros in place and adding
/// a gradient that accumulation accepts all keep it so.
pub proof fn law_gradient_has_the_shape_of_the_data(
    rec: RecordValue,
    data: KindValue,
    args: VariableArgs,
    value: KindValue,
)
    ensures
        RecordValue::fresh(data, args).grad_fits(),
        rec.with_data(data).grad_fits(),
        rec.grad_fits() ==> rec.marked_dirty().grad_fits(),
        rec.grad_fits() ==> rec.without_grad_required().grad_fits(),
        rec.grad_fits() ==> rec.with_grad_allocated().grad_fits(),
        rec.grad_fits() && rec.accumulate_error(value) is None ==> rec.accumulated(
            value,
        ).grad_fits(),
{
}

/// Adding two long gradients to a record gives the same whichever is added
/// first.
pub proof fn law_long_accumulation_order_free(
    rec: RecordValue,
    a: TensorValue<i64>,
    b: TensorValue<i64>,
)
    requires
        rec.grad_fits(),
        rec.data.valid(),
        rec.grad is Some ==> rec.grad->Some_0.valid(),
        a.valid(),
        b.valid(),
        rec.accumulate_error(KindValue::Long(a)) is None,
        rec.accumulate_error(KindValue::Long(b)) is None,
    ensures
        rec.accumulated(KindValue::Long(a)).accumulate_error(KindValue::Long(b)) is None,
        rec.accumulated(KindValue::Long(b)).accumulate_error(KindValue::Long(a)) is None,
        rec.accumulated(KindValue::Long(a)).accumulated(KindValue::Long(b)) == rec.accumulated(
            KindValue::Long(b),
        ).accumulated(KindValue::Long(a)),
{
    let base = rec.grad_or_zeros()->Long_0;
    assert(base.plus(a).plus(b).data =~= base.plus(b).plus(a).data);
}

/// Handing out contributions keeps the number of slots, and a slot that
/// holds a gradient goes on holding one.
proof fn lemma_deliver_keeps(
    records: Seq<RecordValue>,
    grads: Seq<Option<KindValue>>,
    inputs: Seq<VarId>,
    contributions: Seq<Option<KindValue>>,
    upto: nat,
)
    requires
        upto <= inputs.len(),
        all_in_range(inputs, grads.len()),
        deliver(records, grads, inputs, contributions, upto) is Ok,
    ensures
        deliver(records, grads, inputs, contributions, upto)->Ok_0.len() == grads.len(),
        forall|v: int|
            0 <= v < grads.len() && grads[v] is Some ==> (#[trigger] deliver(
                records,
                grads,
                inputs,
                contributions,
                upto,
            )->Ok_0[v]) is Some,
    decreases upto,
{
    if upto > 0 {
        lemma_deliver_keeps(records, grads, inputs, contributions, (upto - 1) as nat);
    }
}

/// A node's turn keeps the number of slots and of nodes; a slot that holds a
/// gradient goes on holding one, and a released node stays released.
proof fn lemma_step_keeps<F: FuncIntf>(s: SessionValue<F>, pass: Pass, f: int, retain: bool)
    requires
        s.wf(),
        0 <= f < s.nodes.len(),
        pass.grads.len() == s.records.len(),
        pass.freed.len() == s.nodes.len(),
        s.step(pass, f, retain) is Ok,
    ensures
        s.step(pass, f, retain)->Ok_0.grads.len() == pass.grads.len(),
        s.step(pass, f, retain)->Ok_0.freed.len() == pass.freed.len(),
        forall|v: int|
            0 <= v < pass.grads.len() && pass.grads[v] is Some ==> (#[trigger] s.step(
                pass,
                f,
                retain,
            )->Ok_0.grads[v]) is Some,
        forall|g: int|
            0 <= g < pass.freed.len() && pass.freed[g] ==> #[trigger] s.step(
                pass,
                f,
                retain,
            )->Ok_0.freed[g],
        !retain && reached(s.nodes[f].outputs, pass.grads)
            ==> s.step(pass, f, retain)->Ok_0.freed[f],
{
    let node = s.nodes[f];
    if reached(node.outputs, pass.grads) {
        let contributions = node.op.backward_spec(output_grads(node.outputs, pass.grads))->Ok_0;
        assert(all_in_range(node.inputs, pass.grads.len())) by {
            assert forall|p: int| 0 <= p < node.inputs.len() implies in_range(
                #[trigger] node.inputs[p],
                pass.grads.len(),
            ) by {}
        }
        lemma_deliver_keeps(
            s.records,
            pass.grads,
            node.inputs,
            contributions,
            node.inputs.len(),
        );
    }
}

/// The walk keeps the number of slots and of nodes; a slot that holds a
/// gradient goes on holding one, and a released node stays released.
proof fn lemma_sweep_keeps<F: FuncIntf>(s: SessionValue<F>, init: Pass, retain: bool, cursor: nat)
    requires
        s.wf(),
        init.grads.len() == s.records.len(),
        init.freed.len() == s.nodes.len(),
        s.sweep(init, retain, cursor) is Ok,
    ensures
        s.sweep(init, retain, cursor)->Ok_0.grads.len() == init.grads.len(),
        s.sweep(init, retain, cursor)->Ok_0.freed.len() == init.freed.len(),
        forall|v: int|
            0 <= v < init.grads.len() && init.grads[v] is Some ==> (#[trigger] s.sweep(
                init,
                retain,
                cursor,
            )->Ok_0.grads[v]) is Some,
        forall|g: int|
            0 <= g < init.freed.len() && init.freed[g] ==> #[trigger] s.sweep(
                init,
                retain,
                cursor,
            )->Ok_0.freed[g],
    decreases s.nodes.len() - cursor,
{
    if cursor < s.nodes.len() {
        lemma_sweep_keeps(s, init, retain, cursor + 1);
        let before = s.sweep(init, retain, cursor + 1)->Ok_0;
        lemma_step_keeps(s, before, cursor as int, retain);
    }
}

/// In a walk that releases, a node is released once the walk is past it, if
/// a gradient was waiting at one of its outputs from the start.
proof fn lemma_sweep_frees<F: FuncIntf>(
    s: SessionValue<F>,
    init: Pass,
    cursor: nat,
    f: int,
    q: int,
)
    requires
        s.wf(),
        init.grads.len() == s.records.len(),
        init.freed.len() == s.nodes.len(),
        cursor <= f < s.nodes.len(),
        0 <= q < s.nodes[f].outputs.len(),
        init.grads[s.nodes[f].outputs[q] as int] is Some,
        s.sweep(init, false, cursor) is Ok,
    ensures
        s.sweep(init, false, cursor)->Ok_0.freed[f],
    decreases f - cursor,
{
    let above = s.sweep(init, false, cursor + 1)->Ok_0;
    lemma_sweep_keeps(s, init, false, cursor + 1);
    lemma_step_keeps(s, above, cursor as int, false);
    if cursor == f {
        assert(above.grads[s.nodes[f].outputs[q] as int] is Some);
    } else {
        lemma_sweep_frees(s, init, cursor + 1, f, q);
    }
}

/// Settling changes nothing of a record but its gradient.
proof fn lemma_settle_keeps(
    records: Seq<RecordValue>,
    leaves: Seq<bool>,
    grads: Seq<Option<KindValue>>,
    upto: nat,
)
    requires
        upto <= records.len(),
        settle(records, leaves, grads, upto) is Ok,
    ensures
        settle(records, leaves, grads, upto)->Ok_0.len() == records.len(),
        forall|v: int|
            0 <= v < records.len() ==> {
                let r = #[trigger] settle(records, leaves, grads, upto)->Ok_0[v];
                r.data == records[v].data && r.volatile == records[v].volatile && r.requires_grad
                    == records[v].requires_grad && r.grad_fn == records[v].grad_fn && r.dirty
                    == records[v].dirty
            },
    decreases upto,
{
    if upto > 0 {
        lemma_settle_keeps(records, leaves, grads, (upto - 1) as nat);
    }
}

/// While the walk is above the one node that produced the variable it
/// started from, nothing happens.
proof fn lemma_sweep_idle_above<F: FuncIntf>(
    s: SessionValue<F>,
    v: VarId,
    g: KindValue,
    retain: bool,
    cursor: nat,
    f: int,
    q: int,
)
    requires
        s.wf(),
        in_range(v, s.records.len()),
        0 <= f < s.nodes.len(),
        0 <= q < s.nodes[f].outputs.len(),
        s.nodes[f].outputs[q] == v,
        cursor > f,
    ensures
        s.sweep(s.start(v, g), retain, cursor) == Ok::<Pass, GraphError>(s.start(v, g)),
    decreases s.nodes.len() - cursor,
{
    let init = s.start(v, g);
    if cursor < s.nodes.len() {
        lemma_sweep_idle_above(s, v, g, retain, cursor + 1, f, q);
        let node = s.nodes[cursor as int];
        if reached(node.outputs, init.grads) {
            let p = choose|p: int|
                0 <= p < node.outputs.len() && (#[trigger] init.grads[node.outputs[p] as int])
                    is Some;
        }
    }
}

/// With `retain_graph` off, a second backward pass from the same variable
/// fails with `GraphAlreadyFreed` if the variable is no leaf, that is if a
/// node produced it: the first pass released that node. `after` is the
/// session as the first pass left it.
pub proof fn law_second_backward_fails<F: FuncIntf>(
    s: SessionValue<F>,
    after: SessionValue<F>,
    v: VarId,
    gradient: Option<KindValue>,
)
    requires
        s.wf(),
        in_range(v, s.records.len()),
        s.produced(v as int),
        s.backward(v, gradient, false) is Ok,
        s.same_graph(after),
        after.records == s.backward(v, gradient, false)->Ok_0.0,
        after.freed() == s.backward(v, gradient, false)->Ok_0.1,
    ensures
        !s.leaves()[v as int],
        after.backward(v, gradient, false) == Err::<(Seq<RecordValue>, Seq<bool>), GraphError>(
            GraphError::GraphAlreadyFreed,
        ),
{
    let (f, q) = choose|f: int, q: int|
        0 <= f < s.nodes.len() && 0 <= q < s.nodes[f].outputs.len()
            && #[trigger] s.nodes[f].outputs[q] == v;
    let rec = s.records[v as int];
    let g = start_gradient(rec, gradient)->Ok_0;
    let init = s.start(v, g);
    let swept = s.sweep(init, false, 0)->Ok_0;
    lemma_sweep_frees(s, init, 0, f, q);
    lemma_settle_keeps(s.records, s.leaves(), swept.grads, s.records.len());
    s.lemma_same_graph_wf(after);
    let again = after.start(v, g);
    lemma_sweep_idle_above(after, v, g, false, (f + 1) as nat, f, q);
    assert(again.grads[after.nodes[f].outputs[q] as int] is Some);
    after.lemma_sweep_error_stays(again, false, f as nat, 0);
}

/// Where the variable `v` is among the first `upto` inputs at position `q`
/// at most, handing out the contributions adds the one at `q` to the slot of
/// `v`, or leaves the slot alone if `q` is not among them.
proof fn lemma_deliver_slot(
    records: Seq<RecordValue>,
    grads: Seq<Option<KindValue>>,
    inputs: Seq<VarId>,
    contributions: Seq<Option<KindValue>>,
    upto: nat,
    v: VarId,
    q: int,
    c: KindValue,
)
    requires
        upto <= inputs.len(),
        all_in_range(inputs, grads.len()),
        in_range(v, grads.len()),
        forall|m: int| 0 <= m < upto && m != q ==> inputs[m] != v,
        0 <= q < upto ==> inputs[q] == v && contributions[q] == Some(c)
            && records[v as int].requires_grad,
        deliver(records, grads, inputs, contributions, upto) is Ok,
    ensures
        deliver(records, grads, inputs, contributions, upto)->Ok_0[v as int] == if 0 <= q < upto {
            merged(grads[v as int], c)
        } else {
            grads[v as int]
        },
    decreases upto,
{
    if upto > 0 {
        lemma_deliver_slot(records, grads, inputs, contributions, (upto - 1) as nat, v, q, c);
        lemma_deliver_keeps(records, grads, inputs, contributions, (upto - 1) as nat);
    }
}

/// A node that consumes the variable `v` at position `q` and nowhere else
/// adds its contribution there to the slot of `v` when it runs; a node that
/// does not consume `v` leaves the slot alone.
proof fn lemma_step_slot<F: FuncIntf>(
    s: SessionValue<F>,
    pass: Pass,
    f: int,
    retain: bool,
    v: VarId,
    q: int,
    c: KindValue,
)
    requires
        s.wf(),
        0 <= f < s.nodes.len(),
        pass.grads.len() == s.records.len(),
        in_range(v, s.records.len()),
        forall|m: int| 0 <= m < s.nodes[f].inputs.len() && m != q ==> s.nodes[f].inputs[m] != v,
        0 <= q < s.nodes[f].inputs.len() ==> s.nodes[f].inputs[q] == v && reached(
            s.nodes[f].outputs,
            pass.grads,
        ) && s.nodes[f].op.backward_spec(output_grads(s.nodes[f].outputs, pass.grads))->Ok_0[q]
            == Some(c) && s.records[v as int].requires_grad,
        s.step(pass, f, retain) is Ok,
    ensures
        s.step(pass, f, retain)->Ok_0.grads[v as int] == if 0 <= q < s.nodes[f].inputs.len() {
            merged(pass.grads[v as int], c)
        } else {
            pass.grads[v as int]
        },
{
    let node = s.nodes[f];
    if reached(node.outputs, pass.grads) {
        let contributions = node.op.backward_spec(output_grads(node.outputs, pass.grads))->Ok_0;
        assert(all_in_range(node.inputs, pass.grads.len())) by {
            assert forall|p: int| 0 <= p < node.inputs.len() implies in_range(
                #[trigger] node.inputs[p],
                pass.grads.len(),
            ) by {}
        }
        lemma_deliver_slot(
            s.records,
            pass.grads,
            node.inputs,
            contributions,
            node.inputs.len(),
            v,
            q,
            c,
        );
    }
}

/// While the walk passes nodes that do not consume the variable `v`, the
/// slot of `v` stays as it is.
proof fn lemma_sweep_slot_idle<F: FuncIntf>(
    s: SessionValue<F>,
    init: Pass,
    retain: bool,
    low: nat,
    high: nat,
    v: VarId,
)
    requires
        s.wf(),
        init.grads.len() == s.records.len(),
        init.freed.len() == s.nodes.len(),
        in_range(v, s.records.len()),
        low <= high <= s.nodes.len(),
        forall|c: int, m: int|
            low <= c < high && 0 <= m < s.nodes[c].inputs.len() ==> #[trigger] s.nodes[c].inputs[m]
                != v,
        s.sweep(init, retain, low) is Ok,
    ensures
        s.sweep(init, retain, high) is Ok,
        s.sweep(init, retain, low)->Ok_0.grads[v as int] == s.sweep(
            init,
            retain,
            high,
        )->Ok_0.grads[v as int],
    decreases high - low,
{
    if low < high {
        lemma_sweep_slot_idle(s, init, retain, low + 1, high, v);
        let above = s.sweep(init, retain, low + 1)->Ok_0;
        lemma_sweep_keeps(s, init, retain, low + 1);
        lemma_step_slot(s, above, low as int, retain, v, -1, arbitrary());
    }
}

/// A variable consumed by two nodes, and by no other, ends the walk with the
/// sum of their two contributions in its slot, on top of what was there at
/// the start: the later node's first, since its turn comes first.
pub proof fn law_shared_variable_sums<F: FuncIntf>(
    s: SessionValue<F>,
    init: Pass,
    retain: bool,
    v: VarId,
    f1: int,
    q1: int,
    f2: int,
    q2: int,
    g1: KindValue,
    g2: KindValue,
)
    requires
        s.wf(),
        init.grads.len() == s.records.len(),
        init.freed.len() == s.nodes.len(),
        in_range(v, s.records.len()),
        s.records[v as int].requires_grad,
        0 <= f2 < f1 < s.nodes.len(),
        0 <= q1 < s.nodes[f1].inputs.len(),
        0 <= q2 < s.nodes[f2].inputs.len(),
        s.nodes[f1].inputs[q1] == v,
        s.nodes[f2].inputs[q2] == v,
        forall|c: int, m: int|
            0 <= c < s.nodes.len() && 0 <= m < s.nodes[c].inputs.len()
                && #[trigger] s.nodes[c].inputs[m] == v ==> (c == f1 && m == q1) || (c == f2 && m
                == q2),
        s.sweep(init, retain, 0) is Ok,
        s.runs(init, retain, f1),
        s.runs(init, retain, f2),
        s.contribution(init, retain, f1, q1) == Some(g1),
        s.contribution(init, retain, f2, q2) == Some(g2),
    ensures
        s.sweep(init, retain, 0)->Ok_0.grads[v as int] == merged(
            merged(init.grads[v as int], g1),
            g2,
        ),
        init.grads[v as int] is None ==> s.sweep(init, retain, 0)->Ok_0.grads[v as int] == Some(
            g1.plus(g2),
        ),
{
    lemma_sweep_slot_idle(s, init, retain, 0, f2 as nat, v);
    lemma_sweep_slot_idle(s, init, retain, (f2 + 1) as nat, f1 as nat, v);
    lemma_sweep_slot_idle(s, init, retain, (f1 + 1) as nat, s.nodes.len(), v);
    let a = s.sweep(init, retain, (f1 + 1) as nat)->Ok_0;
    lemma_sweep_keeps(s, init, retain, (f1 + 1) as nat);
    lemma_step_slot(s, a, f1, retain, v, q1, g1);
    let b = s.sweep(init, retain, (f2 + 1) as nat)->Ok_0;
    lemma_sweep_keeps(s, init, retain, (f2 + 1) as nat);
    lemma_step_slot(s, b, f2, retain, v, q2, g2);
}

/// A leaf that a gradient has reached holds, once the pass has settled,
/// what it held before plus that gradient, where the gradient it held before
/// counts as zeros if there was none.
pub proof fn law_leaf_takes_what_reached_it(
    records: Seq<RecordValue>,
    leaves: Seq<bool>,
    grads: Seq<Option<KindValue>>,
    v: int,
    g: KindValue,
)
    requires
        0 <= v < records.len(),
        grads[v] == Some(g),
        leaves[v],
        settle(records, leaves, grads, records.len()) is Ok,
    ensures
        settle(records, leaves, grads, records.len())->Ok_0[v] == records[v].accumulated(g),
        records[v].accumulated(g).grad == Some(records[v].grad_or_zeros().plus(g)),
{
    lemma_settle_slot(records, leaves, grads, records.len(), v);
}

/// Settling the first `upto` variables changes the record of `v` only when
/// `v` is among them, and then as `settle_one` says.
proof fn lemma_settle_slot(
    records: Seq<RecordValue>,
    leaves: Seq<bool>,
    grads: Seq<Option<KindValue>>,
    upto: nat,
    v: int,
)
    requires
        0 <= v < records.len(),
        upto <= records.len(),
        settle(records, leaves, grads, upto) is Ok,
    ensures
        settle(records, leaves, grads, upto)->Ok_0.len() == records.len(),
        settle(records, leaves, grads, upto)->Ok_0[v] == if v < upto {
            settle_one(records, leaves, grads, v)->Ok_0[v]
        } else {
            records[v]
        },
        v < upto ==> settle_one(records, leaves, grads, v) is Ok,
    decreases upto,
{
    if upto > 0 {
        lemma_settle_slot(records, leaves, grads, (upto - 1) as nat, v);
        lemma_settle_keeps(records, leaves, grads, (upto - 1) as nat);
        if upto - 1 == v {
            let before = settle(records, leaves, grads, (upto - 1) as nat)->Ok_0;
        }
    }
}

/// Sums of long values do not depend on the order of the terms, and zeros
/// add nothing.
pub proof fn law_long_sum_order_free(a: TensorValue<i64>, b: TensorValue<i64>)
    requires
        a.shape == b.shape,
        a.data.len() == b.data.len(),
    ensures
        KindValue::Long(a).plus(KindValue::Long(b)) == KindValue::Long(b).plus(KindValue::Long(a)),
        KindValue::Long(a).zeros().plus(KindValue::Long(a)) == KindValue::Long(a),
        merged(merged(None, KindValue::Long(a)), KindValue::Long(b)) == merged(
            merged(None, KindValue::Long(b)),
            KindValue::Long(a),
        ),
{
    assert(a.plus(b).data =~= b.plus(a).data);
    assert(a.filled(0i64).plus(a).data =~= a.data);
}

/// In a well-formed graph the node whose turn is next is ready, never
/// pending: every node that consumes one of its outputs has had its turn.
/// And once it has had its turn it is done.
pub proof fn law_next_node_is_ready<F: FuncIntf>(s: SessionValue<F>, f: int)
    requires
        s.wf(),
        0 <= f < s.nodes.len(),
    ensures
        s.state((f + 1) as nat, f) == NodeState::Ready,
        s.state(f as nat, f) == NodeState::Done,
        forall|c: int| 0 <= c < s.nodes.len() && s.consumes(c, f) ==> c > f,
{
    assert forall|c: int| 0 <= c < s.nodes.len() && s.consumes(c, f) implies c > f by {
        let (p, q) = choose|p: int, q: int|
            0 <= p < s.nodes[f].outputs.len() && 0 <= q < s.nodes[c].inputs.len()
                && #[trigger] s.nodes[f].outputs[p] == #[trigger] s.nodes[c].inputs[q];
    }
}

/// When the turn of a node comes, the gradients of the variables it
/// produced are complete: what has reached them by then is what has reached
/// them when the walk ends.
pub proof fn law_gradient_is_complete_when_the_producer_runs<F: FuncIntf>(
    s: SessionValue<F>,
    init: Pass,
    retain: bool,
    f: int,
    p: int,
)
    requires
        s.wf(),
        init.grads.len() == s.records.len(),
        init.freed.len() == s.nodes.len(),
        0 <= f < s.nodes.len(),
        0 <= p < s.nodes[f].outputs.len(),
        s.sweep(init, retain, 0) is Ok,
    ensures
        s.sweep(init, retain, (f + 1) as nat) is Ok,
        s.sweep(init, retain, 0)->Ok_0.grads[s.nodes[f].outputs[p] as int] == s.sweep(
            init,
            retain,
            (f + 1) as nat,
        )->Ok_0.grads[s.nodes[f].outputs[p] as int],
{
    let v = s.nodes[f].outputs[p];
    assert forall|c: int, m: int|
        0 <= c < f + 1 && 0 <= m < s.nodes[c].inputs.len() implies #[trigger] s.nodes[c].inputs[m]
        != v by {}
    lemma_sweep_slot_idle(s, init, retain, 0, (f + 1) as nat, v);
}

} // verus!
