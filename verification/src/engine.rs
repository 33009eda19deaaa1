use vstd::prelude::*;
use crate::arena::{in_range, Arena, VarId};
use crate::error::GraphError;
use crate::function::{opt_kind, opt_kinds, FuncIntf};
use crate::pass::{
    deliver, deliver_one, lemma_deliver_error_stays, lemma_settle_error_stays, output_grads,
    reached, settle, settle_one, slots_fit, start_gradient, Pass, SessionValue,
};
use crate::record::{all_fit, RecordValue};
use crate::session::{all_in_range, Session};
use crate::tensor::{KindValue, Kinded, Tensor, TensorKind};
use crate::variable::{resolve, resolve_error, Variable};

verus! {

/// Copies of the gradients that have reached the given outputs, in the
/// order of the outputs, and whether any has.
fn collect(outputs: &Vec<VarId>, buffer: &Vec<Option<TensorKind>>) -> (r: (
    Vec<Option<TensorKind>>,
    bool,
))
    requires
        all_in_range(outputs@, buffer@.len()),
    ensures
        opt_kinds(r.0@) == output_grads(outputs@, opt_kinds(buffer@)),
        r.1 == reached(outputs@, opt_kinds(buffer@)),
{
    let mut grads: Vec<Option<TensorKind>> = Vec::new();
    let mut any = false;
    let mut p: usize = 0;
    while p < outputs.len()
        invariant
            p <= outputs.len(),
            all_in_range(outputs@, buffer@.len()),
            grads@.len() == p,
            forall|q: int|
                0 <= q < p ==> opt_kind(#[trigger] grads@[q]) == opt_kind(
                    buffer@[outputs@[q] as int],
                ),
            any == (exists|q: int|
                0 <= q < p && (#[trigger] opt_kinds(buffer@)[outputs@[q] as int]) is Some),
        decreases outputs.len() - p,
    {
        let v: usize = outputs[p] as usize;
        assert(opt_kinds(buffer@)[v as int] == opt_kind(buffer@[v as int]));
        match &buffer[v] {
            Some(g) => {
                any = true;
                grads.push(Some(g.copy()));
            },
            None => {
                grads.push(None);
            },
        }
        p += 1;
    }
    assert(opt_kinds(grads@) =~= output_grads(outputs@, opt_kinds(buffer@))) by {
        assert forall|q: int| 0 <= q < outputs@.len() implies opt_kinds(grads@)[q]
            == output_grads(outputs@, opt_kinds(buffer@))[q] by {}
    }
    (grads, any)
}

/// Hands the contributions of a node to its inputs, in order.
fn deliver_all(
    arena: &Arena,
    buffer: &mut Vec<Option<TensorKind>>,
    inputs: &Vec<VarId>,
    contributions: &Vec<Option<TensorKind>>,
) -> (r: Result<(), GraphError>)
    requires
        all_in_range(inputs@, arena@.len()),
        contributions@.len() == inputs@.len(),
        slots_fit(arena@, opt_kinds(old(buffer)@)),
    ensures
        final(buffer)@.len() == old(buffer)@.len(),
        match deliver(
            arena@,
            opt_kinds(old(buffer)@),
            inputs@,
            opt_kinds(contributions@),
            inputs@.len(),
        ) {
            Err(e) => r == Err::<(), GraphError>(e),
            Ok(g) => r is Ok && opt_kinds(final(buffer)@) == g && slots_fit(arena@, g),
        },
{
    let ghost start = opt_kinds(buffer@);
    let ghost given = opt_kinds(contributions@);
    let mut m: usize = 0;
    while m < inputs.len()
        invariant
            m <= inputs.len(),
            all_in_range(inputs@, arena@.len()),
            contributions@.len() == inputs@.len(),
            given == opt_kinds(contributions@),
            start == opt_kinds(old(buffer)@),
            buffer@.len() == old(buffer)@.len(),
            slots_fit(arena@, opt_kinds(buffer@)),
            deliver(arena@, start, inputs@, given, m as nat) == Ok::<
                Seq<Option<KindValue>>,
                GraphError,
            >(opt_kinds(buffer@)),
        decreases inputs.len() - m,
    {
        let ghost before = opt_kinds(buffer@);
        let ghost next = deliver_one(arena@, before, inputs@[m as int], given[m as int]);
        match &contributions[m] {
            None => {},
            Some(c) => {
                let id: VarId = inputs[m];
                let v: usize = id as usize;
                match arena.get(id) {
                    Ok(rec) => {
                        if rec.requires_grad() {
                            match rec.mismatch(c) {
                                Some(e) => {
                                    proof {
                                        lemma_deliver_error_stays(
                                            arena@,
                                            start,
                                            inputs@,
                                            given,
                                            (m + 1) as nat,
                                            inputs@.len(),
                                        );
                                    }
                                    return Err(e);
                                },
                                None => {
                                    let total = match &buffer[v] {
                                        None => c.copy(),
                                        Some(g) => match g.add(c) {
                                            Ok(t) => t,
                                            // What waits in a slot is like the data, and so is
                                            // the contribution: the sum cannot fail.
                                            Err(e) => {
                                                return Err(e);
                                            },
                                        },
                                    };
                                    buffer.set(v, Some(total));
                                },
                            }
                        }
                    },
                    // The inputs of a node name records.
                    Err(_) => {},
                }
            },
        }
        assert(opt_kinds(buffer@) == next->Ok_0);
        m += 1;
    }
    Ok(())
}

/// Which variables are leaves: those that no node of the session produced.
fn find_leaves<F: FuncIntf>(session: &Session<F>) -> (leaves: Vec<bool>)
    requires
        session.wf(),
    ensures
        leaves@ == session@.leaves(),
{
    let ghost s = session@;
    let count: usize = session.arena().len();
    let mut leaves: Vec<bool> = Vec::new();
    let mut i: usize = 0;
    while i < count
        invariant
            i <= count,
            leaves@.len() == i,
            forall|j: int| 0 <= j < i ==> #[trigger] leaves@[j],
        decreases count - i,
    {
        leaves.push(true);
        i += 1;
    }
    let mut f: usize = 0;
    while f < session.node_count()
        invariant
            s == session@,
            session.wf(),
            count == s.records.len(),
            leaves@.len() == count,
            f <= s.nodes.len(),
            forall|v: int|
                0 <= v < count ==> #[trigger] leaves@[v] == !s.produced_before(v, f as int, 0),
        decreases s.nodes.len() - f,
    {
        let outputs = session.node_outputs(f);
        let mut p: usize = 0;
        while p < outputs.len()
            invariant
                s == session@,
                session.wf(),
                count == s.records.len(),
                leaves@.len() == count,
                f < s.nodes.len(),
                outputs@ == s.nodes[f as int].outputs,
                p <= outputs@.len(),
                forall|v: int|
                    0 <= v < count ==> #[trigger] leaves@[v] == !s.produced_before(
                        v,
                        f as int,
                        p as int,
                    ),
            decreases outputs.len() - p,
        {
            assert(in_range(s.nodes[f as int].outputs[p as int], s.records.len()));
            let out: usize = outputs[p] as usize;
            let ghost before = leaves@;
            leaves.set(out, false);
            assert forall|v: int| 0 <= v < count implies #[trigger] leaves@[v]
                == !s.produced_before(v, f as int, p as int + 1) by {
                if v == out {
                    assert(s.nodes[f as int].outputs[p as int] == v);
                } else {
                    assert(leaves@[v] == before[v]);
                    if s.produced_before(v, f as int, p as int + 1) {
                        let (g, q) = choose|g: int, q: int|
                            0 <= g < s.nodes.len() && 0 <= q < s.nodes[g].outputs.len() && (g < f
                                || (g == f && q < p + 1)) && #[trigger] s.nodes[g].outputs[q] == v;
                        assert(s.nodes[g].outputs[q] == v && (g < f || (g == f && q < p)));
                    }
                }
            }
            p += 1;
        }
        assert forall|v: int| 0 <= v < count implies #[trigger] leaves@[v] == !s.produced_before(
            v,
            f as int + 1,
            0,
        ) by {
            if s.produced_before(v, f as int + 1, 0) {
                let (g, q) = choose|g: int, q: int|
                    0 <= g < s.nodes.len() && 0 <= q < s.nodes[g].outputs.len() && (g < f + 1 || (g
                        == f + 1 && q < 0)) && #[trigger] s.nodes[g].outputs[q] == v;
                assert(s.nodes[g].outputs[q] == v && (g < f || (g == f && q < outputs@.len())));
            }
            if s.produced_before(v, f as int, outputs@.len() as int) {
                let (g, q) = choose|g: int, q: int|
                    0 <= g < s.nodes.len() && 0 <= q < s.nodes[g].outputs.len() && (g < f || (g == f
                        && q < outputs@.len())) && #[trigger] s.nodes[g].outputs[q] == v;
                assert(s.nodes[g].outputs[q] == v && g < f + 1);
            }
        }
        f += 1;
    }
    assert forall|v: int| 0 <= v < count implies leaves@[v] == s.leaves()[v] by {
        if s.produced(v) {
            let (g, q) = choose|g: int, q: int|
                0 <= g < s.nodes.len() && 0 <= q < s.nodes[g].outputs.len()
                    && #[trigger] s.nodes[g].outputs[q] == v;
            assert(s.nodes[g].outputs[q] == v && g < s.nodes.len());
        }
        if s.produced_before(v, s.nodes.len() as int, 0) {
            let (g, q) = choose|g: int, q: int|
                0 <= g < s.nodes.len() && 0 <= q < s.nodes[g].outputs.len() && (g < s.nodes.len()
                    || (g == s.nodes.len() && q < 0)) && #[trigger] s.nodes[g].outputs[q] == v;
            assert(s.nodes[g].outputs[q] == v);
        }
    }
    assert(leaves@ =~= s.leaves());
    leaves
}

/// Gives node `f` its turn in a backward pass: see `SessionValue::step`.
fn run_node<F: FuncIntf>(
    session: &mut Session<F>,
    buffer: &mut Vec<Option<TensorKind>>,
    f: usize,
    retain: bool,
) -> (r: Result<(), GraphError>)
    requires
        old(session).wf(),
        f < old(session)@.nodes.len(),
        slots_fit(old(session)@.records, opt_kinds(old(buffer)@)),
    ensures
        final(session)@.records == old(session)@.records,
        old(session)@.same_graph(final(session)@),
        forall|g: int|
            0 <= g < old(session)@.nodes.len() && g != f ==> #[trigger] final(session)@.nodes[g]
                == old(session)@.nodes[g],
        r is Ok && final(session)@.nodes[f as int].freed == old(session)@.nodes[f as int].freed
            ==> final(session)@.nodes[f as int] == old(session)@.nodes[f as int],
        retain ==> final(session)@.nodes == old(session)@.nodes,
        final(buffer)@.len() == old(buffer)@.len(),
        match old(session)@.step(
            Pass { freed: old(session)@.freed(), grads: opt_kinds(old(buffer)@) },
            f as int,
            retain,
        ) {
            Err(e) => r == Err::<(), GraphError>(e),
            Ok(p) => r is Ok && opt_kinds(final(buffer)@) == p.grads && final(session)@.freed()
                == p.freed && slots_fit(final(session)@.records, p.grads),
        },
{
    let (grads, any) = collect(session.node_outputs(f), buffer);
    if !any {
        return Ok(());
    }
    if session.node_freed(f) {
        return Err(GraphError::GraphAlreadyFreed);
    }
    let outcome = if retain {
        session.node_backward_retained(f, &grads)
    } else {
        session.node_backward(f, &grads)
    };
    let contributions = match outcome {
        Ok(c) => c,
        Err(e) => {
            return Err(e);
        },
    };
    if contributions.len() != session.node_inputs(f).len() {
        return Err(GraphError::ShapeMismatch);
    }
    match deliver_all(session.arena(), buffer, session.node_inputs(f), &contributions) {
        Ok(()) => {},
        Err(e) => {
            return Err(e);
        },
    }
    if !retain {
        session.node_release(f);
    }
    Ok(())
}

/// The engine that performs backward passes.
pub struct ExecutionEngine {}

impl ExecutionEngine {
    /// Walks the graph backward from variable `var` with first gradient
    /// `gradient`: every node that a gradient reaches runs its backward once,
    /// after all the nodes that consumed what it produced, and the leaves
    /// take the sum of what reached them into their gradients. While
    /// `retain` is set, a node's backward leaves what the node saved in
    /// place, and no node changes; else it consumes what the node saved, and
    /// each node that ran is released. What comes out is
    /// what `SessionValue::propagate` says. A failure before the walk changes
    /// nothing. A failure during the walk leaves the records as they were,
    /// and the nodes that ran before it released unless the graph is retained.
    /// A failure while the leaves take what reached them leaves some of them
    /// with their gradient added and the others without.
    #[verifier::loop_isolation(false)]
    pub fn run_backward<F: FuncIntf>(
        session: &mut Session<F>,
        var: VarId,
        gradient: TensorKind,
        retain: bool,
    ) -> (r: Result<(), GraphError>)
        requires
            old(session).wf(),
        ensures
            final(session).wf(),
            old(session)@.same_graph(final(session)@),
            match old(session)@.propagate(var, gradient@, retain) {
                Err(e) => r == Err::<(), GraphError>(e),
                Ok((records, freed)) => r is Ok && final(session)@.records == records
                    && final(session)@.freed() == freed && forall|f: int|
                    0 <= f < freed.len() && freed[f] == old(session)@.nodes[f].freed
                        ==> #[trigger] final(session)@.nodes[f] == old(session)@.nodes[f],
            },
            !in_range(var, old(session)@.records.len()) || old(session)@.records[var as
                int].data.mismatch(
                gradient@,
            ) is Some ==> final(session)@ == old(session)@,
            retain ==> final(session)@.nodes == old(session)@.nodes,
            in_range(var, old(session)@.records.len()) && old(session)@.sweep(
                old(session)@.start(var, gradient@),
                retain,
                0,
            ) is Err ==> final(session)@.records == old(session)@.records,
            all_fit(old(session)@.records) ==> all_fit(final(session)@.records),
    {
        let ghost was = session@;
        match session.arena().get(var) {
            Ok(rec) => match rec.mismatch(&gradient) {
                Some(e) => {
                    return Err(e);
                },
                None => {},
            },
            Err(e) => {
                return Err(e);
            },
        }
        let leaves = find_leaves(session);
        let count: usize = session.arena().len();
        let mut buffer: Vec<Option<TensorKind>> = Vec::new();
        let mut i: usize = 0;
        while i < count
            invariant
                i <= count,
                buffer@.len() == i,
                forall|j: int| 0 <= j < i ==> (#[trigger] buffer@[j]) is None,
            decreases count - i,
        {
            buffer.push(None);
            i += 1;
        }
        let ghost first = gradient@;
        buffer.set(var as usize, Some(gradient));
        let ghost init = was.start(var, first);
        assert(opt_kinds(buffer@) =~= init.grads);
        let mut cursor: usize = session.node_count();
        while cursor > 0
            invariant
                cursor <= was.nodes.len(),
                was.wf(),
                session.wf(),
                session@.records == was.records,
                was.same_graph(session@),
                forall|f: int| 0 <= f < cursor ==> #[trigger] session@.nodes[f] == was.nodes[f],
                forall|f: int|
                    0 <= f < was.nodes.len() && (#[trigger] session@.nodes[f]).freed
                        == was.nodes[f].freed ==> session@.nodes[f] == was.nodes[f],
                retain ==> session@.nodes == was.nodes,
                slots_fit(was.records, opt_kinds(buffer@)),
                was.sweep(init, retain, cursor as nat) == Ok::<Pass, GraphError>(
                    Pass { freed: session@.freed(), grads: opt_kinds(buffer@) },
                ),
            decreases cursor,
        {
            cursor -= 1;
            match run_node(session, &mut buffer, cursor, retain) {
                Ok(()) => {},
                Err(e) => {
                    proof {
                        was.lemma_sweep_error_stays(init, retain, cursor as nat, 0);
                        was.lemma_same_graph_wf(session@);
                    }
                    return Err(e);
                },
            }
            proof {
                was.lemma_same_graph_wf(session@);
            }
        }
        let ghost swept = Pass { freed: session@.freed(), grads: opt_kinds(buffer@) };
        let ghost nodes = session@.nodes;
        let mut v: usize = 0;
        while v < count
            invariant
                v <= count,
                count == was.records.len(),
                buffer@.len() == count,
                was.wf(),
                session.wf(),
                was.same_graph(session@),
                session@.nodes == nodes,
                swept.grads == opt_kinds(buffer@),
                session@.freed() == swept.freed,
                forall|f: int|
                    0 <= f < was.nodes.len() && (#[trigger] session@.nodes[f]).freed
                        == was.nodes[f].freed ==> session@.nodes[f] == was.nodes[f],
                leaves@ == was.leaves(),
                settle(was.records, leaves@, swept.grads, v as nat) == Ok::<
                    Seq<RecordValue>,
                    GraphError,
                >(session@.records),
                all_fit(was.records) ==> all_fit(session@.records),
            decreases count - v,
        {
            let ghost before = session@;
            match &buffer[v] {
                Some(g) => {
                    let arena = session.arena_mut();
                    match arena.at_mut(v) {
                        Some(rec) => {
                            if leaves[v] {
                                match rec.accumulate_grad(g) {
                                    Ok(()) => {},
                                    Err(e) => {
                                        proof {
                                            lemma_settle_error_stays(
                                                was.records,
                                                leaves@,
                                                swept.grads,
                                                (v + 1) as nat,
                                                count as nat,
                                            );
                                        }
                                        proof {
                                            was.lemma_same_graph_wf(session@);
                                        }
                                        return Err(e);
                                    },
                                }
                            }
                        },
                        // The buffer has one slot per record.
                        None => {},
                    }
                },
                None => {},
            }
            assert(session@.records =~= settle_one(
                before.records,
                leaves@,
                swept.grads,
                v as int,
            )->Ok_0);
            proof {
                was.lemma_same_graph_wf(session@);
            }
            v += 1;
        }
        Ok(())
    }
}

/// Whether a backward pass from a variable that names a record finds its
/// first gradient and then fails while it walks the nodes.
pub open spec fn walk_fails<F: FuncIntf>(
    s: SessionValue<F>,
    v: VarId,
    gradient: Option<KindValue>,
    retain: bool,
) -> bool {
    match start_gradient(s.records[v as int], gradient) {
        Err(_) => false,
        Ok(g) => s.sweep(s.start(v, g), retain, 0) is Err,
    }
}

/// The content of an optional value of element type `T`, as a value of some
/// kind.
pub open spec fn lifted<T: Kinded>(gradient: Option<&Tensor<T>>) -> Option<KindValue> {
    match gradient {
        Some(g) => Some(T::lift(g@)),
        None => None,
    }
}

impl<T: Kinded> Variable<T> {
    /// Computes the gradients of this variable with respect to the leaves of
    /// the graph. Fails on the handle first: see `resolve_error`. Then a
    /// volatile variable fails with `InvalidBackward`, and one that does not
    /// require a gradient with `NoGradRequired`. Without `gradient`, a scalar
    /// starts from ones and anything else fails with `ShapeMismatch`; a
    /// `gradient` of another shape than the data fails with `ShapeMismatch`.
    /// Up to here a failure changes nothing. The rest is the engine's: see
    /// `ExecutionEngine::run_backward`; a failure while it walks the nodes
    /// leaves the records as they were.
    pub fn backward_args<F: FuncIntf>(
        &self,
        session: &mut Session<F>,
        gradient: Option<&Tensor<T>>,
        retain_variables: bool,
    ) -> (r: Result<(), GraphError>)
        requires
            old(session).wf(),
        ensures
            final(session).wf(),
            old(session)@.same_graph(final(session)@),
            match resolve_error(old(session)@.records, self.id, T::kind_of()) {
                Some(e) => r == Err::<(), GraphError>(e) && final(session)@ == old(session)@,
                None => match old(session)@.backward(self.id, lifted(gradient), retain_variables) {
                    Err(e) => r == Err::<(), GraphError>(e),
                    Ok((records, freed)) => r is Ok && final(session)@.records == records
                        && final(session)@.freed() == freed && forall|f: int|
                        0 <= f < freed.len() && freed[f] == old(session)@.nodes[f].freed
                            ==> #[trigger] final(session)@.nodes[f] == old(session)@.nodes[f],
                },
            },
            resolve_error(old(session)@.records, self.id, T::kind_of()) is None && start_gradient(
                old(session)@.records[self.id as int],
                lifted(gradient),
            ) is Err ==> final(session)@ == old(session)@,
            resolve_error(old(session)@.records, self.id, T::kind_of()) is None && walk_fails(
                old(session)@,
                self.id,
                lifted(gradient),
                retain_variables,
            ) ==> final(session)@.records == old(session)@.records,
            retain_variables ==> final(session)@.nodes == old(session)@.nodes,
            all_fit(old(session)@.records) ==> all_fit(final(session)@.records),
    {
        proof {
            T::lemma_kinds();
        }
        let first = match resolve(session.arena(), self.id, T::elem_kind()) {
            Ok(parent) => {
                if parent.is_volatile() {
                    return Err(GraphError::InvalidBackward);
                }
                if !parent.requires_grad() {
                    return Err(GraphError::NoGradRequired);
                }
                match gradient {
                    Some(g) => {
                        let given = T::into_kind(g.copy());
                        match parent.mismatch(&given) {
                            Some(e) => {
                                return Err(e);
                            },
                            None => given,
                        }
                    },
                    None => {
                        if !parent.is_scalar() {
                            return Err(GraphError::ShapeMismatch);
                        }
                        parent.ones_like_data()
                    },
                }
            },
            Err(e) => {
                return Err(e);
            },
        };
        ExecutionEngine::run_backward(session, self.id, first, retain_variables)
    }

    /// `backward_args` without a gradient and without retaining the graph:
    /// it fails in the same cases and leaves the same behind.
    pub fn backward<F: FuncIntf>(&self, session: &mut Session<F>) -> (r: Result<(), GraphError>)
        requires
            old(session).wf(),
        ensures
            final(session).wf(),
            old(session)@.same_graph(final(session)@),
            match resolve_error(old(session)@.records, self.id, T::kind_of()) {
                Some(e) => r == Err::<(), GraphError>(e) && final(session)@ == old(session)@,
                None => match old(session)@.backward(self.id, None, false) {
                    Err(e) => r == Err::<(), GraphError>(e),
                    Ok((records, freed)) => r is Ok && final(session)@.records == records
                        && final(session)@.freed() == freed && forall|f: int|
                        0 <= f < freed.len() && freed[f] == old(session)@.nodes[f].freed
                            ==> #[trigger] final(session)@.nodes[f] == old(session)@.nodes[f],
                },
            },
            resolve_error(old(session)@.records, self.id, T::kind_of()) is None && start_gradient(
                old(session)@.records[self.id as int],
                None,
            ) is Err ==> final(session)@ == old(session)@,
            resolve_error(old(session)@.records, self.id, T::kind_of()) is None && walk_fails(
                old(session)@,
                self.id,
                None,
                false,
            ) ==> final(session)@.records == old(session)@.records,
            all_fit(old(session)@.records) ==> all_fit(final(session)@.records),
    {
        self.backward_args(session, None, false)
    }
}

} // verus!
