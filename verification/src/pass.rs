use vstd::prelude::*;
use crate::arena::{in_range, VarId};
use crate::error::GraphError;
use crate::function::{FuncIntf, NodeValue};
use crate::record::RecordValue;
use crate::tensor::KindValue;

verus! {

/// The mathematical content of a session: the variable records by identity,
/// and the function nodes by identity.
pub ghost struct SessionValue<F> {
    pub records: Seq<RecordValue>,
    pub nodes: Seq<NodeValue<F>>,
}

/// What one backward pass carries while it walks the graph: which nodes
/// have had their saved state released, and for each variable the gradient
/// that has reached it so far in this pass.
pub ghost struct Pass {
    pub freed: Seq<bool>,
    pub grads: Seq<Option<KindValue>>,
}

/// Where a function node stands while a backward pass walks the graph.
#[derive(Clone, Copy, Debug, PartialEq, Eq, Structural)]
pub enum NodeState {
    /// A node that consumes one of its outputs has not had its turn yet.
    Pending,
    /// Every node that consumes one of its outputs has had its turn.
    Ready,
    /// It has had its turn.
    Done,
}

/// The gradient slot after one more contribution: contributions add up.
pub open spec fn merged(slot: Option<KindValue>, c: KindValue) -> Option<KindValue> {
    match slot {
        None => Some(c),
        Some(g) => Some(g.plus(c)),
    }
}

/// Hands one contribution to the variable `v`. A missing contribution, or one
/// for a variable that does not require a gradient, is dropped. A
/// contribution of another element type or shape than the variable's data is
/// an error.
pub open spec fn deliver_one(
    records: Seq<RecordValue>,
    grads: Seq<Option<KindValue>>,
    v: VarId,
    c: Option<KindValue>,
) -> Result<Seq<Option<KindValue>>, GraphError> {
    match c {
        None => Ok(grads),
        Some(c) => if !records[v as int].requires_grad {
            Ok(grads)
        } else {
            match records[v as int].data.mismatch(c) {
                Some(e) => Err(e),
                None => Ok(grads.update(v as int, merged(grads[v as int], c))),
            }
        },
    }
}

/// Hands the first `upto` contributions of a node to its inputs, in order.
pub open spec fn deliver(
    records: Seq<RecordValue>,
    grads: Seq<Option<KindValue>>,
    inputs: Seq<VarId>,
    contributions: Seq<Option<KindValue>>,
    upto: nat,
) -> Result<Seq<Option<KindValue>>, GraphError>
    decreases upto,
{
    if upto == 0 {
        Ok(grads)
    } else {
        match deliver(records, grads, inputs, contributions, (upto - 1) as nat) {
            Err(e) => Err(e),
            Ok(g) => deliver_one(records, g, inputs[upto - 1], contributions[upto - 1]),
        }
    }
}

/// Whether a gradient has reached one of the variables that the node
/// produced.
pub open spec fn reached(outputs: Seq<VarId>, grads: Seq<Option<KindValue>>) -> bool {
    exists|p: int| 0 <= p < outputs.len() && (#[trigger] grads[outputs[p] as int]) is Some
}

/// The gradients of a node's outputs, in the order of the outputs.
pub open spec fn output_grads(outputs: Seq<VarId>, grads: Seq<Option<KindValue>>) -> Seq<
    Option<KindValue>,
> {
    Seq::new(outputs.len(), |p: int| grads[outputs[p] as int])
}

/// The first gradient of a backward pass from a variable with record `rec`.
/// A volatile variable fails with `InvalidBackward`, one that does not
/// require a gradient with `NoGradRequired`. Without a gradient from the
/// caller, a scalar starts from ones, and anything else fails with
/// `ShapeMismatch`. A gradient from the caller must have the data's element
/// type (`TypeMismatch`) and shape (`ShapeMismatch`).
pub open spec fn start_gradient(rec: RecordValue, gradient: Option<KindValue>) -> Result<
    KindValue,
    GraphError,
> {
    if rec.volatile {
        Err(GraphError::InvalidBackward)
    } else if !rec.requires_grad {
        Err(GraphError::NoGradRequired)
    } else {
        match gradient {
            None => if rec.data.is_scalar() {
                Ok(rec.data.ones())
            } else {
                Err(GraphError::ShapeMismatch)
            },
            Some(g) => match rec.data.mismatch(g) {
                Some(e) => Err(e),
                None => Ok(g),
            },
        }
    }
}

/// Adds the gradient that reached variable `v`, if it is a leaf, into its
/// record. `leaves` says of each variable whether it is one.
pub open spec fn settle_one(
    records: Seq<RecordValue>,
    leaves: Seq<bool>,
    grads: Seq<Option<KindValue>>,
    v: int,
) -> Result<Seq<RecordValue>, GraphError> {
    match grads[v] {
        Some(g) => if leaves[v] {
            match records[v].accumulate_error(g) {
                Some(e) => Err(e),
                None => Ok(records.update(v, records[v].accumulated(g))),
            }
        } else {
            Ok(records)
        },
        None => Ok(records),
    }
}

/// Adds what reached the leaves among the first `upto` variables into their
/// records, by rising identity.
pub open spec fn settle(
    records: Seq<RecordValue>,
    leaves: Seq<bool>,
    grads: Seq<Option<KindValue>>,
    upto: nat,
) -> Result<Seq<RecordValue>, GraphError>
    decreases upto,
{
    if upto == 0 {
        Ok(records)
    } else {
        match settle(records, leaves, grads, (upto - 1) as nat) {
            Err(e) => Err(e),
            Ok(r) => settle_one(r, leaves, grads, upto - 1),
        }
    }
}

impl<F: FuncIntf> SessionValue<F> {
    /// Every node names existing variables; a node that consumes a variable
    /// was recorded after the node that produced it; and no variable was
    /// produced twice.
    pub open spec fn wf(self) -> bool {
        &&& forall|f: int, p: int|
            0 <= f < self.nodes.len() && 0 <= p < self.nodes[f].inputs.len() ==> in_range(
                #[trigger] self.nodes[f].inputs[p],
                self.records.len(),
            )
        &&& forall|f: int, p: int|
            0 <= f < self.nodes.len() && 0 <= p < self.nodes[f].outputs.len() ==> in_range(
                #[trigger] self.nodes[f].outputs[p],
                self.records.len(),
            )
        &&& forall|f: int, p: int, c: int, q: int|
            0 <= f < self.nodes.len() && 0 <= p < self.nodes[f].outputs.len() && 0 <= c
                < self.nodes.len() && 0 <= q < self.nodes[c].inputs.len()
                && #[trigger] self.nodes[f].outputs[p] == #[trigger] self.nodes[c].inputs[q]
                ==> f < c
        &&& forall|f: int, p: int, c: int, q: int|
            0 <= f < self.nodes.len() && 0 <= p < self.nodes[f].outputs.len() && 0 <= c
                < self.nodes.len() && 0 <= q < self.nodes[c].outputs.len()
                && #[trigger] self.nodes[f].outputs[p] == #[trigger] self.nodes[c].outputs[q]
                ==> f == c && p == q
    }

    /// Whether a node of the session produced the variable `v`.
    pub open spec fn produced(self, v: int) -> bool {
        exists|f: int, p: int|
            0 <= f < self.nodes.len() && 0 <= p < self.nodes[f].outputs.len()
                && #[trigger] self.nodes[f].outputs[p] == v
    }

    /// Whether one of the nodes before `f`, or node `f` at an output
    /// before position `p`, produced the variable `v`.
    pub open spec fn produced_before(self, v: int, f: int, p: int) -> bool {
        exists|g: int, q: int|
            0 <= g < self.nodes.len() && 0 <= q < self.nodes[g].outputs.len() && (g < f || (g
                == f && q < p)) && #[trigger] self.nodes[g].outputs[q] == v
    }

    /// Which variables are leaves: those that no node of the session
    /// produced. What a record says of its producer does not count here: a
    /// variable that claims a producer which does not list it is a leaf, and
    /// takes its gradient like any other.
    pub open spec fn leaves(self) -> Seq<bool> {
        Seq::new(self.records.len(), |v: int| !self.produced(v))
    }

    /// Which nodes have had their saved state released.
    pub open spec fn freed(self) -> Seq<bool> {
        Seq::new(self.nodes.len(), |f: int| self.nodes[f].freed)
    }

    /// The pass as it starts: nothing has reached any variable but the
    /// first gradient `g` at variable `v`.
    pub open spec fn start(self, v: VarId, g: KindValue) -> Pass {
        Pass {
            freed: self.freed(),
            grads: Seq::new(self.records.len(), |i: int| None::<KindValue>).update(
                v as int,
                Some(g),
            ),
        }
    }

    /// The pass after node `f` had its turn. A node that no gradient has
    /// reached is passed over. A reached node whose saved state was released
    /// fails with `GraphAlreadyFreed`. Otherwise its backward, which uses
    /// up what the node saved unless the graph is retained, turns the
    /// gradients of its outputs into contributions, one per input
    /// (`ShapeMismatch` if their number differs), which are handed to the
    /// inputs; unless the graph is retained, the node is then released.
    pub open spec fn step(self, pass: Pass, f: int, retain: bool) -> Result<Pass, GraphError> {
        let node = self.nodes[f];
        if !reached(node.outputs, pass.grads) {
            Ok(pass)
        } else if pass.freed[f] {
            Err(GraphError::GraphAlreadyFreed)
        } else {
            match node.op.backward_spec(output_grads(node.outputs, pass.grads)) {
                Err(e) => Err(e),
                Ok(contributions) => if contributions.len() != node.inputs.len() {
                    Err(GraphError::ShapeMismatch)
                } else {
                    match deliver(
                        self.records,
                        pass.grads,
                        node.inputs,
                        contributions,
                        node.inputs.len(),
                    ) {
                        Err(e) => Err(e),
                        Ok(g) => Ok(
                            Pass {
                                freed: if retain {
                                    pass.freed
                                } else {
                                    pass.freed.update(f, true)
                                },
                                grads: g,
                            },
                        ),
                    }
                },
            }
        }
    }

    /// The pass after every node with identity `cursor` or more had its
    /// turn, the latest node first. Since a node is recorded after the nodes
    /// that produced what it consumes, every consumer of a variable has had
    /// its turn before the variable's producer gets its own.
    pub open spec fn sweep(self, init: Pass, retain: bool, cursor: nat) -> Result<Pass, GraphError>
        decreases self.nodes.len() - cursor,
    {
        if cursor >= self.nodes.len() {
            Ok(init)
        } else {
            match self.sweep(init, retain, cursor + 1) {
                Err(e) => Err(e),
                Ok(p) => self.step(p, cursor as int, retain),
            }
        }
    }

    /// Whether node `c` consumes something that node `f` produced.
    pub open spec fn consumes(self, c: int, f: int) -> bool {
        exists|p: int, q: int|
            0 <= p < self.nodes[f].outputs.len() && 0 <= q < self.nodes[c].inputs.len()
                && #[trigger] self.nodes[f].outputs[p] == #[trigger] self.nodes[c].inputs[q]
    }

    /// Where node `f` stands when the walk has given every node with
    /// identity `cursor` or more its turn.
    pub open spec fn state(self, cursor: nat, f: int) -> NodeState {
        if f >= cursor {
            NodeState::Done
        } else if forall|c: int| 0 <= c < cursor && #[trigger] self.consumes(c, f) ==> false {
            NodeState::Ready
        } else {
            NodeState::Pending
        }
    }

    /// What node `c` contributes to its input at position `q` in the walk
    /// from `init`: what its backward gives there for the gradients that have
    /// reached its outputs when its turn comes.
    pub open spec fn contribution(self, init: Pass, retain: bool, c: int, q: int) -> Option<
        KindValue,
    > {
        let before = self.sweep(init, retain, (c + 1) as nat)->Ok_0;
        self.nodes[c].op.backward_spec(output_grads(self.nodes[c].outputs, before.grads))->Ok_0[q]
    }

    /// Whether a gradient has reached node `c` when its turn comes in the
    /// walk from `init`.
    pub open spec fn runs(self, init: Pass, retain: bool, c: int) -> bool {
        reached(self.nodes[c].outputs, self.sweep(init, retain, (c + 1) as nat)->Ok_0.grads)
    }

    /// What walking the graph backward from variable `v` with first gradient
    /// `g` gives: the records and the released nodes afterwards, or the error
    /// it fails with. `v` must name a record (`OutOfRangeIdentity`) and `g`
    /// must have its data's element type (`TypeMismatch`) and shape
    /// (`ShapeMismatch`). Then every node gets its turn, the latest first,
    /// and at last the leaves take what reached them.
    pub open spec fn propagate(self, v: VarId, g: KindValue, retain: bool) -> Result<
        (Seq<RecordValue>, Seq<bool>),
        GraphError,
    > {
        if !in_range(v, self.records.len()) {
            Err(GraphError::OutOfRangeIdentity)
        } else {
            match self.records[v as int].data.mismatch(g) {
                Some(e) => Err(e),
                None => match self.sweep(self.start(v, g), retain, 0) {
                    Err(e) => Err(e),
                    Ok(p) => match settle(
                        self.records,
                        self.leaves(),
                        p.grads,
                        self.records.len(),
                    ) {
                        Err(e) => Err(e),
                        Ok(r) => Ok((r, p.freed)),
                    },
                },
            }
        }
    }

    /// What a backward pass from variable `v` gives: the records and the
    /// released nodes afterwards, or the error it fails with. See
    /// `start_gradient` for the first gradient and `propagate` for the rest.
    pub open spec fn backward(self, v: VarId, gradient: Option<KindValue>, retain: bool) -> Result<
        (Seq<RecordValue>, Seq<bool>),
        GraphError,
    > {
        if !in_range(v, self.records.len()) {
            Err(GraphError::OutOfRangeIdentity)
        } else {
            match start_gradient(self.records[v as int], gradient) {
                Err(e) => Err(e),
                Ok(g) => self.propagate(v, g, retain),
            }
        }
    }

    /// The two sessions have the same graph: as many records, and the same
    /// nodes as far as their inputs and outputs go.
    pub open spec fn same_graph(self, other: SessionValue<F>) -> bool {
        &&& self.records.len() == other.records.len()
        &&& self.nodes.len() == other.nodes.len()
        &&& forall|f: int|
            0 <= f < self.nodes.len() ==> (#[trigger] self.nodes[f]).inputs
                == other.nodes[f].inputs && self.nodes[f].outputs == other.nodes[f].outputs
    }

    /// A well-formed graph stays well formed while its shape stays.
    pub proof fn lemma_same_graph_wf(self, other: SessionValue<F>)
        requires
            self.wf(),
            self.same_graph(other),
        ensures
            other.wf(),
    {
        assert forall|f: int, p: int|
            0 <= f < other.nodes.len() && 0 <= p < other.nodes[f].inputs.len() implies in_range(
            #[trigger] other.nodes[f].inputs[p],
            other.records.len(),
        ) by {
            assert(in_range(self.nodes[f].inputs[p], self.records.len()));
        }
        assert forall|f: int, p: int|
            0 <= f < other.nodes.len() && 0 <= p < other.nodes[f].outputs.len() implies in_range(
            #[trigger] other.nodes[f].outputs[p],
            other.records.len(),
        ) by {
            assert(in_range(self.nodes[f].outputs[p], self.records.len()));
        }
        assert forall|f: int, p: int, c: int, q: int|
            0 <= f < other.nodes.len() && 0 <= p < other.nodes[f].outputs.len() && 0 <= c
                < other.nodes.len() && 0 <= q < other.nodes[c].inputs.len()
                && #[trigger] other.nodes[f].outputs[p] == #[trigger] other.nodes[c].inputs[q]
                implies f < c by {
            assert(self.nodes[f].outputs[p] == self.nodes[c].inputs[q]);
        }
        assert forall|f: int, p: int, c: int, q: int|
            0 <= f < other.nodes.len() && 0 <= p < other.nodes[f].outputs.len() && 0 <= c
                < other.nodes.len() && 0 <= q < other.nodes[c].outputs.len()
                && #[trigger] other.nodes[f].outputs[p] == #[trigger] other.nodes[c].outputs[q]
                implies f == c && p == q by {
            assert(self.nodes[f].outputs[p] == self.nodes[c].outputs[q]);
        }
    }

    /// Once the walk has failed, the turns of earlier nodes change nothing.
    pub proof fn lemma_sweep_error_stays(self, init: Pass, retain: bool, cursor: nat, below: nat)
        requires
            below <= cursor,
            self.sweep(init, retain, cursor) is Err,
        ensures
            self.sweep(init, retain, below) == self.sweep(init, retain, cursor),
        decreases cursor - below,
    {
        if below < cursor {
            self.lemma_sweep_error_stays(init, retain, cursor, below + 1);
        }
    }
}

/// Every gradient on its way has the element type and shape of the data of
/// the variable it is for.
pub open spec fn slots_fit(records: Seq<RecordValue>, grads: Seq<Option<KindValue>>) -> bool {
    &&& grads.len() == records.len()
    &&& forall|v: int|
        0 <= v < grads.len() && (#[trigger] grads[v]) is Some ==> records[v].data.like(
            grads[v]->Some_0,
        )
}

/// Once handing out contributions has failed, further ones change nothing.
pub proof fn lemma_deliver_error_stays(
    records: Seq<RecordValue>,
    grads: Seq<Option<KindValue>>,
    inputs: Seq<VarId>,
    contributions: Seq<Option<KindValue>>,
    upto: nat,
    more: nat,
)
    requires
        upto <= more,
        deliver(records, grads, inputs, contributions, upto) is Err,
    ensures
        deliver(records, grads, inputs, contributions, more) == deliver(
            records,
            grads,
            inputs,
            contributions,
            upto,
        ),
    decreases more,
{
    if more > upto {
        lemma_deliver_error_stays(records, grads, inputs, contributions, upto, (more - 1) as nat);
    }
}

/// Once settling has failed, further variables change nothing.
pub proof fn lemma_settle_error_stays(
    records: Seq<RecordValue>,
    leaves: Seq<bool>,
    grads: Seq<Option<KindValue>>,
    upto: nat,
    more: nat,
)
    requires
        upto <= more,
        settle(records, leaves, grads, upto) is Err,
    ensures
        settle(records, leaves, grads, more) == settle(records, leaves, grads, upto),
    decreases more,
{
    if more > upto {
        lemma_settle_error_stays(records, leaves, grads, upto, (more - 1) as nat);
    }
}

} // verus!
