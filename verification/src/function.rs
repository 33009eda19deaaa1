use vstd::prelude::*;
use crate::arena::VarId;
use crate::error::GraphError;
use crate::tensor::{KindValue, TensorKind};

verus! {

/// The content of an optional value.
pub open spec fn opt_kind(o: Option<TensorKind>) -> Option<KindValue> {
    match o {
        Some(t) => Some(t@),
        None => None,
    }
}

/// The contents of a list of values.
pub open spec fn kinds(v: Seq<TensorKind>) -> Seq<KindValue> {
    Seq::new(v.len(), |i: int| v[i]@)
}

/// The contents of a list of optional values.
pub open spec fn opt_kinds(v: Seq<Option<TensorKind>>) -> Seq<Option<KindValue>> {
    Seq::new(v.len(), |i: int| opt_kind(v[i]))
}

/// The content of what a backward call gave.
pub open spec fn backward_outcome(r: Result<Vec<Option<TensorKind>>, GraphError>) -> Result<
    Seq<Option<KindValue>>,
    GraphError,
> {
    match r {
        Ok(v) => Ok(opt_kinds(v@)),
        Err(e) => Err(e),
    }
}

/// The content of a list of optional gradients.
pub type Gradients = Seq<Option<KindValue>>;

/// What a forward call gives: the output values, and the positions of the
/// inputs that it changed in place.
pub struct Forward {
    pub outputs: Vec<TensorKind>,
    pub dirty: Vec<usize>,
}

/// One differentiable operation. `forward` turns input values into output
/// values and may keep what `backward` will need; `backward` turns the
/// gradients of the outputs into one optional gradient per input and
/// consumes what `forward` kept for it; `backward_retained` does the same and
/// consumes nothing; `release` drops whatever is still kept.
pub trait FuncIntf: Sized {
    /// What `backward` gives for these output gradients, in the node's
    /// present state.
    open spec fn backward_spec(&self, grad_output: Gradients) -> Result<Gradients, GraphError> {
        arbitrary()
    }

    /// What `forward` promises of the node and the input values afterwards
    /// and of what it gave, for this node and these input values before:
    /// nothing, unless the node says more.
    open spec fn forward_spec(
        &self,
        input: Seq<KindValue>,
        after: Self,
        input_after: Seq<KindValue>,
        r: Result<Forward, GraphError>,
    ) -> bool {
        true
    }

    fn forward(&mut self, input: &mut Vec<TensorKind>) -> (r: Result<Forward, GraphError>)
        ensures
            final(input)@.len() == old(input)@.len(),
            old(self).forward_spec(kinds(old(input)@), *final(self), kinds(final(input)@), r),
    ;

    /// What `backward` promises of the node afterwards, for this node and
    /// these output gradients before: nothing, unless the node says more.
    open spec fn consumed(&self, grad_output: Gradients, after: Self) -> bool {
        true
    }

    /// Gives what `backward_spec` says and consumes what `forward` kept for
    /// it, so that a second call without a forward in between finds nothing.
    fn backward(&mut self, grad_output: &Vec<Option<TensorKind>>) -> (r: Result<
        Vec<Option<TensorKind>>,
        GraphError,
    >)
        ensures
            backward_outcome(r) == old(self).backward_spec(opt_kinds(grad_output@)),
            old(self).consumed(opt_kinds(grad_output@), *final(self)),
    ;

    /// Gives what `backward` would give, and leaves what `forward` kept in
    /// place: what the engine calls while the graph is retained.
    fn backward_retained(&self, grad_output: &Vec<Option<TensorKind>>) -> (r: Result<
        Vec<Option<TensorKind>>,
        GraphError,
    >)
        ensures
            backward_outcome(r) == self.backward_spec(opt_kinds(grad_output@)),
    ;

    fn release(&mut self)
    ;
}

/// The mathematical content of a function node: the operation, the
/// variables it consumed and produced, in order, and whether its saved state
/// was released.
pub ghost struct NodeValue<F> {
    pub op: F,
    pub inputs: Seq<VarId>,
    pub outputs: Seq<VarId>,
    pub freed: bool,
}

/// One recorded operation instance of the graph.
pub struct FuncNode<F> {
    pub op: F,
    pub inputs: Vec<VarId>,
    pub outputs: Vec<VarId>,
    pub freed: bool,
}

impl<F> View for FuncNode<F> {
    type V = NodeValue<F>;

    open spec fn view(&self) -> NodeValue<F> {
        NodeValue { op: self.op, inputs: self.inputs@, outputs: self.outputs@, freed: self.freed }
    }
}

} // verus!
