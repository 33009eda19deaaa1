use vstd::prelude::*;
use crate::error::GraphError;
use crate::float::{Float32, Float64, HALF_BITS_64};
use crate::function::{
    backward_outcome, kinds, opt_kind, opt_kinds, Forward, FuncIntf, Gradients,
};
use crate::tensor::{
    lemma_numel_step, lemma_numel_zero_dim, numel, Element, KindValue, Tensor, TensorKind,
    TensorValue,
};

verus! {

/// How a dropout node works: the probability `p` with which a cell is
/// zeroed, whether the node is training (else it passes its input through),
/// and whether it overwrites its input.
#[derive(Clone, Copy, Debug)]
pub struct DropoutArgs {
    pub p: Float64,
    pub training: bool,
    pub inplace: bool,
}

impl DropoutArgs {
    /// What a dropout node works with when nothing else is said: `p` is 0.5,
    /// not training, not in place.
    pub open spec fn default_args() -> DropoutArgs {
        DropoutArgs { p: Float64 { bits: HALF_BITS_64 }, training: false, inplace: false }
    }

    /// Whether the node masks at all: only when training with `p` above
    /// zero.
    pub open spec fn active(self) -> bool {
        self.p.positive() && self.training
    }

    /// Whether the node masks at all.
    pub fn is_active(&self) -> (b: bool)
        ensures
            b == self.active(),
    {
        self.p.is_positive() && self.training
    }

    /// The probability with which a cell is kept, one minus `p`, as the
    /// elements have it.
    pub open spec fn keep_value(self) -> Float32 {
        self.p.complement_value().narrowed_value()
    }

    /// Starts a configuration from the defaults.
    pub fn build() -> (b: DropoutArgsBuilder)
        ensures
            b.built() == DropoutArgs::default_args(),
    {
        DropoutArgsBuilder { p: None, training: None, inplace: None }
    }
}

impl Default for DropoutArgs {
    fn default() -> (r: DropoutArgs)
        ensures
            r == DropoutArgs::default_args(),
    {
        DropoutArgs { p: Float64 { bits: HALF_BITS_64 }, training: false, inplace: false }
    }
}

/// A dropout configuration in the making: what was set so far.
pub struct DropoutArgsBuilder {
    pub p: Option<Float64>,
    pub training: Option<bool>,
    pub inplace: Option<bool>,
}

impl DropoutArgsBuilder {
    /// The configuration as it stands: what was set, and the defaults for
    /// the rest.
    pub open spec fn built(self) -> DropoutArgs {
        DropoutArgs {
            p: match self.p {
                Some(p) => p,
                None => DropoutArgs::default_args().p,
            },
            training: match self.training {
                Some(t) => t,
                None => false,
            },
            inplace: match self.inplace {
                Some(i) => i,
                None => false,
            },
        }
    }

    /// Sets the probability with which a cell is zeroed.
    pub fn p(self, value: Float64) -> (b: DropoutArgsBuilder)
        ensures
            b == (DropoutArgsBuilder { p: Some(value), ..self }),
    {
        DropoutArgsBuilder { p: Some(value), training: self.training, inplace: self.inplace }
    }

    /// Sets whether the node is training.
    pub fn training(self, value: bool) -> (b: DropoutArgsBuilder)
        ensures
            b == (DropoutArgsBuilder { training: Some(value), ..self }),
    {
        DropoutArgsBuilder { p: self.p, training: Some(value), inplace: self.inplace }
    }

    /// Sets whether the node overwrites its input.
    pub fn inplace(self, value: bool) -> (b: DropoutArgsBuilder)
        ensures
            b == (DropoutArgsBuilder { inplace: Some(value), ..self }),
    {
        DropoutArgsBuilder { p: self.p, training: self.training, inplace: Some(value) }
    }

    /// The finished configuration.
    pub fn done(self) -> (r: DropoutArgs)
        ensures
            r == self.built(),
    {
        DropoutArgs {
            p: match self.p {
                Some(p) => p,
                None => Float64 { bits: HALF_BITS_64 },
            },
            training: match self.training {
                Some(t) => t,
                None => false,
            },
            inplace: match self.inplace {
                Some(i) => i,
                None => false,
            },
        }
    }
}

/// The value of one cell of the noise: one over the keep probability where
/// the cell is kept, zero over it where the cell is dropped.
pub open spec fn noise_cell(kept: bool, keep: Float32) -> Float32 {
    if kept {
        Float32::one_value().quotient(keep)
    } else {
        Float32::zero_value().quotient(keep)
    }
}

/// The noise spread over `len` elements: each run of `inner` elements shares
/// one cell.
pub open spec fn spread(flags: Seq<bool>, keep: Float32, inner: nat, len: nat) -> Seq<Float32> {
    Seq::new(len, |i: int| noise_cell(flags[i / (inner as int)], keep))
}

/// Whether the cells `flags` cover `len` elements in runs of `inner`.
pub open spec fn covers(cells: nat, inner: nat, len: nat) -> bool {
    inner > 0 && (len > 0 ==> (len - 1) / (inner as int) < cells)
}

/// The noise for `input` from the drawn `flags`, and the masked output:
/// noise and output have the input's shape, each noise element is the cell
/// of its run, and each output element is the input's times the noise's.
/// Fails with `ShapeMismatch` exactly when the cells do not cover the input.
pub fn masked(input: &Tensor<Float32>, flags: &Vec<bool>, keep: Float32, inner: usize) -> (r:
    Result<(Tensor<Float32>, Tensor<Float32>), GraphError>)
    ensures
        covers(flags@.len(), inner as nat, input@.data.len()) ==> r is Ok && r->Ok_0.0@ == (
        TensorValue {
            shape: input@.shape,
            data: spread(flags@, keep, inner as nat, input@.data.len()),
        }) && r->Ok_0.1@ == input@.times(r->Ok_0.0@),
        !covers(flags@.len(), inner as nat, input@.data.len()) ==> r is Err && r->Err_0
            == GraphError::ShapeMismatch,
{
    let len: usize = input.len();
    if inner == 0 {
        return Err(GraphError::ShapeMismatch);
    }
    if len > 0 && (len - 1) / inner >= flags.len() {
        return Err(GraphError::ShapeMismatch);
    }
    let one = Float32::one().divided_by(keep);
    let zero = Float32::zero().divided_by(keep);
    let elems = input.elems();
    let mut noise: Vec<Float32> = Vec::new();
    let mut output: Vec<Float32> = Vec::new();
    let mut i: usize = 0;
    while i < len
        invariant
            i <= len,
            len == input@.data.len(),
            elems@ == input@.data,
            inner > 0,
            len > 0 ==> (len - 1) / (inner as int) < flags@.len(),
            one == noise_cell(true, keep),
            zero == noise_cell(false, keep),
            noise@ == spread(flags@, keep, inner as nat, i as nat),
            output@ == Seq::new(
                i as nat,
                |j: int| Float32::product(input@.data[j], noise@[j]),
            ),
        decreases len - i,
    {
        let cell: usize = i / inner;
        assert(cell <= (len - 1) / (inner as int)) by (nonlinear_arith)
            requires
                cell == i / inner,
                i <= len - 1,
                inner > 0,
        ;
        let value = if flags[cell] {
            one
        } else {
            zero
        };
        noise.push(value);
        output.push(elems[i].times(value));
        i += 1;
    }
    let noise_tensor = match input.with_elems(noise) {
        Ok(t) => t,
        Err(e) => {
            return Err(e);
        },
    };
    let output_tensor = match input.with_elems(output) {
        Ok(t) => t,
        Err(e) => {
            return Err(e);
        },
    };
    Ok((noise_tensor, output_tensor))
}

/// Calls `rand::random::<u32>()`, which draws a word from the thread's
/// random number generator. Nothing is claimed of the word that comes back.
#[verifier::external_body]
fn random_word() -> u32 {
    rand::random::<u32>()
}

/// Whether a cell is kept, given the word drawn for it: the words below
/// `threshold` keep, so that of the two to the power 32 words exactly
/// `threshold` do, or all of them.
pub fn keep_flag(word: u32, threshold: u64) -> (kept: bool)
    ensures
        kept == (word < threshold),
{
    (word as u64) < threshold
}

/// Draws one flag per cell: each cell is kept when its word is below
/// `threshold`. Which cells are kept is left to chance.
fn draw_flags(cells: usize, threshold: u64) -> (flags: Vec<bool>)
    ensures
        flags@.len() == cells,
{
    let mut flags: Vec<bool> = Vec::new();
    let mut i: usize = 0;
    while i < cells
        invariant
            i <= cells,
            flags@.len() == i,
        decreases cells - i,
    {
        flags.push(keep_flag(random_word(), threshold));
        i += 1;
    }
    flags
}

/// How the noise lies over an input: the number of noise cells, and the
/// number of neighbouring elements that share one cell.
#[derive(Clone, Copy, Debug)]
pub struct NoiseLayout {
    pub cells: usize,
    pub inner: usize,
}

/// What tells the dropout nodes apart: how their noise lies over the input.
pub trait Noise {
    /// The layout for an input of the given shape: cells and run length.
    /// `None` where the node does not take such an input.
    spec fn layout(shape: Seq<usize>) -> Option<(nat, nat)>;

    /// The layout of the noise for `input`; `ShapeMismatch` where the node
    /// does not take an input of this shape.
    fn make_noise(&self, input: &Tensor<Float32>) -> (r: Result<NoiseLayout, GraphError>)
        ensures
            match Self::layout(input@.shape) {
                Some((cells, inner)) => r is Ok && r->Ok_0.cells == cells && r->Ok_0.inner == inner
                    && covers(cells, inner, input@.data.len()),
                None => r is Err && r->Err_0 == GraphError::ShapeMismatch,
            },
    ;
}

/// The input values after a forward call that may have overwritten the
/// first.
pub open spec fn overwritten(input: Seq<KindValue>, inplace: bool, output: KindValue) -> Seq<
    KindValue,
> {
    if inplace {
        input.update(0, output)
    } else {
        input
    }
}

/// What the forward of a dropout node gives for the flags that were drawn:
/// the noise and the output, or the output alone where the node does not
/// mask. An input list without a first value fails with `ShapeMismatch`. A
/// node that does not mask gives a copy of the input. A node that masks
/// takes float values only (`TypeMismatch`), covered by the flags
/// (`ShapeMismatch`).
pub open spec fn forward_result(
    input: Seq<KindValue>,
    args: DropoutArgs,
    flags: Seq<bool>,
    inner: nat,
) -> Result<Seq<KindValue>, GraphError> {
    if input.len() == 0 {
        Err(GraphError::ShapeMismatch)
    } else if !args.active() {
        Ok(seq![input[0]])
    } else {
        match input[0] {
            KindValue::Long(_) => Err(GraphError::TypeMismatch),
            KindValue::Float(x) => if !covers(flags.len(), inner, x.data.len()) {
                Err(GraphError::ShapeMismatch)
            } else {
                let noise = TensorValue {
                    shape: x.shape,
                    data: spread(flags, args.keep_value(), inner, x.data.len()),
                };
                Ok(seq![KindValue::Float(noise), KindValue::Float(x.times(noise))])
            },
        }
    }
}

/// The forward of a dropout node, given the flags that were drawn: see
/// `forward_result`. Where the node works in place and the call succeeds,
/// the first input holds the output afterwards; nothing else changes.
pub fn dropout_forward(
    input: &mut Vec<TensorKind>,
    args: &DropoutArgs,
    flags: &Vec<bool>,
    inner: usize,
) -> (r: Result<Vec<TensorKind>, GraphError>)
    ensures
        match forward_result(kinds(old(input)@), *args, flags@, inner as nat) {
            Err(e) => r is Err && r->Err_0 == e && kinds(final(input)@) == kinds(old(input)@),
            Ok(out) => r is Ok && kinds(r->Ok_0@) == out && kinds(final(input)@) == overwritten(
                kinds(old(input)@),
                args.inplace,
                out.last(),
            ),
        },
        final(input)@.len() == old(input)@.len(),
{
    if input.len() == 0 {
        return Err(GraphError::ShapeMismatch);
    }
    if !args.is_active() {
        let output = input[0].copy();
        let mut r: Vec<TensorKind> = Vec::new();
        r.push(output);
        return Ok(r);
    }
    let keep = args.p.complement().narrowed();
    let pair = match &input[0] {
        TensorKind::LongTensor(_) => {
            return Err(GraphError::TypeMismatch);
        },
        TensorKind::FloatTensor(x) => masked(x, flags, keep, inner),
    };
    match pair {
        Err(e) => Err(e),
        Ok((noise, output)) => {
            if args.inplace {
                input.set(0, TensorKind::FloatTensor(output.copy()));
            }
            let mut r: Vec<TensorKind> = Vec::new();
            r.push(TensorKind::FloatTensor(noise));
            r.push(TensorKind::FloatTensor(output));
            Ok(r)
        },
    }
}

/// What the backward of a dropout node gives, with the noise it saved
/// first, if any. A list without a first gradient fails with
/// `ShapeMismatch`. A node that does not mask hands back what came. A node
/// that masks needs its noise (`GraphAlreadyFreed` without it); it gives no
/// gradient where none came, else the gradient times the noise, which must
/// be of the gradient's element type (`TypeMismatch`) and shape
/// (`ShapeMismatch`).
pub open spec fn backward_result(
    grad_output: Gradients,
    args: DropoutArgs,
    noise: Option<KindValue>,
) -> Result<Gradients, GraphError> {
    if grad_output.len() == 0 {
        Err(GraphError::ShapeMismatch)
    } else if !args.active() {
        Ok(seq![grad_output[0]])
    } else {
        match noise {
            None => Err(GraphError::GraphAlreadyFreed),
            Some(n) => match grad_output[0] {
                None => Ok(seq![None]),
                Some(g) => match g.mismatch(n) {
                    Some(e) => Err(e),
                    None => Ok(seq![Some(g.times(n))]),
                },
            },
        }
    }
}

/// What a dropout node has saved after a backward call: a node that masks
/// has used up the noise it saved first, whether the call succeeded or not;
/// nothing is used up by a node that does not mask, nor by a call without a
/// first gradient.
pub open spec fn saved_after_backward(
    saved: Seq<KindValue>,
    args: DropoutArgs,
    grad_output: Gradients,
) -> Seq<KindValue> {
    if grad_output.len() > 0 && args.active() && saved.len() > 0 {
        saved.skip(1)
    } else {
        saved
    }
}

/// The backward of a dropout node, given the noise it saved first: see
/// `backward_result`.
pub fn dropout_backward(
    grad_output: &Vec<Option<TensorKind>>,
    args: &DropoutArgs,
    noise: Option<&TensorKind>,
) -> (r: Result<Vec<Option<TensorKind>>, GraphError>)
    ensures
        backward_outcome(r) == backward_result(
            opt_kinds(grad_output@),
            *args,
            match noise {
                Some(n) => Some(n@),
                None => None,
            },
        ),
{
    if grad_output.len() == 0 {
        return Err(GraphError::ShapeMismatch);
    }
    assert(opt_kinds(grad_output@)[0] == opt_kind(grad_output@[0]));
    let mut r: Vec<Option<TensorKind>> = Vec::new();
    if !args.is_active() {
        match &grad_output[0] {
            None => {
                r.push(None);
            },
            Some(g) => {
                r.push(Some(g.copy()));
            },
        }
        assert(opt_kinds(r@) =~= seq![opt_kinds(grad_output@)[0]]);
        return Ok(r);
    }
    let mask = match noise {
        None => {
            return Err(GraphError::GraphAlreadyFreed);
        },
        Some(n) => n,
    };
    match &grad_output[0] {
        None => {
            r.push(None);
            assert(opt_kinds(r@) =~= seq![None::<KindValue>]);
            Ok(r)
        },
        Some(g) => match g.mul(mask) {
            Ok(t) => {
                let ghost product = t@;
                r.push(Some(t));
                assert(opt_kinds(r@) =~= seq![Some(product)]);
                Ok(r)
            },
            Err(e) => Err(e),
        },
    }
}

/// The backward of a dropout node that uses up the noise it saved first:
/// see `backward_result` for what it gives and `saved_after_backward` for
/// what is left.
fn consuming_backward(
    args: &DropoutArgs,
    saved: &mut Vec<TensorKind>,
    grad_output: &Vec<Option<TensorKind>>,
) -> (r: Result<Vec<Option<TensorKind>>, GraphError>)
    ensures
        backward_outcome(r) == backward_result(
            opt_kinds(grad_output@),
            *args,
            first_saved(old(saved)@),
        ),
        kinds(final(saved)@) == saved_after_backward(
            kinds(old(saved)@),
            *args,
            opt_kinds(grad_output@),
        ),
{
    if grad_output.len() > 0 && args.is_active() && saved.len() > 0 {
        let noise = saved.remove(0);
        assert(kinds(saved@) =~= kinds(old(saved)@).skip(1));
        dropout_backward(grad_output, args, Some(&noise))
    } else {
        dropout_backward(grad_output, args, None)
    }
}

/// What the forward of a dropout node of kind `N` fails with, whatever is
/// drawn, if it fails.
pub open spec fn forward_error<N: Noise>(input: Seq<KindValue>, args: DropoutArgs) -> Option<
    GraphError,
> {
    if input.len() == 0 {
        Some(GraphError::ShapeMismatch)
    } else if !args.active() {
        None
    } else {
        match input[0] {
            KindValue::Long(_) => Some(GraphError::TypeMismatch),
            KindValue::Float(x) => match N::layout(x.shape) {
                None => Some(GraphError::ShapeMismatch),
                Some(_) => None,
            },
        }
    }
}

/// The run length of the noise of a node of kind `N` over the first input.
pub open spec fn run_length<N: Noise>(input: Seq<KindValue>) -> nat {
    match input[0] {
        KindValue::Float(x) => match N::layout(x.shape) {
            Some((_, inner)) => inner,
            None => 1,
        },
        KindValue::Long(_) => 1,
    }
}

/// What holds after the forward of a dropout node of kind `N`. It fails
/// exactly as `forward_error` says, and then nothing has changed. Otherwise
/// there are flags, one per noise cell, for which `forward_result` gives what
/// happened: the output is handed back, the noise, if the node masks, is
/// saved behind what was saved before, the first input holds the output if
/// the node works in place, and is then reported as changed in place.
pub open spec fn forward_post<N: Noise>(
    args: DropoutArgs,
    saved_before: Seq<KindValue>,
    input_before: Seq<KindValue>,
    saved_after: Seq<KindValue>,
    input_after: Seq<KindValue>,
    r: Result<Forward, GraphError>,
) -> bool {
    match forward_error::<N>(input_before, args) {
        Some(e) => r is Err && r->Err_0 == e && saved_after == saved_before && input_after
            == input_before,
        None => r is Ok && exists|flags: Seq<bool>| #[trigger]
            forward_result(input_before, args, flags, run_length::<N>(input_before)) is Ok && {
                let out = forward_result(
                    input_before,
                    args,
                    flags,
                    run_length::<N>(input_before),
                )->Ok_0;
                &&& kinds(r->Ok_0.outputs@) == seq![out.last()]
                &&& input_after == overwritten(input_before, args.inplace, out.last())
                &&& saved_after == if args.active() {
                    saved_before.push(out[0])
                } else {
                    saved_before
                }
                &&& r->Ok_0.dirty@ == if args.inplace {
                    seq![0usize]
                } else {
                    Seq::<usize>::empty()
                }
            },
    }
}

/// The layout of the noise over the first input, where the node masks and
/// that input is a float value.
fn plan<N: Noise>(node: &N, input: &Vec<TensorKind>, args: &DropoutArgs) -> (r: Result<
    NoiseLayout,
    GraphError,
>)
    ensures
        match forward_error::<N>(kinds(input@), *args) {
            Some(e) => input@.len() > 0 && args.active() && kinds(input@)[0] is Float ==> r is Err
                && r->Err_0 == e,
            None => r is Ok && (args.active() ==> r->Ok_0.inner == run_length::<N>(kinds(input@))
                && covers(
                r->Ok_0.cells as nat,
                r->Ok_0.inner as nat,
                kinds(input@)[0]->Float_0.data.len(),
            )),
        },
{
    if input.len() == 0 || !args.is_active() {
        return Ok(NoiseLayout { cells: 0, inner: 1 });
    }
    match &input[0] {
        TensorKind::FloatTensor(x) => node.make_noise(x),
        TensorKind::LongTensor(_) => Ok(NoiseLayout { cells: 0, inner: 1 }),
    }
}

/// The forward of a dropout node with the given layout of its noise: draws
/// the flags, masks, and saves the noise.
fn finish<N: Noise>(
    args: &DropoutArgs,
    saved: &mut Vec<TensorKind>,
    input: &mut Vec<TensorKind>,
    layout: Result<NoiseLayout, GraphError>,
) -> (r: Result<Forward, GraphError>)
    requires
        match forward_error::<N>(kinds(old(input)@), *args) {
            Some(e) => old(input)@.len() > 0 && args.active() && kinds(old(input)@)[0] is Float
                ==> layout is Err && layout->Err_0 == e,
            None => layout is Ok && (args.active() ==> layout->Ok_0.inner == run_length::<N>(
                kinds(old(input)@),
            ) && covers(
                layout->Ok_0.cells as nat,
                layout->Ok_0.inner as nat,
                kinds(old(input)@)[0]->Float_0.data.len(),
            )),
        },
    ensures
        final(input)@.len() == old(input)@.len(),
        forward_post::<N>(
            *args,
            kinds(old(saved)@),
            kinds(old(input)@),
            kinds(final(saved)@),
            kinds(final(input)@),
            r,
        ),
{
    let found = match layout {
        Ok(found) => found,
        Err(e) => {
            if input.len() > 0 && args.is_active() {
                match &input[0] {
                    TensorKind::FloatTensor(_) => {
                        return Err(e);
                    },
                    TensorKind::LongTensor(_) => {},
                }
            }
            NoiseLayout { cells: 0, inner: 1 }
        },
    };
    let flags = if args.is_active() {
        draw_flags(found.cells, args.p.complement().threshold())
    } else {
        Vec::new()
    };
    let ghost inner = run_length::<N>(kinds(input@));
    assert(forward_result(kinds(input@), *args, flags@, found.inner as nat) == forward_result(
        kinds(input@),
        *args,
        flags@,
        inner,
    ));
    let mut result = match dropout_forward(input, args, &flags, found.inner) {
        Ok(result) => result,
        Err(e) => {
            return Err(e);
        },
    };
    let ghost out = kinds(result@);
    if args.is_active() {
        let noise = result.remove(0);
        let ghost before = saved@;
        saved.push(noise);
        assert(kinds(saved@) =~= kinds(before).push(out[0]));
    }
    assert(kinds(result@) =~= seq![out.last()]);
    let mut dirty: Vec<usize> = Vec::new();
    if args.inplace {
        dirty.push(0);
    }
    let r = Forward { outputs: result, dirty };
    Ok(r)
}

/// A dropout node whose noise has one cell per element.
pub struct Dropout1d {
    pub args: DropoutArgs,
    pub saved_tensors: Vec<TensorKind>,
}

/// A dropout node whose noise has one cell per channel: for an input of
/// shape `[n, c, ..]`, `n` times `c` cells, each over a whole feature map.
pub struct Dropout2d {
    pub args: DropoutArgs,
    pub saved_tensors: Vec<TensorKind>,
}

/// The noise that a node saved first, if it saved any.
pub open spec fn first_saved(saved: Seq<TensorKind>) -> Option<KindValue> {
    if saved.len() > 0 {
        Some(saved[0]@)
    } else {
        None
    }
}

/// The noise that a node saved first, if it saved any.
fn first_noise(saved: &Vec<TensorKind>) -> (r: Option<&TensorKind>)
    ensures
        match r {
            Some(n) => first_saved(saved@) == Some(n@),
            None => first_saved(saved@) is None,
        },
{
    if saved.len() > 0 {
        Some(&saved[0])
    } else {
        None
    }
}

impl Noise for Dropout1d {
    open spec fn layout(shape: Seq<usize>) -> Option<(nat, nat)> {
        Some((numel(shape), 1))
    }

    fn make_noise(&self, input: &Tensor<Float32>) -> (r: Result<NoiseLayout, GraphError>) {
        Ok(NoiseLayout { cells: input.len(), inner: 1 })
    }
}

impl Noise for Dropout2d {
    open spec fn layout(shape: Seq<usize>) -> Option<(nat, nat)> {
        if shape.len() < 2 {
            None
        } else if numel(shape) == 0 {
            Some((0, 1))
        } else {
            Some(((shape[0] * shape[1]) as nat, numel(shape.skip(2))))
        }
    }

    fn make_noise(&self, input: &Tensor<Float32>) -> (r: Result<NoiseLayout, GraphError>) {
        let dims = input.size();
        if dims.len() < 2 {
            return Err(GraphError::ShapeMismatch);
        }
        let len: usize = input.len();
        if len == 0 {
            return Ok(NoiseLayout { cells: 0, inner: 1 });
        }
        let first: usize = dims[0];
        let second: usize = dims[1];
        proof {
            let shape = input@.shape;
            let rest = numel(shape.skip(2));
            lemma_numel_step(shape, 0);
            lemma_numel_step(shape, 1);
            if first == 0 {
                lemma_numel_zero_dim(shape, 0);
            }
            if second == 0 {
                lemma_numel_zero_dim(shape, 1);
            }
            assert(rest >= 1 && 1 <= first * second <= numel(shape) && numel(shape) == (first
                * second) * rest) by (nonlinear_arith)
                requires
                    numel(shape) == (first as nat) * ((second as nat) * rest),
                    numel(shape) > 0,
                    first >= 1,
                    second >= 1,
            ;
        }
        let cells: usize = first * second;
        let inner: usize = len / cells;
        proof {
            let rest = numel(input@.shape.skip(2));
            assert(inner == rest && (len - 1) / (inner as int) < cells) by (nonlinear_arith)
                requires
                    len == cells * rest,
                    cells >= 1,
                    rest >= 1,
                    inner == len / cells,
            ;
        }
        Ok(NoiseLayout { cells, inner })
    }
}

impl Dropout1d {
    /// A node with this configuration and nothing saved.
    pub fn new(args: DropoutArgs) -> (r: Dropout1d)
        ensures
            r.args == args,
            r.saved_tensors@.len() == 0,
    {
        Dropout1d { args, saved_tensors: Vec::new() }
    }
}

impl Dropout2d {
    /// A node with this configuration and nothing saved.
    pub fn new(args: DropoutArgs) -> (r: Dropout2d)
        ensures
            r.args == args,
            r.saved_tensors@.len() == 0,
    {
        Dropout2d { args, saved_tensors: Vec::new() }
    }
}

impl FuncIntf for Dropout1d {
    open spec fn backward_spec(&self, grad_output: Gradients) -> Result<Gradients, GraphError> {
        backward_result(grad_output, self.args, first_saved(self.saved_tensors@))
    }

    open spec fn forward_spec(
        &self,
        input: Seq<KindValue>,
        after: Dropout1d,
        input_after: Seq<KindValue>,
        r: Result<Forward, GraphError>,
    ) -> bool {
        after.args == self.args && forward_post::<Dropout1d>(
            self.args,
            kinds(self.saved_tensors@),
            input,
            kinds(after.saved_tensors@),
            input_after,
            r,
        )
    }

    fn forward(&mut self, input: &mut Vec<TensorKind>) -> (r: Result<Forward, GraphError>) {
        let args = self.args;
        let layout = plan(&*self, input, &args);
        finish::<Dropout1d>(&args, &mut self.saved_tensors, input, layout)
    }

    open spec fn consumed(&self, grad_output: Gradients, after: Dropout1d) -> bool {
        after.args == self.args && kinds(after.saved_tensors@) == saved_after_backward(
            kinds(self.saved_tensors@),
            self.args,
            grad_output,
        )
    }

    fn backward(&mut self, grad_output: &Vec<Option<TensorKind>>) -> (r: Result<
        Vec<Option<TensorKind>>,
        GraphError,
    >) {
        let args = self.args;
        consuming_backward(&args, &mut self.saved_tensors, grad_output)
    }

    fn backward_retained(&self, grad_output: &Vec<Option<TensorKind>>) -> (r: Result<
        Vec<Option<TensorKind>>,
        GraphError,
    >) {
        dropout_backward(grad_output, &self.args, first_noise(&self.saved_tensors))
    }

    fn release(&mut self)
        ensures
            final(self).args == old(self).args,
            final(self).saved_tensors@.len() == 0,
    {
        self.saved_tensors = Vec::new();
    }
}

impl FuncIntf for Dropout2d {
    open spec fn backward_spec(&self, grad_output: Gradients) -> Result<Gradients, GraphError> {
        backward_result(grad_output, self.args, first_saved(self.saved_tensors@))
    }

    open spec fn forward_spec(
        &self,
        input: Seq<KindValue>,
        after: Dropout2d,
        input_after: Seq<KindValue>,
        r: Result<Forward, GraphError>,
    ) -> bool {
        after.args == self.args && forward_post::<Dropout2d>(
            self.args,
            kinds(self.saved_tensors@),
            input,
            kinds(after.saved_tensors@),
            input_after,
            r,
        )
    }

    fn forward(&mut self, input: &mut Vec<TensorKind>) -> (r: Result<Forward, GraphError>) {
        let args = self.args;
        let layout = plan(&*self, input, &args);
        finish::<Dropout2d>(&args, &mut self.saved_tensors, input, layout)
    }

    open spec fn consumed(&self, grad_output: Gradients, after: Dropout2d) -> bool {
        after.args == self.args && kinds(after.saved_tensors@) == saved_after_backward(
            kinds(self.saved_tensors@),
            self.args,
            grad_output,
        )
    }

    fn backward(&mut self, grad_output: &Vec<Option<TensorKind>>) -> (r: Result<
        Vec<Option<TensorKind>>,
        GraphError,
    >) {
        let args = self.args;
        consuming_backward(&args, &mut self.saved_tensors, grad_output)
    }

    fn backward_retained(&self, grad_output: &Vec<Option<TensorKind>>) -> (r: Result<
        Vec<Option<TensorKind>>,
        GraphError,
    >) {
        dropout_backward(grad_output, &self.args, first_noise(&self.saved_tensors))
    }

    fn release(&mut self)
        ensures
            final(self).args == old(self).args,
            final(self).saved_tensors@.len() == 0,
    {
        self.saved_tensors = Vec::new();
    }
}

} // verus!
