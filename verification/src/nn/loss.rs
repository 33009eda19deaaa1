use vstd::prelude::*;
use crate::arena::VarId;

verus! {

/// How a negative log-likelihood loss reduces: whether the sum is divided
/// by the total weight, and the variable that holds one weight per class, if
/// the classes are weighted.
#[derive(Clone, Copy, Debug)]
pub struct NLLLossArgs {
    pub size_average: bool,
    pub weight: Option<VarId>,
}

impl NLLLossArgs {
    /// What the loss works with when nothing else is said: a plain sum,
    /// without class weights.
    pub open spec fn default_args() -> NLLLossArgs {
        NLLLossArgs { size_average: false, weight: None }
    }

    /// Starts a configuration from the defaults.
    pub fn build() -> (b: NLLLossArgsBuilder)
        ensures
            b.built() == NLLLossArgs::default_args(),
    {
        NLLLossArgsBuilder { size_average: None, weight: None }
    }
}

impl Default for NLLLossArgs {
    fn default() -> (r: NLLLossArgs)
        ensures
            r == NLLLossArgs::default_args(),
    {
        NLLLossArgs { size_average: false, weight: None }
    }
}

/// A loss configuration in the making: what was set so far.
pub struct NLLLossArgsBuilder {
    pub size_average: Option<bool>,
    pub weight: Option<Option<VarId>>,
}

impl NLLLossArgsBuilder {
    /// The configuration as it stands: what was set, and the defaults for
    /// the rest.
    pub open spec fn built(self) -> NLLLossArgs {
        NLLLossArgs {
            size_average: match self.size_average {
                Some(s) => s,
                None => false,
            },
            weight: match self.weight {
                Some(w) => w,
                None => None,
            },
        }
    }

    /// Sets whether the sum is divided by the total weight.
    pub fn size_average(self, value: bool) -> (b: NLLLossArgsBuilder)
        ensures
            b == (NLLLossArgsBuilder { size_average: Some(value), ..self }),
    {
        NLLLossArgsBuilder { size_average: Some(value), weight: self.weight }
    }

    /// Sets the variable that holds the class weights.
    pub fn weight(self, value: Option<VarId>) -> (b: NLLLossArgsBuilder)
        ensures
            b == (NLLLossArgsBuilder { weight: Some(value), ..self }),
    {
        NLLLossArgsBuilder { size_average: self.size_average, weight: Some(value) }
    }

    /// The finished configuration.
    pub fn done(self) -> (r: NLLLossArgs)
        ensures
            r == self.built(),
    {
        NLLLossArgs {
            size_average: match self.size_average {
                Some(s) => s,
                None => false,
            },
            weight: match self.weight {
                Some(w) => w,
                None => None,
            },
        }
    }
}

} // verus!
