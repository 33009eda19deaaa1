use vstd::prelude::*;
use vstd::string::StringExecFns;

verus! {

/// Everything an operation of the graph can fail with.
#[derive(Clone, Copy, Debug, PartialEq, Eq, Structural)]
pub enum GraphError {
    /// A handle names an identity that the arena never allocated.
    OutOfRangeIdentity,
    /// Backward was asked of a volatile variable.
    InvalidBackward,
    /// Backward was asked of a variable that does not require a gradient.
    NoGradRequired,
    /// Two values that must agree in shape do not, or a gradient had to be
    /// made up for a value that is not a scalar.
    ShapeMismatch,
    /// A gradient was to be accumulated into a record mutated in place.
    DirtyVariableError,
    /// A kind wrapper was narrowed to an element type it does not hold.
    TypeMismatch,
    /// Backward reached a node whose saved state was already released.
    GraphAlreadyFreed,
}

impl GraphError {
    /// The text that describes this error.
    pub open spec fn text(self) -> Seq<char> {
        match self {
            GraphError::OutOfRangeIdentity => "no variable with this identity"@,
            GraphError::InvalidBackward => "calling backward on a volatile variable"@,
            GraphError::NoGradRequired =>
                "calling backward on a variable that doesn't require a gradient"@,
            GraphError::ShapeMismatch => "shape mismatch"@,
            GraphError::DirtyVariableError => "gradient for a variable modified in place"@,
            GraphError::TypeMismatch => "bad cast"@,
            GraphError::GraphAlreadyFreed => "graph state already freed"@,
        }
    }

    /// Renders the error for a human reader.
    pub fn message(&self) -> (s: String)
        ensures
            s@ == self.text(),
    {
        match self {
            GraphError::OutOfRangeIdentity => String::from_str("no variable with this identity"),
            GraphError::InvalidBackward => String::from_str(
                "calling backward on a volatile variable",
            ),
            GraphError::NoGradRequired => String::from_str(
                "calling backward on a variable that doesn't require a gradient",
            ),
            GraphError::ShapeMismatch => String::from_str("shape mismatch"),
            GraphError::DirtyVariableError => String::from_str(
                "gradient for a variable modified in place",
            ),
            GraphError::TypeMismatch => String::from_str("bad cast"),
            GraphError::GraphAlreadyFreed => String::from_str("graph state already freed"),
        }
    }
}

} // verus!
