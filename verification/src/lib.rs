//! Computational-graph core of a reverse-mode automatic-differentiation
//! engine.
//!
//! Numeric values (`tensor`, `float`) are arrays of one element type, long
//! integers or binary32 floats held as bit patterns. A variable is a record
//! (`record`) in an arena (`arena`), named by a small integer identity;
//! handles (`variable`) carry that identity, typed or kind-erased. A session
//! (`session`) owns the records and the function nodes (`function`) recorded
//! over them. A backward pass (`pass` says what it computes, `engine`
//! computes it) walks the nodes from the latest to the first and adds up
//! gradients at the leaves. `nn` holds the dropout nodes and the
//! configuration of other layers. `laws` states what holds of all of it.

pub mod error;
pub mod float;
pub mod tensor;
pub mod record;
pub mod arena;
pub mod variable;
pub mod function;
pub mod pass;
pub mod session;
pub mod engine;
pub mod nn;
pub mod laws;
