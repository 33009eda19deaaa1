//! Function nodes and their configuration.

pub mod convolution;
pub mod dropout;
pub mod loss;
