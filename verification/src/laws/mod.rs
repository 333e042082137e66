//! What holds of the library for all inputs.

pub mod numbers;
pub mod shapes;
pub mod texts;
pub mod tracing;
pub mod vectors;
