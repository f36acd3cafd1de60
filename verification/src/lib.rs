//! Componentwise operations on dense integer matrices, with their contracts
//! proved by Verus.

pub mod matrix;
pub mod scalar;
pub mod gradient;
pub mod componentwise;
pub mod laws;
