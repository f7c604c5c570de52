//! Calculation graph with reverse-mode automatic differentiation.
//!
//! A [`graph::Graph`] holds constants, named variables and operator nodes
//! over tensors of a scalar field. Evaluating a node computes and caches its
//! value; differentiating an evaluated node fills the gradient of every node
//! it depends on in one backward pass.
//!
//! The engine is generic over the scalar type through [`scalar::Scalar`]; its
//! contracts are stated over the spec functions of that trait.

pub mod calculus;
pub mod error;
pub mod graph;
pub mod operator;
pub mod scalar;
pub mod tensor;
