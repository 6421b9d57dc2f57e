//! Structural core of a forward-mode automatic-differentiation network.
//!
//! A network is an ordered stack of layers; every trainable weight is
//! addressed by a [`layers::ParamIndex`] and, equivalently, by a flattened
//! scalar index. This crate owns the integer side of that design: parameter
//! counting, the flattened-index enumeration and its bijection laws, shape
//! propagation through the stack, and the row-major layouts of the weight
//! matrix and of the gradient buffer. The floating-point evaluation of the
//! layers (dual-number arithmetic, activations, gradient-descent updates)
//! is left to embedding code, which takes every size, address and layout
//! decision from here.

pub mod layers;
pub mod network;
