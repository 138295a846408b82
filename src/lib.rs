//! A small feed-forward network trained by hand-derived backpropagation:
//! affine and rectifier layers, a mean-squared-error loss, and a network
//! that chains them, over any element type that supplies the arithmetic.
pub mod error;
pub mod grid;
pub mod linear;
pub mod mse;
pub mod nn;
pub mod relu;
pub mod scalar;
