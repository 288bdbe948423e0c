//! Cain: a first-order stochastic optimiser that trains the parameters of
//! an externally-supplied differentiable graph, adaptively sizing its
//! mini-batches from the measured gradient noise and adaptively scaling its
//! step length from curvature and momentum statistics accumulated online.
//!
//! All arithmetic is saturating Q31.32 fixed point ([`fx`]), so every
//! update the optimiser makes is a total mathematical function of its state
//! and of the losses and gradients the graph returns; the contracts pin
//! each step to that function, and the laws in [`laws`] state what follows:
//! the clamping of the noise estimate, the floor under the batch size, the
//! growth of the curvature estimate, and the reproducibility of whole
//! trajectories.

pub mod cain;
pub mod fx;
pub mod laws;
pub mod srgb;
