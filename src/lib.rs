//! Search for strange attractors among three-dimensional quadratic ODE
//! systems: the verified decision logic around the numerical engine.

pub mod catalog;
pub mod classify;
pub mod cli;
pub mod lyapunov;
pub mod search;
