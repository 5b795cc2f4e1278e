//! The analytics engine: time-ordered graph snapshots, an algorithm
//! configuration, and the structured results of the enabled algorithms.

pub mod articulation;
pub mod connectivity;
pub mod diffusion;
pub mod mincut;
pub mod state;
