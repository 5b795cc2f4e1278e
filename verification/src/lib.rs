//! Core state management for a fleet of mesh-radio devices.
//!
//! The crate reconstructs per-device state from a stream of decoded radio
//! packets, maintains a shared topology graph derived from device-reported
//! neighbor and position data, and runs graph analytics (articulation points,
//! minimum edge cut, diffusion centrality) over time-ordered snapshots of
//! that graph.

pub mod analytics;
pub mod commands;
pub mod device;
pub mod geo;
pub mod graph;
pub mod handlers;
pub mod node_index;
pub mod registry;
pub mod session;
pub mod text;
