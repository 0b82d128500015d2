//! World-data backend for a voxel game server.
//!
//! The crate stores a sparse three-dimensional grid of typed cells
//! ("blocks") grouped into chunks, synthesises chunks on demand from a
//! seeded terrain generator, and keeps the registry of loaded chunks
//! consistent.  Every function that carries a contract is verified.

pub mod block;
pub mod chunk;
pub mod codec;
pub mod collection;
pub mod config;
pub mod flat;
pub mod generator;
pub mod loader;
pub mod noise;
pub mod overworld;
pub mod pos;
pub mod profiler;
pub mod provider;
pub mod section;
pub mod world;

use vstd::prelude::*;

verus! {

/// Initializes the library.  All components of this crate are ready as soon
/// as they are constructed, so there is nothing to set up; the function is
/// kept as the conventional entry point of the engine family of crates.
pub fn init() {
}

} // verus!
