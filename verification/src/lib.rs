//! Procedural generation core for a hexagonal tile world.
//!
//! The library enumerates the tiles of a hexagonal map, selects a terrain
//! type for every tile by weighted random choice, draws collision-free
//! positions for the initial entities, and emits one creation request per
//! tile and per entity. Rendering and entity storage are left to the caller,
//! which consumes the emitted requests.

pub mod config;
pub mod generation;
pub mod geometry;
pub mod hex;
pub mod rng;
pub mod sampler;
pub mod terrain;
