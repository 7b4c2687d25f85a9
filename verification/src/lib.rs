//! A verified core for a small hot-loadable 3D rendering engine: an ASCII
//! geometry parser, a vertex-identity solver that deduplicates face corners,
//! a slot-based resource registry with deferred materialization, and a
//! per-frame draw queue that batches instanced draw calls.
//!
//! Scalar components (positions, texture coordinates, normals, colors,
//! transforms) are carried as IEEE-754 single-precision bit patterns in
//! `u32` values; the few floating-point computations the engine needs are
//! delegated to outside libraries behind a small set of trusted wrappers.

pub mod buffers;
pub mod descriptor;
pub mod engine;
pub mod error;
pub mod graphics;
pub mod material;
pub mod mesh;
pub mod numeric;
pub mod obj_parser;
pub mod queue;
pub mod solver;
