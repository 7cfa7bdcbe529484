//! Compiler infrastructure for turning Scratch projects into WebAssembly:
//! insertion-ordered registries, reference-counted handles, string tables and
//! the variable optimisation passes.

pub mod index_map_specs;
pub mod ir;
pub mod rc;
pub mod optimisation;
pub mod registry;
pub mod sb3;
pub mod wasm;
