//! An in-process streaming dataflow engine: typed processing blocks wired
//! into chains, chains grouped into modes, with a per-mode registry of named
//! memory variables.
//!
//! The substrate lives in `block` (the five name-indexed maps and the typed
//! API over them) and `connectors` (bounded channels); `memory_manager`
//! holds the variables and the per-mode snapshot registry; `engine` drives
//! chains, modes and the mode switch; `laws` states the cross-cutting
//! guarantees once over the models those contracts share.

pub mod block;
pub mod calculus;
pub mod cells;
pub mod channel;
pub mod registry;
pub mod scalar;
pub mod serialize;
pub mod statistics;
pub mod complex;
pub mod complex_vector;
pub mod connectors;
pub mod engine;
pub mod laws;
pub mod matrix;
pub mod memory_manager;
pub mod modules;
pub mod stream_processor;
pub mod streaming_data;
pub mod task_monitor;
pub mod test_block;
pub mod values;
