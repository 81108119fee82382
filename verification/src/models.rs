//! Data model of the engine.

pub mod metric;
