//! Pipelines.

pub mod path;
