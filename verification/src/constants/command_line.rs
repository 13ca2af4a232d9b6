//! Command-line argument names.

pub mod args;
pub mod commands;
pub mod flags;
