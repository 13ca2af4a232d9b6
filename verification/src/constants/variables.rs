//! The marks of a variable macro.
use vstd::prelude::*;

pub mod actions;
pub mod agent;
pub mod system;

verus! {

pub const MACRO_PREFIX: &'static str = "$(";

pub const MACRO_SUFFIX: &'static str = ")";

} // verus!
