//! Top-level commands.
use vstd::prelude::*;

verus! {

pub const CONFIGURE: &'static str = "configure";

pub const REMOVE: &'static str = "remove";

pub const RUN: &'static str = "run";

pub const WARMUP: &'static str = "warmup";

} // verus!
