//! What a runner reports of itself.
use vstd::prelude::*;

verus! {

pub const REGISTER: &'static str = "register";

pub const REMOVE: &'static str = "remove";

} // verus!
