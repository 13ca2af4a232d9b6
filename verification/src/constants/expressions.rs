//! Status functions of expressions.
use vstd::prelude::*;

verus! {

pub const ALWAYS: &'static str = "always";

pub const CANCELLED: &'static str = "cancelled";

pub const FAILURE: &'static str = "failure";

pub const SUCCESS: &'static str = "success";

} // verus!
