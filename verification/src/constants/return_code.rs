//! Process return / exit codes.
use vstd::prelude::*;

verus! {

pub const SUCCESS: i32 = 0;

pub const TERMINATED_ERROR: i32 = 1;

pub const RETRYABLE_ERROR: i32 = 2;

pub const RUNNER_UPDATING: i32 = 3;

pub const RUN_ONCE_RUNNER_UPDATING: i32 = 4;

pub const SESSION_CONFLICT: i32 = 5;

pub const RUNNER_CONFIGURATION_REFRESHED: i32 = 6;

} // verus!
