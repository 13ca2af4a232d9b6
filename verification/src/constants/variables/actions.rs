//! Variables that actions read.
use vstd::prelude::*;

verus! {

pub const ALLOW_UNSUPPORTED_COMMANDS: &'static str = "ACTIONS_ALLOW_UNSECURE_COMMANDS";

pub const ALLOW_UNSUPPORTED_STOP_COMMAND_TOKENS: &'static str = "ACTIONS_ALLOW_UNSECURE_STOPCOMMAND_TOKENS";

pub const REQUIRE_JOB_CONTAINER: &'static str = "ACTIONS_RUNNER_REQUIRE_JOB_CONTAINER";

pub const RUNNER_DEBUG: &'static str = "ACTIONS_RUNNER_DEBUG";

pub const STEP_DEBUG: &'static str = "ACTIONS_STEP_DEBUG";

} // verus!
