//! Job hooks.
use vstd::prelude::*;

verus! {

pub const JOB_STARTED_STEP_NAME: &'static str = "Set up runner";

pub const JOB_COMPLETED_STEP_NAME: &'static str = "Complete runner";

pub const CONTAINER_HOOKS_PATH: &'static str = "ACTIONS_RUNNER_CONTAINER_HOOKS";

} // verus!
