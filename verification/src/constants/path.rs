//! Names of the runner's files and directories.
use vstd::prelude::*;

verus! {

pub const ACTIONS_DIRECTORY: &'static str = "_actions";

pub const ACTION_MANIFEST_YML_FILE: &'static str = "action.yml";

pub const ACTION_MANIFEST_YAML_FILE: &'static str = "action.yaml";

pub const BIN_DIRECTORY: &'static str = "bin";

pub const DIAG_DIRECTORY: &'static str = "_diag";

pub const EXTERNALS_DIRECTORY: &'static str = "externals";

pub const RUNNER_DIAGNOSTIC_LOG_PREFIX: &'static str = "Runner_";

pub const TEMP_DIRECTORY: &'static str = "_temp";

pub const TOOL_DIRECTORY: &'static str = "_tool";

pub const UPDATE_DIRECTORY: &'static str = "_update";

pub const WORK_DIRECTORY: &'static str = "_work";

pub const WORKER_DIAGNOSTIC_LOG_PREFIX: &'static str = "Worker_";

} // verus!
