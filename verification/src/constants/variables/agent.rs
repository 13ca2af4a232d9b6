//! Variables that the runner reads.
use vstd::prelude::*;

verus! {

pub const TOOLS_DIRECTORY: &'static str = "agent.ToolsDirectory";

pub const FORCED_INTERNAL_NODE_VERSION: &'static str = "ACTIONS_RUNNER_FORCED_INTERNAL_NODE_VERSION";

pub const FORCED_ACTIONS_NODE_VERSION: &'static str = "ACTIONS_RUNNER_FORCE_ACTIONS_NODE_VERSION";

pub const PRINT_LOG_TO_STDOUT: &'static str = "ACTIONS_RUNNER_PRINT_LOG_TO_STDOUT";

pub const ACTION_ARCHIVE_CACHE_DIRECTORY: &'static str = "ACTIONS_RUNNER_ACTION_ARCHIVE_CACHE";

pub const SYMLINK_CACHED_ACTIONS: &'static str = "ACTIONS_RUNNER_SYMLINK_CACHED_ACTIONS";

pub const EMIT_COMPOSITE_MARKERS: &'static str = "ACTIONS_RUNNER_EMIT_COMPOSITE_MARKERS";

} // verus!
