//! Feature flags.
use vstd::prelude::*;

verus! {

pub const DISK_SPACE_WARNING: &'static str = "runner.diskspace.warning";

pub const LOG_TEMPLATE_ERRORS_AS_DEBUG_MESSAGES: &'static str = "DistributedTask.LogTemplateErrorsAsDebugMessages";

pub const USE_CONTAINER_PATH_FOR_TEMPLATE: &'static str = "DistributedTask.UseContainerPathForTemplate";

pub const ALLOW_RUNNER_CONTAINER_HOOKS: &'static str = "DistributedTask.AllowRunnerContainerHooks";

pub const ADD_CHECK_RUN_ID_TO_JOB_CONTEXT: &'static str = "actions_add_check_run_id_to_job_context";

pub const DISPLAY_HELPFUL_ACTIONS_DOWNLOAD_ERRORS: &'static str = "actions_display_helpful_actions_download_errors";

pub const SNAPSHOT_PREFLIGHT_HOSTED_RUNNER_CHECK: &'static str = "actions_snapshot_preflight_hosted_runner_check";

pub const SNAPSHOT_PREFLIGHT_IMAGE_GEN_POOL_CHECK: &'static str = "actions_snapshot_preflight_image_gen_pool_check";

pub const COMPARE_WORKFLOW_PARSER: &'static str = "actions_runner_compare_workflow_parser";

pub const SET_ORCHESTRATION_ID_ENV_FOR_ACTIONS: &'static str = "actions_set_orchestration_id_env_for_actions";

pub const SEND_JOB_LEVEL_ANNOTATIONS: &'static str = "actions_send_job_level_annotations";

pub const EMIT_COMPOSITE_MARKERS: &'static str = "actions_runner_emit_composite_markers";

} // verus!
