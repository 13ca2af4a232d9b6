//! Where a pipeline is tracked.
use vstd::prelude::*;

verus! {

pub const PIPELINE_MAPPING_DIRECTORY: &'static str = "_PipelineMapping";

pub const TRACKING_CONFIG_FILE: &'static str = "PipelineFolder.json";

} // verus!
