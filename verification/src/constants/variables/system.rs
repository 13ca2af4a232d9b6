//! System variables.
use vstd::prelude::*;

verus! {

pub const ACCESS_TOKEN: &'static str = "system.accessToken";

pub const CULTURE: &'static str = "system.culture";

pub const PHASE_DISPLAY_NAME: &'static str = "system.phaseDisplayName";

pub const JOB_REQUEST_TYPE: &'static str = "system.jobRequestType";

pub const ORCHESTRATION_ID: &'static str = "system.orchestrationId";

} // verus!
