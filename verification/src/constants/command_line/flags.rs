//! Boolean flags.
use vstd::prelude::*;

verus! {

pub const CHECK: &'static str = "check";

pub const COMMIT: &'static str = "commit";

pub const EPHEMERAL: &'static str = "ephemeral";

pub const GENERATE_SERVICE_CONFIG: &'static str = "generateServiceConfig";

pub const HELP: &'static str = "help";

pub const LOCAL: &'static str = "local";

pub const NO_DEFAULT_LABELS: &'static str = "no-default-labels";

pub const REPLACE: &'static str = "replace";

pub const DISABLE_UPDATE: &'static str = "disableupdate";

pub const ONCE: &'static str = "once";

pub const RUN_AS_SERVICE: &'static str = "runasservice";

pub const UNATTENDED: &'static str = "unattended";

pub const VERSION: &'static str = "version";

} // verus!
