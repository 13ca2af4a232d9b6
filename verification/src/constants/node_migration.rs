//! The move from one Node version to the next.
use vstd::prelude::*;

verus! {

pub const NODE20: &'static str = "node20";

pub const NODE24: &'static str = "node24";

pub const FORCE_NODE24_VARIABLE: &'static str = "FORCE_JAVASCRIPT_ACTIONS_TO_NODE24";

pub const ALLOW_UNSECURE_NODE_VERSION_VARIABLE: &'static str = "ACTIONS_ALLOW_USE_UNSECURE_NODE_VERSION";

pub const USE_NODE24_BY_DEFAULT_FLAG: &'static str = "actions.runner.usenode24bydefault";

pub const REQUIRE_NODE24_FLAG: &'static str = "actions.runner.requirenode24";

pub const WARN_ON_NODE20_FLAG: &'static str = "actions.runner.warnonnode20";

pub const NODE20_DEPRECATION_URL: &'static str = "https://github.blog/changelog/2025-09-19-deprecation-of-node-20-on-github-actions-runners/";

} // verus!
