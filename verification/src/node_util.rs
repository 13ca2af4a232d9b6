//! Which Node version actions run on.
use vstd::prelude::*;
use vstd::string::*;

use crate::constants::node_migration::{
    ALLOW_UNSECURE_NODE_VERSION_VARIABLE, FORCE_NODE24_VARIABLE, NODE20, NODE24,
};
use crate::constants::{Architecture, OsPlatform};
use crate::text;

verus! {

/// The Node version that comes with the runner.
pub const DEFAULT_NODE_VERSION: &'static str = "node20";

/// The version comes with the runner.
pub open spec fn built_in(version: Seq<char>) -> bool {
    version == NODE20@
}

/// Node versions.
pub struct NodeUtil;

/// A variable that may be set in the workflow's environment and in the system's: whether it
/// means `true`, in each where it is set.
#[derive(Debug, Clone, Copy, PartialEq, Eq, Structural)]
pub struct EnvFlag {
    pub in_workflow: Option<bool>,
    pub in_system: Option<bool>,
}

impl EnvFlag {
    /// The workflow's environment goes before the system's.
    pub open spec fn is_true(self) -> bool {
        match self.in_workflow {
            Some(b) => b,
            None => self.in_system == Some(true),
        }
    }

    fn holds(self) -> (r: bool)
        ensures
            r == self.is_true(),
    {
        match self.in_workflow {
            Some(b) => b,
            None => match self.in_system {
                Some(b) => b,
                None => false,
            },
        }
    }

    /// A variable that is set nowhere.
    pub fn unset() -> (r: EnvFlag)
        ensures
            r.in_workflow is None,
            r.in_system is None,
    {
        EnvFlag { in_workflow: None, in_system: None }
    }
}

/// Both variables mean `true`, and both are set in the workflow's environment.
pub open spec fn both_from_workflow(force: EnvFlag, allow: EnvFlag) -> bool {
    force.is_true() && allow.is_true() && force.in_workflow is Some && allow.in_workflow is Some
}

/// Both variables mean `true`, and both are set in the system's environment.
pub open spec fn both_from_system(force: EnvFlag, allow: EnvFlag) -> bool {
    force.is_true() && allow.is_true() && force.in_system is Some && allow.in_system is Some
}

/// The Node version for actions. Where the newer one is required, it is that; where both
/// variables contradict each other in one environment, it is the default; else the variable
/// that departs from the default decides.
pub open spec fn node_version(
    force: EnvFlag,
    allow: EnvFlag,
    use_node24_by_default: bool,
    require_node24: bool,
) -> Seq<char> {
    if require_node24 {
        NODE24@
    } else if both_from_workflow(force, allow) || both_from_system(force, allow) {
        if use_node24_by_default {
            NODE24@
        } else {
            NODE20@
        }
    } else if use_node24_by_default {
        if allow.is_true() {
            NODE20@
        } else {
            NODE24@
        }
    } else if force.is_true() {
        NODE24@
    } else {
        NODE20@
    }
}

/// The warning that goes with it: only where both variables contradict each other.
pub open spec fn node_warning(
    force: EnvFlag,
    allow: EnvFlag,
    use_node24_by_default: bool,
    require_node24: bool,
) -> Option<Seq<char>> {
    if !require_node24 && (both_from_workflow(force, allow) || both_from_system(force, allow)) {
        Some(
            "Both "@ + FORCE_NODE24_VARIABLE@ + " and "@ + ALLOW_UNSECURE_NODE_VERSION_VARIABLE@
                + " environment variables are set to true in the "@ + (if both_from_workflow(
                force,
                allow,
            ) {
                "workflow"@
            } else {
                "system"@
            })
                + " environment. This is likely a configuration error. Using the default Node version: "@
                + (if use_node24_by_default {
                NODE24@
            } else {
                NODE20@
            }) + "."@,
        )
    } else {
        None
    }
}

impl NodeUtil {
    /// The Node version for the runner's own scripts: the one that is forced, if it comes with
    /// the runner.
    pub fn get_internal_node_version(forced: Option<&str>) -> (r: &'static str)
        ensures
            r@ == match forced {
                Some(version) => if built_in(version@) {
                    version@
                } else {
                    DEFAULT_NODE_VERSION@
                },
                None => DEFAULT_NODE_VERSION@,
            },
    {
        if let Some(version) = forced {
            if text::same(version, NODE20) {
                return NODE20;
            }
        }
        DEFAULT_NODE_VERSION
    }

    /// The Node version for actions, and a warning where the environment contradicts itself.
    pub fn determine_actions_node_version(
        force: EnvFlag,
        allow: EnvFlag,
        use_node24_by_default: bool,
        require_node24: bool,
    ) -> (r: (String, Option<String>))
        ensures
            r.0@ == node_version(force, allow, use_node24_by_default, require_node24),
            text::view_option(r.1) == node_warning(
                force,
                allow,
                use_node24_by_default,
                require_node24,
            ),
    {
        if require_node24 {
            return (NODE24.to_owned(), None);
        }
        let forced = force.holds();
        let allowed = allow.holds();
        let from_workflow = forced && allowed && force.in_workflow.is_some()
            && allow.in_workflow.is_some();
        let from_system = forced && allowed && force.in_system.is_some()
            && allow.in_system.is_some();
        if from_workflow || from_system {
            let default_version = if use_node24_by_default {
                NODE24
            } else {
                NODE20
            };
            let mut warning = "Both ".to_owned();
            warning.append(FORCE_NODE24_VARIABLE);
            warning.append(" and ");
            warning.append(ALLOW_UNSECURE_NODE_VERSION_VARIABLE);
            warning.append(" environment variables are set to true in the ");
            warning.append(
                if from_workflow {
                    "workflow"
                } else {
                    "system"
                },
            );
            warning.append(
                " environment. This is likely a configuration error. Using the default Node version: ",
            );
            warning.append(default_version);
            warning.append(".");
            return (default_version.to_owned(), Some(warning));
        }
        if use_node24_by_default {
            if allowed {
                return (NODE20.to_owned(), None);
            }
            return (NODE24.to_owned(), None);
        }
        if forced {
            (NODE24.to_owned(), None)
        } else {
            (NODE20.to_owned(), None)
        }
    }

    /// The Node version, and a warning, where the preferred one may not exist for the
    /// platform.
    pub fn check_node_version_for_linux_arm32(
        platform: OsPlatform,
        architecture: Architecture,
        preferred_version: &str,
    ) -> (r: (String, Option<String>))
        ensures
            if text::equal_ignoring_ascii_case(preferred_version@, NODE24@) && architecture
                == Architecture::Arm && platform == OsPlatform::Linux {
                &&& r.0@ == NODE20@
                &&& text::view_option(r.1) == Some(
                    "Node 24 is not supported on Linux ARM32 platforms. Falling back to Node 20."@,
                )
            } else {
                r.0@ == preferred_version@ && r.1 is None
            },
    {
        let arm_linux = match (platform, architecture) {
            (OsPlatform::Linux, Architecture::Arm) => true,
            _ => false,
        };
        if text::eq_ignore_ascii_case(preferred_version, NODE24) && arm_linux {
            return (
                NODE20.to_owned(),
                Some(
                    "Node 24 is not supported on Linux ARM32 platforms. Falling back to Node 20.".to_owned(),
                ),
            );
        }
        (preferred_version.to_owned(), None)
    }
}

/// What is required is what is used, whatever the environment says.
pub proof fn law_required_version_wins(force: EnvFlag, allow: EnvFlag, by_default: bool)
    ensures
        node_version(force, allow, by_default, true) == NODE24@,
        node_warning(force, allow, by_default, true) is None,
{
}

/// There is a warning only with the default version, and never where at most one of the
/// variables means `true`.
pub proof fn law_warning_means_default(
    force: EnvFlag,
    allow: EnvFlag,
    by_default: bool,
    required: bool,
)
    requires
        node_warning(force, allow, by_default, required) is Some,
    ensures
        node_version(force, allow, by_default, required) == if by_default {
            NODE24@
        } else {
            NODE20@
        },
        force.is_true() && allow.is_true(),
{
}

/// The workflow's environment goes before the system's; a variable that is set in neither
/// does not mean `true`.
pub proof fn law_workflow_goes_first(flag: EnvFlag, b: bool)
    ensures
        flag.in_workflow == Some(b) ==> flag.is_true() == b,
        flag.in_workflow is None && flag.in_system == Some(b) ==> flag.is_true() == b,
        flag.in_workflow is None && flag.in_system is None ==> !flag.is_true(),
{
}

/// A single variable that means `true` gets its version, whatever the default; without any
/// it is the default.
pub proof fn law_one_variable_decides(force: EnvFlag, allow: EnvFlag, by_default: bool)
    ensures
        force.is_true() && !allow.is_true() ==> node_version(force, allow, by_default, false)
            == "node24"@,
        !force.is_true() && allow.is_true() ==> node_version(force, allow, by_default, false)
            == "node20"@,
        !force.is_true() && !allow.is_true() ==> node_version(force, allow, by_default, false)
            == if by_default {
            "node24"@
        } else {
            "node20"@
        },
        !force.is_true() || !allow.is_true() ==> node_warning(force, allow, by_default, false)
            is None,
{
}

/// Two variables that both mean `true` contradict each other only where they are set in the
/// same environment: that gives the default and a warning. Else the one that departs from
/// the default decides.
pub proof fn law_contradiction_gives_default(force: EnvFlag, allow: EnvFlag, by_default: bool)
    requires
        force.is_true(),
        allow.is_true(),
    ensures
        ({
            let same = force.in_workflow is Some && allow.in_workflow is Some || force.in_system
                is Some && allow.in_system is Some;
            &&& node_warning(force, allow, by_default, false) is Some <==> same
            &&& node_version(force, allow, by_default, false) == if same == by_default {
                "node24"@
            } else {
                "node20"@
            }
        }),
{
}

} // verus!
