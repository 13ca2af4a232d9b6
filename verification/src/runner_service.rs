//! How a runner is started and stopped.
use vstd::prelude::*;

verus! {

/// How the runner was started.
#[derive(Debug, Clone, Copy, PartialEq, Eq, Structural)]
pub enum StartupType {
    Manual,
    Service,
    AutoStartup,
}

impl Default for StartupType {
    fn default() -> (r: Self)
        ensures
            r == StartupType::Manual,
    {
        StartupType::Manual
    }
}

/// Why the runner is shut down.
#[derive(Debug, Clone, Copy, PartialEq, Eq, Structural)]
pub enum ShutdownReason {
    UserCancelled,
    OperatingSystemShutdown,
}

impl ShutdownReason {
    /// The reason's name.
    pub open spec fn text(self) -> Seq<char> {
        match self {
            ShutdownReason::UserCancelled => "UserCancelled"@,
            ShutdownReason::OperatingSystemShutdown => "OperatingSystemShutdown"@,
        }
    }

    /// The reason's name.
    pub fn name(&self) -> (r: &'static str)
        ensures
            r@ == self.text(),
    {
        match self {
            ShutdownReason::UserCancelled => "UserCancelled",
            ShutdownReason::OperatingSystemShutdown => "OperatingSystemShutdown",
        }
    }
}

} // verus!
