//! The names, codes and kinds that the runner is built on.
use vstd::prelude::*;

pub mod command_line;
pub mod return_code;
pub mod features;
pub mod node_migration;
pub mod runner_event;
pub mod pipeline;
pub mod configuration;
pub mod expressions;
pub mod hooks;
pub mod path;
pub mod variables;
pub mod operating_system;

verus! {

/// The runner's own directories.
#[derive(Debug, Clone, Copy, PartialEq, Eq, Hash, Structural)]
pub enum WellKnownDirectory {
    Bin,
    Diag,
    Externals,
    Root,
    Actions,
    Temp,
    Tools,
    Update,
    Work,
}

/// The runner's own configuration files.
#[derive(Debug, Clone, Copy, PartialEq, Eq, Hash, Structural)]
pub enum WellKnownConfigFile {
    Runner,
    MigratedRunner,
    Credentials,
    MigratedCredentials,
    RSACredentials,
    Service,
    CredentialStore,
    Certificates,
    Options,
    SetupInfo,
    Telemetry,
}

/// Operating system platform.
#[derive(Debug, Clone, Copy, PartialEq, Eq, Hash, Structural)]
pub enum OsPlatform {
    Linux,
    MacOS,
    Windows,
}

impl OsPlatform {
    /// The platform's label, as workflows name it.
    pub open spec fn label(self) -> Seq<char> {
        match self {
            OsPlatform::Linux => "Linux"@,
            OsPlatform::MacOS => "macOS"@,
            OsPlatform::Windows => "Windows"@,
        }
    }

    /// The platform's label, as workflows name it.
    pub fn label_name(&self) -> (r: &'static str)
        ensures
            r@ == self.label(),
    {
        match self {
            OsPlatform::Linux => "Linux",
            OsPlatform::MacOS => "macOS",
            OsPlatform::Windows => "Windows",
        }
    }

    /// The platform's internal name; it differs from the label on macOS.
    pub fn name(&self) -> (r: &'static str)
        ensures
            r@ == match *self {
                OsPlatform::Linux => "Linux"@,
                OsPlatform::MacOS => "OSX"@,
                OsPlatform::Windows => "Windows"@,
            },
    {
        match self {
            OsPlatform::Linux => "Linux",
            OsPlatform::MacOS => "OSX",
            OsPlatform::Windows => "Windows",
        }
    }
}

/// CPU architecture.
#[derive(Debug, Clone, Copy, PartialEq, Eq, Hash, Structural)]
pub enum Architecture {
    X86,
    X64,
    Arm,
    Arm64,
}

impl Architecture {
    /// The architecture's label, as workflows name it.
    pub open spec fn label(self) -> Seq<char> {
        match self {
            Architecture::X86 => "X86"@,
            Architecture::X64 => "X64"@,
            Architecture::Arm => "ARM"@,
            Architecture::Arm64 => "ARM64"@,
        }
    }

    /// The architecture's label, as workflows name it.
    pub fn label_name(&self) -> (r: &'static str)
        ensures
            r@ == self.label(),
    {
        match self {
            Architecture::X86 => "X86",
            Architecture::X64 => "X64",
            Architecture::Arm => "ARM",
            Architecture::Arm64 => "ARM64",
        }
    }
}

/// The name of the variable that holds the search path on `platform`.
pub fn path_variable(platform: OsPlatform) -> (r: &'static str)
    ensures
        r@ == if platform == OsPlatform::Windows {
            "Path"@
        } else {
            "PATH"@
        },
{
    match platform {
        OsPlatform::Windows => "Path",
        _ => "PATH",
    }
}

/// Environment variable used to track runner process lineage.
pub const PROCESS_TRACKING_ID: &'static str = "RUNNER_TRACKING_ID";

/// Prefix for plugin trace output lines.
pub const PLUGIN_TRACE_PREFIX: &'static str = "##[plugin.trace]";

/// Maximum retry attempts for runner download.
pub const RUNNER_DOWNLOAD_RETRY_MAX_ATTEMPTS: u32 = 3;

/// Maximum depth for composite actions.
pub const COMPOSITE_ACTIONS_MAX_DEPTH: u32 = 9;

/// Timeout before force-exiting on unload.
pub const EXIT_ON_UNLOAD_TIMEOUT_SECS: u64 = 30;

pub const INTERNAL_TELEMETRY_ISSUE_DATA_KEY: &'static str = "_internal_telemetry";

pub const TELEMETRY_RECORD_ID: &'static str = "11111111-1111-1111-1111-111111111111";

pub const WORKER_CRASH: &'static str = "WORKER_CRASH";

pub const LOW_DISK_SPACE: &'static str = "LOW_DISK_SPACE";

pub const UNSUPPORTED_COMMAND: &'static str = "UNSUPPORTED_COMMAND";

pub const RESULTS_UPLOAD_FAILURE: &'static str = "RESULTS_UPLOAD_FAILURE";

pub const UNSUPPORTED_COMMAND_MESSAGE: &'static str = "The `{0}` command is deprecated and will be disabled soon. Please upgrade to using Environment Files. For more information see: https://github.blog/changelog/2022-10-11-github-actions-deprecating-save-state-and-set-output-commands/";

pub const UNSUPPORTED_COMMAND_MESSAGE_DISABLED: &'static str = "The `{0}` command is disabled. Please upgrade to using Environment Files or opt into unsecure command execution by setting the `ACTIONS_ALLOW_UNSECURE_COMMANDS` environment variable to `true`. For more information see: https://github.blog/changelog/2020-10-01-github-actions-deprecating-set-env-and-add-path-commands/";

pub const UNSUPPORTED_STOP_COMMAND_TOKEN_DISABLED: &'static str = "You cannot use a endToken that is an empty string, the string 'pause-logging', or another workflow command. For more information see: https://docs.github.com/actions/learn-github-actions/workflow-commands-for-github-actions#example-stopping-and-starting-workflow-commands or opt into insecure command execution by setting the `ACTIONS_ALLOW_UNSECURE_STOPCOMMAND_TOKENS` environment variable to `true`.";

pub const UNSUPPORTED_SUMMARY_SIZE: &'static str = "$GITHUB_STEP_SUMMARY upload aborted, supports content up to a size of {0}k, got {1}k. For more information see: https://docs.github.com/actions/using-workflows/workflow-commands-for-github-actions#adding-a-markdown-summary";

pub const SUMMARY_UPLOAD_ERROR: &'static str = "$GITHUB_STEP_SUMMARY upload aborted, an error occurred when uploading the summary. For more information see: https://docs.github.com/actions/using-workflows/workflow-commands-for-github-actions#adding-a-markdown-summary";

} // verus!
