//! What the runner does for a command line, and how it comes by its jobs.
use vstd::prelude::*;
use vstd::string::*;

use crate::checks::CheckResult;
use crate::command_settings::CommandSettings;
use crate::config_store::RunnerSettings;
use crate::constants::command_line::{commands, flags};
use crate::constants::{return_code, OsPlatform};
use crate::{checks, command_settings, number, polling, text};

verus! {

// ---------------------------------------------------------------------------
// Commands
// ---------------------------------------------------------------------------

/// What the runner is to do.
#[derive(Debug)]
pub enum RunnerCommand {
    PrintVersion,
    PrintHelp,
    RunChecks,
    Configure,
    Remove,
    Warmup,
    Run,
    /// The command is not known; the help is printed.
    Unknown(String),
}

/// What the runner is to do.
pub enum RunnerCommandView {
    PrintVersion,
    PrintHelp,
    RunChecks,
    Configure,
    Remove,
    Warmup,
    Run,
    Unknown(Seq<char>),
}

impl RunnerCommand {
    pub open spec fn view(&self) -> RunnerCommandView {
        match *self {
            RunnerCommand::PrintVersion => RunnerCommandView::PrintVersion,
            RunnerCommand::PrintHelp => RunnerCommandView::PrintHelp,
            RunnerCommand::RunChecks => RunnerCommandView::RunChecks,
            RunnerCommand::Configure => RunnerCommandView::Configure,
            RunnerCommand::Remove => RunnerCommandView::Remove,
            RunnerCommand::Warmup => RunnerCommandView::Warmup,
            RunnerCommand::Run => RunnerCommandView::Run,
            RunnerCommand::Unknown(c) => RunnerCommandView::Unknown(c@),
        }
    }
}

/// What a command asks for. Without one, the runner is run.
pub open spec fn command_of(command: Option<Seq<char>>) -> RunnerCommandView {
    match command {
        None => RunnerCommandView::Run,
        Some(c) => if c == commands::CONFIGURE@ {
            RunnerCommandView::Configure
        } else if c == commands::REMOVE@ {
            RunnerCommandView::Remove
        } else if c == commands::WARMUP@ {
            RunnerCommandView::Warmup
        } else if c == commands::RUN@ {
            RunnerCommandView::Run
        } else {
            RunnerCommandView::Unknown(c)
        },
    }
}

/// What a command line asks for. The flags for the version, the help and the checks come
/// before any command, in this order.
pub open spec fn dispatched(
    version: bool,
    help: bool,
    check: bool,
    command: Option<Seq<char>>,
) -> RunnerCommandView {
    if version {
        RunnerCommandView::PrintVersion
    } else if help {
        RunnerCommandView::PrintHelp
    } else if check {
        RunnerCommandView::RunChecks
    } else {
        command_of(command)
    }
}

/// The usage, after the first line of the help.
pub const USAGE: &'static str = "\n\nCommands:\n  ./config.sh         Configure the runner\n  ./config.sh remove  Remove the runner\n  ./run.sh            Run the runner interactively\n\nOptions:\n  --help              Show this help message\n  --version           Show the runner version\n  --check             Run connectivity checks\n  --url <url>         URL of the repository/org/enterprise\n  --token <token>     Registration token\n  --name <name>       Name of the runner (default: hostname)\n  --work <dir>        Work directory (default: _work)\n  --labels <labels>   Extra labels (comma separated)\n  --runnergroup <grp> Runner group name\n  --replace           Replace existing runner with same name\n  --unattended        Run in unattended mode (no prompts)\n  --ephemeral         Configure as an ephemeral runner\n  --disableupdate     Disable automatic runner updates\n  --once              Run one job and then exit\n  --pat <pat>         Personal access token (for remove)\n";

/// How the runner is run.
#[derive(Debug)]
pub struct RunPlan {
    /// Whether the runner exits after one job.
    pub run_once: bool,
    /// Whether messages come from the broker.
    pub use_v2_flow: bool,
    /// The work folder, where the settings name one.
    pub work_folder: Option<String>,
}

/// Why the runner is not run.
#[derive(Debug)]
pub struct NotConfigured {
    pub exit_code: i32,
    pub message: &'static str,
}

pub const NOT_CONFIGURED: &'static str = "Runner is not configured. Run './config.sh' to configure.";

/// The runner.
pub struct Runner;

impl Runner {
    /// What a command line asks for.
    pub fn execute_command(settings: &CommandSettings) -> (r: RunnerCommand)
        ensures
            r@ == dispatched(
                command_settings::flag_value(
                    settings@.flags,
                    settings.true_names(),
                    flags::VERSION@,
                ),
                command_settings::flag_value(settings@.flags, settings.true_names(), flags::HELP@),
                command_settings::flag_value(settings@.flags, settings.true_names(), flags::CHECK@),
                settings@.command,
            ),
    {
        if settings.is_version() {
            return RunnerCommand::PrintVersion;
        }
        if settings.is_help() {
            return RunnerCommand::PrintHelp;
        }
        if settings.is_check() {
            return RunnerCommand::RunChecks;
        }
        match settings.command() {
            None => RunnerCommand::Run,
            Some(c) => if text::same(c, commands::CONFIGURE) {
                RunnerCommand::Configure
            } else if text::same(c, commands::REMOVE) {
                RunnerCommand::Remove
            } else if text::same(c, commands::WARMUP) {
                RunnerCommand::Warmup
            } else if text::same(c, commands::RUN) {
                RunnerCommand::Run
            } else {
                RunnerCommand::Unknown(c.to_owned())
            },
        }
    }

    /// The help.
    pub fn help_text(version: &str) -> (r: String)
        ensures
            r@ == "GitHub Actions Runner v"@ + version@ + USAGE@,
    {
        let mut s = "GitHub Actions Runner v".to_owned();
        s.append(version);
        s.append(USAGE);
        s
    }

    /// The runner's version: what the first of the two version files says that can be read and
    /// is not blank, else the version of the package.
    pub fn choose_version(in_bin: &Option<String>, in_root: &Option<String>, package: &str) -> (r:
        String)
        ensures
            r@ == match (
                version_in(text::view_option(*in_bin)),
                version_in(text::view_option(*in_root)),
            ) {
                (Some(v), _) => v,
                (None, Some(v)) => v,
                (None, None) => package@,
            },
    {
        if let Some(content) = in_bin {
            let v = text::trim(content.as_str());
            if !text::is_empty(v.as_str()) {
                return v;
            }
        }
        if let Some(content) = in_root {
            let v = text::trim(content.as_str());
            if !text::is_empty(v.as_str()) {
                return v;
            }
        }
        package.to_owned()
    }

    /// The exit code after the checks, and what is told of them.
    pub fn conclude_checks(results: &[CheckResult]) -> (r: (i32, &'static str))
        ensures
            checks::all_pass(checks::result_views(results@)) ==> r.0 == return_code::SUCCESS && r.1@
                == "\nAll checks passed."@,
            !checks::all_pass(checks::result_views(results@)) ==> r.0
                == return_code::TERMINATED_ERROR && r.1@ == "\nSome checks failed."@,
    {
        if checks::all_passed(results) {
            (return_code::SUCCESS, "\nAll checks passed.")
        } else {
            (return_code::TERMINATED_ERROR, "\nSome checks failed.")
        }
    }

    /// How the runner is run. It must be configured; a runner that is ephemeral, or is run
    /// with `--once`, takes one job.
    pub fn plan_run(once: bool, settings: &Option<RunnerSettings>) -> (r: Result<
        RunPlan,
        NotConfigured,
    >)
        ensures
            match (*settings, r) {
                (None, Err(e)) => e.exit_code == return_code::TERMINATED_ERROR && e.message@
                    == NOT_CONFIGURED@,
                (Some(s), Ok(plan)) => {
                    &&& plan.run_once == (once || s.is_ephemeral)
                    &&& plan.use_v2_flow == s.use_v2_flow
                    &&& text::view_option(plan.work_folder) == if s.work_folder@.len() > 0 {
                        Some(s.work_folder@)
                    } else {
                        None
                    }
                },
                _ => false,
            },
    {
        match settings {
            None => Err(
                NotConfigured { exit_code: return_code::TERMINATED_ERROR, message: NOT_CONFIGURED },
            ),
            Some(s) => Ok(
                RunPlan {
                    run_once: once || s.is_ephemeral,
                    use_v2_flow: s.use_v2_flow,
                    work_folder: if text::is_empty(s.work_folder.as_str()) {
                        None
                    } else {
                        Some(s.work_folder.clone())
                    },
                },
            ),
        }
    }

    /// What is told once there is a session. `time` is the current time as it is to be shown.
    pub fn listening_text(use_v2_flow: bool, time: &str) -> (r: String)
        ensures
            r@ == (if use_v2_flow {
                "√ Connected to GitHub (V2)\n\n"@
            } else {
                "√ Connected to GitHub\n\n"@
            }) + time@ + " Listening for Jobs"@,
    {
        let mut s = if use_v2_flow {
            "√ Connected to GitHub (V2)\n\n".to_owned()
        } else {
            "√ Connected to GitHub\n\n".to_owned()
        };
        s.append(time);
        s.append(" Listening for Jobs");
        s
    }

    /// The exit code of the process: that of the command, or that of an error where the
    /// command failed.
    pub fn exit_code(outcome: Option<i32>) -> (r: i32)
        ensures
            r == match outcome {
                Some(code) => code,
                None => return_code::TERMINATED_ERROR,
            },
    {
        match outcome {
            Some(code) => code,
            None => return_code::TERMINATED_ERROR,
        }
    }
}

/// The version that a file names: what it holds, without white space at its ends, unless that
/// is nothing.
pub open spec fn version_in(content: Option<Seq<char>>) -> Option<Seq<char>> {
    match content {
        Some(s) => if text::trimmed(s).len() > 0 {
            Some(text::trimmed(s))
        } else {
            None
        },
        None => None,
    }
}

// ---------------------------------------------------------------------------
// Jobs
// ---------------------------------------------------------------------------

/// A job that the broker offers.
#[derive(Debug)]
pub struct JobReference {
    pub runner_request_id: String,
    /// Where the job is to be had.
    pub run_service_url: Option<String>,
    /// Who pays for the job.
    pub billing_owner_id: Option<String>,
    /// Whether the broker is to be told that the offer has come.
    pub should_acknowledge: bool,
}

/// A request for a job.
#[derive(Debug)]
pub struct AcquireRequest {
    pub url: String,
    pub job_message_id: String,
    pub runner_os: String,
    pub billing_owner_id: String,
}

/// Where a job is asked for.
pub open spec fn acquire_url(run_service_url: Seq<char>) -> Seq<char> {
    text::trimmed_end_char(run_service_url, '/') + "/acquirejob"@
}

/// The request for the job that is offered. A job without a place of its own is asked for at
/// the server that the runner is configured for.
pub fn acquire_request(reference: &JobReference, server_url: &str, platform: OsPlatform) -> (r:
    AcquireRequest)
    ensures
        r.url@ == acquire_url(
            match text::view_option(reference.run_service_url) {
                Some(url) => url,
                None => server_url@,
            },
        ),
        r.job_message_id@ == reference.runner_request_id@,
        r.runner_os@ == platform.label(),
        r.billing_owner_id@ == match text::view_option(reference.billing_owner_id) {
            Some(id) => id,
            None => ""@,
        },
{
    let mut url = match &reference.run_service_url {
        Some(url) => text::trim_end_char(url.as_str(), '/'),
        None => text::trim_end_char(server_url, '/'),
    };
    url.append("/acquirejob");
    let billing_owner_id = match &reference.billing_owner_id {
        Some(id) => id.clone(),
        None => "".to_owned(),
    };
    AcquireRequest {
        url,
        job_message_id: reference.runner_request_id.clone(),
        runner_os: platform.label_name().to_owned(),
        billing_owner_id,
    }
}

/// Whether a job was handed out, or the error.
pub fn check_acquired(status: u16, body: &str) -> (r: Result<(), String>)
    ensures
        text::view_verdict(r) == if polling::success_status(status) {
            Ok(())
        } else {
            Err("Acquire job failed with HTTP "@ + number::decimal(status as int) + ": "@ + body@)
        },
{
    if polling::is_success(status) {
        return Ok(());
    }
    let mut s = "Acquire job failed with HTTP ".to_owned();
    s.append(number::u64_text(status as u64).as_str());
    s.append(": ");
    s.append(body);
    Err(s)
}

/// Where a job is asked for does not depend on slashes at the end of the service's URL.
pub proof fn law_acquire_url_ignores_slash(run_service_url: Seq<char>)
    ensures
        acquire_url(run_service_url.push('/')) == acquire_url(run_service_url),
{
    assert(run_service_url.push('/').drop_last() == run_service_url);
}

/// The flags for the version, the help and the checks go before any command, in this order;
/// without them the command decides, and without a command the runner is run.
pub proof fn law_flags_go_before_commands(
    help: bool,
    check: bool,
    command: Option<Seq<char>>,
    c: Seq<char>,
)
    ensures
        dispatched(true, help, check, command) == RunnerCommandView::PrintVersion,
        dispatched(false, true, check, command) == RunnerCommandView::PrintHelp,
        dispatched(false, false, true, command) == RunnerCommandView::RunChecks,
        dispatched(false, false, false, None) == RunnerCommandView::Run,
        dispatched(false, false, false, Some("configure"@)) == RunnerCommandView::Configure,
        dispatched(false, false, false, Some("remove"@)) == RunnerCommandView::Remove,
        dispatched(false, false, false, Some("warmup"@)) == RunnerCommandView::Warmup,
        dispatched(false, false, false, Some("run"@)) == RunnerCommandView::Run,
        c != "configure"@ && c != "remove"@ && c != "warmup"@ && c != "run"@ ==> dispatched(
            false,
            false,
            false,
            Some(c),
        ) == RunnerCommandView::Unknown(c),
{
    reveal_strlit("configure");
    reveal_strlit("remove");
    reveal_strlit("warmup");
    reveal_strlit("run");
    assert("configure"@.len() == 9 && "remove"@.len() == 6 && "warmup"@.len() == 6 && "run"@.len()
        == 3);
    assert("remove"@[0] == 'r' && "warmup"@[0] == 'w');
}

/// A version file names what it holds, without white space around it; a blank or unreadable
/// one names nothing.
pub proof fn law_version_file(before: Seq<char>, version: Seq<char>, after: Seq<char>)
    requires
        text::blank(before),
        text::blank(after),
        version.len() > 0 ==> !text::white_space(version[0]) && !text::white_space(version.last()),
    ensures
        version_in(Some(before + version + after)) == if version.len() > 0 {
            Some(version)
        } else {
            None
        },
        version_in(None) is None,
{
    text::law_trimmed_drops(before, version, after);
}

/// A job is asked for below the service's URL, all of it but for the slashes at its end.
pub proof fn law_acquire_url(base: Seq<char>, slashes: nat)
    requires
        base.len() > 0 ==> base.last() != '/',
    ensures
        acquire_url(base + text::repeated('/', slashes)) == base + "/acquirejob"@,
{
    text::law_trimmed_end_char_drops(base, '/', slashes);
}

} // verus!
