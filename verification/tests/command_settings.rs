use actions_runner::command_settings::{is_named_arg, CommandSettings, InputEnvironment};
use actions_runner::config_store::RunnerSettings;
use actions_runner::constants::OsPlatform;
use actions_runner::runner::{acquire_request, check_acquired, JobReference, Runner, RunnerCommand};
use actions_runner::checks::CheckResult;
use actions_runner::string_map::StringMap;

fn words(list: &[&str]) -> Vec<String> {
    list.iter().map(|s| s.to_string()).collect()
}

#[test]
fn test_parse_configure_command() {
    let args = vec![
        "configure".to_string(),
        "--url".to_string(),
        "https://github.com/owner/repo".to_string(),
        "--token".to_string(),
        "ABCDEF".to_string(),
    ];
    let settings = CommandSettings::parse_from(&args);
    assert!(settings.is_configure());
    assert_eq!(settings.get_url().unwrap(), "https://github.com/owner/repo");
    assert_eq!(settings.get_token().unwrap(), "ABCDEF");
}

#[test]
fn test_parse_run_command_with_flags() {
    let args = vec!["run".to_string(), "--once".to_string(), "--ephemeral".to_string()];
    let settings = CommandSettings::parse_from(&args);
    assert!(settings.is_run());
    assert!(settings.is_once());
    assert!(settings.is_ephemeral());
    assert!(!settings.is_help());
}

#[test]
fn test_no_command_defaults_to_run() {
    let args: Vec<String> = vec![];
    let settings = CommandSettings::parse_from(&args);
    assert!(settings.is_run());
}

#[test]
fn test_sanitized_args_masks_secrets() {
    let args = vec![
        "configure".to_string(),
        "--url".to_string(),
        "https://github.com".to_string(),
        "--token".to_string(),
        "my-secret-token".to_string(),
    ];
    let settings = CommandSettings::parse_from(&args);
    let sanitized = settings.sanitized_args();
    assert_eq!(sanitized.get("token").unwrap(), "***");
    assert_eq!(sanitized.get("url").unwrap(), "https://github.com");
}

#[test]
fn test_version_flag() {
    let args = vec!["--version".to_string()];
    let settings = CommandSettings::parse_from(&args);
    assert!(settings.is_version());
}

#[test]
fn names_ignore_case_and_values_do_not() {
    let settings = CommandSettings::parse_from(&words(&["CONFIGURE", "--URL", "Http://X"]));
    assert!(settings.is_configure());
    assert_eq!(settings.get_url(), Some("Http://X".to_string()));
}

#[test]
fn an_argument_without_a_value_is_a_flag() {
    let settings = CommandSettings::parse_from(&words(&["--url"]));
    assert_eq!(settings.get_url(), None);
    assert!(settings.get_flag("url"));
}

#[test]
fn only_named_arguments_take_values() {
    assert!(is_named_arg("token"));
    assert!(is_named_arg("jitconfig"));
    assert!(!is_named_arg("once"));
    let settings = CommandSettings::parse_from(&words(&["--once", "configure", "extra", "-x"]));
    assert!(settings.is_once());
    assert!(settings.is_configure());
}

#[test]
fn the_environment_stands_in_for_the_command_line() {
    let mut values = StringMap::new();
    values.insert("ACTIONS_RUNNER_INPUT_URL".to_string(), "https://env".to_string());
    values.insert("ACTIONS_RUNNER_INPUT_NAME".to_string(), "".to_string());
    let environment = InputEnvironment {
        values,
        true_names: words(&["ACTIONS_RUNNER_INPUT_ONCE"]),
    };
    let settings = CommandSettings::parse_with(&words(&[]), environment);
    assert_eq!(settings.get_url(), Some("https://env".to_string()));
    assert_eq!(settings.get_name(), None);
    assert!(settings.is_once());
    assert!(!settings.is_check());
}

#[test]
fn the_command_line_wins() {
    let mut values = StringMap::new();
    values.insert("ACTIONS_RUNNER_INPUT_URL".to_string(), "https://env".to_string());
    let environment = InputEnvironment { values, true_names: vec![] };
    let settings = CommandSettings::parse_with(&words(&["--url", "https://line"]), environment);
    assert_eq!(settings.get_url(), Some("https://line".to_string()));
}

#[test]
fn commands_are_dispatched() {
    let run = |list: &[&str]| Runner::execute_command(&CommandSettings::parse_from(&words(list)));
    assert!(matches!(run(&[]), RunnerCommand::Run));
    assert!(matches!(run(&["run"]), RunnerCommand::Run));
    assert!(matches!(run(&["configure"]), RunnerCommand::Configure));
    assert!(matches!(run(&["remove"]), RunnerCommand::Remove));
    assert!(matches!(run(&["warmup"]), RunnerCommand::Warmup));
    assert!(matches!(run(&["remove", "--check"]), RunnerCommand::RunChecks));
    assert!(matches!(run(&["--check", "--help"]), RunnerCommand::PrintHelp));
    assert!(matches!(run(&["--help", "--version"]), RunnerCommand::PrintVersion));
    match run(&["Dance"]) {
        RunnerCommand::Unknown(c) => assert_eq!(c, "dance"),
        other => panic!("{other:?}"),
    }
}

#[test]
fn help_lists_the_commands() {
    let help = Runner::help_text("2.0");
    assert!(help.starts_with("GitHub Actions Runner v2.0\n\nCommands:\n  ./config.sh         Configure"));
    assert!(help.contains("\n\nOptions:\n  --help              Show this help message\n"));
    assert!(help.ends_with("  --pat <pat>         Personal access token (for remove)\n"));
    assert_eq!(help.lines().count(), 23);
}

#[test]
fn the_version_comes_from_the_first_file_that_names_one() {
    let some = |s: &str| Some(s.to_string());
    assert_eq!(Runner::choose_version(&some(" 1.2\n"), &some("3"), "9"), "1.2");
    assert_eq!(Runner::choose_version(&some(" \n"), &some("3\n"), "9"), "3");
    assert_eq!(Runner::choose_version(&None, &some(""), "9"), "9");
    assert_eq!(Runner::choose_version(&None, &None, "9"), "9");
}

#[test]
fn a_runner_must_be_configured_to_run() {
    let refused = Runner::plan_run(true, &None).unwrap_err();
    assert_eq!(refused.exit_code, 1);
    assert_eq!(refused.message, "Runner is not configured. Run './config.sh' to configure.");
    let mut settings = RunnerSettings::default();
    settings.work_folder = "w".to_string();
    settings.use_v2_flow = true;
    let plan = Runner::plan_run(false, &Some(settings)).unwrap();
    assert!(!plan.run_once);
    assert!(plan.use_v2_flow);
    assert_eq!(plan.work_folder, Some("w".to_string()));
    let mut settings = RunnerSettings::default();
    settings.is_ephemeral = true;
    settings.work_folder = String::new();
    let plan = Runner::plan_run(false, &Some(settings)).unwrap();
    assert!(plan.run_once);
    assert_eq!(plan.work_folder, None);
    assert!(Runner::plan_run(true, &Some(RunnerSettings::default())).unwrap().run_once);
}

#[test]
fn checks_decide_the_exit_code() {
    let good = CheckResult::pass("a", "b");
    let bad = CheckResult::fail("a", "b", "c");
    assert_eq!(Runner::conclude_checks(&[]), (0, "\nAll checks passed."));
    assert_eq!(Runner::conclude_checks(&[good, bad]), (1, "\nSome checks failed."));
    assert_eq!(Runner::exit_code(Some(3)), 3);
    assert_eq!(Runner::exit_code(None), 1);
}

#[test]
fn listening_is_announced() {
    assert_eq!(
        Runner::listening_text(false, "T"),
        "√ Connected to GitHub\n\nT Listening for Jobs"
    );
    assert_eq!(
        Runner::listening_text(true, "T"),
        "√ Connected to GitHub (V2)\n\nT Listening for Jobs"
    );
}

#[test]
fn a_job_is_asked_for_where_it_is_to_be_had() {
    let mut reference = JobReference {
        runner_request_id: "r1".to_string(),
        run_service_url: Some("https://run/x//".to_string()),
        billing_owner_id: Some("me".to_string()),
        should_acknowledge: true,
    };
    let request = acquire_request(&reference, "https://server/", OsPlatform::MacOS);
    assert_eq!(request.url, "https://run/x/acquirejob");
    assert_eq!(request.job_message_id, "r1");
    assert_eq!(request.runner_os, "macOS");
    assert_eq!(request.billing_owner_id, "me");
    reference.run_service_url = None;
    reference.billing_owner_id = None;
    let request = acquire_request(&reference, "https://server/", OsPlatform::Linux);
    assert_eq!(request.url, "https://server/acquirejob");
    assert_eq!(request.billing_owner_id, "");
}

#[test]
fn a_refused_job_is_an_error() {
    assert_eq!(check_acquired(200, "x"), Ok(()));
    assert_eq!(
        check_acquired(409, "taken"),
        Err("Acquire job failed with HTTP 409: taken".to_string())
    );
}

#[test]
fn every_argument_and_flag_has_its_getter() {
    let settings = CommandSettings::parse_from(&words(&[
        "--auth", "a", "--pat", "p", "--labels", "l", "--runnergroup", "g",
        "--monitorsocketaddress", "m", "--startuptype", "s", "--username", "u",
        "--jitconfig", "j", "--windowslogonaccount", "wa", "--windowslogonpassword", "wp",
        "--work", "w", "--name", "n",
        "--check", "--commit", "--ephemeral", "--generateServiceConfig", "--help", "--local",
        "--no-default-labels", "--replace", "--disableupdate", "--once", "--runasservice",
        "--unattended", "--version", "warmup",
    ]));
    let some = |s: &str| Some(s.to_string());
    assert_eq!(settings.get_auth(), some("a"));
    assert_eq!(settings.get_pat(), some("p"));
    assert_eq!(settings.get_labels(), some("l"));
    assert_eq!(settings.get_runner_group(), some("g"));
    assert_eq!(settings.get_monitor_socket_address(), some("m"));
    assert_eq!(settings.get_startup_type(), some("s"));
    assert_eq!(settings.get_user_name(), some("u"));
    assert_eq!(settings.get_jit_config(), some("j"));
    assert_eq!(settings.get_windows_logon_account(), some("wa"));
    assert_eq!(settings.get_windows_logon_password(), some("wp"));
    assert_eq!(settings.get_work(), some("w"));
    assert_eq!(settings.get_name(), some("n"));
    assert!(settings.is_check() && settings.is_commit() && settings.is_ephemeral());
    assert!(settings.is_generate_service_config() && settings.is_help() && settings.is_local());
    assert!(settings.is_no_default_labels() && settings.is_replace());
    assert!(settings.is_disable_update() && settings.is_once() && settings.is_run_as_service());
    assert!(settings.is_unattended() && settings.is_version() && settings.is_warmup());
    assert!(!settings.is_remove());
    let shown = settings.sanitized_args();
    for name in CommandSettings::secret_arg_names() {
        if let Some(value) = shown.get(name) {
            assert_eq!(value, "***", "{name}");
        }
    }
    assert_eq!(shown.get("work").map(|s| s.as_str()), Some("w"));
}
