use actions_runner::checks::actions_check::{
    actions_domains, check_actions_dns, ActionsCheck,
};
use actions_runner::checks::git_check::{check_git_lfs, GitCheck};
use actions_runner::checks::internet_check::{check_proxy, DnsAnswer, InternetCheck};
use actions_runner::checks::nodejs_check::{NodeJsCheck, NodeProbe};
use actions_runner::checks::{
    all_passed, checked_server, format_check_results, run_all_checks, CheckResult, HttpAnswer,
    ProgramFailure, ProgramRun,
};

fn failure(code: Option<i32>) -> ProgramRun {
    ProgramRun::Failed(ProgramFailure {
        code,
        status: "exit status: 2".to_string(),
        stderr: "bad".to_string(),
    })
}

#[test]
fn results_are_reported() {
    let results = run_all_checks(
        CheckResult::pass("A", "first"),
        CheckResult::fail("B", "", "broken").with_doc_url("https://d"),
        CheckResult::pass("C", "third").with_detail("fine"),
        CheckResult::pass("D", ""),
    );
    assert_eq!(results[1].doc_url, Some("https://d".to_string()));
    assert!(!all_passed(&results));
    assert!(all_passed(&results[2..]));
    assert_eq!(
        format_check_results(&results),
        "\n----------------------------------------------\n  Runner Diagnostic Checks\n----------------------------------------------\n\n  [Pass] A\n        first\n\n  [Fail] B\n        broken\n\n  [Pass] C\n        third\n        fine\n\n  [Pass] D\n\n  3 passed, 1 failed\n----------------------------------------------\n"
    );
}

#[test]
fn the_given_server_is_checked() {
    let some = |s: &str| Some(s.to_string());
    assert_eq!(checked_server(&some("a"), &some("b")), "a");
    assert_eq!(checked_server(&None, &some("b")), "b");
    assert_eq!(checked_server(&None, &None), "https://github.com");
}

#[test]
fn the_api_is_found_by_the_host() {
    assert_eq!(
        ActionsCheck::get_api_url("https://github.com/o/r"),
        Ok("https://api.github.com/".to_string())
    );
    assert_eq!(
        ActionsCheck::get_api_url("https://x.github.com"),
        Ok("https://api.github.com/".to_string())
    );
    assert_eq!(
        ActionsCheck::get_api_url("https://ghes:8443/o/r?q=1"),
        Ok("https://ghes:8443/api/v3?q=1".to_string())
    );
    assert_eq!(
        ActionsCheck::get_api_url("ghes"),
        Err("relative URL without a base".to_string())
    );
    assert_eq!(
        ActionsCheck::get_api_url("https://notgithub.com"),
        Ok("https://notgithub.com/api/v3".to_string())
    );
}

#[test]
fn a_refusal_shows_that_the_service_was_reached() {
    let ask = |status: u16, text: &str| {
        ActionsCheck::check_connectivity("https://a", &HttpAnswer::Status(status, text.to_string()))
    };
    assert_eq!(
        ask(401, "401 Unauthorized"),
        Ok("Successfully connected to https://a (status: 401 Unauthorized)".to_string())
    );
    assert!(ask(403, "403 Forbidden").is_ok());
    assert!(ask(200, "200 OK").is_ok());
    let missing = ask(404, "404 Not Found");
    assert_eq!(
        missing,
        Err("Unexpected status code 404 Not Found from https://a".to_string())
    );
    let result = ActionsCheck::run_check("https://s", &missing);
    assert!(!result.passed);
    assert_eq!(
        result.detail,
        Some("Failed to connect to https://s: Unexpected status code 404 Not Found from https://a".to_string())
    );
    assert!(ActionsCheck::run_check("https://s", &Ok(String::new())).passed);
    let failed = HttpAnswer::Failed("refused".to_string());
    assert_eq!(
        ActionsCheck::check_connectivity("https://a", &failed),
        Err("refused".to_string())
    );
}

#[test]
fn domains_that_cannot_be_resolved_are_listed() {
    assert_eq!(actions_domains().len(), 6);
    let mut errors: Vec<Option<String>> = vec![None, None, None, None, None, None];
    assert!(check_actions_dns(&errors).passed);
    errors[0] = Some("e1".to_string());
    errors[3] = Some("e2".to_string());
    let result = check_actions_dns(&errors);
    assert!(!result.passed);
    assert_eq!(
        result.detail,
        Some("Failed to resolve: github.com: e1, ghcr.io: e2".to_string())
    );
}

#[test]
fn git_must_run() {
    let some = |s: &str| Some(s.to_string());
    assert_eq!(GitCheck::git_program(&some("/u"), &some("/w")), "/u");
    assert_eq!(GitCheck::git_program(&None, &some("/w")), "/w");
    assert_eq!(GitCheck::git_program(&None, &None), "git");
    let ok = ProgramRun::Succeeded("git version 2.40\n".to_string());
    assert_eq!(GitCheck::check_git("git", &ok), Ok("git version 2.40".to_string()));
    assert!(GitCheck::run_check("git", &ok).passed);
    assert_eq!(
        GitCheck::check_git("git", &failure(None)),
        Err("git --version exited with code -1: bad".to_string())
    );
    let missing = ProgramRun::NotStarted("gone".to_string());
    assert_eq!(
        GitCheck::run_check("/u", &missing).detail,
        Some("Failed to execute '/u': gone. Is git installed and on the PATH?".to_string())
    );
    assert!(check_git_lfs(&ok).passed);
    assert_eq!(check_git_lfs(&failure(Some(1))).detail, Some("git lfs version failed: bad".to_string()));
    assert_eq!(check_git_lfs(&missing).detail, Some("git-lfs not found: gone".to_string()));
}

#[test]
fn the_first_dns_fault_is_told() {
    assert_eq!(InternetCheck::check_hosts(), ["github.com", "api.github.com"]);
    assert_eq!(
        InternetCheck::check_dns(&vec![DnsAnswer::Resolved, DnsAnswer::Resolved]),
        Ok(())
    );
    assert_eq!(
        InternetCheck::check_dns(&vec![DnsAnswer::Resolved, DnsAnswer::NoAddress]),
        Err("DNS resolution for api.github.com returned no addresses".to_string())
    );
    let failed = InternetCheck::check_dns(&vec![
        DnsAnswer::Failed("e".to_string()),
        DnsAnswer::NoAddress,
    ]);
    assert_eq!(
        failed,
        Err("DNS resolution failed for github.com: e. Please check your network configuration and DNS settings.".to_string())
    );
    assert!(!InternetCheck::run_check(&failed).passed);
    assert!(InternetCheck::run_check(&Ok(())).passed);
}

#[test]
fn a_server_error_is_a_fault() {
    let answer = |status: u16| HttpAnswer::Status(status, format!("{status} X"));
    assert_eq!(InternetCheck::check_https(&answer(499)), Ok(()));
    assert_eq!(
        InternetCheck::check_https(&answer(500)),
        Err("HTTPS connection to https://github.com returned server error: 500 X".to_string())
    );
    assert!(InternetCheck::check_https(&answer(599)).is_err());
    assert_eq!(InternetCheck::check_https(&answer(600)), Ok(()));
    assert_eq!(
        InternetCheck::check_https(&HttpAnswer::Failed("no".to_string())),
        Err("HTTPS connection to https://github.com failed: no. Please check your firewall and proxy settings.".to_string())
    );
}

#[test]
fn proxies_are_told() {
    let some = |s: &str| Some(s.to_string());
    let none = check_proxy(&vec![None, some(""), None, None], &vec![some("h"), None]);
    assert!(none.passed);
    assert_eq!(none.description, "Check if proxy is configured (no proxy configured)");
    assert_eq!(none.detail, None);
    let found = check_proxy(&vec![some("p"), None, None, some("q")], &vec![None, some("h")]);
    assert_eq!(found.description, "Check if proxy is configured");
    assert_eq!(found.detail, some("https_proxy=p, HTTP_PROXY=q, NO_PROXY=h"));
}

#[test]
fn node_comes_with_the_runner_or_from_the_system() {
    assert_eq!(NodeJsCheck::expected_versions(), ["node16", "node20"]);
    let run = ProgramRun::Succeeded("v20.1\n".to_string());
    let version = NodeJsCheck::get_node_version("/n", &run);
    assert_eq!(version, Ok("v20.1".to_string()));
    assert_eq!(
        NodeJsCheck::get_node_version("/n", &failure(Some(2))),
        Err("/n --version failed with status exit status: 2".to_string())
    );
    assert_eq!(
        NodeJsCheck::get_node_version("/n", &ProgramRun::NotStarted("e".to_string())),
        Err("Failed to run /n: e".to_string())
    );
    let probes = vec![NodeProbe::Missing("/x".to_string()), NodeProbe::Present(version)];
    assert!(!NodeJsCheck::needs_system_node(&probes));
    let told = NodeJsCheck::check_node(&probes, &Some("v1".to_string()));
    assert_eq!(
        told,
        Ok("Found: node20: v20.1 (missing: node16: not found at /x)".to_string())
    );
    assert!(NodeJsCheck::run_check(&told).passed);
    let broken = vec![
        NodeProbe::Missing("/x".to_string()),
        NodeProbe::Present(Err("e".to_string())),
    ];
    assert!(NodeJsCheck::needs_system_node(&broken));
    assert_eq!(
        NodeJsCheck::check_node(&broken, &Some("v1".to_string())),
        Ok("Found: system: v1 (missing: node16: not found at /x, node20: exists but failed to get version: e)".to_string())
    );
    let fault = NodeJsCheck::check_node(&broken, &None);
    assert_eq!(
        fault,
        Err("Node.js not available: node16: not found at /x; node20: exists but failed to get version: e".to_string())
    );
    let result = NodeJsCheck::run_check(&fault);
    assert!(!result.passed);
    assert!(result.detail.is_some());
    assert_eq!(
        NodeJsCheck::check_node(&vec![], &None),
        Err("Node.js not found. Neither bundled nor system Node.js is available.".to_string())
    );
}
