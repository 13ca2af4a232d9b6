use actions_runner::constants::{OsPlatform, WellKnownConfigFile, WellKnownDirectory};
use actions_runner::exceptions::NonRetryableException;
use actions_runner::host_context::{
    default_user_agent, tools_variables, Anchor, HostContext, Place, ProcessInfo,
};
use actions_runner::http_client_factory::{HttpClientFactory, ProxySettings};
use actions_runner::job_notification::{
    parse_address, AddressError, JobNotification, MonitorAddress,
};
use actions_runner::logging::{LogAction, PagingLogger};
use actions_runner::process_channel::{
    decode, encode, read_body, socket_name, FrameError, MessageType, WorkerMessage,
};
use actions_runner::runner_service::{ShutdownReason, StartupType};
use actions_runner::secret_masker::SecretMasker;
use actions_runner::terminal::{ConsoleColor, Terminal};
use actions_runner::tracing::{TraceEventType, TraceManager, TraceSetting, Tracing};

fn no_proxy() -> ProxySettings {
    ProxySettings {
        http_address: None,
        http_username: None,
        http_password: None,
        https_address: None,
        https_username: None,
        https_password: None,
        no_proxy: None,
    }
}

fn context() -> HostContext {
    HostContext::new("Runner", no_proxy(), None, "linux-x64", "2.0")
}

fn shown(place: &Place) -> String {
    let mut s = match &place.anchor {
        Anchor::Bin => "BIN".to_string(),
        Anchor::Root => "ROOT".to_string(),
        Anchor::Given(p) => p.clone(),
    };
    for name in &place.below {
        s.push('/');
        s.push_str(name);
    }
    s
}

#[test]
fn directories_are_below_the_root() {
    let context = context();
    let dir = |d| shown(&context.get_directory(d, &vec![]));
    assert_eq!(dir(WellKnownDirectory::Bin), "BIN");
    assert_eq!(dir(WellKnownDirectory::Root), "ROOT");
    assert_eq!(dir(WellKnownDirectory::Diag), "ROOT/_diag");
    assert_eq!(dir(WellKnownDirectory::Externals), "ROOT/externals");
    assert_eq!(dir(WellKnownDirectory::Work), "ROOT/_work");
    assert_eq!(dir(WellKnownDirectory::Temp), "ROOT/_work/_temp");
    assert_eq!(dir(WellKnownDirectory::Actions), "ROOT/_work/_actions");
    assert_eq!(dir(WellKnownDirectory::Update), "ROOT/_work/_update");
    assert_eq!(dir(WellKnownDirectory::Tools), "ROOT/_work/_tool");
}

#[test]
fn the_first_tools_variable_that_is_set_decides() {
    assert_eq!(
        tools_variables(),
        ["RUNNER_TOOL_CACHE", "RUNNER_TOOLSDIRECTORY", "AGENT_TOOLSDIRECTORY", "agent.ToolsDirectory"]
    );
    let context = context();
    let tools = |values: &[Option<&str>]| {
        let values: Vec<Option<String>> =
            values.iter().map(|v| v.map(|s| s.to_string())).collect();
        shown(&context.get_directory(WellKnownDirectory::Tools, &values))
    };
    assert_eq!(tools(&[None, Some("/t"), Some("/u"), None]), "/t");
    assert_eq!(tools(&[Some(""), Some("/t"), None, None]), "ROOT/_work/_tool");
}

#[test]
fn the_root_and_the_work_folder_can_be_set() {
    let mut context = context();
    assert!(context.get_work_folder_override().is_none());
    context.set_root_override("/opt/r");
    context.set_work_folder("jobs", false);
    let dir = |c: &HostContext, d| shown(&c.get_directory(d, &vec![]));
    assert_eq!(dir(&context, WellKnownDirectory::Root), "/opt/r");
    assert_eq!(dir(&context, WellKnownDirectory::Work), "/opt/r/jobs");
    assert_eq!(dir(&context, WellKnownDirectory::Temp), "/opt/r/jobs/_temp");
    assert_eq!(shown(&context.get_work_folder_override().unwrap()), "/opt/r/jobs");
    context.set_work_folder("/w", true);
    assert_eq!(dir(&context, WellKnownDirectory::Work), "/w");
}

#[test]
fn configuration_files_have_their_names() {
    let context = context();
    let file = |f, p| shown(&context.get_config_file(f, p));
    let linux = OsPlatform::Linux;
    assert_eq!(file(WellKnownConfigFile::Runner, linux), "ROOT/.runner");
    assert_eq!(file(WellKnownConfigFile::MigratedRunner, linux), "ROOT/.runner_migrated");
    assert_eq!(file(WellKnownConfigFile::Credentials, linux), "ROOT/.credentials");
    assert_eq!(
        file(WellKnownConfigFile::MigratedCredentials, linux),
        "ROOT/.credentials_migrated"
    );
    assert_eq!(file(WellKnownConfigFile::RSACredentials, linux), "ROOT/.credentials_rsaparams");
    assert_eq!(file(WellKnownConfigFile::Service, linux), "ROOT/.service");
    assert_eq!(file(WellKnownConfigFile::CredentialStore, linux), "ROOT/.credential_store");
    assert_eq!(
        file(WellKnownConfigFile::CredentialStore, OsPlatform::MacOS),
        "ROOT/.credential_store.keychain"
    );
    assert_eq!(file(WellKnownConfigFile::Certificates, linux), "ROOT/.certificates");
    assert_eq!(file(WellKnownConfigFile::Options, linux), "ROOT/.options");
    assert_eq!(file(WellKnownConfigFile::SetupInfo, linux), "ROOT/.setup_info");
    assert_eq!(file(WellKnownConfigFile::Telemetry, linux), "ROOT/_diag/.telemetry");
}

#[test]
fn user_agents_tell_of_the_process() {
    assert_eq!(default_user_agent("p", "1"), "GitHubActionsRunner-p/1");
    let mut proxy = no_proxy();
    proxy.https_address = Some("http://p".to_string());
    let mut context = HostContext::new("Worker", proxy, Some(true), "p", "1");
    assert_eq!(context.host_type(), "Worker");
    context.load_default_user_agents(&ProcessInfo {
        commit_hash: "abc".to_string(),
        extra_user_agent: Some("extra".to_string()),
        process_id: 12,
        creation_time: "T".to_string(),
    });
    assert_eq!(
        context.user_agents().as_slice(),
        [
            "GitHubActionsRunner-p/1",
            "HttpProxyConfigured/true",
            "CommitSHA/abc",
            "extra",
            "Pid/12",
            "CreationTime/T",
            "(Worker)"
        ]
    );
}

#[test]
fn proxy_passwords_are_secrets() {
    let mut proxy = no_proxy();
    proxy.http_password = Some("hunter2".to_string());
    proxy.https_password = Some("".to_string());
    let context = HostContext::new("Runner", proxy, None, "p", "1");
    assert_eq!(context.secret_masker.secret_count(), 1);
    assert_eq!(context.secret_masker.mask_secrets("pw hunter2"), "pw ***");
    assert_eq!(context.startup_type, StartupType::Manual);
    assert_eq!(context.get_trace("X").name(), "X");
}

#[test]
fn a_shutdown_has_a_reason() {
    let mut context = context();
    assert_eq!(context.runner_shutdown_reason(), None);
    assert_eq!(
        context.shutdown_runner(ShutdownReason::UserCancelled),
        "Runner will be shutdown for UserCancelled"
    );
    assert_eq!(context.runner_shutdown_reason(), Some(ShutdownReason::UserCancelled));
}

#[test]
fn clients_use_the_proxies() {
    let some = |s: &str| Some(s.to_string());
    let mut proxy = no_proxy();
    proxy.http_address = some("http://h");
    proxy.http_username = some("u");
    proxy.https_address = some("http://s");
    proxy.https_username = some("u");
    proxy.https_password = some("p");
    proxy.no_proxy = some("");
    let plan = HttpClientFactory::create_client(&proxy, true, "pkg", "3");
    let http = plan.http_proxy.unwrap();
    assert_eq!(http.address, "http://h");
    assert_eq!(http.login, None);
    let https = plan.https_proxy.unwrap();
    assert_eq!(https.login, Some(("u".to_string(), "p".to_string())));
    assert_eq!(plan.no_proxy, None);
    assert!(plan.accept_invalid_certs);
    assert_eq!(plan.user_agent, "GitHubActionsRunner-pkg/3");
    proxy.no_proxy = some("localhost");
    let plan = HttpClientFactory::create_client(&proxy, false, "pkg", "3");
    assert_eq!(plan.no_proxy, some("localhost"));
    assert!(!plan.accept_invalid_certs);
}

#[test]
fn monitor_addresses_are_strict() {
    assert_eq!(
        parse_address("127.0.0.1:8080"),
        Ok(MonitorAddress { a: 127, b: 0, c: 0, d: 1, port: 8080 })
    );
    for bad in ["127.0.0.1", "1:2:3", "::1:80"] {
        assert_eq!(parse_address(bad), Err(AddressError::Shape), "{bad}");
    }
    for bad in ["localhost:80", "1.2.3:80", "01.2.3.4:80", "256.1.1.1:80", "1.2.3.:80", "+1.2.3.4:1"] {
        assert_eq!(parse_address(bad), Err(AddressError::Host), "{bad}");
    }
    for bad in ["1.2.3.4:65536", "1.2.3.4:", "1.2.3.4:x"] {
        assert_eq!(parse_address(bad), Err(AddressError::Port), "{bad}");
    }
}

#[test]
fn the_monitor_is_told_of_jobs() {
    let mut monitor = JobNotification::default();
    assert_eq!(monitor.start_client(""), None);
    assert_eq!(monitor.start_client("x"), Some(Err(AddressError::Shape)));
    assert_eq!(monitor.job_started(1, "t", "u", 9), None);
    assert_eq!(monitor.job_completed(9), None);
    assert!(matches!(monitor.start_client("1.2.3.4:5"), Some(Ok(_))));
    monitor.monitor_connected();
    assert_eq!(monitor.start_client("1.2.3.4:5"), None);
    assert_eq!(monitor.job_started(1, "", "u", 9), None);
    assert_eq!(
        monitor.job_started(1, "t", "u", 9),
        Some("Start 00000000-0000-0000-0000-000000000001 t u 9".to_string())
    );
    assert_eq!(monitor.job_completed(9), Some("End 9".to_string()));
}

#[test]
fn a_log_opens_its_files_with_the_first_line() {
    let mut log = PagingLogger::new();
    log.setup(1, 2);
    let id = "00000000-0000-0000-0000-000000000001_00000000-0000-0000-0000-000000000002";
    let write = log.write("T", "a\nb");
    assert_eq!(write.line, "T a\nb");
    assert!(matches!(&write.before[0], LogAction::OpenPage(p) if *p == format!("{id}_1.log")));
    assert!(matches!(&write.before[1], LogAction::OpenBlock(b) if *b == format!("{id}.1")));
    assert!(write.after.is_empty());
    assert_eq!(log.total_lines(), 2);
    let write = log.write("T", "c");
    assert!(write.before.is_empty());
    log.setup(3, 4);
    let ended = log.end();
    assert!(matches!(&ended[0], LogAction::ClosePage(p) if *p == format!("{id}_1.log")));
    assert!(matches!(
        &ended[1],
        LogAction::CloseBlock { finalize: true, first: true, total_lines: 3, .. }
    ));
    assert!(log.end().is_empty());
}

#[test]
fn a_full_block_is_followed_by_the_next() {
    let mut log = PagingLogger::new();
    let big = "x".repeat(2 * 1024 * 1024 - 4);
    let write = log.write("T", &big);
    assert!(write.after.is_empty());
    let write = log.write("T", "");
    assert_eq!(write.after.len(), 2);
    assert!(matches!(
        &write.after[0],
        LogAction::CloseBlock { finalize: false, first: true, total_lines: 2, .. }
    ));
    assert!(matches!(&write.after[1], LogAction::OpenBlock(b) if b.ends_with(".2")));
}

#[test]
fn frames_read_back() {
    for kind in [
        MessageType::NewJobRequest,
        MessageType::CancelRequest,
        MessageType::RunnerShutdown,
        MessageType::OperatingSystemShutdown,
        MessageType::NotInitialized,
    ] {
        for body in ["", "{\"a\":1}", "é漢"] {
            let frame = encode(kind, body);
            let message = decode(&frame).unwrap();
            assert_eq!(message.message_type, kind);
            assert_eq!(message.body, body);
            assert_eq!(decode(&frame[..frame.len() - 1]).unwrap_err(), FrameError::Incomplete);
        }
    }
    assert_eq!(encode(MessageType::CancelRequest, "ab"), [2, 0, 0, 0, 2, 0, 0, 0, b'a', b'b']);
    assert_eq!(
        encode(MessageType::NotInitialized, ""),
        [255, 255, 255, 255, 0, 0, 0, 0]
    );
    assert_eq!(read_body(vec![0xff]).unwrap_err(), FrameError::NotUtf8);
    let message = WorkerMessage::new(MessageType::from_i32(7), "b".to_string());
    assert_eq!(message.message_type, MessageType::NotInitialized);
}

#[test]
fn trace_lines_are_masked() {
    let mut masker = SecretMasker::new();
    masker.add_value("s3cret");
    let trace = Tracing::new("Src", TraceSetting::default());
    let line = trace.trace(&masker, TraceEventType::Information, "is s3cret", "T").unwrap();
    assert_eq!(line.text, format!("[T][Src] {}: is ***", TraceEventType::Information.name()));
    assert!(!line.print);
    let loud = TraceManager::with_setting(TraceSetting {
        level: TraceEventType::Warning,
        print_to_stdout: true,
    });
    let trace = loud.get("Y");
    assert!(trace.trace(&masker, TraceEventType::Information, "m", "T").is_none());
    assert!(trace.trace(&masker, TraceEventType::Error, "m", "T").unwrap().print);
    assert_eq!(Tracing::entering("f"), "Entering f");
    assert_eq!(Tracing::leaving("f"), "Leaving f");
    let rule = "#####################################################".to_string();
    assert_eq!(
        Tracing::error_err(&vec!["a".to_string(), "b".to_string(), "c".to_string()]),
        ["a".to_string(), rule.clone(), "b".to_string(), rule, "c".to_string()]
    );
}

#[test]
fn the_terminal_paints() {
    let terminal = Terminal::new();
    assert_eq!(
        terminal.write("x", Some(ConsoleColor::Red)),
        Some(format!("{}x{}", ConsoleColor::Red.ansi_code(), ConsoleColor::reset()))
    );
    assert_eq!(terminal.write_line("x", None), Some("x\n".to_string()));
    assert_eq!(terminal.write_empty_line(), Some("\n".to_string()));
    assert_eq!(terminal.write_section("S"), Some("\n# S\n\n".to_string()));
    assert!(terminal.write_error("e").unwrap().contains('e'));
    assert!(terminal.write_success_message("done").unwrap().ends_with("done\n"));
    let silent = Terminal { silent: true };
    assert_eq!(silent.write_line("x", None), None);
    assert_eq!(Terminal::read_line("a \r\n"), "a ");
    let mut masker = SecretMasker::new();
    assert_eq!(Terminal::read_secret("pw1234\n", &mut masker), "pw1234");
    assert_eq!(masker.mask_secrets("pw1234"), "***");
}

#[test]
fn exceptions_have_their_words() {
    assert!(NonRetryableException::new("m").text().contains('m'));
    let e = NonRetryableException::with_source("m", "why");
    assert_eq!(e.source, Some("why".to_string()));
}

#[test]
fn sockets_have_new_names() {
    let name = socket_name();
    let id = name.strip_prefix("runner_ipc_").unwrap();
    let parsed = uuid::Uuid::parse_str(id).unwrap();
    assert_eq!(parsed.get_version_num(), 4);
    assert_eq!(parsed.get_variant(), uuid::Variant::RFC4122);
    assert_eq!(parsed.to_string(), id);
    assert_ne!(socket_name(), name);
}
