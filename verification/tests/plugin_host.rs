use actions_runner::action_command::ActionCommand;
use actions_runner::plugin_host::{
    check_arguments, choose_plugin, context_text, escape, resolve_plugin, HostError, PluginKind,
    PluginTraceWriter,
};

fn words(list: &[&str]) -> Vec<String> {
    list.iter().map(|s| s.to_string()).collect()
}

#[test]
fn escape_special_chars() {
    assert_eq!(escape("a;b"), "a%3Bb");
    assert_eq!(escape("line1\r\nline2"), "line1%0D%0Aline2");
    assert_eq!(escape("msg]end"), "msg%5Dend");
}

#[test]
fn escape_no_special_chars() {
    assert_eq!(escape("hello world"), "hello world");
}

#[test]
fn resolve_known_plugins() {
    assert!(resolve_plugin("GitHub.Runner.Plugins.Artifact.PublishArtifact").is_some());
    assert!(resolve_plugin("GitHub.Runner.Plugins.Artifact.DownloadArtifact").is_some());
    assert!(resolve_plugin("PublishArtifact").is_some());
    assert!(resolve_plugin("DownloadArtifact").is_some());
}

#[test]
fn resolve_with_assembly_qualifier() {
    let full = "GitHub.Runner.Plugins.Artifact.PublishArtifact, Runner.Plugins";
    assert!(resolve_plugin(full).is_some());
}

#[test]
fn resolve_unknown_plugin() {
    assert!(resolve_plugin("NoSuchPlugin").is_none());
}

#[test]
fn plugin_trace_writer_output() {
    // Just verify construction doesn't panic
    let _w = PluginTraceWriter::new(true);
    let _w2 = PluginTraceWriter::new(false);
}

#[test]
fn lines_depend_on_debugging() {
    let debug = PluginTraceWriter::new(true);
    let plain = PluginTraceWriter::new(false);
    assert_eq!(debug.info("a;b"), "##[debug]a%3Bb");
    assert_eq!(plain.info("a;b"), "a%3Bb");
    assert_eq!(debug.verbose("a\r\nb\nc"), ["##[debug]a", "##[debug]b", "##[debug]c"]);
    assert!(plain.verbose("a").is_empty());
    assert_eq!(plain.warning("w]"), "##[warning]w%5D");
    assert_eq!(debug.error("100%"), "##[error]100%");
}

#[test]
fn lines_read_back() {
    let line = PluginTraceWriter::new(false).error("one;\ntwo]\r");
    assert!(!line.contains(['\n', '\r', ';']));
    let command = ActionCommand::try_parse_v1(&line, &words(&["error"])).unwrap();
    assert_eq!(command.command, "error");
    assert!(command.properties.is_empty());
    assert_eq!(command.data, "one;\ntwo]\r");
}

#[test]
fn arguments_are_checked() {
    assert_eq!(
        check_arguments(&words(&["host", "Action", "PublishArtifact"])).unwrap(),
        "PublishArtifact"
    );
    assert_eq!(
        check_arguments(&words(&["host"])).unwrap_err().message(),
        "Usage: Runner.PluginHost <plugin_type> <assembly_qualified_name>\nExpected 2 arguments, got 0"
    );
    assert_eq!(
        check_arguments(&words(&["host", "task", "x"])).unwrap_err().message(),
        "Unsupported plugin type: task"
    );
    assert!(matches!(check_arguments(&words(&["host", "action", ""])), Err(HostError::EmptyName)));
}

#[test]
fn the_context_must_not_be_blank() {
    assert_eq!(context_text(" {} \r\n").unwrap(), " {}");
    assert_eq!(
        context_text(" \n").unwrap_err().message(),
        "Execution context from stdin must not be empty"
    );
}

#[test]
fn a_plugin_is_chosen_by_its_name() {
    assert!(matches!(choose_plugin(" DownloadArtifact ,x"), Ok(PluginKind::DownloadArtifact)));
    assert!(matches!(choose_plugin("PublishArtifact"), Ok(PluginKind::PublishArtifact)));
    assert_eq!(
        choose_plugin("publishartifact").unwrap_err().message(),
        "Unknown plugin type: publishartifact"
    );
}
