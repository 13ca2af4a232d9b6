use actions_runner::action_command::{unescape, unescape_data, unescape_property, ActionCommand};

fn make_commands(names: &[&str]) -> Vec<String> {
    names.iter().map(|s| s.to_string()).collect()
}

#[test]
fn test_parse_v2_simple() {
    let cmds = make_commands(&["error"]);
    let result = ActionCommand::try_parse_v2("::error::something went wrong", &cmds);
    assert!(result.is_some());
    let cmd = result.unwrap();
    assert_eq!(cmd.command, "error");
    assert_eq!(cmd.data, "something went wrong");
    assert!(cmd.properties.is_empty());
}

#[test]
fn test_parse_v2_with_properties() {
    let cmds = make_commands(&["error"]);
    let result = ActionCommand::try_parse_v2("::error file=app.js,line=10::something wrong", &cmds);
    assert!(result.is_some());
    let cmd = result.unwrap();
    assert_eq!(cmd.command, "error");
    assert_eq!(cmd.data, "something wrong");
    assert_eq!(cmd.properties.get("file").map(|s| s.as_str()), Some("app.js"));
    assert_eq!(cmd.properties.get("line").map(|s| s.as_str()), Some("10"));
}

#[test]
fn test_parse_v2_unregistered_command() {
    let cmds = make_commands(&["warning"]);
    let result = ActionCommand::try_parse_v2("::error::data", &cmds);
    assert!(result.is_none());
}

#[test]
fn test_parse_v2_unescape_data() {
    let cmds = make_commands(&["error"]);
    let result = ActionCommand::try_parse_v2("::error::line1%0Aline2%0D%25done", &cmds);
    let cmd = result.unwrap();
    assert_eq!(cmd.data, "line1\nline2\r%done");
}

#[test]
fn test_parse_v1_simple() {
    let cmds = make_commands(&["warning"]);
    let result = ActionCommand::try_parse_v1("##[warning]this is a warning", &cmds);
    assert!(result.is_some());
    let cmd = result.unwrap();
    assert_eq!(cmd.command, "warning");
    assert_eq!(cmd.data, "this is a warning");
}

#[test]
fn test_parse_v1_with_properties() {
    let cmds = make_commands(&["error"]);
    let result = ActionCommand::try_parse_v1("##[error file=test.js;line=5]failure", &cmds);
    assert!(result.is_some());
    let cmd = result.unwrap();
    assert_eq!(cmd.command, "error");
    assert_eq!(cmd.data, "failure");
    assert_eq!(cmd.properties.get("file").map(|s| s.as_str()), Some("test.js"));
    assert_eq!(cmd.properties.get("line").map(|s| s.as_str()), Some("5"));
}

#[test]
fn test_parse_v1_unescape() {
    let cmds = make_commands(&["error"]);
    let result = ActionCommand::try_parse_v1("##[error]line1%0Aline2%3B%25%5D", &cmds);
    let cmd = result.unwrap();
    assert_eq!(cmd.data, "line1\nline2;%]");
}

#[test]
fn test_escape_value() {
    let escaped = ActionCommand::escape_value("hello;world\n%");
    assert!(escaped.contains("%3B"));
    assert!(escaped.contains("%0A"));
    assert!(escaped.contains("%25"));
}

#[test]
fn test_empty_message() {
    let cmds = make_commands(&["error"]);
    assert!(ActionCommand::try_parse_v1("", &cmds).is_none());
    assert!(ActionCommand::try_parse_v2("", &cmds).is_none());
}

#[test]
fn escaping_is_exact_and_undone() {
    assert_eq!(ActionCommand::escape_value("a%b]c\nd\re;f"), "a%25b%5Dc%0Ad%0De%3Bf");
    for text in ["", "%3B", "100%;]\r\n", "plain", "%%25", "é;漢"] {
        assert_eq!(unescape(&ActionCommand::escape_value(text)), text);
    }
}

#[test]
fn escaped_text_is_inert() {
    let escaped = ActionCommand::escape_value("];\r\n];");
    assert!(!escaped.contains([']', ';', '\r', '\n']));
}

#[test]
fn codes_are_turned_back_with_percent_last() {
    assert_eq!(unescape("%253B"), "%3B");
    assert_eq!(unescape_data("%250A"), "%0A");
    assert_eq!(unescape_property("%3A%2C%253A"), ":,%3A");
    assert_eq!(unescape_data("%3A"), "%3A");
}

#[test]
fn written_command_reads_back() {
    let cmds = make_commands(&["error"]);
    let value = "a;b]c";
    let line = format!(
        "##[error file={};line={}]{}",
        ActionCommand::escape_value(value),
        ActionCommand::escape_value("5"),
        ActionCommand::escape_value("50% done]\n")
    );
    let cmd = ActionCommand::try_parse_v1(&line, &cmds).unwrap();
    assert_eq!(cmd.command, "error");
    assert_eq!(cmd.properties.get("file").map(|s| s.as_str()), Some(value));
    assert_eq!(cmd.properties.get("line").map(|s| s.as_str()), Some("5"));
    assert_eq!(cmd.properties.len(), 2);
    assert_eq!(cmd.data, "50% done]\n");
}

#[test]
fn properties_without_value_are_skipped() {
    let cmds = make_commands(&["error"]);
    let cmd = ActionCommand::try_parse_v2("::error file=,line,=3,col=4::x", &cmds).unwrap();
    assert_eq!(cmd.properties.len(), 1);
    assert_eq!(cmd.properties.get("col").map(|s| s.as_str()), Some("4"));
}

#[test]
fn a_later_property_replaces_an_earlier_one() {
    let cmds = make_commands(&["error"]);
    let cmd = ActionCommand::try_parse_v1("##[error a=1;a=2]", &cmds).unwrap();
    assert_eq!(cmd.properties.len(), 1);
    assert_eq!(cmd.properties.get("a").map(|s| s.as_str()), Some("2"));
}

#[test]
fn incomplete_commands_are_none() {
    let cmds = make_commands(&["error"]);
    assert!(ActionCommand::try_parse_v2("::error", &cmds).is_none());
    assert!(ActionCommand::try_parse_v1("##[error", &cmds).is_none());
    assert!(ActionCommand::try_parse_v1("error]", &cmds).is_none());
}

#[test]
fn new_command_is_bare() {
    let cmd = ActionCommand::new("debug");
    assert_eq!(cmd.command, "debug");
    assert_eq!(cmd.data, "");
    assert!(cmd.properties.is_empty());
}
