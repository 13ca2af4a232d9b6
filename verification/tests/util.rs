use actions_runner::action_result::ActionResult;
use actions_runner::constants::{path_variable, Architecture, OsPlatform};
use actions_runner::encoding_util::EncodingUtil;
use actions_runner::node_util::{EnvFlag, NodeUtil};
use actions_runner::number;
use actions_runner::string_map::StringMap;
use actions_runner::task_result_util::{TaskResult, TaskResultUtil};
use actions_runner::text;
use actions_runner::var_util::VarUtil;

#[test]
fn test_get_internal_node_version_default() {
    // Without env var override, should return default
    let version = NodeUtil::get_internal_node_version(None);
    assert!(!version.is_empty());
}

#[test]
fn test_determine_actions_node_version_default() {
    let (version, warning) =
        NodeUtil::determine_actions_node_version(EnvFlag::unset(), EnvFlag::unset(), false, false);
    assert_eq!(version, "node20");
    assert!(warning.is_none());
}

#[test]
fn test_determine_actions_node_version_require_node24() {
    let (version, warning) =
        NodeUtil::determine_actions_node_version(EnvFlag::unset(), EnvFlag::unset(), false, true);
    assert_eq!(version, "node24");
    assert!(warning.is_none());
}

#[test]
fn test_determine_actions_node_version_use_node24_by_default() {
    let (version, warning) =
        NodeUtil::determine_actions_node_version(EnvFlag::unset(), EnvFlag::unset(), true, false);
    assert_eq!(version, "node24");
    assert!(warning.is_none());
}

#[test]
fn test_check_node_version_no_fallback_on_x64() {
    let (version, warning) = NodeUtil::check_node_version_for_linux_arm32(
        OsPlatform::Linux,
        Architecture::X64,
        "node24",
    );
    assert_eq!(version, "node24");
    assert!(warning.is_none());
}

#[test]
fn arm32_falls_back_with_a_warning() {
    let (version, warning) = NodeUtil::check_node_version_for_linux_arm32(
        OsPlatform::Linux,
        Architecture::Arm,
        "node24",
    );
    assert_eq!(version, "node20");
    assert!(warning.is_some());
}

#[test]
fn forcing_and_allowing_at_once_is_the_default_with_a_warning() {
    let yes = EnvFlag { in_workflow: Some(true), in_system: None };
    let (version, warning) = NodeUtil::determine_actions_node_version(yes, yes, true, false);
    assert_eq!(version, "node24");
    assert!(warning.is_some());
    let (version, warning) = NodeUtil::determine_actions_node_version(yes, yes, true, true);
    assert_eq!(version, "node24");
    assert!(warning.is_none());
}

#[test]
fn test_translate_to_return_code() {
    assert_eq!(TaskResultUtil::translate_to_return_code(TaskResult::Succeeded), 100);
    assert_eq!(TaskResultUtil::translate_to_return_code(TaskResult::Failed), 102);
    assert_eq!(TaskResultUtil::translate_to_return_code(TaskResult::Canceled), 103);
}

#[test]
fn test_translate_from_return_code() {
    assert_eq!(TaskResultUtil::translate_from_return_code(100), TaskResult::Succeeded);
    assert_eq!(TaskResultUtil::translate_from_return_code(102), TaskResult::Failed);
    assert_eq!(TaskResultUtil::translate_from_return_code(999), TaskResult::Failed);
}

#[test]
fn test_is_valid_return_code() {
    assert!(TaskResultUtil::is_valid_return_code(100)); // Succeeded
    assert!(TaskResultUtil::is_valid_return_code(105)); // Abandoned
    assert!(!TaskResultUtil::is_valid_return_code(99));
    assert!(!TaskResultUtil::is_valid_return_code(106));
}

#[test]
fn test_merge_task_results_none() {
    assert_eq!(
        TaskResultUtil::merge_task_results(None, TaskResult::Succeeded),
        TaskResult::Succeeded
    );
}

#[test]
fn test_merge_task_results_worse_result() {
    assert_eq!(
        TaskResultUtil::merge_task_results(Some(TaskResult::Succeeded), TaskResult::Failed),
        TaskResult::Failed
    );
}

#[test]
fn test_merge_task_results_keep_current_if_canceled() {
    assert_eq!(
        TaskResultUtil::merge_task_results(Some(TaskResult::Canceled), TaskResult::Failed),
        TaskResult::Canceled
    );
}

#[test]
fn test_task_result_to_action_result() {
    assert_eq!(TaskResult::Succeeded.to_action_result(), ActionResult::Success);
    assert_eq!(TaskResult::Failed.to_action_result(), ActionResult::Failure);
    assert_eq!(TaskResult::Canceled.to_action_result(), ActionResult::Cancelled);
    assert_eq!(TaskResult::Skipped.to_action_result(), ActionResult::Skipped);
}

#[test]
fn return_codes_read_back() {
    for result in [
        TaskResult::Succeeded,
        TaskResult::SucceededWithIssues,
        TaskResult::Failed,
        TaskResult::Canceled,
        TaskResult::Skipped,
        TaskResult::Abandoned,
    ] {
        let code = TaskResultUtil::translate_to_return_code(result);
        assert!(TaskResultUtil::is_valid_return_code(code));
        assert_eq!(TaskResultUtil::translate_from_return_code(code), result);
    }
    assert!(!TaskResultUtil::is_valid_return_code(i32::MIN));
    assert_eq!(TaskResult::from_i32(6), None);
}

#[test]
fn test_os_name() {
    for platform in [OsPlatform::Linux, OsPlatform::MacOS, OsPlatform::Windows] {
        let os = VarUtil::os(platform);
        assert!(!os.is_empty());
        // Should be one of the known OS names
        assert!(
            os == "Linux" || os == "macOS" || os == "Windows",
            "Unexpected OS name: {}",
            os
        );
    }
}

#[test]
fn test_os_architecture() {
    for architecture in
        [Architecture::X86, Architecture::X64, Architecture::Arm, Architecture::Arm64]
    {
        let arch = VarUtil::os_architecture(architecture);
        assert!(!arch.is_empty());
        assert!(
            arch == "X86" || arch == "X64" || arch == "ARM" || arch == "ARM64",
            "Unexpected architecture: {}",
            arch
        );
    }
}

#[test]
fn test_env_var_comparison() {
    // On all platforms, exact match should always work
    for platform in [OsPlatform::Linux, OsPlatform::MacOS, OsPlatform::Windows] {
        assert!(VarUtil::env_var_keys_equal(platform, "PATH", "PATH"));
        assert!(!VarUtil::env_var_keys_equal(platform, "PATH", "path_other"));
    }
}

#[test]
fn variable_names_ignore_case_on_windows_only() {
    assert!(VarUtil::env_var_keys_equal(OsPlatform::Windows, "Path", "PATH"));
    assert!(!VarUtil::env_var_keys_equal(OsPlatform::Linux, "Path", "PATH"));
}

#[test]
fn overrides_take_precedence_and_the_last_one_wins() {
    let mut base = StringMap::new();
    base.insert("A".to_string(), "1".to_string());
    base.insert("B".to_string(), "2".to_string());
    let mut overrides = StringMap::new();
    overrides.insert("B".to_string(), "3".to_string());
    overrides.insert("B".to_string(), "4".to_string());
    let merged = VarUtil::merge_env(OsPlatform::Linux, &base, &overrides);
    assert_eq!(merged.get("A").map(|s| s.as_str()), Some("1"));
    assert_eq!(merged.get("B").map(|s| s.as_str()), Some("4"));
    assert_eq!(merged.len(), 2);
}

#[test]
fn white_space_is_that_of_char() {
    for n in 0u32..=0x10FFFF {
        if let Some(c) = char::from_u32(n) {
            assert_eq!(text::is_white_space(c), c.is_whitespace(), "{n:x}");
        }
    }
}

#[test]
fn alphanumeric_is_that_of_char() {
    for n in 0u32..=0x10FFFF {
        if let Some(c) = char::from_u32(n) {
            assert_eq!(text::is_alphanumeric(c), c.is_alphanumeric(), "{n:x}");
        }
    }
}

#[test]
fn case_is_that_of_str() {
    for s in ["", "AbC-1", "ÄÖ ß", "İstanbul", "ὈΔΥΣΣΕΎΣ"] {
        assert_eq!(text::to_lowercase(s), s.to_lowercase());
        assert_eq!(text::to_uppercase(s), s.to_uppercase());
    }
}

#[test]
fn text_functions_are_those_of_str() {
    for s in ["", " a ", "\u{a0}x\u{2003}", "a,b,,c", "//p//", "é=ü=1"] {
        assert_eq!(text::trim(s), s.trim());
        assert_eq!(text::trim_start(s), s.trim_start());
        assert_eq!(text::trim_end(s), s.trim_end());
        assert_eq!(text::trim_end_char(s, '/'), s.trim_end_matches('/'));
        assert_eq!(text::trim_start_char(s, '/'), s.trim_start_matches('/'));
        let parts = text::split(s, ',');
        assert_eq!(parts, s.split(',').map(|p| p.to_string()).collect::<Vec<String>>());
        assert_eq!(text::join(&parts, ","), s);
        assert_eq!(
            text::split_once(s, "="),
            s.split_once('=').map(|(a, b)| (a.to_string(), b.to_string()))
        );
        assert_eq!(text::contains(s, "b,"), s.contains("b,"));
        assert_eq!(text::starts_with(s, "a"), s.starts_with("a"));
        assert_eq!(text::ends_with(s, "c"), s.ends_with("c"));
        assert_eq!(text::strip_prefix(s, "a,"), s.strip_prefix("a,").map(|r| r.to_string()));
        assert_eq!(text::replace(s, ",", ";;"), s.replace(",", ";;"));
    }
    assert_eq!(text::replace("aaa", "aa", "b"), "ba");
    assert!(text::eq_ignore_ascii_case("aCtion", "ACTION"));
    assert!(!text::eq_ignore_ascii_case("é", "É"));
}

#[test]
fn numbers_read_back() {
    for n in [0u64, 7, 10, 65535, 1 << 40, u64::MAX] {
        assert_eq!(number::u64_text(n), n.to_string());
    }
    for n in [0i64, -1, 42, i64::MIN, i64::MAX] {
        assert_eq!(number::i64_text(n), n.to_string());
        assert_eq!(number::parse_signed(&n.to_string(), i64::MIN, i64::MAX), Some(n));
    }
    assert_eq!(number::parse_unsigned("65535", 65535), Some(65535));
    assert_eq!(number::parse_unsigned("65536", 65535), None);
    assert_eq!(number::parse_unsigned("+5", 10), "+5".parse::<u64>().ok());
    assert_eq!(number::parse_unsigned("", 10), None);
    assert_eq!(number::parse_unsigned("-1", 10), None);
    assert_eq!(number::parse_unsigned("00000000000000000000000007", 10), Some(7));
    assert_eq!(number::parse_unsigned("99999999999999999999999999", u32::MAX as u64), None);
    assert_eq!(number::parse_signed("-129", -128, 127), None);
    assert_eq!(number::parse_signed("+127", -128, 127), Some(127));
    assert_eq!(number::parse_signed("1x", -128, 127), None);
}

#[test]
fn encoding_is_set_on_windows_only() {
    let path = Some("C:\\chcp.com".to_string());
    let plan = EncodingUtil::set_encoding(OsPlatform::Windows, &path);
    assert_eq!(plan, Some(("C:\\chcp.com".to_string(), "65001".to_string())));
    assert_eq!(EncodingUtil::set_encoding(OsPlatform::Linux, &path), None);
    assert_eq!(EncodingUtil::set_encoding(OsPlatform::Windows, &None), None);
}

#[test]
fn encoding_failures_are_warnings() {
    let ok = EncodingUtil::report(&Ok(0));
    assert!(!ok.warning);
    assert_eq!(ok.message, "Successfully returned to code page 65001 (UTF8)");
    let failed = EncodingUtil::report(&Ok(-3));
    assert!(failed.warning);
    assert_eq!(failed.message, "'chcp 65001' failed with exit code -3");
    let error = EncodingUtil::report(&Err("gone".to_string()));
    assert!(error.warning);
    assert_eq!(error.message, "'chcp 65001' failed with exception: gone");
}

#[test]
fn merging_keeps_the_worst_result() {
    let worst_last = [
        TaskResult::Succeeded,
        TaskResult::SucceededWithIssues,
        TaskResult::Failed,
        TaskResult::Canceled,
        TaskResult::Skipped,
        TaskResult::Abandoned,
    ];
    for i in 0..6 {
        for j in 0..6 {
            assert_eq!(
                TaskResultUtil::merge_task_results(Some(worst_last[i]), worst_last[j]),
                worst_last[i.max(j)]
            );
        }
    }
}

#[test]
fn the_path_variable_has_its_name() {
    assert_eq!(path_variable(OsPlatform::Linux), "PATH");
    assert_eq!(path_variable(OsPlatform::Windows), "Path");
}
