use malalongxia::environment::{
    check_git_result, check_network_result, check_node_result, check_npm_result,
    check_os_result, command_output_text, disk_space_sufficient, parse_check_id,
    primary_disk_index, CheckKind, CheckValue, NetworkErrorKind, NetworkProbe,
};

fn text_value(data: &Option<Vec<(String, CheckValue)>>, key: &str) -> Option<String> {
    data.as_ref()?.iter().find(|(k, _)| k == key).and_then(|(_, v)| match v {
        CheckValue::Text(s) => Some(s.clone()),
        CheckValue::Number(_) => None,
    })
}

fn number_value(data: &Option<Vec<(String, CheckValue)>>, key: &str) -> Option<u64> {
    data.as_ref()?.iter().find(|(k, _)| k == key).and_then(|(_, v)| match v {
        CheckValue::Number(n) => Some(*n),
        CheckValue::Text(_) => None,
    })
}

#[test]
fn check_environment_dispatches_os() {
    assert!(matches!(parse_check_id("os"), Ok(CheckKind::Os)));
    assert_eq!(check_os_result("linux", None).status, "passed");
}

#[test]
fn check_environment_dispatches_node() {
    assert!(matches!(parse_check_id("node"), Ok(CheckKind::Node)));
    for version in [Some("v22.22.0".to_string()), Some("v18.0.0".to_string()), None] {
        let r = check_node_result(version);
        assert!(r.status == "passed" || r.status == "failed");
    }
}

#[test]
fn check_environment_dispatches_npm() {
    assert!(matches!(parse_check_id("npm"), Ok(CheckKind::Npm)));
    assert_eq!(check_npm_result(Some("10.9.0".to_string()), None).status, "passed");
}

#[test]
fn check_environment_dispatches_disk() {
    assert!(matches!(parse_check_id("disk"), Ok(CheckKind::Disk)));
    assert!(matches!(parse_check_id("git"), Ok(CheckKind::Git)));
    assert!(matches!(parse_check_id("network"), Ok(CheckKind::Network)));
    let mounts = vec!["/".to_string()];
    assert_eq!(primary_disk_index(&mounts, &vec![100]), Some(0));
}

#[test]
fn check_environment_rejects_unknown_id() {
    let result = parse_check_id("unknown_check");
    assert!(result.is_err());
    match result {
        Err(e) => {
            assert!(e.contains("Unknown check id"));
            assert_eq!(e, "Unknown check id: unknown_check");
        }
        Ok(_) => panic!("unknown id accepted"),
    }
}

#[test]
fn check_environment_rejects_empty_id() {
    assert!(parse_check_id("").is_err());
}

#[test]
fn check_os_returns_passed() {
    let result = check_os_result("linux", Some("6.8".to_string()));
    assert_eq!(result.status, "passed");
    assert!(!result.detail.is_empty());
    assert_eq!(result.detail, "linux 6.8");
    assert_eq!(text_value(&result.data, "osType").as_deref(), Some("linux"));
    assert_eq!(text_value(&result.data, "osVersion").as_deref(), Some("6.8"));
    let unknown = check_os_result("macos", None);
    assert_eq!(unknown.detail, "macos unknown");
}

#[test]
fn check_node_returns_passed_or_failed() {
    assert_eq!(check_node_result(Some("v22.22.0".to_string())).status, "passed");
    assert_eq!(check_node_result(Some("v20.0.0".to_string())).status, "failed");
    assert_eq!(check_node_result(None).status, "failed");
}

#[test]
fn check_node_version_format_if_installed() {
    let result = check_node_result(Some("v24.0.0".to_string()));
    assert_eq!(result.status, "passed");
    let version = text_value(&result.data, "version").unwrap();
    assert!(version.starts_with('v'), "Node version should start with 'v': {}", version);
    assert!(result.detail.contains("Node.js"));
}

#[test]
fn check_node_failed_detail_is_descriptive() {
    let missing = check_node_result(None);
    assert!(missing.data.is_none());
    assert!(missing.detail.contains("not installed"));
    let old = check_node_result(Some("v18.20.0".to_string()));
    assert_eq!(old.status, "failed");
    assert!(old.detail.contains("too old"));
    assert_eq!(old.detail, "Node.js v18.20.0 is too old (requires >= v22.22.0)");
    assert!(text_value(&old.data, "version").is_some());
}

#[test]
fn check_npm_returns_valid_status() {
    assert_eq!(check_npm_result(Some("10.9.0".to_string()), None).status, "passed");
    assert_eq!(check_npm_result(None, Some("9.0.0".to_string())).status, "warning");
    assert_eq!(check_npm_result(None, None).status, "failed");
}

#[test]
fn check_npm_includes_version_numbers() {
    let both = check_npm_result(Some("10.9.0".to_string()), Some("9.1.0".to_string()));
    assert!(both.detail.contains("npm "), "Detail should contain npm version: {}", both.detail);
    assert_eq!(both.detail, "npm 10.9.0 / pnpm 9.1.0");
    assert_eq!(text_value(&both.data, "pnpmVersion").as_deref(), Some("9.1.0"));
    let pnpm_only = check_npm_result(None, Some("9.1.0".to_string()));
    assert_eq!(pnpm_only.detail, "npm not found, pnpm 9.1.0");
}

#[test]
fn check_git_strips_prefix() {
    let r = check_git_result(Some("git version 2.43.0".to_string()));
    assert_eq!(r.status, "passed");
    assert_eq!(r.detail, "Git 2.43.0");
    assert_eq!(text_value(&r.data, "version").as_deref(), Some("2.43.0"));
    let missing = check_git_result(None);
    assert_eq!(missing.status, "warning");
}

#[test]
fn check_network_verdicts() {
    let ok = check_network_result(NetworkProbe::Response { status: 200, elapsed_ms: 35 });
    assert_eq!(ok.status, "passed");
    assert_eq!(ok.detail, "Network OK (35ms)");
    assert_eq!(number_value(&ok.data, "latencyMs"), Some(35));
    let warn = check_network_result(NetworkProbe::Response { status: 503, elapsed_ms: 12 });
    assert_eq!(warn.status, "warning");
    assert_eq!(warn.detail, "Mirror returned HTTP 503 (12ms)");
    assert_eq!(number_value(&warn.data, "httpStatus"), Some(503));
    let failed = check_network_result(NetworkProbe::Failure {
        kind: NetworkErrorKind::Timeout,
        message: "timed out".to_string(),
    });
    assert_eq!(failed.status, "failed");
    assert_eq!(failed.detail, "Network check failed: timed out");
    assert_eq!(text_value(&failed.data, "errorType").as_deref(), Some("timeout"));
}

#[test]
fn run_command_output_trims_whitespace() {
    let val = command_output_text(true, "  test  \n").unwrap();
    assert!(!val.ends_with('\n'), "Should not end with newline");
    assert_eq!(val, "test");
}

#[test]
fn run_command_output_returns_none_for_failing_command() {
    assert!(command_output_text(false, "hello").is_none(), "`false` command should return None");
    assert!(command_output_text(true, "   ").is_none());
}

#[test]
fn primary_disk_selection() {
    let mounts = vec!["/".to_string(), "/System/Volumes/Data".to_string(), "/boot".to_string()];
    assert_eq!(primary_disk_index(&mounts, &vec![10, 20, 30]), Some(1));
    let mounts = vec!["/boot".to_string(), "/".to_string()];
    assert_eq!(primary_disk_index(&mounts, &vec![10, 5]), Some(1));
    let mounts = vec!["/a".to_string(), "/b".to_string(), "/c".to_string()];
    assert_eq!(primary_disk_index(&mounts, &vec![7, 9, 9]), Some(2));
    assert_eq!(primary_disk_index(&vec![], &vec![]), None);
    assert!(disk_space_sufficient(1073741824));
    assert!(!disk_space_sufficient(1073741823));
}

#[test]
fn run_command_output_returns_none_for_invalid_command() {
    // A command that could not be started counts as a failure with no output.
    assert!(command_output_text(false, "").is_none());
}

#[test]
fn run_command_output_returns_some_for_echo() {
    assert_eq!(command_output_text(true, "hello\n"), Some("hello".to_string()));
}


#[test]
fn disk_status_words() {
    assert_eq!(malalongxia::environment::disk_status(2 * 1073741824), "passed");
    assert_eq!(malalongxia::environment::disk_status(1073741823), "failed");
    let r = malalongxia::environment::no_disk_result();
    assert_eq!(r.status, "warning");
    assert_eq!(r.detail, "Could not determine primary disk");
    assert!(r.data.is_none());
}
