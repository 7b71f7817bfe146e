use malalongxia::config::{
    api_response_fields, gateway_token_from_config, merged_openclaw_config,
    openclaw_version_from_npm_list,
    api_error_message, api_test_success, app_update_info, browser_command_exec,
    chat_completions_endpoint, check_open_url, chrono_timestamp, command_outcome,
    default_model_for, direct_model_ids_exec, feishu_config_outcome, feishu_plugin_listed,
    gateway_url_for_token, log_file_content, log_file_name, onboard_failure_message,
    onboard_plan, openclaw_status, repair_report, timestamp_from_secs, uninstall_outcome,
    version_check_status, GatewayWait, OnboardPlan, PermissionStep, WaitAction, OPENCLAW_PORT,
    OPENCLAW_URL,
};

#[test]
fn chrono_timestamp_returns_numeric_string() {
    let ts = chrono_timestamp();
    assert!(!ts.is_empty());
    assert!(ts.parse::<u64>().is_ok(), "Timestamp should be numeric: {}", ts);
}

#[test]
fn chrono_timestamp_is_recent() {
    let ts: u64 = chrono_timestamp().parse().unwrap();
    assert!(ts > 1704067200, "Timestamp too old: {}", ts);
}

#[test]
fn chrono_timestamp_is_monotonic() {
    let ts1: u64 = chrono_timestamp().parse().unwrap();
    let ts2: u64 = chrono_timestamp().parse().unwrap();
    assert!(ts2 >= ts1, "Timestamps should be monotonically increasing");
}

#[test]
fn timestamp_renders_seconds_in_decimal() {
    assert_eq!(timestamp_from_secs(0), "0");
    assert_eq!(timestamp_from_secs(1704067200), "1704067200");
    assert_eq!(timestamp_from_secs(u64::MAX), "18446744073709551615");
}

#[test]
fn openclaw_port_is_expected_value() {
    assert_eq!(OPENCLAW_PORT, 18789);
}

#[test]
fn openclaw_url_is_localhost() {
    assert_eq!(OPENCLAW_URL, "http://127.0.0.1:18789");
    assert!(OPENCLAW_URL.starts_with("http://127.0.0.1:"));
}

#[test]
fn gateway_url_with_token_returns_valid_url() {
    let url = gateway_url_for_token(None);
    assert!(url.starts_with("http://127.0.0.1:18789"));
    let url = gateway_url_for_token(Some("abc"));
    assert!(url.starts_with("http://127.0.0.1:18789"));
}

#[test]
fn gateway_url_format_is_correct() {
    let url = gateway_url_for_token(None);
    assert_eq!(url, OPENCLAW_URL);
    let url = gateway_url_for_token(Some("tok123"));
    assert!(url.starts_with(&format!("{}/?token=", OPENCLAW_URL)), "Unexpected gateway URL format: {}", url);
    assert_eq!(url, "http://127.0.0.1:18789/?token=tok123");
}

#[test]
fn open_url_rejects_javascript_scheme() {
    let result = check_open_url("javascript:alert(1)");
    assert!(result.is_err());
    assert!(result.unwrap_err().contains("Disallowed URL scheme"));
}

#[test]
fn open_url_rejects_file_scheme() {
    let result = check_open_url("file:///etc/passwd");
    assert!(result.is_err());
    assert!(result.unwrap_err().contains("Disallowed URL scheme"));
}

#[test]
fn open_url_rejects_ftp_scheme() {
    assert!(check_open_url("ftp://example.com").is_err());
}

#[test]
fn open_url_rejects_data_scheme() {
    assert!(check_open_url("data:text/html,<h1>XSS</h1>").is_err());
}

#[test]
fn open_url_accepts_http_scheme() {
    assert!(check_open_url("http://localhost:18789").is_ok(), "http:// should be allowed");
}

#[test]
fn open_url_accepts_https_scheme() {
    assert!(check_open_url("https://example.com").is_ok(), "https:// should be allowed");
}

#[test]
fn open_url_rejects_mailto_scheme() {
    let result = check_open_url("mailto:test@example.com");
    assert!(result.is_err());
    assert!(result.unwrap_err().contains("Disallowed URL scheme"));
}

#[test]
fn open_url_rejects_ssh_scheme() {
    let result = check_open_url("ssh://user@host");
    assert!(result.is_err());
    assert!(result.unwrap_err().contains("Disallowed URL scheme"));
}

#[test]
fn open_url_rejects_empty_string() {
    assert!(check_open_url("").is_err());
}

#[test]
fn open_url_rejects_relative_path() {
    assert!(check_open_url("../etc/passwd").is_err());
}

#[test]
fn open_url_error_names_the_url() {
    assert_eq!(check_open_url("ftp://x").unwrap_err(), "Disallowed URL scheme: ftp://x");
}

#[test]
fn open_in_browser_uses_correct_command_for_platform() {
    let (p, a) = browser_command_exec("macos", "http://x");
    assert_eq!(p, "open");
    assert_eq!(a, vec!["http://x".to_string()]);
    let (p, a) = browser_command_exec("windows", "http://x");
    assert_eq!(p, "cmd");
    assert_eq!(a, vec!["/c".to_string(), "start".to_string(), "".to_string(), "http://x".to_string()]);
    let (p, _) = browser_command_exec("linux", "http://x");
    assert_eq!(p, "xdg-open");
}

#[test]
fn configure_api_model_id_format() {
    let provider = "zai";
    let model = "glm-5";
    let model_id = default_model_for(provider, model).unwrap();
    assert_eq!(model_id, "zai/glm-5");

    let model_with_slash = "zai/glm-5";
    assert!(model_with_slash.contains('/'));
    assert_eq!(default_model_for("zai", model_with_slash).unwrap(), "zai/glm-5");
}

#[test]
fn default_model_only_for_native_providers_with_a_model() {
    assert_eq!(default_model_for("deepseek", "chat"), None);
    assert_eq!(default_model_for("openai", ""), None);
    assert_eq!(default_model_for("openai", "gpt-4o").unwrap(), "openai/gpt-4o");
}

#[test]
fn repair_step_format_uses_ascii_markers() {
    let ok_report = repair_report(true, true, None, PermissionStep::Skipped);
    let ok_step = ok_report.lines().next().unwrap().to_string();
    let fail_report = repair_report(false, false, None, PermissionStep::Skipped);
    let fail_step = fail_report.lines().next().unwrap().to_string();
    let warn_step = fail_report.lines().nth(2).unwrap().to_string();
    assert_eq!(ok_step, "[OK] Set gateway.mode=local");
    assert_eq!(fail_step, "[FAIL] Failed to set gateway.mode");
    assert_eq!(warn_step, "[WARN] No existing service to uninstall");

    assert!(ok_step.starts_with("[OK]"));
    assert!(fail_step.starts_with("[FAIL]"));
    assert!(warn_step.starts_with("[WARN]"));

    assert!(!ok_step.contains('\u{2713}'));
    assert!(!fail_step.contains('\u{2717}'));
    assert!(!warn_step.contains('\u{26A0}'));
}

#[test]
fn repair_report_lists_every_step() {
    let r = repair_report(true, false, Some("boom"), PermissionStep::Failed("denied".to_string()));
    assert_eq!(
        r,
        "[OK] Set gateway.mode=local\n[OK] Stopped existing service\n[WARN] No existing service to uninstall\n[FAIL] Failed to install service: boom\n[FAIL] Failed to fix permissions: denied"
    );
    let r = repair_report(true, true, None, PermissionStep::NotApplicable);
    assert!(r.ends_with("[OK] Directory permissions (not applicable on Windows)"));
    let r = repair_report(true, true, None, PermissionStep::Fixed);
    assert!(r.ends_with("[OK] Installed gateway service\n[OK] Fixed directory permissions"));
}

#[test]
fn onboard_plan_for_native_and_custom_providers() {
    match onboard_plan("bailian", "k", "u", "m") {
        OnboardPlan::Direct => {}
        _ => panic!("bailian is configured directly"),
    }
    match onboard_plan("openai", "sk-1", "", "gpt") {
        OnboardPlan::Onboard(args) => {
            assert_eq!(args.len(), 12);
            assert_eq!(args[0], "onboard");
            assert_eq!(&args[8..], &["--auth-choice", "openai-api-key", "--openai-api-key", "sk-1"]);
        }
        _ => panic!("openai goes through onboard"),
    }
    match onboard_plan("deepseek", "sk-2", "https://api.deepseek.com", "deepseek-chat") {
        OnboardPlan::Onboard(args) => {
            assert_eq!(
                &args[8..],
                &[
                    "--auth-choice",
                    "custom-api-key",
                    "--custom-api-key",
                    "sk-2",
                    "--custom-base-url",
                    "https://api.deepseek.com",
                    "--custom-model-id",
                    "deepseek-chat"
                ]
            );
        }
        _ => panic!("custom providers go through onboard"),
    }
    match onboard_plan("custom", "k", "", "") {
        OnboardPlan::Onboard(args) => assert_eq!(args.len(), 12),
        _ => panic!(),
    }
}

#[test]
fn direct_model_ids_default_when_empty() {
    let (id, full) = direct_model_ids_exec("bailian", "");
    assert_eq!(id, "default");
    assert_eq!(full, "bailian/default");
    let (id, full) = direct_model_ids_exec("bailian", "qwen-max");
    assert_eq!(id, "qwen-max");
    assert_eq!(full, "bailian/qwen-max");
}

#[test]
fn onboard_failure_includes_stdout_when_present() {
    assert_eq!(onboard_failure_message("  bad key \n", ""), "Failed to configure API: bad key");
    assert_eq!(onboard_failure_message("err", " out "), "Failed to configure API: err\nout");
}

#[test]
fn api_test_messages() {
    assert_eq!(chat_completions_endpoint("https://api.x.com/v1//"), "https://api.x.com/v1/chat/completions");
    assert_eq!(api_error_message(401, Some("bad key"), "{}"), "API error (401): bad key");
    assert_eq!(api_error_message(500, None, "oops"), "API error (500): oops");
    assert_eq!(api_test_success(Some("glm-5".to_string())), "glm-5");
    assert_eq!(api_test_success(None), "OK");
}

#[test]
fn status_needs_update_only_when_versions_differ() {
    let s = openclaw_status(true, false, Some("1.0.0".to_string()), Some("1.1.0".to_string()), None);
    assert!(s.needs_update);
    assert_eq!(s.gateway_url, "http://127.0.0.1:18789");
    let s = openclaw_status(true, true, Some("1.1.0".to_string()), Some("1.1.0".to_string()), Some("t"));
    assert!(!s.needs_update);
    assert_eq!(s.gateway_url, "http://127.0.0.1:18789/?token=t");
    let s = openclaw_status(false, false, None, Some("1.1.0".to_string()), None);
    assert!(!s.needs_update);
}

#[test]
fn app_update_defaults_and_detection() {
    let u = app_update_info("0.1.0".to_string(), None, None, None);
    assert!(!u.has_update);
    assert_eq!(u.latest_version, "");
    assert_eq!(u.download_url, "https://malalongxia.com");
    let u = app_update_info("0.1.0".to_string(), Some("0.2.0".to_string()), Some("https://d".to_string()), Some("n".to_string()));
    assert!(u.has_update);
    assert_eq!(u.download_url, "https://d");
    let u = app_update_info("0.2.0".to_string(), Some("0.2.0".to_string()), None, None);
    assert!(!u.has_update);
}

#[test]
fn management_command_outcomes() {
    assert_eq!(command_outcome(true, "Stop failed: ", "stopped", "").unwrap(), "stopped");
    assert_eq!(command_outcome(false, "Stop failed: ", "out", "").unwrap_err(), "Stop failed: out");
    assert_eq!(command_outcome(false, "Stop failed: ", "out", "err").unwrap_err(), "Stop failed: err");
    assert!(feishu_plugin_listed("plugins:\n  @openclaw/feishu 1.0\n"));
    assert!(!feishu_plugin_listed("plugins: none"));
    assert!(feishu_config_outcome(true, true).is_ok());
    assert_eq!(feishu_config_outcome(true, false).unwrap_err(), "Failed to configure Feishu plugin");
    assert!(uninstall_outcome(false, "npm ERR! openclaw is not installed").is_ok());
    assert_eq!(uninstall_outcome(false, "EACCES").unwrap_err(), "Failed to uninstall openclaw: EACCES");
    assert!(uninstall_outcome(true, "").is_ok());
}

#[test]
fn exported_log_name_and_content() {
    assert_eq!(log_file_name("1700000000"), "install-log-1700000000.txt");
    assert_eq!(log_file_content(&vec!["a".to_string(), "b".to_string()]), "a\nb");
    assert_eq!(log_file_content(&vec![]), "");
}

#[test]
fn version_check_needs_success_status() {
    assert!(version_check_status(200, "200 OK").is_ok());
    assert_eq!(
        version_check_status(404, "404 Not Found"),
        Err("Version check failed with status: 404 Not Found".to_string())
    );
    assert!(version_check_status(301, "301 Moved Permanently").is_err());
}

#[test]
fn gateway_wait_polls_thirty_times_at_most() {
    let mut w = GatewayWait::new();
    let mut probes = 0;
    while let WaitAction::SleepThenProbe = w.next() {
        probes += 1;
        w.record_probe(false);
    }
    assert!(matches!(w.next(), WaitAction::GiveUp));
    assert_eq!(probes, 30);

    let mut w = GatewayWait::new();
    assert!(matches!(w.next(), WaitAction::SleepThenProbe));
    w.record_probe(false);
    w.record_probe(true);
    assert!(matches!(w.next(), WaitAction::Ready));
}

#[test]
fn direct_config_merges_provider_and_default_model() {
    let content = r#"{"gateway":{"mode":"local"},"models":{"providers":{"other":{"x":1.5}}},"agents":{"defaults":{"model":{"fallback":"a/b"}}}}"#;
    let out = merged_openclaw_config(content, "bailian", "sk-1", "https://dashscope.example/v1", "qwen-max").unwrap();
    let v: serde_json::Value = serde_json::from_str(&out).unwrap();
    assert_eq!(v["gateway"]["mode"], "local");
    assert_eq!(v["models"]["providers"]["other"]["x"].as_f64(), Some(1.5));
    let p = &v["models"]["providers"]["bailian"];
    assert_eq!(p["baseUrl"], "https://dashscope.example/v1");
    assert_eq!(p["apiKey"], "sk-1");
    assert_eq!(p["api"], "openai-completions");
    let m = &p["models"][0];
    assert_eq!(m["id"], "qwen-max");
    assert_eq!(m["name"], "qwen-max");
    assert_eq!(m["reasoning"], false);
    assert_eq!(m["input"][1], "image");
    assert_eq!(m["cost"]["cacheWrite"].as_u64(), Some(0));
    assert_eq!(m["contextWindow"].as_u64(), Some(1000000));
    assert_eq!(m["maxTokens"].as_u64(), Some(65536));
    assert_eq!(v["agents"]["defaults"]["model"]["primary"], "bailian/qwen-max");
    assert_eq!(v["agents"]["defaults"]["model"]["fallback"], "a/b");

    let fresh = merged_openclaw_config("{}", "bailian", "k", "u", "").unwrap();
    let v: serde_json::Value = serde_json::from_str(&fresh).unwrap();
    assert_eq!(v["models"]["providers"]["bailian"]["models"][0]["id"], "default");
    assert_eq!(v["agents"]["defaults"]["model"]["primary"], "bailian/default");
}

#[test]
fn direct_config_errors_in_order() {
    assert!(merged_openclaw_config("not json", "p", "k", "u", "m").unwrap_err().starts_with("Invalid openclaw.json: "));
    assert_eq!(merged_openclaw_config("[]", "p", "k", "u", "m").unwrap_err(), "Config is not an object");
    assert_eq!(merged_openclaw_config(r#"{"models":1,"agents":2}"#, "p", "k", "u", "m").unwrap_err(), "models is not an object");
    assert_eq!(merged_openclaw_config(r#"{"models":{"providers":[]}}"#, "p", "k", "u", "m").unwrap_err(), "providers is not an object");
    assert_eq!(merged_openclaw_config(r#"{"agents":"x"}"#, "p", "k", "u", "m").unwrap_err(), "agents is not an object");
    assert_eq!(merged_openclaw_config(r#"{"agents":{"defaults":null}}"#, "p", "k", "u", "m").unwrap_err(), "defaults is not an object");
    assert_eq!(merged_openclaw_config(r#"{"agents":{"defaults":{"model":"x"}}}"#, "p", "k", "u", "m").unwrap_err(), "model is not an object");
}

#[test]
fn json_fields_read_from_text() {
    assert_eq!(gateway_token_from_config(r#"{"gateway":{"auth":{"token":"abc"}}}"#), Some("abc".to_string()));
    assert_eq!(gateway_token_from_config(r#"{"gateway":{"auth":{"token":5}}}"#), None);
    assert_eq!(gateway_token_from_config("oops"), None);
    assert_eq!(
        openclaw_version_from_npm_list(r#"{"dependencies":{"openclaw":{"version":"1.2.3"}}}"#),
        Some("1.2.3".to_string())
    );
    assert_eq!(openclaw_version_from_npm_list("{}"), None);
    assert_eq!(
        api_response_fields(r#"{"error":{"message":"bad key"},"model":"gpt"}"#),
        (Some("bad key".to_string()), Some("gpt".to_string()))
    );
    assert_eq!(api_response_fields("plain text"), (None, None));
}

#[test]
fn app_update_read_from_version_json() {
    let body: serde_json::Value =
        serde_json::from_str(r#"{"version":"1.2.0","download_url":7,"release_notes":"fixes"}"#).unwrap();
    let info = malalongxia::config::app_update_from_json("1.1.0".to_string(), &body);
    assert!(info.has_update);
    assert_eq!(info.latest_version, "1.2.0");
    assert_eq!(info.download_url, "https://malalongxia.com");
    assert_eq!(info.release_notes, "fixes");
    let same: serde_json::Value = serde_json::from_str(r#"{"version":"1.1.0"}"#).unwrap();
    assert!(!malalongxia::config::app_update_from_json("1.1.0".to_string(), &same).has_update);
}

#[test]
fn chat_test_request_and_update_failure_text() {
    let body = malalongxia::config::chat_test_request("gpt-4o").unwrap();
    let v: serde_json::Value = serde_json::from_str(&body).unwrap();
    assert_eq!(v["model"], "gpt-4o");
    assert_eq!(v["messages"][0]["role"], "user");
    assert_eq!(v["messages"][0]["content"], "Hi");
    assert_eq!(v["max_tokens"].as_u64(), Some(5));
    assert_eq!(v["stream"], false);
    assert!(!body.contains(' '));
    assert_eq!(
        malalongxia::config::update_failure_message("e1", "e2"),
        "Update failed: e1\nnpm fallback: e2"
    );
}

#[test]
fn direct_config_twice_writes_the_same() {
    let once = merged_openclaw_config(r#"{"a":1}"#, "bailian", "k", "u", "m").unwrap();
    let twice = merged_openclaw_config(&once, "bailian", "k", "u", "m").unwrap();
    assert_eq!(once, twice);
}

#[test]
fn repair_lines_carry_ascii_markers() {
    let report = repair_report(false, false, Some("boom"), PermissionStep::Failed("denied".to_string()));
    let lines: Vec<&str> = report.lines().collect();
    assert_eq!(lines.len(), 5);
    for l in lines {
        assert!(l.starts_with("[OK]") || l.starts_with("[FAIL]") || l.starts_with("[WARN]"));
    }
}
