use malalongxia::install::{
    build_node_download_url, bundled_git_archive, bundled_node_archive, check_content_type,
    check_download_size, conflicting_bins, detect_macos_codename, download_failure_message,
    exit_failure_message, gateway_timeout_message, git_config_env_exec, git_download_urls_exec,
    git_install_route, git_rewrite_entries, gitconfig_contents, github_mirror_candidates,
    installed_version_or_unknown, is_staging_entry, node_install_route, node_verify_result,
    npm_global_block_exec, npm_install_args_exec, nvm_fetch_command, nvm_install_command,
    nvm_script_urls, path_export_block_exec, powershell_quote, mingit_expand_command_exec,
    profile_with_block, registry_from_mirror, shell_profile_candidates, unix_archive_kind_exec,
    verify_retry_message, windows_dirs_to_persist_exec, GitInstallRoute, NodeInstallRoute,
    NpmInstallRetry, StderrCapture, NODE_VERSION,
};

#[test]
fn build_url_with_trailing_slash() {
    let url = build_node_download_url("https://npmmirror.com/mirrors/node/", "linux", "x86_64");
    assert!(url.starts_with("https://npmmirror.com/mirrors/node/v22.22.0/"));
    assert!(url.contains("node-v22.22.0"));
}

#[test]
fn build_url_without_trailing_slash() {
    let url = build_node_download_url("https://npmmirror.com/mirrors/node", "linux", "x86_64");
    assert!(url.starts_with("https://npmmirror.com/mirrors/node/v22.22.0/"));
}

#[test]
fn build_url_contains_correct_extension() {
    assert!(build_node_download_url("https://example.com", "macos", "aarch64").ends_with(".tar.gz"));
    assert!(build_node_download_url("https://example.com", "linux", "x86_64").ends_with(".tar.xz"));
    assert!(build_node_download_url("https://example.com", "windows", "x86_64").ends_with(".zip"));
    assert!(build_node_download_url("https://example.com", "freebsd", "x86_64").ends_with(".tar.xz"));
}

#[test]
fn build_url_contains_correct_arch() {
    assert!(build_node_download_url("https://example.com", "linux", "aarch64").contains("arm64"));
    assert!(build_node_download_url("https://example.com", "linux", "x86_64").contains("x64"));
}

#[test]
fn build_url_includes_node_version() {
    let url = build_node_download_url("https://example.com", "linux", "x86_64");
    assert!(url.contains(NODE_VERSION));
}

#[test]
fn build_url_macos_format() {
    let url = build_node_download_url("https://mirror.example.com", "macos", "aarch64");
    assert!(url.contains("darwin"), "macOS URL should contain 'darwin': {}", url);
    assert!(url.ends_with(".tar.gz"), "macOS should use .tar.gz: {}", url);
    assert!(!url.contains("linux"), "macOS URL should not contain 'linux'");
    assert_eq!(url, "https://mirror.example.com/v22.22.0/node-v22.22.0-darwin-arm64.tar.gz");
}

#[test]
fn build_url_linux_format() {
    let url = build_node_download_url("https://mirror.example.com", "linux", "x86_64");
    assert!(url.contains("linux"), "Linux URL should contain 'linux': {}", url);
    assert!(url.ends_with(".tar.xz"), "Linux should use .tar.xz: {}", url);
    assert!(!url.contains("darwin"), "Linux URL should not contain 'darwin'");
}

#[test]
fn build_url_windows_format() {
    let url = build_node_download_url("https://mirror.example.com", "windows", "x86_64");
    assert!(url.ends_with(".zip"), "Windows should use .zip: {}", url);
    assert!(!url.contains("darwin"), "Windows URL should not contain 'darwin'");
    assert!(!url.contains("linux"), "Windows URL should not contain 'linux'");
    assert_eq!(url, "https://mirror.example.com/v22.22.0/node-v22.22.0-win-x64.zip");
}

#[test]
fn build_url_format_is_base_version_filename() {
    let url = build_node_download_url("https://example.com/mirror", "linux", "x86_64");
    let parts: Vec<&str> = url.splitn(2, NODE_VERSION).collect();
    assert_eq!(parts.len(), 2, "URL should contain version exactly: {}", url);
    assert!(parts[0].ends_with('/'), "Version should be preceded by /: {}", url);
    assert!(parts[1].starts_with('/'), "Version should be followed by /: {}", url);
}

#[test]
fn build_url_strips_multiple_trailing_slashes() {
    let url = build_node_download_url("https://example.com///", "linux", "x86_64");
    assert!(!url.contains("///"), "Should strip trailing slashes: {}", url);
    assert!(url.starts_with("https://example.com/"));
}

#[test]
fn node_version_starts_with_v() {
    assert!(NODE_VERSION.starts_with('v'), "NODE_VERSION should start with 'v'");
}

#[test]
fn node_version_is_semver() {
    let stripped = &NODE_VERSION[1..];
    let parts: Vec<&str> = stripped.split('.').collect();
    assert_eq!(parts.len(), 3, "Version should be semver: {}", NODE_VERSION);
    for part in &parts {
        assert!(part.parse::<u32>().is_ok(), "Version part not numeric: {}", part);
    }
}

#[test]
fn shell_profile_candidates_are_valid() {
    let candidates = shell_profile_candidates();
    for name in &[".zshrc", ".bashrc", ".profile"] {
        assert!(candidates.contains(name));
    }
    for name in &candidates {
        assert!(name.starts_with('.'), "Profile should be a dotfile: {}", name);
    }
    assert_eq!(candidates, vec![".zshrc", ".zprofile", ".bashrc", ".bash_profile", ".profile"]);
}

#[test]
fn bundled_archives_and_codenames() {
    assert_eq!(bundled_node_archive("macos", "aarch64").as_deref(), Some("node-v22.22.0-darwin-arm64.tar.gz"));
    assert_eq!(bundled_node_archive("windows", "x86_64").as_deref(), Some("node-v22.22.0-win-x64.zip"));
    assert_eq!(bundled_node_archive("linux", "x86_64"), None);
    assert_eq!(detect_macos_codename("15.1"), "sequoia");
    assert_eq!(detect_macos_codename("14"), "sonoma");
    assert_eq!(detect_macos_codename("13.6.1"), "ventura");
    assert_eq!(detect_macos_codename("12.7"), "monterey");
    assert_eq!(detect_macos_codename("26.0"), "sonoma");
    assert_eq!(detect_macos_codename(""), "sonoma");
    assert_eq!(bundled_git_archive("windows", "aarch64", "sonoma").as_deref(), Some("MinGit-2.53.0-arm64.zip"));
    assert_eq!(bundled_git_archive("windows", "x86_64", "sonoma").as_deref(), Some("MinGit-2.53.0-64-bit.zip"));
    assert_eq!(bundled_git_archive("macos", "aarch64", "sequoia").as_deref(), Some("git-2.53.0-arm64_sequoia.bottle.tar.gz"));
    assert_eq!(bundled_git_archive("macos", "x86_64", "ventura").as_deref(), Some("git-2.53.0-ventura.bottle.tar.gz"));
    assert_eq!(bundled_git_archive("linux", "x86_64", "sonoma"), None);
    let (a, b) = git_download_urls_exec("MinGit-2.53.0-64-bit.zip");
    assert_eq!(a, "https://malalongxia.com/downloads/MinGit-2.53.0-64-bit.zip");
    assert_eq!(b, "https://registry.npmmirror.com/-/binary/git-for-windows/v2.53.0.windows.1/MinGit-2.53.0-64-bit.zip");
}

#[test]
fn powershell_commands_escape_quotes() {
    assert_eq!(powershell_quote("C:\\Users\\O'Brien"), "C:\\Users\\O''Brien");
    assert_eq!(powershell_quote("''"), "''''");
    assert_eq!(
        mingit_expand_command_exec("C:\\t\\a'b.zip", "C:\\g"),
        "Expand-Archive -Force -Path 'C:\\t\\a''b.zip' -DestinationPath 'C:\\g'"
    );
}

#[test]
fn profile_blocks() {
    let block = path_export_block_exec("Node.js", "/home/u/.local/node/bin");
    assert_eq!(block, "\n# Node.js (installed by OpenClaw)\nexport PATH=\"/home/u/.local/node/bin:$PATH\"\n");
    let updated = profile_with_block("alias ll='ls -l'\n", "/home/u/.local/node/bin", &block).unwrap();
    assert!(updated.ends_with(&block));
    assert_eq!(profile_with_block(&updated, "/home/u/.local/node/bin", &block), None);
    let npm = npm_global_block_exec("/home/u/.npm-global/bin");
    assert!(npm.contains(".npm-global"));
    assert_eq!(profile_with_block("x", ".npm-global", &npm).unwrap(), format!("x{}", npm));
}

#[test]
fn nvm_commands() {
    let urls = nvm_script_urls();
    assert_eq!(urls.len(), 2);
    assert!(urls[0].contains("gitee.com"));
    assert_eq!(nvm_fetch_command(&urls[0]), format!("curl -fsSL {} | bash", urls[0]));
    assert_eq!(nvm_install_command("/h/.nvm/nvm.sh"), "source /h/.nvm/nvm.sh && nvm install 22 && nvm use 22");
}

#[test]
fn npm_install_arguments() {
    assert_eq!(registry_from_mirror("https://registry.npmmirror.com/"), "https://registry.npmmirror.com");
    assert_eq!(
        npm_install_args_exec("https://r", false),
        vec!["install", "-g", "openclaw@latest", "--registry", "https://r", "--foreground-scripts"]
    );
    assert_eq!(
        npm_install_args_exec("https://r", true),
        vec!["install", "-g", "openclaw@latest", "--registry", "https://r", "--omit=optional", "--foreground-scripts"]
    );
}

#[test]
fn git_rewrites_and_config() {
    let e = git_rewrite_entries(None);
    assert_eq!(e.len(), 2);
    let e = git_rewrite_entries(Some("https://ghfast.top/https://github.com/"));
    assert_eq!(e.len(), 3);
    assert_eq!(e[2].0, "url.https://ghfast.top/https://github.com/.insteadOf");
    assert_eq!(e[2].1, "https://github.com/");
    let text = gitconfig_contents(Some("https://ghfast.top/https://github.com/"));
    assert_eq!(
        text,
        "[url \"https://github.com/\"]\n\tinsteadOf = ssh://git@github.com/\n\tinsteadOf = git@github.com:\n[url \"https://ghfast.top/https://github.com/\"]\n\tinsteadOf = https://github.com/\n"
    );
    let env = git_config_env_exec(&e);
    assert_eq!(env.len(), 7);
    assert_eq!(env[0], ("GIT_CONFIG_COUNT".to_string(), "3".to_string()));
    assert_eq!(env[1].0, "GIT_CONFIG_KEY_0");
    assert_eq!(env[6], ("GIT_CONFIG_VALUE_2".to_string(), "https://github.com/".to_string()));
    assert_eq!(github_mirror_candidates().len(), 6);
}

#[test]
fn npm_retry_loop_runs_at_most_three_attempts() {
    let mut r = NpmInstallRetry::new(true);
    assert_eq!(r.next_attempt(), Some(1));
    assert!(!r.omit_optional());
    let f = r.record_failure("npm ERR! code ETIMEDOUT codeload.github.com");
    assert!(f.hint.starts_with("GitHub tarball"));
    let c = f.cleanup.unwrap();
    assert!(!c.stale_staging && !c.file_conflict);
    assert_eq!(r.next_attempt(), Some(2));
    assert!(r.omit_optional());
    let f = r.record_failure("EEXIST: file already exists");
    let c = f.cleanup.unwrap();
    assert!(!c.stale_staging && c.file_conflict);
    assert!(r.omit_optional());
    let f = r.record_failure("ENOTEMPTY");
    assert!(f.cleanup.is_none());
    assert_eq!(r.next_attempt(), None);
    assert!(r.ended_with_error());
    assert_eq!(r.failure_message(), "Failed to install openclaw after 3 attempts: ENOTEMPTY");
}

#[test]
fn npm_retry_loop_stops_after_success() {
    let mut r = NpmInstallRetry::new(false);
    assert!(r.omit_optional());
    let f = r.record_failure("ENOTEMPTY: directory not empty");
    let c = f.cleanup.unwrap();
    assert!(c.stale_staging && !c.file_conflict);
    r.record_success();
    assert_eq!(r.next_attempt(), None);
    assert!(!r.ended_with_error());
}

#[test]
fn npm_cleanup_targets() {
    assert!(is_staging_entry(".openclaw-a1b2c3"));
    assert!(is_staging_entry(".openclaw~x"));
    assert!(!is_staging_entry("openclaw"));
    assert_eq!(conflicting_bins(true), vec!["openclaw", "openclaw.cmd", "openclaw.ps1"]);
    assert_eq!(conflicting_bins(false), vec!["openclaw"]);
}

#[test]
fn child_output_capture_and_errors() {
    let mut c = StderrCapture::new();
    c.push_line("npm ERR! one");
    c.push_line("two");
    assert_eq!(c.text(), "npm ERR! one\ntwo\n");
    let long = "x".repeat(9000);
    let mut c = StderrCapture::new();
    c.push_line(&long);
    c.push_line("dropped");
    assert_eq!(c.text().len(), 9001);
    assert_eq!(exit_failure_message("exit status: 1", "  \n"), "Process exited with status: exit status: 1");
    assert_eq!(exit_failure_message("exit status: 1", "boom\n"), "Process exited with status: exit status: 1. Output: boom");
    let tail = exit_failure_message("1", &"y".repeat(2500));
    assert_eq!(tail.len(), "Process exited with status: 1. Output: ".len() + 2000);
    let g = gateway_timeout_message(" ok \n", "line\n");
    assert_eq!(g, "Gateway did not respond within 30s.\n\n--- Doctor ---\nok\n--- Error Log ---\nline");
}

#[test]
fn download_checks() {
    assert!(check_content_type("application/octet-stream").is_ok());
    assert!(check_content_type("text/html; charset=utf-8").unwrap_err().contains("HTML instead of a file"));
    assert!(check_download_size(1048576).is_ok());
    assert_eq!(
        check_download_size(512).unwrap_err(),
        "Download produced only 512 bytes (expected at least 1 MB). The server may have returned an error page or the transfer was truncated."
    );
    assert_eq!(download_failure_message("timeout"), "Download failed after 3 attempts: timeout");
    assert_eq!(verify_retry_message(2, true, false), "Verification attempt 2/5: node=ok, npm=not found. Retrying...");
}

#[test]
fn install_routes() {
    assert!(matches!(node_install_route("nvm", "linux", true), Ok(NodeInstallRoute::Nvm)));
    assert_eq!(
        node_install_route("nvm", "windows", false).err().unwrap(),
        "curl is not installed. Please install curl first."
    );
    assert_eq!(node_install_route("nvm", "windows", true).err().unwrap(), "nvm installation is not supported on windows");
    assert!(matches!(node_install_route("direct", "linux", false), Ok(NodeInstallRoute::DirectUnix { linux: true })));
    assert!(matches!(node_install_route("direct", "macos", false), Ok(NodeInstallRoute::DirectUnix { linux: false })));
    assert!(matches!(node_install_route("direct", "windows", false), Ok(NodeInstallRoute::DirectWindows)));
    assert_eq!(node_install_route("direct", "haiku", false).err().unwrap(), "Unsupported OS: haiku");
    assert_eq!(unix_archive_kind_exec(true), ("tar.xz", "-xJf"));
    assert_eq!(unix_archive_kind_exec(false), ("tar.gz", "-xzf"));
    assert!(matches!(git_install_route("windows"), Ok(GitInstallRoute::PortableWindows)));
    assert!(matches!(git_install_route("macos"), Ok(GitInstallRoute::MacBottle)));
    assert!(git_install_route("linux").err().unwrap().contains("package manager"));
    assert_eq!(
        git_install_route("plan9").err().unwrap(),
        "Git is not available on this platform (plan9). Please install Git manually."
    );
    assert_eq!(windows_dirs_to_persist_exec("C:\\n", ""), vec!["C:\\n"]);
    assert_eq!(windows_dirs_to_persist_exec("C:\\n", "C:\\Users\\u\\AppData\\Roaming"), vec!["C:\\n", "C:\\Users\\u\\AppData\\Roaming\\npm"]);
}

#[test]
fn node_verification_results() {
    let r = node_verify_result(true, "v22.22.0\n", false, "");
    assert!(r.node_available);
    assert_eq!(r.node_version.as_deref(), Some("v22.22.0"));
    assert!(!r.npm_available);
    assert!(r.npm_version.is_none());
    let r = node_verify_result(true, "  ", true, "10.1.0");
    assert!(r.node_available && r.node_version.is_none());
    assert_eq!(installed_version_or_unknown(None).version, "unknown");
    assert_eq!(installed_version_or_unknown(Some("1.2.3".to_string())).version, "1.2.3");
}

#[test]
fn installed_node_release_meets_minimum() {
    assert!(malalongxia::version::node_version_meets_minimum(NODE_VERSION));
}

#[test]
fn download_url_ignores_trailing_slashes() {
    assert_eq!(
        build_node_download_url("https://npmmirror.com/mirrors/node//", "linux", "x86_64"),
        build_node_download_url("https://npmmirror.com/mirrors/node", "linux", "x86_64"),
    );
}

#[test]
fn failure_tail_moves_to_character_boundary() {
    // "错" takes 3 bytes: 700 of them are 2100 bytes, so 2000 bytes back from
    // the end falls inside a character; the tail starts at the next one.
    let captured = "错".repeat(700);
    let msg = exit_failure_message("1", &captured);
    let tail = msg.strip_prefix("Process exited with status: 1. Output: ").unwrap();
    assert_eq!(tail, "错".repeat(666));
    assert!(tail.len() <= 2000);
    let log = format!("a{}", "é".repeat(300));
    let g = gateway_timeout_message("", &log);
    assert!(g.ends_with(&"é".repeat(250)));
    assert!(!g.ends_with(&format!("a{}", "é".repeat(250))));
}

#[test]
fn download_status_and_npm_preflight() {
    assert!(malalongxia::install::check_download_status(200, "200 OK").is_ok());
    assert_eq!(
        malalongxia::install::check_download_status(404, "404 Not Found"),
        Err("Download failed with status: 404 Not Found".to_string())
    );
    assert_eq!(malalongxia::install::npm_preflight(true, "10.9.2\n"), Ok("npm 10.9.2 detected.".to_string()));
    assert_eq!(
        malalongxia::install::npm_preflight(false, ""),
        Err("npm is not available. Please install Node.js first and ensure it is in your PATH.".to_string())
    );
    assert!(malalongxia::install::node_unavailable_message().starts_with("Node.js or npm is not available"));
}
