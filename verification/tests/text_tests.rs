use malalongxia::ansi::strip_ansi_codes;
use malalongxia::install_errors::{classify_install_error, is_github_tarball_error};
use malalongxia::text::{decimal_string, str_trim};

#[test]
fn strip_ansi_removes_color_codes() {
    assert_eq!(strip_ansi_codes("\x1b[31mred\x1b[0m text"), "red text");
    assert_eq!(strip_ansi_codes("plain"), "plain");
    assert_eq!(strip_ansi_codes("a\x1bb"), "ab");
    assert_eq!(strip_ansi_codes("\x1b[1;32"), "");
    assert_eq!(strip_ansi_codes("x\x1b[2Ky"), "xy");
    assert_eq!(strip_ansi_codes(""), "");
}

#[test]
fn strip_ansi_is_idempotent_on_examples() {
    let once = strip_ansi_codes("\x1b[33mwarn\x1b[0m: \x1b[1mbold\x1b[22m");
    assert_eq!(once, "warn: bold");
    assert_eq!(strip_ansi_codes(&once), once);
    assert!(!once.contains('\x1b'));
}

#[test]
fn classify_install_error_matches_without_case() {
    assert!(classify_install_error("npm ERR! ENOTEMPTY: directory not empty").starts_with("ENOTEMPTY"));
    assert!(classify_install_error("EEXIST: file already exists").starts_with("EEXIST"));
    assert!(classify_install_error("Error: EACCES: permission denied").starts_with("Permission error"));
    assert!(classify_install_error("ENOSPC").starts_with("Disk full"));
    assert!(classify_install_error("ETARGET no matching version").starts_with("Package not found"));
    assert!(classify_install_error("git ls-remote failed").starts_with("Git SSH"));
    assert!(classify_install_error("fetch https://codeload.github.com/x failed").starts_with("GitHub tarball"));
    assert!(classify_install_error("getaddrinfo ENOTFOUND registry").starts_with("DNS resolution"));
    assert!(classify_install_error("ECONNRESET").starts_with("Network error"));
    assert!(classify_install_error("gyp ERR! build error").starts_with("Native module"));
    assert!(classify_install_error("CMake not installed").starts_with("Build tool"));
    assert!(classify_install_error("sharp: install failed").starts_with("Image processing"));
    assert!(classify_install_error("python: not found").starts_with("Python not found"));
    assert_eq!(classify_install_error("something else"), "");
}

#[test]
fn classify_prefers_earlier_rules() {
    // "etimedout" with "github" is the tarball rule, which comes before the network rule.
    assert!(classify_install_error("ETIMEDOUT github.com").starts_with("GitHub tarball"));
    assert!(classify_install_error("ETIMEDOUT registry.npmjs.org").starts_with("Network error"));
}

#[test]
fn github_tarball_errors() {
    assert!(is_github_tarball_error("request to https://CODELOAD.GITHUB.COM/x failed"));
    assert!(is_github_tarball_error("ETIMEDOUT while fetching GitHub"));
    assert!(is_github_tarball_error("network request to github failed"));
    assert!(!is_github_tarball_error("ETIMEDOUT registry"));
}

#[test]
fn lowercase_and_trim_helpers() {
    assert_eq!(str_trim("\u{3000} a b \t\n"), "a b");
    assert_eq!(decimal_string(1048576), "1048576");
}
