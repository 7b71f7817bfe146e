//! Classification of `npm install` failures into hints for the user and into
//! the retry strategy.

use vstd::prelude::*;
use crate::text::{contains, spec_to_lowercase, str_contains, to_lowercase};

verus! {

/// The hint for an already lowercased error text: the first rule whose words
/// occur in it decides; no rule gives the empty hint.
pub open spec fn install_error_hint(e: Seq<char>) -> Seq<char> {
    if contains(e, "enotempty"@) {
        "ENOTEMPTY: stale staging directory from a previous install. The installer will clean up and retry."@
    } else if contains(e, "eexist"@) {
        "EEXIST: file conflict from a previous install. The installer will remove conflicting files and retry."@
    } else if contains(e, "eacces"@) || contains(e, "eperm"@) || contains(e, "permission denied"@) {
        "Permission error. Try running the app as Administrator (Windows) or check file permissions."@
    } else if contains(e, "enospc"@) {
        "Disk full. Free up disk space and try again."@
    } else if contains(e, "etarget"@) || contains(e, "enoent"@) {
        "Package not found. The npm registry may be temporarily unavailable."@
    } else if contains(e, "ssh"@) || contains(e, "git connection error"@) || contains(e, "ls-remote"@)
        || contains(e, "could not read from remote"@) {
        "Git SSH connection failed (port 22 blocked). This is a known issue in China — the installer will retry with HTTPS rewriting enabled."@
    } else if contains(e, "codeload.github.com"@) || (contains(e, "etimedout"@) && contains(e, "github"@)) {
        "GitHub tarball download timed out (codeload.github.com unreachable). Retrying with --omit=optional to skip optional GitHub-hosted dependencies."@
    } else if contains(e, "getaddrinfo"@) || contains(e, "enotfound"@) || (contains(e, "dns"@) && contains(e, "fail"@)) {
        "DNS resolution failed. Try changing your DNS to 119.29.29.29 (DNSPod) or 223.5.5.5 (Alibaba) and retry."@
    } else if contains(e, "network"@) || contains(e, "etimedout"@) || contains(e, "econnrefused"@)
        || contains(e, "econnreset"@) {
        "Network error. Check your internet connection or try a different mirror."@
    } else if contains(e, "gyp err"@) || contains(e, "node-gyp"@) || contains(e, "no developer tools"@)
        || contains(e, "failed to build"@) {
        "Native module compilation failed. Install build tools (macOS: xcode-select --install, Linux: sudo apt install build-essential, Windows: npm install -g windows-build-tools) if needed. This is usually not critical for core OpenClaw functionality."@
    } else if contains(e, "cmake"@) || contains(e, "msbuild"@) {
        "Build tool (cmake/msbuild) not found. This is usually not critical for OpenClaw."@
    } else if contains(e, "sharp"@) || contains(e, "libvips"@) {
        "Image processing module error. This is usually not critical."@
    } else if contains(e, "python"@) && (contains(e, "not found"@) || contains(e, "no python"@)) {
        "Python not found. Some optional native modules require Python. Install Python 3 if needed."@
    } else {
        ""@
    }
}

/// The hint for an error text that is already in lower case.
pub fn classify_lowercased_install_error(e: &str) -> (r: &'static str)
    ensures
        r@ == install_error_hint(e@),
{
    if str_contains(e, "enotempty") {
        "ENOTEMPTY: stale staging directory from a previous install. The installer will clean up and retry."
    } else if str_contains(e, "eexist") {
        "EEXIST: file conflict from a previous install. The installer will remove conflicting files and retry."
    } else if str_contains(e, "eacces") || str_contains(e, "eperm") || str_contains(e, "permission denied") {
        "Permission error. Try running the app as Administrator (Windows) or check file permissions."
    } else if str_contains(e, "enospc") {
        "Disk full. Free up disk space and try again."
    } else if str_contains(e, "etarget") || str_contains(e, "enoent") {
        "Package not found. The npm registry may be temporarily unavailable."
    } else if str_contains(e, "ssh") || str_contains(e, "git connection error") || str_contains(e, "ls-remote")
        || str_contains(e, "could not read from remote") {
        "Git SSH connection failed (port 22 blocked). This is a known issue in China — the installer will retry with HTTPS rewriting enabled."
    } else if str_contains(e, "codeload.github.com") || (str_contains(e, "etimedout") && str_contains(e, "github")) {
        "GitHub tarball download timed out (codeload.github.com unreachable). Retrying with --omit=optional to skip optional GitHub-hosted dependencies."
    } else if str_contains(e, "getaddrinfo") || str_contains(e, "enotfound") || (str_contains(e, "dns") && str_contains(e, "fail")) {
        "DNS resolution failed. Try changing your DNS to 119.29.29.29 (DNSPod) or 223.5.5.5 (Alibaba) and retry."
    } else if str_contains(e, "network") || str_contains(e, "etimedout") || str_contains(e, "econnrefused")
        || str_contains(e, "econnreset") {
        "Network error. Check your internet connection or try a different mirror."
    } else if str_contains(e, "gyp err") || str_contains(e, "node-gyp") || str_contains(e, "no developer tools")
        || str_contains(e, "failed to build") {
        "Native module compilation failed. Install build tools (macOS: xcode-select --install, Linux: sudo apt install build-essential, Windows: npm install -g windows-build-tools) if needed. This is usually not critical for core OpenClaw functionality."
    } else if str_contains(e, "cmake") || str_contains(e, "msbuild") {
        "Build tool (cmake/msbuild) not found. This is usually not critical for OpenClaw."
    } else if str_contains(e, "sharp") || str_contains(e, "libvips") {
        "Image processing module error. This is usually not critical."
    } else if str_contains(e, "python") && (str_contains(e, "not found") || str_contains(e, "no python")) {
        "Python not found. Some optional native modules require Python. Install Python 3 if needed."
    } else {
        ""
    }
}

/// An actionable hint for an `npm install` error text, matched without regard
/// to case; the empty string when no rule applies.
pub fn classify_install_error(err: &str) -> (r: &'static str)
    ensures
        r@ == install_error_hint(spec_to_lowercase(err@)),
{
    let lower = to_lowercase(err);
    classify_lowercased_install_error(lower.as_str())
}

/// Whether an already lowercased error text reports a failed GitHub tarball
/// download.
pub open spec fn github_tarball_failure(e: Seq<char>) -> bool {
    ||| contains(e, "codeload.github.com"@)
    ||| contains(e, "etimedout"@) && contains(e, "github"@)
    ||| contains(e, "network request"@) && contains(e, "github"@)
}

/// Whether an error text that is already in lower case reports a failed
/// GitHub tarball download.
pub fn is_lowercased_github_tarball_error(e: &str) -> (r: bool)
    ensures
        r == github_tarball_failure(e@),
{
    str_contains(e, "codeload.github.com") || (str_contains(e, "etimedout") && str_contains(
        e,
        "github",
    )) || (str_contains(e, "network request") && str_contains(e, "github"))
}

/// Whether an `npm install` error comes from a GitHub tarball download that
/// failed (such as `codeload.github.com` timing out), matched without regard
/// to case. Such a failure is retried with `--omit=optional`.
pub fn is_github_tarball_error(err: &str) -> (r: bool)
    ensures
        r == github_tarball_failure(spec_to_lowercase(err@)),
{
    let lower = to_lowercase(err);
    is_lowercased_github_tarball_error(lower.as_str())
}

/// A text that holds `p`, where `p` holds `q` at `j`, holds `q`.
proof fn lemma_contains_within(s: Seq<char>, p: Seq<char>, q: Seq<char>, j: int)
    requires
        contains(s, p),
        crate::text::occurs_at(p, q, j),
    ensures
        contains(s, q),
{
    let i = choose|i: int| crate::text::occurs_at(s, p, i);
    assert(s.subrange(i + j, i + j + q.len()) =~= p.subrange(j, j + q.len()));
    assert(crate::text::occurs_at(s, q, i + j));
}

/// Only an error that mentions GitHub is taken for a failed GitHub tarball
/// download: a text without `github` never is one, so it never switches the
/// install to skipping optional dependencies.
pub proof fn lemma_github_failure_mentions_github(e: Seq<char>)
    ensures
        github_tarball_failure(e) ==> contains(e, "github"@),
        !contains(e, "github"@) ==> !github_tarball_failure(e),
{
    if contains(e, "codeload.github.com"@) {
        reveal_strlit("codeload.github.com");
        reveal_strlit("github");
        let p = "codeload.github.com"@;
        let q = "github"@;
        assert forall|k: int| 0 <= k < 6 implies p.subrange(9, 15)[k] == q[k] by {
            if k == 0 {
            } else if k == 1 {
            } else if k == 2 {
            } else if k == 3 {
            } else if k == 4 {
            } else {
            }
        }
        assert(p.subrange(9, 15) =~= q);
        lemma_contains_within(e, p, q, 9);
    }
}

} // verus!
