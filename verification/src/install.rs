//! Installing Node.js, Git and OpenClaw: download locations and archive
//! names, shell profile edits, the `npm install` command and its retry
//! strategy, and the messages the installer reports.

use vstd::prelude::*;
use crate::text::{
    chars_of, contains, decimal, decimal_string, parse_unsigned, parse_unsigned_exec, push_char,
    push_str, split_char, split_char_exec, str_contains, str_eq, str_starts_with, str_trim,
    string_of, to_owned_string, trim, starts_with, utf8_tail, utf8_tail_exec, string_views,
    spec_to_lowercase, to_lowercase,
};
use crate::config::trim_end_char;

verus! {

/// The Node.js release the installer downloads.
pub const NODE_VERSION: &'static str = "v22.22.0";

/// The Git release the installer downloads.
pub const GIT_VERSION: &'static str = "2.53.0";

/// The result of installing OpenClaw.
pub struct InstallResult {
    pub version: String,
}

/// Whether `node` and `npm` run, and the versions they print.
pub struct NodeVerifyResult {
    pub node_available: bool,
    pub npm_available: bool,
    pub node_version: Option<String>,
    pub npm_version: Option<String>,
}

/// The verdict on running `<tool> --version`: available when it succeeded,
/// with its trimmed output as version when that is not empty.
pub open spec fn tool_probe(success: bool, stdout: Seq<char>) -> (bool, Option<Seq<char>>) {
    if success {
        (true, if trim(stdout).len() > 0 {
            Some(trim(stdout))
        } else {
            None
        })
    } else {
        (false, None)
    }
}

pub open spec fn opt_view(o: Option<String>) -> Option<Seq<char>> {
    match o {
        Some(s) => Some(s@),
        None => None,
    }
}

fn probe(success: bool, stdout: &str) -> (r: (bool, Option<String>))
    ensures
        r.0 == tool_probe(success, stdout@).0,
        opt_view(r.1) == tool_probe(success, stdout@).1,
{
    if success {
        let t = str_trim(stdout);
        if t.as_str().is_empty() {
            (true, None)
        } else {
            (true, Some(t))
        }
    } else {
        (false, None)
    }
}

/// The availability report from running `node --version` and
/// `npm --version`.
pub fn node_verify_result(node_success: bool, node_stdout: &str, npm_success: bool, npm_stdout: &str) -> (r: NodeVerifyResult)
    ensures
        (r.node_available, opt_view(r.node_version)) == tool_probe(node_success, node_stdout@),
        (r.npm_available, opt_view(r.npm_version)) == tool_probe(npm_success, npm_stdout@),
{
    let (node_available, node_version) = probe(node_success, node_stdout);
    let (npm_available, npm_version) = probe(npm_success, npm_stdout);
    NodeVerifyResult { node_available, npm_available, node_version, npm_version }
}

/// The installed OpenClaw version as `npm list` reports it, or `"unknown"`.
pub fn installed_version_or_unknown(version: Option<String>) -> (r: InstallResult)
    ensures
        r.version@ == match version {
            Some(v) => v@,
            None => "unknown"@,
        },
{
    match version {
        Some(v) => InstallResult { version: v },
        None => InstallResult { version: to_owned_string("unknown") },
    }
}

// ---------------------------------------------------------------------------
// Download locations and archive names
// ---------------------------------------------------------------------------

/// The architecture name in Node.js and Git archive names.
pub open spec fn arch_name(arch: Seq<char>) -> Seq<char> {
    if arch == "aarch64"@ {
        "arm64"@
    } else {
        "x64"@
    }
}

fn arch_name_exec(arch: &str) -> (r: &'static str)
    ensures
        r@ == arch_name(arch@),
{
    if str_eq(arch, "aarch64") {
        "arm64"
    } else {
        "x64"
    }
}

/// The Node.js archive for `os` and `arch`: `.tar.gz` for macOS, `.tar.xz`
/// for Linux (and any other system, as x64), `.zip` for Windows.
pub open spec fn node_archive_name(os: Seq<char>, arch: Seq<char>) -> Seq<char> {
    if os == "macos"@ {
        "node-"@ + NODE_VERSION@ + "-darwin-"@ + arch_name(arch) + ".tar.gz"@
    } else if os == "linux"@ {
        "node-"@ + NODE_VERSION@ + "-linux-"@ + arch_name(arch) + ".tar.xz"@
    } else if os == "windows"@ {
        "node-"@ + NODE_VERSION@ + "-win-"@ + arch_name(arch) + ".zip"@
    } else {
        "node-"@ + NODE_VERSION@ + "-linux-x64.tar.xz"@
    }
}

/// The Node.js archive follows the machine: the ARM build (`arm64`) exactly
/// for `aarch64` and the x64 build for every other architecture, as
/// `.tar.gz` on macOS, `.tar.xz` on Linux and `.zip` on Windows; any other
/// system gets the Linux x64 archive. Two non-ARM machines get the same
/// archive, and an ARM machine never gets the x64 one.
pub proof fn lemma_archive_follows_arch(os: Seq<char>, arch: Seq<char>, arch2: Seq<char>)
    ensures
        os == "macos"@ ==> node_archive_name(os, arch) == "node-"@ + NODE_VERSION@ + "-darwin-"@ + (if arch
            == "aarch64"@ {
            "arm64"@
        } else {
            "x64"@
        }) + ".tar.gz"@,
        os == "linux"@ ==> node_archive_name(os, arch) == "node-"@ + NODE_VERSION@ + "-linux-"@ + (if arch
            == "aarch64"@ {
            "arm64"@
        } else {
            "x64"@
        }) + ".tar.xz"@,
        os == "windows"@ ==> node_archive_name(os, arch) == "node-"@ + NODE_VERSION@ + "-win-"@ + (if arch
            == "aarch64"@ {
            "arm64"@
        } else {
            "x64"@
        }) + ".zip"@,
        os != "macos"@ && os != "linux"@ && os != "windows"@ ==> node_archive_name(os, arch) == "node-"@
            + NODE_VERSION@ + "-linux-x64.tar.xz"@,
        arch != "aarch64"@ && arch2 != "aarch64"@ ==> node_archive_name(os, arch) == node_archive_name(
            os,
            arch2,
        ),
        (os == "macos"@ || os == "linux"@ || os == "windows"@) && arch == "aarch64"@ && arch2 != "aarch64"@
            ==> node_archive_name(os, arch) != node_archive_name(os, arch2),
{
    reveal_strlit("arm64");
    reveal_strlit("x64");
    reveal_strlit("macos");
    reveal_strlit("linux");
    reveal_strlit("windows");
    assert("linux"@ != "macos"@ && "windows"@ != "macos"@ && "windows"@ != "linux"@) by {
        assert("linux"@[0] != "macos"@[0] && "windows"@[0] != "macos"@[0] && "windows"@[0] != "linux"@[0]);
    }
    let a = "arm64"@;
    let x = "x64"@;
    let pre = if os == "macos"@ {
        "node-"@ + NODE_VERSION@ + "-darwin-"@
    } else if os == "linux"@ {
        "node-"@ + NODE_VERSION@ + "-linux-"@
    } else {
        "node-"@ + NODE_VERSION@ + "-win-"@
    };
    let suf = if os == "macos"@ {
        ".tar.gz"@
    } else if os == "linux"@ {
        ".tar.xz"@
    } else {
        ".zip"@
    };
    assert((pre + a + suf).len() != (pre + x + suf).len());
}

/// The name of the Node.js archive for `os` and `arch`.
pub fn node_archive_name_exec(os: &str, arch: &str) -> (r: String)
    ensures
        r@ == node_archive_name(os@, arch@),
{
    let mut s = to_owned_string("node-");
    push_str(&mut s, NODE_VERSION);
    if str_eq(os, "macos") {
        push_str(&mut s, "-darwin-");
        push_str(&mut s, arch_name_exec(arch));
        push_str(&mut s, ".tar.gz");
    } else if str_eq(os, "linux") {
        push_str(&mut s, "-linux-");
        push_str(&mut s, arch_name_exec(arch));
        push_str(&mut s, ".tar.xz");
    } else if str_eq(os, "windows") {
        push_str(&mut s, "-win-");
        push_str(&mut s, arch_name_exec(arch));
        push_str(&mut s, ".zip");
    } else {
        push_str(&mut s, "-linux-x64.tar.xz");
    }
    s
}

/// The Node.js download URL under a mirror: the mirror without trailing
/// slashes, the version, and the archive name.
pub open spec fn node_download_url(mirror_base: Seq<char>, os: Seq<char>, arch: Seq<char>) -> Seq<char> {
    trim_end_char(mirror_base, '/') + "/"@ + NODE_VERSION@ + "/"@ + node_archive_name(os, arch)
}

/// Builds the Node.js download URL from a mirror base URL such as
/// `https://npmmirror.com/mirrors/node/`, for the operating system `os` and
/// architecture `arch` (`std::env::consts::OS` and `ARCH`).
pub fn build_node_download_url(mirror_base: &str, os: &str, arch: &str) -> (r: String)
    ensures
        r@ == node_download_url(mirror_base@, os@, arch@),
{
    let mut s = crate::config::trim_end_char_exec(mirror_base, '/');
    push_str(&mut s, "/");
    push_str(&mut s, NODE_VERSION);
    push_str(&mut s, "/");
    let name = node_archive_name_exec(os, arch);
    push_str(&mut s, name.as_str());
    s
}

/// A mirror written with or without trailing slashes gives the same
/// download URL.
pub proof fn lemma_download_url_ignores_trailing_slash(mirror_base: Seq<char>, os: Seq<char>, arch: Seq<char>)
    ensures
        node_download_url(mirror_base.push('/'), os, arch) == node_download_url(mirror_base, os, arch),
{
    assert(mirror_base.push('/').drop_last() =~= mirror_base);
}

/// `c` first stands at `k` in `s`, so `find` gives `k`.
proof fn lemma_find_char_at(s: Seq<char>, c: char, k: int)
    requires
        0 <= k < s.len(),
        s[k] == c,
        forall|j: int| 0 <= j < k ==> s[j] != c,
    ensures
        crate::text::find(s, seq![c]) == Some(k),
{
    assert forall|j: int| 0 <= j < k implies !crate::text::occurs_at(s, seq![c], j) by {
        crate::text::lemma_occurs_char(s, c, j);
    }
    crate::text::lemma_occurs_char(s, c, k);
    crate::text::lemma_find_first(s, seq![c], k);
}

/// `c` does not stand in `s`, so `find` gives nothing.
proof fn lemma_find_char_none(s: Seq<char>, c: char)
    requires
        forall|j: int| 0 <= j < s.len() ==> s[j] != c,
    ensures
        crate::text::find(s, seq![c]) is None,
        !contains(s, seq![c]),
{
    crate::text::lemma_find(s, seq![c]);
    if contains(s, seq![c]) {
        let j = choose|j: int| crate::text::occurs_at(s, seq![c], j);
        crate::text::lemma_occurs_char(s, c, j);
    }
}

/// The Node.js release the installer puts in place passes the minimum
/// version check, so a fresh install is never asked to upgrade.
pub proof fn lemma_installed_node_meets_minimum()
    ensures
        crate::version::node_version_ok(NODE_VERSION@),
{
    reveal_strlit("v22.22.0");
    let s = NODE_VERSION@;
    let t = seq!['2', '2', '.', '2', '2', '.', '0'];
    let u = seq!['2', '2', '.', '0'];
    let tw = seq!['2', '2'];
    let z = seq!['0'];
    assert(s =~= seq!['v'] + t);
    assert(crate::text::trim_start(s) == s);
    assert(crate::text::trim_end(s) == s);
    assert(trim(s) == s);
    assert(crate::version::strip_v(s) =~= t);
    assert forall|j: int| 0 <= j < t.len() implies t[j] != '-' by {
        if j == 0 || j == 1 || j == 2 || j == 3 || j == 4 || j == 5 || j == 6 {
        }
    }
    lemma_find_char_none(t, '-');
    lemma_find_char_at(t, '.', 2);
    assert(t.subrange(0, 2) =~= tw);
    assert(t.subrange(3, 7) =~= u);
    lemma_find_char_at(u, '.', 2);
    assert(u.subrange(0, 2) =~= tw);
    assert(u.subrange(3, 4) =~= z);
    lemma_find_char_none(z, '.');
    assert(split_char(z, '.') == seq![z]);
    assert(split_char(u, '.') =~= seq![tw, z]);
    assert(split_char(t, '.') =~= seq![tw, tw, z]);
    assert(crate::text::all_digits(tw));
    assert(crate::text::all_digits(z));
    let two = seq!['2'];
    assert(crate::text::digit_value('2') == 2);
    assert(crate::text::digit_value('0') == 0);
    assert(crate::text::digits_value(Seq::<char>::empty()) == 0);
    assert(two.drop_last() =~= Seq::<char>::empty());
    assert(crate::text::digits_value(two) == 2);
    assert(tw.drop_last() =~= two);
    assert(crate::text::digits_value(tw) == 22);
    assert(z.drop_last() =~= Seq::<char>::empty());
    assert(crate::text::digits_value(z) == 0);
    assert(parse_unsigned(tw, u64::MAX as nat) == Some(22nat));
    assert(parse_unsigned(z, u64::MAX as nat) == Some(0nat));
}

/// The Node.js archive a full edition bundles: only for macOS and Windows.
pub open spec fn bundled_node_archive_name(os: Seq<char>, arch: Seq<char>) -> Option<Seq<char>> {
    if os == "macos"@ || os == "windows"@ {
        Some(node_archive_name(os, arch))
    } else {
        None
    }
}

/// The name of the bundled Node.js archive for `os` and `arch`, if any.
pub fn bundled_node_archive(os: &str, arch: &str) -> (r: Option<String>)
    ensures
        opt_view(r) == bundled_node_archive_name(os@, arch@),
{
    if str_eq(os, "macos") || str_eq(os, "windows") {
        Some(node_archive_name_exec(os, arch))
    } else {
        None
    }
}

/// The macOS code name for a macOS version such as `"14.5"`: Sequoia,
/// Sonoma, Ventura or Monterey by major version, Sonoma for any other.
pub open spec fn macos_codename(os_version: Seq<char>) -> Seq<char> {
    let major = match parse_unsigned(split_char(os_version, '.')[0], u32::MAX as nat) {
        Some(v) => v,
        None => 0,
    };
    if major == 15 {
        "sequoia"@
    } else if major == 14 {
        "sonoma"@
    } else if major == 13 {
        "ventura"@
    } else if major == 12 {
        "monterey"@
    } else {
        "sonoma"@
    }
}

proof fn lemma_split_nonempty(s: Seq<char>, c: char)
    ensures
        split_char(s, c).len() > 0,
    decreases s.len(),
{
    match crate::text::find(s, seq![c]) {
        Some(i) => if 0 <= i < s.len() {
            lemma_split_nonempty(s.subrange(i + 1, s.len() as int), c);
        },
        None => {},
    }
}

/// The Homebrew bottle code name for the macOS version `os_version`
/// (`""` off macOS gives Sonoma).
pub fn detect_macos_codename(os_version: &str) -> (r: &'static str)
    ensures
        r@ == macos_codename(os_version@),
{
    let v = chars_of(os_version);
    let parts = split_char_exec(v.as_slice(), '.');
    proof {
        lemma_split_nonempty(os_version@, '.');
        assert(crate::text::views(parts@)[0] == parts@[0]@);
    }
    let major = match parse_unsigned_exec(parts[0].as_slice(), 4294967295) {
        Some(m) => m,
        None => 0,
    };
    if major == 15 {
        "sequoia"
    } else if major == 14 {
        "sonoma"
    } else if major == 13 {
        "ventura"
    } else if major == 12 {
        "monterey"
    } else {
        "sonoma"
    }
}

/// The portable Git (MinGit) archive for Windows.
pub open spec fn mingit_archive_name(arch: Seq<char>) -> Seq<char> {
    if arch == "aarch64"@ {
        "MinGit-2.53.0-arm64.zip"@
    } else {
        "MinGit-2.53.0-64-bit.zip"@
    }
}

/// The Homebrew Git bottle for macOS.
pub open spec fn git_bottle_name(arch: Seq<char>, codename: Seq<char>) -> Seq<char> {
    if arch == "aarch64"@ {
        "git-2.53.0-arm64_"@ + codename + ".bottle.tar.gz"@
    } else {
        "git-2.53.0-"@ + codename + ".bottle.tar.gz"@
    }
}

/// The name of the portable Git archive for Windows.
pub fn mingit_archive(arch: &str) -> (r: &'static str)
    ensures
        r@ == mingit_archive_name(arch@),
{
    if str_eq(arch, "aarch64") {
        "MinGit-2.53.0-arm64.zip"
    } else {
        "MinGit-2.53.0-64-bit.zip"
    }
}

/// The name of the Git bottle for macOS.
pub fn git_bottle(arch: &str, codename: &str) -> (r: String)
    ensures
        r@ == git_bottle_name(arch@, codename@),
{
    let mut s = if str_eq(arch, "aarch64") {
        to_owned_string("git-2.53.0-arm64_")
    } else {
        to_owned_string("git-2.53.0-")
    };
    push_str(&mut s, codename);
    push_str(&mut s, ".bottle.tar.gz");
    s
}

/// The Git archive a full edition bundles for `os`.
pub open spec fn bundled_git_archive_name(os: Seq<char>, arch: Seq<char>, codename: Seq<char>) -> Option<Seq<char>> {
    if os == "windows"@ {
        Some(mingit_archive_name(arch))
    } else if os == "macos"@ {
        Some(git_bottle_name(arch, codename))
    } else {
        None
    }
}

/// The name of the bundled Git archive for `os`, if any.
pub fn bundled_git_archive(os: &str, arch: &str, codename: &str) -> (r: Option<String>)
    ensures
        opt_view(r) == bundled_git_archive_name(os@, arch@, codename@),
{
    if str_eq(os, "windows") {
        Some(to_owned_string(mingit_archive(arch)))
    } else if str_eq(os, "macos") {
        Some(git_bottle(arch, codename))
    } else {
        None
    }
}

/// Where a Git archive is downloaded from: this project's site first, and for
/// MinGit the npmmirror copy of the Git for Windows release as fallback.
pub open spec fn git_download_urls(file: Seq<char>) -> (Seq<char>, Seq<char>) {
    (
        "https://malalongxia.com/downloads/"@ + file,
        "https://registry.npmmirror.com/-/binary/git-for-windows/v2.53.0.windows.1/"@ + file,
    )
}

/// The primary and fallback download URLs of the Git archive `file`.
pub fn git_download_urls_exec(file: &str) -> (r: (String, String))
    ensures
        r.0@ == git_download_urls(file@).0,
        r.1@ == git_download_urls(file@).1,
{
    let mut a = to_owned_string("https://malalongxia.com/downloads/");
    push_str(&mut a, file);
    let mut b = to_owned_string(
        "https://registry.npmmirror.com/-/binary/git-for-windows/v2.53.0.windows.1/",
    );
    push_str(&mut b, file);
    (a, b)
}

// ---------------------------------------------------------------------------
// PowerShell and shell commands
// ---------------------------------------------------------------------------

/// `s` with each `'` doubled, for a PowerShell single-quoted string.
pub open spec fn ps_quote(s: Seq<char>) -> Seq<char>
    decreases s.len(),
{
    if s.len() == 0 {
        seq![]
    } else {
        ps_quote(s.drop_last()) + if s.last() == '\'' {
            seq!['\'', '\'']
        } else {
            seq![s.last()]
        }
    }
}

/// Escapes `s` for use inside a PowerShell single-quoted string.
pub fn powershell_quote(s: &str) -> (r: String)
    ensures
        r@ == ps_quote(s@),
{
    let v = chars_of(s);
    let mut out = String::new();
    let mut i: usize = 0;
    while i < v.len()
        invariant
            i <= v.len(),
            v@ == s@,
            out@ == ps_quote(v@.take(i as int)),
        decreases v.len() - i,
    {
        let c = v[i];
        assert(v@.take(i + 1).drop_last() =~= v@.take(i as int));
        if c == '\'' {
            push_char(&mut out, '\'');
            push_char(&mut out, '\'');
        } else {
            push_char(&mut out, c);
        }
        assert(out@ =~= ps_quote(v@.take(i + 1)));
        i = i + 1;
    }
    assert(v@.take(v.len() as int) =~= v@);
    out
}

/// The PowerShell command that unpacks the MinGit archive `zip` into `dest`.
pub open spec fn mingit_expand_command(zip: Seq<char>, dest: Seq<char>) -> Seq<char> {
    "Expand-Archive -Force -Path '"@ + ps_quote(zip) + "' -DestinationPath '"@ + ps_quote(dest) + "'"@
}

/// The PowerShell command that unpacks MinGit when `tar` is missing.
pub fn mingit_expand_command_exec(zip: &str, dest: &str) -> (r: String)
    ensures
        r@ == mingit_expand_command(zip@, dest@),
{
    let mut s = to_owned_string("Expand-Archive -Force -Path '");
    let z = powershell_quote(zip);
    push_str(&mut s, z.as_str());
    push_str(&mut s, "' -DestinationPath '");
    let d = powershell_quote(dest);
    push_str(&mut s, d.as_str());
    push_str(&mut s, "'");
    s
}

/// The PowerShell command that unpacks the Node.js archive `zip` through
/// the scratch directory `tmp` and moves its single top directory's contents
/// into `dest`.
pub open spec fn node_expand_command(zip: Seq<char>, tmp: Seq<char>, dest: Seq<char>) -> Seq<char> {
    let z = ps_quote(zip);
    let t = ps_quote(tmp);
    let d = ps_quote(dest);
    "Remove-Item -Recurse -Force '"@ + t + "' -ErrorAction SilentlyContinue; Expand-Archive -Force -Path '"@
        + z + "' -DestinationPath '"@ + t + "'; $sub = Get-ChildItem '"@ + t
        + "' -Directory | Select-Object -First 1; if ($sub) { Get-ChildItem $sub.FullName | Move-Item -Destination '"@
        + d + "' -Force }; Remove-Item -Recurse -Force '"@ + t + "' -ErrorAction SilentlyContinue"@
}

/// The PowerShell command that unpacks Node.js when `tar` is missing.
pub fn node_expand_command_exec(zip: &str, tmp: &str, dest: &str) -> (r: String)
    ensures
        r@ == node_expand_command(zip@, tmp@, dest@),
{
    let z = powershell_quote(zip);
    let t = powershell_quote(tmp);
    let d = powershell_quote(dest);
    let mut s = to_owned_string("Remove-Item -Recurse -Force '");
    push_str(&mut s, t.as_str());
    push_str(&mut s, "' -ErrorAction SilentlyContinue; Expand-Archive -Force -Path '");
    push_str(&mut s, z.as_str());
    push_str(&mut s, "' -DestinationPath '");
    push_str(&mut s, t.as_str());
    push_str(&mut s, "'; $sub = Get-ChildItem '");
    push_str(&mut s, t.as_str());
    push_str(
        &mut s,
        "' -Directory | Select-Object -First 1; if ($sub) { Get-ChildItem $sub.FullName | Move-Item -Destination '",
    );
    push_str(&mut s, d.as_str());
    push_str(&mut s, "' -Force }; Remove-Item -Recurse -Force '");
    push_str(&mut s, t.as_str());
    push_str(&mut s, "' -ErrorAction SilentlyContinue");
    s
}

/// The nvm install scripts tried in order: the Gitee mirror, then GitHub.
pub open spec fn nvm_script_sources() -> Seq<Seq<char>> {
    seq![
        "https://gitee.com/mirrors/nvm/raw/master/install.sh"@,
        "https://raw.githubusercontent.com/nvm-sh/nvm/v0.40.3/install.sh"@,
    ]
}

/// The nvm install script locations, in the order they are tried.
pub fn nvm_script_urls() -> (r: Vec<String>)
    ensures
        string_views(r@) == nvm_script_sources(),
{
    let mut v: Vec<String> = Vec::new();
    v.push(to_owned_string("https://gitee.com/mirrors/nvm/raw/master/install.sh"));
    v.push(to_owned_string("https://raw.githubusercontent.com/nvm-sh/nvm/v0.40.3/install.sh"));
    assert(string_views(v@) =~= nvm_script_sources());
    v
}

/// The shell command that downloads and runs an nvm install script.
pub fn nvm_fetch_command(url: &str) -> (r: String)
    ensures
        r@ == "curl -fsSL "@ + url@ + " | bash"@,
{
    let mut s = to_owned_string("curl -fsSL ");
    push_str(&mut s, url);
    push_str(&mut s, " | bash");
    s
}

/// The shell command that installs and selects Node.js 22 through nvm.
pub fn nvm_install_command(nvm_sh: &str) -> (r: String)
    ensures
        r@ == "source "@ + nvm_sh@ + " && nvm install 22 && nvm use 22"@,
{
    let mut s = to_owned_string("source ");
    push_str(&mut s, nvm_sh);
    push_str(&mut s, " && nvm install 22 && nvm use 22");
    s
}

// ---------------------------------------------------------------------------
// Shell profiles
// ---------------------------------------------------------------------------

/// Shell profiles that may receive a PATH line, in the order they are tried:
/// the first one that exists is used.
pub open spec fn shell_profiles() -> Seq<Seq<char>> {
    seq![".zshrc"@, ".zprofile"@, ".bashrc"@, ".bash_profile"@, ".profile"@]
}

/// The shell profile candidates, in the order they are tried.
pub fn shell_profile_candidates() -> (r: Vec<&'static str>)
    ensures
        r@.map_values(|s: &str| s@) == shell_profiles(),
{
    let v = vec![".zshrc", ".zprofile", ".bashrc", ".bash_profile", ".profile"];
    assert(v@.map_values(|s: &str| s@) =~= shell_profiles());
    v
}

/// The block appended to a shell profile to put `dir` first on PATH.
pub open spec fn path_export_block(label: Seq<char>, dir: Seq<char>) -> Seq<char> {
    "\n# "@ + label + " (installed by OpenClaw)\nexport PATH=\""@ + dir + ":$PATH\"\n"@
}

/// The PATH block for `dir`, labelled `label` (such as `Node.js` or `Git`).
pub fn path_export_block_exec(label: &str, dir: &str) -> (r: String)
    ensures
        r@ == path_export_block(label@, dir@),
{
    let mut s = to_owned_string("\n# ");
    push_str(&mut s, label);
    push_str(&mut s, " (installed by OpenClaw)\nexport PATH=\"");
    push_str(&mut s, dir);
    push_str(&mut s, ":$PATH\"\n");
    s
}

/// The block that puts npm's user-local global `bin` directory on PATH.
pub open spec fn npm_global_block(dir: Seq<char>) -> Seq<char> {
    "\n# npm global (configured by OpenClaw installer)\nexport PATH=\""@ + dir + ":$PATH\"\n"@
}

/// The PATH block for npm's user-local global `bin` directory.
pub fn npm_global_block_exec(dir: &str) -> (r: String)
    ensures
        r@ == npm_global_block(dir@),
{
    let mut s = to_owned_string("\n# npm global (configured by OpenClaw installer)\nexport PATH=\"");
    push_str(&mut s, dir);
    push_str(&mut s, ":$PATH\"\n");
    s
}

/// The new profile text: `block` appended, unless the profile already
/// mentions `marker` and is left alone.
pub open spec fn profile_update(content: Seq<char>, marker: Seq<char>, block: Seq<char>) -> Option<Seq<char>> {
    if contains(content, marker) {
        None
    } else {
        Some(content + block)
    }
}

/// The new text of a shell profile, or `None` when it already mentions
/// `marker`.
pub fn profile_with_block(content: &str, marker: &str, block: &str) -> (r: Option<String>)
    ensures
        opt_view(r) == profile_update(content@, marker@, block@),
{
    if str_contains(content, marker) {
        None
    } else {
        let mut s = to_owned_string(content);
        push_str(&mut s, block);
        Some(s)
    }
}

/// A profile that was updated mentions the marker afterwards, so a second
/// update leaves it alone: adding a PATH block is idempotent.
pub proof fn lemma_profile_update_idempotent(content: Seq<char>, marker: Seq<char>, block: Seq<char>)
    requires
        contains(block, marker),
    ensures
        profile_update(content, marker, block) matches Some(c2) ==> profile_update(c2, marker, block)
            is None,
{
    if !contains(content, marker) {
        let c2 = content + block;
        let i = choose|i: int| crate::text::occurs_at(block, marker, i);
        assert(c2.subrange(content.len() + i, content.len() + i + marker.len()) =~= block.subrange(
            i,
            i + marker.len(),
        ));
        assert(crate::text::occurs_at(c2, marker, content.len() + i));
    }
}


// ---------------------------------------------------------------------------
// npm install of OpenClaw
// ---------------------------------------------------------------------------

/// Number of `npm install` attempts before giving up.
pub const NPM_INSTALL_ATTEMPTS: u32 = 3;

/// The npm registry given by a mirror URL (without trailing slashes).
pub fn registry_from_mirror(mirror: &str) -> (r: String)
    ensures
        r@ == trim_end_char(mirror@, '/'),
{
    crate::config::trim_end_char_exec(mirror, '/')
}

/// The `npm` arguments of an install attempt.
pub open spec fn npm_install_args(registry: Seq<char>, omit_optional: bool) -> Seq<Seq<char>> {
    seq!["install"@, "-g"@, "openclaw@latest"@, "--registry"@, registry] + (if omit_optional {
        seq!["--omit=optional"@]
    } else {
        seq![]
    }) + seq!["--foreground-scripts"@]
}

/// The `npm` arguments of an install attempt against `registry`.
pub fn npm_install_args_exec(registry: &str, omit_optional: bool) -> (r: Vec<String>)
    ensures
        string_views(r@) == npm_install_args(registry@, omit_optional),
{
    let mut v: Vec<String> = Vec::new();
    v.push(to_owned_string("install"));
    v.push(to_owned_string("-g"));
    v.push(to_owned_string("openclaw@latest"));
    v.push(to_owned_string("--registry"));
    v.push(to_owned_string(registry));
    if omit_optional {
        v.push(to_owned_string("--omit=optional"));
    }
    v.push(to_owned_string("--foreground-scripts"));
    assert(string_views(v@) =~= npm_install_args(registry@, omit_optional));
    v
}

/// GitHub mirrors tried, in order, when GitHub itself is unreachable.
pub open spec fn github_mirrors() -> Seq<Seq<char>> {
    seq![
        "https://ghfast.top/https://github.com/"@,
        "https://gh-proxy.com/https://github.com/"@,
        "https://ghproxy.net/https://github.com/"@,
        "https://mirror.ghproxy.com/https://github.com/"@,
        "https://github.moeyy.xyz/https://github.com/"@,
        "https://hub.gitmirror.com/https://github.com/"@,
    ]
}

/// The GitHub mirrors, in the order they are probed.
pub fn github_mirror_candidates() -> (r: Vec<String>)
    ensures
        string_views(r@) == github_mirrors(),
{
    let mut v: Vec<String> = Vec::new();
    v.push(to_owned_string("https://ghfast.top/https://github.com/"));
    v.push(to_owned_string("https://gh-proxy.com/https://github.com/"));
    v.push(to_owned_string("https://ghproxy.net/https://github.com/"));
    v.push(to_owned_string("https://mirror.ghproxy.com/https://github.com/"));
    v.push(to_owned_string("https://github.moeyy.xyz/https://github.com/"));
    v.push(to_owned_string("https://hub.gitmirror.com/https://github.com/"));
    assert(string_views(v@) =~= github_mirrors());
    v
}

/// The Git settings passed to npm's Git: SSH and SCP-style GitHub URLs are
/// rewritten to HTTPS, and with a reachable mirror GitHub is rewritten to it.
pub open spec fn git_rewrites(mirror: Option<Seq<char>>) -> Seq<(Seq<char>, Seq<char>)> {
    seq![
        ("url.https://github.com/.insteadOf"@, "ssh://git@github.com/"@),
        ("url.https://github.com/.insteadOf"@, "git@github.com:"@),
    ] + match mirror {
        Some(m) => seq![("url."@ + m + ".insteadOf"@, "https://github.com/"@)],
        None => seq![],
    }
}

/// The Git settings as (key, value) pairs.
pub fn git_rewrite_entries(mirror: Option<&str>) -> (r: Vec<(String, String)>)
    ensures
        r@.map_values(|e: (String, String)| (e.0@, e.1@)) == git_rewrites(
            match mirror {
                Some(m) => Some(m@),
                None => None,
            },
        ),
{
    let mut v: Vec<(String, String)> = Vec::new();
    v.push((to_owned_string("url.https://github.com/.insteadOf"), to_owned_string("ssh://git@github.com/")));
    v.push((to_owned_string("url.https://github.com/.insteadOf"), to_owned_string("git@github.com:")));
    match mirror {
        Some(m) => {
            let mut k = to_owned_string("url.");
            push_str(&mut k, m);
            push_str(&mut k, ".insteadOf");
            v.push((k, to_owned_string("https://github.com/")));
        },
        None => {},
    }
    assert(v@.map_values(|e: (String, String)| (e.0@, e.1@)) =~= git_rewrites(
        match mirror {
            Some(m) => Some(m@),
            None => None,
        },
    ));
    v
}

/// The temporary gitconfig with the same rewrites, for Git versions that do
/// not read settings from the environment.
pub open spec fn gitconfig_text(mirror: Option<Seq<char>>) -> Seq<char> {
    "[url \"https://github.com/\"]\n\tinsteadOf = ssh://git@github.com/\n\tinsteadOf = git@github.com:\n"@
        + match mirror {
        Some(m) => "[url \""@ + m + "\"]\n\tinsteadOf = https://github.com/\n"@,
        None => ""@,
    }
}

/// The text of the temporary gitconfig.
pub fn gitconfig_contents(mirror: Option<&str>) -> (r: String)
    ensures
        r@ == gitconfig_text(
            match mirror {
                Some(m) => Some(m@),
                None => None,
            },
        ),
{
    let mut s = to_owned_string(
        "[url \"https://github.com/\"]\n\tinsteadOf = ssh://git@github.com/\n\tinsteadOf = git@github.com:\n",
    );
    match mirror {
        Some(m) => {
            push_str(&mut s, "[url \"");
            push_str(&mut s, m);
            push_str(&mut s, "\"]\n\tinsteadOf = https://github.com/\n");
        },
        None => {
            proof {
                reveal_strlit("");
            }
            assert(s@ =~= s@ + ""@);
        },
    }
    s
}

/// The environment variables that carry Git settings (Git 2.31 and later):
/// the count, then a key and a value variable for each entry.
pub open spec fn git_config_env(entries: Seq<(Seq<char>, Seq<char>)>) -> Seq<(Seq<char>, Seq<char>)>
    decreases entries.len(),
{
    if entries.len() == 0 {
        seq![("GIT_CONFIG_COUNT"@, decimal(0))]
    } else {
        let n = (entries.len() - 1) as nat;
        git_config_env(entries.drop_last()).update(0, ("GIT_CONFIG_COUNT"@, decimal(entries.len())))
            + seq![
            ("GIT_CONFIG_KEY_"@ + decimal(n), entries.last().0),
            ("GIT_CONFIG_VALUE_"@ + decimal(n), entries.last().1),
        ]
    }
}

/// The shape of the Git settings in the environment: `GIT_CONFIG_COUNT`
/// holds the number of entries, and entry `i` is carried by
/// `GIT_CONFIG_KEY_<i>` and `GIT_CONFIG_VALUE_<i>`, in order.
#[verifier::spinoff_prover]
pub proof fn lemma_git_config_env_shape(entries: Seq<(Seq<char>, Seq<char>)>)
    ensures
        git_config_env(entries).len() == 1 + 2 * entries.len(),
        git_config_env(entries)[0] == ("GIT_CONFIG_COUNT"@, decimal(entries.len())),
        forall|i: int|
            0 <= i < entries.len() ==> {
                &&& #[trigger] git_config_env(entries)[1 + 2 * i] == (
                    "GIT_CONFIG_KEY_"@ + decimal(i as nat),
                    entries[i].0,
                )
                &&& git_config_env(entries)[2 + 2 * i] == (
                    "GIT_CONFIG_VALUE_"@ + decimal(i as nat),
                    entries[i].1,
                )
            },
    decreases entries.len(),
{
    if entries.len() > 0 {
        let init = entries.drop_last();
        lemma_git_config_env_shape(init);
        let n = entries.len() - 1;
        let prev = git_config_env(init);
        assert forall|i: int| 0 <= i < entries.len() implies {
            &&& #[trigger] git_config_env(entries)[1 + 2 * i] == (
                "GIT_CONFIG_KEY_"@ + decimal(i as nat),
                entries[i].0,
            )
            &&& git_config_env(entries)[2 + 2 * i] == (
                "GIT_CONFIG_VALUE_"@ + decimal(i as nat),
                entries[i].1,
            )
        } by {
            if i < n {
                assert(init[i] == entries[i]);
                assert(prev[1 + 2 * i] == ("GIT_CONFIG_KEY_"@ + decimal(i as nat), init[i].0));
            }
        }
    }
}

/// The environment variables that pass the Git settings to npm's Git.
pub fn git_config_env_exec(entries: &Vec<(String, String)>) -> (r: Vec<(String, String)>)
    requires
        entries.len() < u64::MAX,
    ensures
        r@.map_values(|e: (String, String)| (e.0@, e.1@)) == git_config_env(
            entries@.map_values(|e: (String, String)| (e.0@, e.1@)),
        ),
{
    let ghost es = entries@.map_values(|e: (String, String)| (e.0@, e.1@));
    let mut v: Vec<(String, String)> = Vec::new();
    v.push((to_owned_string("GIT_CONFIG_COUNT"), decimal_string(0)));
    let mut i: usize = 0;
    while i < entries.len()
        invariant
            i <= entries.len(),
            entries.len() < u64::MAX,
            es == entries@.map_values(|e: (String, String)| (e.0@, e.1@)),
            v@.map_values(|e: (String, String)| (e.0@, e.1@)) == git_config_env(es.take(i as int)),
        decreases entries.len() - i,
    {
        let ghost before = v@.map_values(|e: (String, String)| (e.0@, e.1@));
        proof {
            lemma_git_config_env_shape(es.take(i as int));
            assert(es.take(i + 1).drop_last() =~= es.take(i as int));
            assert(es.take(i + 1).last() == es[i as int]);
        }
        let count = decimal_string((i + 1) as u64);
        v.set(0, (to_owned_string("GIT_CONFIG_COUNT"), count));
        let idx = decimal_string(i as u64);
        let mut k = to_owned_string("GIT_CONFIG_KEY_");
        push_str(&mut k, idx.as_str());
        let mut val = to_owned_string("GIT_CONFIG_VALUE_");
        push_str(&mut val, idx.as_str());
        v.push((k, to_owned_string(entries[i].0.as_str())));
        v.push((val, to_owned_string(entries[i].1.as_str())));
        assert(v@.map_values(|e: (String, String)| (e.0@, e.1@)) =~= git_config_env(
            es.take(i + 1),
        ));
        i = i + 1;
    }
    assert(es.take(entries.len() as int) =~= es);
    v
}

/// The state of the `npm install` retry loop.
pub struct NpmInstallRetry {
    attempt: u32,
    github_ok: bool,
    github_tarball_failed: bool,
    last_error: String,
    done: bool,
}

/// A spec view of the retry state.
pub struct RetryView {
    pub attempt: nat,
    pub github_ok: bool,
    pub github_tarball_failed: bool,
    pub last_error: Seq<char>,
    pub done: bool,
}

impl View for NpmInstallRetry {
    type V = RetryView;

    closed spec fn view(&self) -> RetryView {
        RetryView {
            attempt: self.attempt as nat,
            github_ok: self.github_ok,
            github_tarball_failed: self.github_tarball_failed,
            last_error: self.last_error@,
            done: self.done,
        }
    }
}

/// Whether an attempt skips optional dependencies: when GitHub is
/// unreachable, or a GitHub tarball download already failed.
pub open spec fn omits_optional(s: RetryView) -> bool {
    !s.github_ok || s.github_tarball_failed
}

/// Whether another attempt is due.
pub open spec fn attempt_due(s: RetryView) -> bool {
    !s.done && s.attempt <= NPM_INSTALL_ATTEMPTS
}

/// What the error of a failed attempt calls for before the next one:
/// `stale_staging` (ENOTEMPTY) asks for the stale staging directories to be
/// removed; `file_conflict` (EEXIST) asks for those and for the conflicting
/// `openclaw` launchers to be removed.
pub struct Cleanup {
    pub stale_staging: bool,
    pub file_conflict: bool,
}

/// What follows a failed attempt.
pub struct FailureFollowUp {
    /// The hint for the error; empty when there is none.
    pub hint: &'static str,
    /// The cleanup before a retry; `None` after the last attempt.
    pub cleanup: Option<Cleanup>,
}

/// The state after attempt `s.attempt` failed with `err`.
pub open spec fn after_failure(s: RetryView, err: Seq<char>) -> RetryView {
    RetryView {
        attempt: s.attempt + 1,
        github_ok: s.github_ok,
        github_tarball_failed: s.github_tarball_failed
            || crate::install_errors::github_tarball_failure(spec_to_lowercase(err)),
        last_error: err,
        done: s.done,
    }
}

impl NpmInstallRetry {
    /// The state before the first attempt; `github_ok` tells whether GitHub
    /// answered.
    pub fn new(github_ok: bool) -> (r: Self)
        ensures
            r@ == (RetryView {
                attempt: 1,
                github_ok,
                github_tarball_failed: false,
                last_error: Seq::<char>::empty(),
                done: false,
            }),
    {
        NpmInstallRetry {
            attempt: 1,
            github_ok,
            github_tarball_failed: false,
            last_error: String::new(),
            done: false,
        }
    }

    /// The number of the next attempt (1-based), when one is due.
    pub fn next_attempt(&self) -> (r: Option<u32>)
        ensures
            attempt_due(self@) <==> r is Some,
            r matches Some(n) ==> n as nat == self@.attempt,
    {
        if !self.done && self.attempt <= NPM_INSTALL_ATTEMPTS {
            Some(self.attempt)
        } else {
            None
        }
    }

    /// Whether the next attempt passes `--omit=optional`.
    pub fn omit_optional(&self) -> (r: bool)
        ensures
            r == omits_optional(self@),
    {
        !self.github_ok || self.github_tarball_failed
    }

    /// The `npm` arguments of the next attempt against `registry`.
    pub fn attempt_args(&self, registry: &str) -> (r: Vec<String>)
        ensures
            string_views(r@) == npm_install_args(registry@, omits_optional(self@)),
    {
        npm_install_args_exec(registry, self.omit_optional())
    }

    /// Records that the current attempt succeeded: no attempt follows and no
    /// error remains.
    pub fn record_success(&mut self)
        ensures
            final(self)@ == (RetryView {
                done: true,
                last_error: Seq::<char>::empty(),
                ..old(self)@
            }),
    {
        self.done = true;
        self.last_error = String::new();
    }

    /// Records that the current attempt failed with `err` and says what to
    /// do: the hint, and the cleanup before a retry when another attempt is
    /// left.
    pub fn record_failure(&mut self, err: &str) -> (r: FailureFollowUp)
        requires
            attempt_due(old(self)@),
        ensures
            final(self)@ == after_failure(old(self)@, err@),
            r.hint@ == crate::install_errors::install_error_hint(spec_to_lowercase(err@)),
            (old(self)@.attempt < NPM_INSTALL_ATTEMPTS) <==> r.cleanup is Some,
            r.cleanup matches Some(c) ==> {
                &&& c.stale_staging == contains(spec_to_lowercase(err@), "enotempty"@)
                &&& c.file_conflict == contains(spec_to_lowercase(err@), "eexist"@)
            },
    {
        let lower = to_lowercase(err);
        let hint = crate::install_errors::classify_lowercased_install_error(lower.as_str());
        if crate::install_errors::is_lowercased_github_tarball_error(lower.as_str()) {
            self.github_tarball_failed = true;
        }
        self.last_error = to_owned_string(err);
        let cleanup = if self.attempt < NPM_INSTALL_ATTEMPTS {
            let enotempty = str_contains(lower.as_str(), "enotempty");
            let eexist = str_contains(lower.as_str(), "eexist");
            Some(Cleanup { stale_staging: enotempty, file_conflict: eexist })
        } else {
            None
        };
        self.attempt = self.attempt + 1;
        FailureFollowUp { hint, cleanup }
    }

    /// Whether the loop ended on an error, so that a working `openclaw`
    /// must be confirmed before reporting success.
    pub fn ended_with_error(&self) -> (r: bool)
        ensures
            r == (self@.last_error.len() > 0),
    {
        !self.last_error.as_str().is_empty()
    }

    /// The error reported when all attempts failed.
    pub fn failure_message(&self) -> (r: String)
        ensures
            r@ == "Failed to install openclaw after "@ + decimal(NPM_INSTALL_ATTEMPTS as nat)
                + " attempts: "@ + self@.last_error,
    {
        let mut s = to_owned_string("Failed to install openclaw after ");
        let n = decimal_string(NPM_INSTALL_ATTEMPTS as u64);
        push_str(&mut s, n.as_str());
        push_str(&mut s, " attempts: ");
        push_str(&mut s, self.last_error.as_str());
        s
    }
}

/// Laws of the retry loop: from the first state at most three attempts are
/// made (every failure moves on by one and no attempt is due past the
/// third); once optional dependencies are skipped they stay skipped; after a
/// success no attempt is due and no error is left.
pub proof fn lemma_npm_retry_laws(s: RetryView, err: Seq<char>)
    ensures
        after_failure(s, err).attempt == s.attempt + 1,
        s.attempt > NPM_INSTALL_ATTEMPTS ==> !attempt_due(s),
        omits_optional(s) ==> omits_optional(after_failure(s, err)),
        !attempt_due(RetryView { done: true, last_error: Seq::<char>::empty(), ..s }),
        (RetryView { done: true, last_error: Seq::<char>::empty(), ..s }).last_error.len() == 0,
{
}

/// A failed attempt whose error does not mention GitHub (in any case) does
/// not change whether the next attempts skip optional dependencies.
pub proof fn lemma_non_github_failure_keeps_optional(s: RetryView, err: Seq<char>)
    requires
        !contains(spec_to_lowercase(err), "github"@),
    ensures
        after_failure(s, err).github_tarball_failed == s.github_tarball_failed,
        omits_optional(after_failure(s, err)) == omits_optional(s),
{
    crate::install_errors::lemma_github_failure_mentions_github(spec_to_lowercase(err));
}

/// Whether a directory entry under npm's global root is a stale staging
/// directory (`.openclaw-*` or `.openclaw~*`).
pub fn is_staging_entry(name: &str) -> (r: bool)
    ensures
        r == (starts_with(name@, ".openclaw-"@) || starts_with(name@, ".openclaw~"@)),
{
    str_starts_with(name, ".openclaw-") || str_starts_with(name, ".openclaw~")
}

/// The names of the `openclaw` launchers that can conflict on a reinstall:
/// the script and its `.cmd` and `.ps1` shims on Windows, the symlink
/// elsewhere.
pub open spec fn conflicting_bin_names(windows: bool) -> Seq<Seq<char>> {
    if windows {
        seq!["openclaw"@, "openclaw.cmd"@, "openclaw.ps1"@]
    } else {
        seq!["openclaw"@]
    }
}

/// The launcher names to remove after an EEXIST error.
pub fn conflicting_bins(windows: bool) -> (r: Vec<String>)
    ensures
        string_views(r@) == conflicting_bin_names(windows),
{
    let mut v: Vec<String> = Vec::new();
    v.push(to_owned_string("openclaw"));
    if windows {
        v.push(to_owned_string("openclaw.cmd"));
        v.push(to_owned_string("openclaw.ps1"));
    }
    assert(string_views(v@) =~= conflicting_bin_names(windows));
    v
}

// ---------------------------------------------------------------------------
// Child process output
// ---------------------------------------------------------------------------

/// Bytes of standard error kept for classifying a failure.
pub const STDERR_CAPTURE_BYTES: usize = 8192;

/// The standard error of a child process as it is captured: each line and a
/// newline are kept while fewer than 8 KiB are held.
pub struct StderrCapture {
    text: String,
}

impl View for StderrCapture {
    type V = Seq<char>;

    closed spec fn view(&self) -> Seq<char> {
        self.text@
    }
}

/// The capture after `line` was read.
pub open spec fn captured_after(text: Seq<char>, line: Seq<char>) -> Seq<char> {
    if vstd::utf8::encode_utf8(text).len() < STDERR_CAPTURE_BYTES {
        text + line + "\n"@
    } else {
        text
    }
}

impl StderrCapture {
    /// An empty capture.
    pub fn new() -> (r: Self)
        ensures
            r@ == Seq::<char>::empty(),
    {
        StderrCapture { text: String::new() }
    }

    /// Takes in one line of standard error.
    pub fn push_line(&mut self, line: &str)
        requires
            vstd::utf8::encode_utf8(old(self)@).len() <= usize::MAX,
        ensures
            final(self)@ == captured_after(old(self)@, line@),
    {
        if self.text.as_str().len() < STDERR_CAPTURE_BYTES {
            push_str(&mut self.text, line);
            push_char(&mut self.text, '\n');
            proof {
                reveal_strlit("\n");
            }
            assert(self.text@ =~= old(self)@ + line@ + "\n"@);
        }
    }

    /// The captured text.
    pub fn text(&self) -> (r: &str)
        ensures
            r@ == self@,
    {
        self.text.as_str()
    }
}

/// The error for a child process that exited unsuccessfully with the status
/// text `status`: the end of the captured standard error that fits in 2000
/// bytes follows, trimmed, when there is any.
pub open spec fn exit_failure(status: Seq<char>, captured: Seq<char>) -> Seq<char> {
    let tail = trim(utf8_tail(captured, 2000));
    if tail.len() == 0 {
        "Process exited with status: "@ + status
    } else {
        "Process exited with status: "@ + status + ". Output: "@ + tail
    }
}

/// The error for a child process that failed.
pub fn exit_failure_message(status: &str, captured: &str) -> (r: String)
    ensures
        r@ == exit_failure(status@, captured@),
{
    let tail = utf8_tail_exec(captured, 2000);
    let tail = tail.as_str();
    let t = str_trim(tail);
    let mut s = to_owned_string("Process exited with status: ");
    push_str(&mut s, status);
    if !t.as_str().is_empty() {
        push_str(&mut s, ". Output: ");
        push_str(&mut s, t.as_str());
    }
    s
}

/// The error when `openclaw gateway` did not come up: `openclaw doctor`'s
/// output and the end of the gateway error log that fits in 500 bytes,
/// both trimmed.
pub open spec fn gateway_timeout(doctor: Seq<char>, err_log: Seq<char>) -> Seq<char> {
    "Gateway did not respond within 30s.\n\n--- Doctor ---\n"@ + trim(doctor) + "\n--- Error Log ---\n"@
        + trim(utf8_tail(err_log, 500))
}

/// The error when the gateway did not answer within 30 seconds.
pub fn gateway_timeout_message(doctor: &str, err_log: &str) -> (r: String)
    ensures
        r@ == gateway_timeout(doctor@, err_log@),
{
    let tail = utf8_tail_exec(err_log, 500);
    let tail = tail.as_str();
    let mut s = to_owned_string("Gateway did not respond within 30s.\n\n--- Doctor ---\n");
    let d = str_trim(doctor);
    push_str(&mut s, d.as_str());
    push_str(&mut s, "\n--- Error Log ---\n");
    let t = str_trim(tail);
    push_str(&mut s, t.as_str());
    s
}

// ---------------------------------------------------------------------------
// Downloads
// ---------------------------------------------------------------------------

/// Number of download attempts before giving up.
pub const DOWNLOAD_ATTEMPTS: u32 = 3;

/// A download goes on only after a success (2xx) status; any other status is
/// reported with its text, such as `"404 Not Found"`.
pub fn check_download_status(status: u16, status_text: &str) -> (r: Result<(), String>)
    ensures
        r is Ok <==> 200 <= status <= 299,
        r matches Err(m) ==> m@ == "Download failed with status: "@ + status_text@,
{
    if 200 <= status && status <= 299 {
        Ok(())
    } else {
        let mut m = to_owned_string("Download failed with status: ");
        push_str(&mut m, status_text);
        Err(m)
    }
}

/// A download is refused when the server sends an HTML page.
pub fn check_content_type(content_type: &str) -> (r: Result<(), String>)
    ensures
        r is Ok <==> !starts_with(content_type@, "text/html"@),
        r matches Err(m) ==> m@ == "Server returned HTML instead of a file (content-type: "@
            + content_type@ + "). The download URL may be invalid."@,
{
    if str_starts_with(content_type, "text/html") {
        let mut m = to_owned_string("Server returned HTML instead of a file (content-type: ");
        push_str(&mut m, content_type);
        push_str(&mut m, "). The download URL may be invalid.");
        Err(m)
    } else {
        Ok(())
    }
}

/// Smallest size accepted for a downloaded archive: 1 MiB.
pub const MIN_DOWNLOAD_BYTES: u64 = 1048576;

/// A download smaller than 1 MiB is an error page or a truncated transfer.
pub fn check_download_size(downloaded: u64) -> (r: Result<(), String>)
    ensures
        r is Ok <==> downloaded >= MIN_DOWNLOAD_BYTES,
        r matches Err(m) ==> m@ == "Download produced only "@ + decimal(downloaded as nat)
            + " bytes (expected at least 1 MB). The server may have returned an error page or the transfer was truncated."@,
{
    if downloaded < MIN_DOWNLOAD_BYTES {
        let mut m = to_owned_string("Download produced only ");
        let d = decimal_string(downloaded);
        push_str(&mut m, d.as_str());
        push_str(
            &mut m,
            " bytes (expected at least 1 MB). The server may have returned an error page or the transfer was truncated.",
        );
        Err(m)
    } else {
        Ok(())
    }
}

/// The error after every download attempt failed.
pub fn download_failure_message(last_error: &str) -> (r: String)
    ensures
        r@ == "Download failed after "@ + decimal(DOWNLOAD_ATTEMPTS as nat) + " attempts: "@
            + last_error@,
{
    let mut m = to_owned_string("Download failed after ");
    let n = decimal_string(DOWNLOAD_ATTEMPTS as u64);
    push_str(&mut m, n.as_str());
    push_str(&mut m, " attempts: ");
    push_str(&mut m, last_error);
    m
}

/// Number of checks that `node` and `npm` run after an install.
pub const NODE_VERIFY_ATTEMPTS: u32 = 5;

/// The error when `node` or `npm` still does not run after the last check.
pub fn node_unavailable_message() -> (r: String)
    ensures
        r@ == "Node.js or npm is not available after installation. Please restart the app and try again."@,
{
    to_owned_string("Node.js or npm is not available after installation. Please restart the app and try again.")
}

/// The pre-flight check that npm runs before OpenClaw is installed: the log
/// line with npm's trimmed version when `npm --version` succeeded, else the
/// error that asks for Node.js first.
pub fn npm_preflight(success: bool, stdout: &str) -> (r: Result<String, String>)
    ensures
        success ==> (r matches Ok(l) && l@ == "npm "@ + trim(stdout@) + " detected."@),
        !success ==> (r matches Err(m) && m@
            == "npm is not available. Please install Node.js first and ensure it is in your PATH."@),
{
    if success {
        let mut l = to_owned_string("npm ");
        let v = str_trim(stdout);
        push_str(&mut l, v.as_str());
        push_str(&mut l, " detected.");
        Ok(l)
    } else {
        Err(to_owned_string("npm is not available. Please install Node.js first and ensure it is in your PATH."))
    }
}

/// The progress line after a verification attempt that found node or npm
/// missing.
pub fn verify_retry_message(attempt: u32, node_ok: bool, npm_ok: bool) -> (r: String)
    ensures
        r@ == "Verification attempt "@ + decimal(attempt as nat) + "/5: node="@ + (if node_ok {
            "ok"@
        } else {
            "not found"@
        }) + ", npm="@ + (if npm_ok {
            "ok"@
        } else {
            "not found"@
        }) + ". Retrying..."@,
{
    let mut m = to_owned_string("Verification attempt ");
    let n = decimal_string(attempt as u64);
    push_str(&mut m, n.as_str());
    push_str(&mut m, "/5: node=");
    push_str(&mut m, if node_ok { "ok" } else { "not found" });
    push_str(&mut m, ", npm=");
    push_str(&mut m, if npm_ok { "ok" } else { "not found" });
    push_str(&mut m, ". Retrying...");
    m
}


// ---------------------------------------------------------------------------
// Choosing how to install
// ---------------------------------------------------------------------------

/// How Node.js is installed.
pub enum NodeInstallRoute {
    /// Through nvm (macOS and Linux).
    Nvm,
    /// Unpacking the official archive into `~/.local/node`; `linux` selects
    /// the `.tar.xz` archive, else `.tar.gz`.
    DirectUnix { linux: bool },
    /// Unpacking the official zip into `%LOCALAPPDATA%\Programs\nodejs`.
    DirectWindows,
}

/// The route for installing Node.js with `method` on `os`, or the error
/// that stops it: nvm needs curl and a Unix system; the direct install
/// supports macOS, Linux and Windows.
pub open spec fn node_install_route_spec(method: Seq<char>, os: Seq<char>, curl_available: bool) -> Result<NodeInstallRoute, Seq<char>> {
    if method == "nvm"@ {
        if !curl_available {
            Err("curl is not installed. Please install curl first."@)
        } else if os == "macos"@ || os == "linux"@ {
            Ok(NodeInstallRoute::Nvm)
        } else {
            Err("nvm installation is not supported on "@ + os)
        }
    } else if os == "macos"@ || os == "linux"@ {
        Ok(NodeInstallRoute::DirectUnix { linux: os == "linux"@ })
    } else if os == "windows"@ {
        Ok(NodeInstallRoute::DirectWindows)
    } else {
        Err("Unsupported OS: "@ + os)
    }
}

/// How to install Node.js with `method` (`"nvm"` or a direct install) on
/// `os`; `curl_available` tells whether `curl` was found.
pub fn node_install_route(method: &str, os: &str, curl_available: bool) -> (r: Result<NodeInstallRoute, String>)
    ensures
        match (r, node_install_route_spec(method@, os@, curl_available)) {
            (Ok(a), Ok(b)) => a == b,
            (Err(m), Err(e)) => m@ == e,
            _ => false,
        },
{
    let unix = str_eq(os, "macos") || str_eq(os, "linux");
    if str_eq(method, "nvm") {
        if !curl_available {
            Err(to_owned_string("curl is not installed. Please install curl first."))
        } else if unix {
            Ok(NodeInstallRoute::Nvm)
        } else {
            let mut m = to_owned_string("nvm installation is not supported on ");
            push_str(&mut m, os);
            Err(m)
        }
    } else if unix {
        Ok(NodeInstallRoute::DirectUnix { linux: str_eq(os, "linux") })
    } else if str_eq(os, "windows") {
        Ok(NodeInstallRoute::DirectWindows)
    } else {
        let mut m = to_owned_string("Unsupported OS: ");
        push_str(&mut m, os);
        Err(m)
    }
}

/// The archive extension and `tar` flags of a direct Unix install.
pub open spec fn unix_archive_kind(linux: bool) -> (Seq<char>, Seq<char>) {
    if linux {
        ("tar.xz"@, "-xJf"@)
    } else {
        ("tar.gz"@, "-xzf"@)
    }
}

/// The archive extension and `tar` flags for a direct Unix install.
pub fn unix_archive_kind_exec(linux: bool) -> (r: (&'static str, &'static str))
    ensures
        r.0@ == unix_archive_kind(linux).0,
        r.1@ == unix_archive_kind(linux).1,
{
    if linux {
        ("tar.xz", "-xJf")
    } else {
        ("tar.gz", "-xzf")
    }
}

/// How Git is provided when it is missing.
pub enum GitInstallRoute {
    /// Portable MinGit under `%LOCALAPPDATA%\Programs\MinGit`.
    PortableWindows,
    /// A Homebrew bottle unpacked into `~/.local/git`.
    MacBottle,
}

/// The route for providing Git on `os`, or the error that asks the user to
/// install it.
pub open spec fn git_install_route_spec(os: Seq<char>) -> Result<GitInstallRoute, Seq<char>> {
    if os == "windows"@ {
        Ok(GitInstallRoute::PortableWindows)
    } else if os == "macos"@ {
        Ok(GitInstallRoute::MacBottle)
    } else if os == "linux"@ {
        Err("Git is not installed. Please install Git using your package manager (e.g. 'sudo apt install git') and try again."@)
    } else {
        Err("Git is not available on this platform ("@ + os + "). Please install Git manually."@)
    }
}

/// How to provide Git on `os`.
pub fn git_install_route(os: &str) -> (r: Result<GitInstallRoute, String>)
    ensures
        match (r, git_install_route_spec(os@)) {
            (Ok(a), Ok(b)) => a == b,
            (Err(m), Err(e)) => m@ == e,
            _ => false,
        },
{
    if str_eq(os, "windows") {
        Ok(GitInstallRoute::PortableWindows)
    } else if str_eq(os, "macos") {
        Ok(GitInstallRoute::MacBottle)
    } else if str_eq(os, "linux") {
        Err(to_owned_string(
            "Git is not installed. Please install Git using your package manager (e.g. 'sudo apt install git') and try again.",
        ))
    } else {
        let mut m = to_owned_string("Git is not available on this platform (");
        push_str(&mut m, os);
        push_str(&mut m, "). Please install Git manually.");
        Err(m)
    }
}

/// The directories written to the user PATH after a Windows install:
/// the Node.js directory, and npm's global directory under `%APPDATA%` when
/// that variable is set.
pub open spec fn windows_dirs_to_persist(node_dir: Seq<char>, appdata: Seq<char>) -> Seq<Seq<char>> {
    seq![node_dir] + if appdata.len() > 0 {
        seq![crate::path_env::windows_join(appdata, "npm"@)]
    } else {
        seq![]
    }
}

/// The directories to add to the user PATH after a Windows install.
pub fn windows_dirs_to_persist_exec(node_dir: &str, appdata: &str) -> (r: Vec<String>)
    ensures
        string_views(r@) == windows_dirs_to_persist(node_dir@, appdata@),
{
    let mut v: Vec<String> = Vec::new();
    v.push(to_owned_string(node_dir));
    if !appdata.is_empty() {
        v.push(crate::path_env::windows_join_exec(appdata, "npm"));
    }
    assert(string_views(v@) =~= windows_dirs_to_persist(node_dir@, appdata@));
    v
}

} // verus!
