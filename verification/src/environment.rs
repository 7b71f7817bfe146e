//! The environment checks of the setup wizard: which check was asked for,
//! and the verdict of each check from what was observed.

use vstd::prelude::*;
use crate::text::{
    chars_of, decimal, decimal_string, push_str, starts_with, str_eq, str_starts_with,
    string_of, to_owned_string, trim, trim_exec, slice_chars,
};
use crate::version::{node_version_meets_minimum, node_version_ok};

verus! {

/// The checks the wizard can run.
pub enum CheckKind {
    Os,
    Node,
    Npm,
    Git,
    Network,
    Disk,
}

/// Which check an id names; an unknown id is refused with
/// `"Unknown check id: <id>"`.
pub open spec fn check_kind(id: Seq<char>) -> Option<CheckKind> {
    if id == "os"@ {
        Some(CheckKind::Os)
    } else if id == "node"@ {
        Some(CheckKind::Node)
    } else if id == "npm"@ {
        Some(CheckKind::Npm)
    } else if id == "git"@ {
        Some(CheckKind::Git)
    } else if id == "network"@ {
        Some(CheckKind::Network)
    } else if id == "disk"@ {
        Some(CheckKind::Disk)
    } else {
        None
    }
}

/// The check named by `check_id`.
pub fn parse_check_id(check_id: &str) -> (r: Result<CheckKind, String>)
    ensures
        match r {
            Ok(k) => check_kind(check_id@) == Some(k),
            Err(m) => check_kind(check_id@) is None && m@ == "Unknown check id: "@ + check_id@,
        },
{
    if str_eq(check_id, "os") {
        Ok(CheckKind::Os)
    } else if str_eq(check_id, "node") {
        Ok(CheckKind::Node)
    } else if str_eq(check_id, "npm") {
        Ok(CheckKind::Npm)
    } else if str_eq(check_id, "git") {
        Ok(CheckKind::Git)
    } else if str_eq(check_id, "network") {
        Ok(CheckKind::Network)
    } else if str_eq(check_id, "disk") {
        Ok(CheckKind::Disk)
    } else {
        let mut m = to_owned_string("Unknown check id: ");
        push_str(&mut m, check_id);
        Err(m)
    }
}

/// A value in the data of a check result.
pub enum CheckValue {
    Text(String),
    Number(u64),
}

/// The verdict of one environment check: `status` is `"passed"`,
/// `"warning"` or `"failed"`; `data` holds named values for the front end.
pub struct CheckResult {
    pub status: String,
    pub detail: String,
    pub data: Option<Vec<(String, CheckValue)>>,
}

/// A spec view of a data value.
pub enum ValueView {
    Text(Seq<char>),
    Number(nat),
}

pub open spec fn value_view(v: CheckValue) -> ValueView {
    match v {
        CheckValue::Text(s) => ValueView::Text(s@),
        CheckValue::Number(n) => ValueView::Number(n as nat),
    }
}

/// A spec view of a check result.
pub struct ResultView {
    pub status: Seq<char>,
    pub detail: Seq<char>,
    pub data: Option<Seq<(Seq<char>, ValueView)>>,
}

pub open spec fn result_view(r: CheckResult) -> ResultView {
    ResultView {
        status: r.status@,
        detail: r.detail@,
        data: match r.data {
            Some(d) => Some(d@.map_values(|e: (String, CheckValue)| (e.0@, value_view(e.1)))),
            None => None,
        },
    }
}

fn text_entry(key: &str, value: &str) -> (r: (String, CheckValue))
    ensures
        r.0@ == key@,
        value_view(r.1) == ValueView::Text(value@),
{
    (to_owned_string(key), CheckValue::Text(to_owned_string(value)))
}

fn result(status: &str, detail: String, data: Option<Vec<(String, CheckValue)>>) -> (r: CheckResult)
    ensures
        r.status@ == status@,
        r.detail@ == detail@,
        r.data == data,
{
    CheckResult { status: to_owned_string(status), detail, data }
}

/// What a command printed, when it succeeded and printed something: its
/// trimmed standard output.
pub open spec fn command_output(success: bool, stdout: Seq<char>) -> Option<Seq<char>> {
    if success && trim(stdout).len() > 0 {
        Some(trim(stdout))
    } else {
        None
    }
}

/// The trimmed standard output of a command that succeeded with some output;
/// `None` otherwise.
pub fn command_output_text(success: bool, stdout: &str) -> (r: Option<String>)
    ensures
        match r {
            Some(s) => command_output(success, stdout@) == Some(s@),
            None => command_output(success, stdout@) is None,
        },
{
    if !success {
        return None;
    }
    let v = chars_of(stdout);
    let t = trim_exec(v.as_slice());
    if t.len() == 0 {
        None
    } else {
        Some(string_of(t.as_slice()))
    }
}

/// The OS check always passes and reports the OS and its version
/// (`"unknown"` when it could not be read).
pub open spec fn os_check(os_type: Seq<char>, os_version: Option<Seq<char>>) -> ResultView {
    let v = match os_version {
        Some(v) => v,
        None => "unknown"@,
    };
    ResultView {
        status: "passed"@,
        detail: os_type + " "@ + v,
        data: Some(seq![("osType"@, ValueView::Text(os_type)), ("osVersion"@, ValueView::Text(v))]),
    }
}

/// The verdict of the OS check.
pub fn check_os_result(os_type: &str, os_version: Option<String>) -> (r: CheckResult)
    ensures
        result_view(r) == os_check(os_type@, opt_view(os_version)),
{
    let ghost ov = opt_view(os_version);
    let v = match os_version {
        Some(v) => v,
        None => to_owned_string("unknown"),
    };
    let mut detail = to_owned_string(os_type);
    push_str(&mut detail, " ");
    push_str(&mut detail, v.as_str());
    let mut data: Vec<(String, CheckValue)> = Vec::new();
    data.push(text_entry("osType", os_type));
    data.push(text_entry("osVersion", v.as_str()));
    let r = result("passed", detail, Some(data));
    assert(result_view(r).data.unwrap() =~= os_check(os_type@, ov).data.unwrap());
    r
}

/// The Node.js check: passes when `node --version` printed a version that
/// meets the minimum; fails when it is too old or Node.js is missing.
pub open spec fn node_check(version: Option<Seq<char>>) -> ResultView {
    match version {
        Some(v) => if node_version_ok(v) {
            ResultView {
                status: "passed"@,
                detail: "Node.js "@ + v,
                data: Some(seq![("version"@, ValueView::Text(v))]),
            }
        } else {
            ResultView {
                status: "failed"@,
                detail: "Node.js "@ + v + " is too old (requires >= v22.22.0)"@,
                data: Some(seq![("version"@, ValueView::Text(v))]),
            }
        },
        None => ResultView {
            status: "failed"@,
            detail: "Node.js is not installed"@,
            data: None,
        },
    }
}

/// The verdict of the Node.js check from the output of `node --version`.
pub fn check_node_result(version: Option<String>) -> (r: CheckResult)
    ensures
        result_view(r) == node_check(opt_view(version)),
{
    match version {
        Some(v) => {
            let mut data: Vec<(String, CheckValue)> = Vec::new();
            data.push(text_entry("version", v.as_str()));
            let ok = node_version_meets_minimum(v.as_str());
            let mut detail = to_owned_string("Node.js ");
            push_str(&mut detail, v.as_str());
            let status = if ok {
                "passed"
            } else {
                push_str(&mut detail, " is too old (requires >= v22.22.0)");
                "failed"
            };
            let r = result(status, detail, Some(data));
            assert(result_view(r).data.unwrap() =~= seq![("version"@, ValueView::Text(v@))]);
            r
        },
        None => result("failed", to_owned_string("Node.js is not installed"), None),
    }
}

/// The npm check: passes with npm (and pnpm when present), warns when only
/// pnpm is there, fails when neither is.
pub open spec fn npm_check(npm: Option<Seq<char>>, pnpm: Option<Seq<char>>) -> ResultView {
    match (npm, pnpm) {
        (Some(n), Some(p)) => ResultView {
            status: "passed"@,
            detail: "npm "@ + n + " / pnpm "@ + p,
            data: Some(seq![("npmVersion"@, ValueView::Text(n)), ("pnpmVersion"@, ValueView::Text(p))]),
        },
        (Some(n), None) => ResultView {
            status: "passed"@,
            detail: "npm "@ + n,
            data: Some(seq![("npmVersion"@, ValueView::Text(n))]),
        },
        (None, Some(p)) => ResultView {
            status: "warning"@,
            detail: "npm not found, pnpm "@ + p,
            data: Some(seq![("pnpmVersion"@, ValueView::Text(p))]),
        },
        (None, None) => ResultView {
            status: "failed"@,
            detail: "Neither npm nor pnpm is installed"@,
            data: None,
        },
    }
}

pub open spec fn opt_view(o: Option<String>) -> Option<Seq<char>> {
    match o {
        Some(s) => Some(s@),
        None => None,
    }
}

/// The verdict of the npm check from the outputs of `npm --version` and
/// `pnpm --version`.
pub fn check_npm_result(npm: Option<String>, pnpm: Option<String>) -> (r: CheckResult)
    ensures
        result_view(r) == npm_check(opt_view(npm), opt_view(pnpm)),
{
    match (npm, pnpm) {
        (Some(n), Some(p)) => {
            let mut detail = to_owned_string("npm ");
            push_str(&mut detail, n.as_str());
            push_str(&mut detail, " / pnpm ");
            push_str(&mut detail, p.as_str());
            let mut data: Vec<(String, CheckValue)> = Vec::new();
            data.push(text_entry("npmVersion", n.as_str()));
            data.push(text_entry("pnpmVersion", p.as_str()));
            let r = result("passed", detail, Some(data));
            assert(result_view(r).data.unwrap() =~= seq![
                ("npmVersion"@, ValueView::Text(n@)),
                ("pnpmVersion"@, ValueView::Text(p@)),
            ]);
            r
        },
        (Some(n), None) => {
            let mut detail = to_owned_string("npm ");
            push_str(&mut detail, n.as_str());
            let mut data: Vec<(String, CheckValue)> = Vec::new();
            data.push(text_entry("npmVersion", n.as_str()));
            let r = result("passed", detail, Some(data));
            assert(result_view(r).data.unwrap() =~= seq![("npmVersion"@, ValueView::Text(n@))]);
            r
        },
        (None, Some(p)) => {
            let mut detail = to_owned_string("npm not found, pnpm ");
            push_str(&mut detail, p.as_str());
            let mut data: Vec<(String, CheckValue)> = Vec::new();
            data.push(text_entry("pnpmVersion", p.as_str()));
            let r = result("warning", detail, Some(data));
            assert(result_view(r).data.unwrap() =~= seq![("pnpmVersion"@, ValueView::Text(p@))]);
            r
        },
        (None, None) => result("failed", to_owned_string("Neither npm nor pnpm is installed"), None),
    }
}

/// `git --version` output without its `"git version "` prefix.
pub open spec fn git_version_text(v: Seq<char>) -> Seq<char> {
    if starts_with(v, "git version "@) {
        v.subrange("git version "@.len() as int, v.len() as int)
    } else {
        v
    }
}

/// The Git check: passes with the version; only warns when Git is missing.
pub open spec fn git_check(version: Option<Seq<char>>) -> ResultView {
    match version {
        Some(v) => ResultView {
            status: "passed"@,
            detail: "Git "@ + git_version_text(v),
            data: Some(seq![("version"@, ValueView::Text(git_version_text(v)))]),
        },
        None => ResultView {
            status: "warning"@,
            detail: "Git is not installed (required by some npm packages)"@,
            data: None,
        },
    }
}

/// The verdict of the Git check from the output of `git --version`.
pub fn check_git_result(version: Option<String>) -> (r: CheckResult)
    ensures
        result_view(r) == git_check(opt_view(version)),
{
    match version {
        Some(v) => {
            let prefix = chars_of("git version ");
            let cv = chars_of(v.as_str());
            let ver = if str_starts_with(v.as_str(), "git version ") {
                let t = slice_chars(cv.as_slice(), prefix.len(), cv.len());
                string_of(t.as_slice())
            } else {
                v
            };
            let mut detail = to_owned_string("Git ");
            push_str(&mut detail, ver.as_str());
            let mut data: Vec<(String, CheckValue)> = Vec::new();
            data.push(text_entry("version", ver.as_str()));
            let r = result("passed", detail, Some(data));
            assert(result_view(r).data.unwrap() =~= seq![("version"@, ValueView::Text(ver@))]);
            r
        },
        None => result(
            "warning",
            to_owned_string("Git is not installed (required by some npm packages)"),
            None,
        ),
    }
}

/// Why the network probe failed.
pub enum NetworkErrorKind {
    Timeout,
    Connect,
    Other,
}

pub open spec fn error_kind_name(k: NetworkErrorKind) -> Seq<char> {
    match k {
        NetworkErrorKind::Timeout => "timeout"@,
        NetworkErrorKind::Connect => "connect"@,
        NetworkErrorKind::Other => "other"@,
    }
}

/// What the network probe observed: the HTTP status and latency of the
/// response, or the kind and text of the error.
pub enum NetworkProbe {
    Response { status: u16, elapsed_ms: u64 },
    Failure { kind: NetworkErrorKind, message: String },
}

/// The network check: passes on a success or redirect status, warns on any
/// other status, fails when the request failed.
pub open spec fn network_check(p: NetworkProbe) -> ResultView {
    match p {
        NetworkProbe::Response { status, elapsed_ms } => if 200 <= status && status <= 399 {
            ResultView {
                status: "passed"@,
                detail: "Network OK ("@ + decimal(elapsed_ms as nat) + "ms)"@,
                data: Some(seq![("latencyMs"@, ValueView::Number(elapsed_ms as nat))]),
            }
        } else {
            ResultView {
                status: "warning"@,
                detail: "Mirror returned HTTP "@ + decimal(status as nat) + " ("@ + decimal(
                    elapsed_ms as nat,
                ) + "ms)"@,
                data: Some(
                    seq![
                        ("latencyMs"@, ValueView::Number(elapsed_ms as nat)),
                        ("httpStatus"@, ValueView::Number(status as nat)),
                    ],
                ),
            }
        },
        NetworkProbe::Failure { kind, message } => ResultView {
            status: "failed"@,
            detail: "Network check failed: "@ + message@,
            data: Some(seq![("errorType"@, ValueView::Text(error_kind_name(kind)))]),
        },
    }
}

/// The verdict of the network check.
pub fn check_network_result(probe: NetworkProbe) -> (r: CheckResult)
    ensures
        result_view(r) == network_check(probe),
{
    let ghost p = probe;
    match probe {
        NetworkProbe::Response { status, elapsed_ms } => {
            let ms = decimal_string(elapsed_ms);
            if 200 <= status && status <= 399 {
                let mut detail = to_owned_string("Network OK (");
                push_str(&mut detail, ms.as_str());
                push_str(&mut detail, "ms)");
                let mut data: Vec<(String, CheckValue)> = Vec::new();
                data.push((to_owned_string("latencyMs"), CheckValue::Number(elapsed_ms)));
                let r = result("passed", detail, Some(data));
                assert(result_view(r).data.unwrap() =~= network_check(p).data.unwrap());
                r
            } else {
                let mut detail = to_owned_string("Mirror returned HTTP ");
                let st = decimal_string(status as u64);
                push_str(&mut detail, st.as_str());
                push_str(&mut detail, " (");
                push_str(&mut detail, ms.as_str());
                push_str(&mut detail, "ms)");
                let mut data: Vec<(String, CheckValue)> = Vec::new();
                data.push((to_owned_string("latencyMs"), CheckValue::Number(elapsed_ms)));
                data.push((to_owned_string("httpStatus"), CheckValue::Number(status as u64)));
                let r = result("warning", detail, Some(data));
                assert(result_view(r).data.unwrap() =~= network_check(p).data.unwrap());
                r
            }
        },
        NetworkProbe::Failure { kind, message } => {
            let mut detail = to_owned_string("Network check failed: ");
            push_str(&mut detail, message.as_str());
            let name = match kind {
                NetworkErrorKind::Timeout => "timeout",
                NetworkErrorKind::Connect => "connect",
                NetworkErrorKind::Other => "other",
            };
            let mut data: Vec<(String, CheckValue)> = Vec::new();
            data.push(text_entry("errorType", name));
            let r = result("failed", detail, Some(data));
            assert(result_view(r).data.unwrap() =~= network_check(p).data.unwrap());
            r
        },
    }
}

pub open spec fn is_data_volume(m: Seq<char>) -> bool {
    m == "/System/Volumes/Data"@
}

pub open spec fn is_root_volume(m: Seq<char>) -> bool {
    m == "/"@ || m == "C:\\"@
}

/// `k` is the disk whose free space is checked: the first macOS data volume
/// when one is mounted, else the first root (`/` or `C:\`), else the largest
/// disk (the last of equally large ones); `None` when there are no disks.
pub open spec fn is_primary_disk(mounts: Seq<Seq<char>>, totals: Seq<u64>, k: Option<int>) -> bool {
    if exists|i: int| 0 <= i < mounts.len() && #[trigger] is_data_volume(mounts[i]) {
        k matches Some(i) && 0 <= i < mounts.len() && is_data_volume(mounts[i])
            && forall|j: int| 0 <= j < i ==> !#[trigger] is_data_volume(mounts[j])
    } else if exists|i: int| 0 <= i < mounts.len() && #[trigger] is_root_volume(mounts[i]) {
        k matches Some(i) && 0 <= i < mounts.len() && is_root_volume(mounts[i])
            && forall|j: int| 0 <= j < i ==> !#[trigger] is_root_volume(mounts[j])
    } else if mounts.len() > 0 {
        k matches Some(i) && 0 <= i < mounts.len()
            && (forall|j: int| 0 <= j < mounts.len() ==> #[trigger] totals[j] <= totals[i])
            && (forall|j: int| i < j < mounts.len() ==> #[trigger] totals[j] < totals[i])
    } else {
        k is None
    }
}

/// The system drive is the disk checked: when no macOS data volume is
/// mounted, the first mount that is `/` or `C:\` is chosen, whatever the
/// sizes of the disks; a larger disk elsewhere is not taken instead.
pub proof fn lemma_system_drive_chosen(mounts: Seq<Seq<char>>, totals: Seq<u64>, k: Option<int>, i: int)
    requires
        is_primary_disk(mounts, totals, k),
        forall|j: int| 0 <= j < mounts.len() ==> mounts[j] != "/System/Volumes/Data"@,
        0 <= i < mounts.len(),
        mounts[i] == "/"@ || mounts[i] == "C:\\"@,
        forall|j: int| 0 <= j < i ==> mounts[j] != "/"@ && mounts[j] != "C:\\"@,
    ensures
        k == Some(i),
{
    assert(!exists|j: int| 0 <= j < mounts.len() && #[trigger] is_data_volume(mounts[j]));
    assert(is_root_volume(mounts[i]));
    let m = k->0;
    if m < i {
        assert(!is_root_volume(mounts[m]));
    }
    if m > i {
        assert(!is_root_volume(mounts[i]));
    }
}

fn first_mount(mounts: &Vec<String>, root: bool) -> (r: Option<usize>)
    ensures
        match r {
            Some(i) => i < mounts.len() && (if root {
                is_root_volume(mounts@[i as int]@)
            } else {
                is_data_volume(mounts@[i as int]@)
            }) && forall|j: int|
                0 <= j < i ==> !(if root {
                    is_root_volume(#[trigger] mounts@[j]@)
                } else {
                    is_data_volume(mounts@[j]@)
                }),
            None => forall|j: int|
                0 <= j < mounts.len() ==> !(if root {
                    is_root_volume(#[trigger] mounts@[j]@)
                } else {
                    is_data_volume(mounts@[j]@)
                }),
        },
{
    let mut i: usize = 0;
    while i < mounts.len()
        invariant
            i <= mounts.len(),
            forall|j: int|
                0 <= j < i ==> !(if root {
                    is_root_volume(#[trigger] mounts@[j]@)
                } else {
                    is_data_volume(mounts@[j]@)
                }),
        decreases mounts.len() - i,
    {
        let m = mounts[i].as_str();
        let hit = if root {
            str_eq(m, "/") || str_eq(m, "C:\\")
        } else {
            str_eq(m, "/System/Volumes/Data")
        };
        if hit {
            return Some(i);
        }
        i = i + 1;
    }
    None
}

/// Which disk's free space to check, given each disk's mount point and total
/// size.
pub fn primary_disk_index(mounts: &Vec<String>, totals: &Vec<u64>) -> (r: Option<usize>)
    requires
        mounts.len() == totals.len(),
    ensures
        is_primary_disk(
            mounts@.map_values(|m: String| m@),
            totals@,
            match r {
                Some(i) => Some(i as int),
                None => None,
            },
        ),
{
    let ghost ms = mounts@.map_values(|m: String| m@);
    assert forall|j: int| 0 <= j < mounts.len() implies #[trigger] ms[j] == mounts@[j]@ by {}
    match first_mount(mounts, false) {
        Some(i) => {
            return Some(i);
        },
        None => {},
    }
    assert(!exists|i: int| 0 <= i < ms.len() && #[trigger] is_data_volume(ms[i]));
    match first_mount(mounts, true) {
        Some(i) => {
            return Some(i);
        },
        None => {},
    }
    assert(!exists|i: int| 0 <= i < ms.len() && #[trigger] is_root_volume(ms[i]));
    if totals.len() == 0 {
        return None;
    }
    let mut best: usize = 0;
    let mut i: usize = 1;
    while i < totals.len()
        invariant
            1 <= i <= totals.len(),
            best < i,
            forall|j: int| 0 <= j < i ==> #[trigger] totals@[j] <= totals@[best as int],
            forall|j: int| best < j < i ==> #[trigger] totals@[j] < totals@[best as int],
        decreases totals.len() - i,
    {
        if totals[i] >= totals[best] {
            best = i;
        }
        i = i + 1;
    }
    Some(best)
}

/// The disk check when no disk could be chosen: a warning without data.
pub fn no_disk_result() -> (r: CheckResult)
    ensures
        r.status@ == "warning"@,
        r.detail@ == "Could not determine primary disk"@,
        r.data is None,
{
    result("warning", to_owned_string("Could not determine primary disk"), None)
}

/// The status word of the disk check for the free space of the chosen disk.
pub fn disk_status(available_bytes: u64) -> (r: &'static str)
    ensures
        r@ == (if disk_passes(available_bytes) {
            "passed"@
        } else {
            "failed"@
        }),
{
    if disk_space_sufficient(available_bytes) {
        "passed"
    } else {
        "failed"
    }
}

/// At least 1 GiB must be free for the disk check to pass.
pub open spec fn disk_passes(available_bytes: u64) -> bool {
    available_bytes >= 1073741824
}

/// Whether `available_bytes` free is enough (at least 1 GiB).
pub fn disk_space_sufficient(available_bytes: u64) -> (r: bool)
    ensures
        r == disk_passes(available_bytes),
{
    available_bytes >= 1073741824
}

} // verus!
