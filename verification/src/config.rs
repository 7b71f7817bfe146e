//! The OpenClaw gateway and its configuration: the gateway URL, which URLs
//! may be opened, the `openclaw onboard` arguments for each AI provider, the
//! status and update reports, and the messages of the management commands.

use vstd::prelude::*;
use crate::json::{
    empty_json_object, json_array, json_array_items, json_bool, json_is_object, json_member,
    json_object, json_of_bool, json_of_string, json_of_u64, json_parse, json_pretty, json_set,
    json_string, json_string_at, json_string_in, json_text_at, json_to_pretty, json_u64,
    parse_json, json_at, json_str, json_compact, json_to_compact,
};
use crate::text::{
    contains, decimal, decimal_string, push_char, push_str, spec_to_lowercase, starts_with,
    str_contains, str_eq, str_starts_with, str_trim, to_owned_string, trim, join, join_exec,
    chars_of, views, string_views,
};

verus! {

/// Port on which the local OpenClaw gateway listens.
pub const OPENCLAW_PORT: u16 = 18789;

/// Address of the local OpenClaw gateway.
pub const OPENCLAW_URL: &'static str = "http://127.0.0.1:18789";

/// The gateway address, with the auth token as a query parameter when one is
/// configured.
pub open spec fn gateway_url(token: Option<Seq<char>>) -> Seq<char> {
    match token {
        Some(t) => OPENCLAW_URL@ + "/?token="@ + t,
        None => OPENCLAW_URL@,
    }
}

/// The URL that opens the gateway's web UI for the token read from
/// `~/.openclaw/openclaw.json` (`gateway.auth.token`), if any.
pub fn gateway_url_for_token(token: Option<&str>) -> (r: String)
    ensures
        r@ == gateway_url(
            match token {
                Some(t) => Some(t@),
                None => None,
            },
        ),
{
    let mut s = to_owned_string(OPENCLAW_URL);
    match token {
        Some(t) => {
            push_str(&mut s, "/?token=");
            push_str(&mut s, t);
        },
        None => {},
    }
    s
}

/// Number of one-second polls while waiting for the gateway to answer.
pub const GATEWAY_POLLS: u32 = 30;

/// What to do next while waiting for the gateway.
pub enum WaitAction {
    /// Sleep one second, then probe the gateway.
    SleepThenProbe,
    /// The gateway answered.
    Ready,
    /// All polls went unanswered.
    GiveUp,
}

/// The state of the wait: how many probes were made, and whether the last
/// one was answered.
pub struct GatewayWait {
    probes: u32,
    answered: bool,
}

/// A spec view of the wait.
pub struct WaitView {
    pub probes: nat,
    pub answered: bool,
}

impl View for GatewayWait {
    type V = WaitView;

    closed spec fn view(&self) -> WaitView {
        WaitView { probes: self.probes as nat, answered: self.answered }
    }
}

/// The next step: done once the gateway answered, another poll while fewer
/// than 30 were made, else give up.
pub open spec fn wait_action(w: WaitView) -> WaitAction {
    if w.answered {
        WaitAction::Ready
    } else if w.probes < GATEWAY_POLLS {
        WaitAction::SleepThenProbe
    } else {
        WaitAction::GiveUp
    }
}

impl GatewayWait {
    /// The wait before any probe.
    pub fn new() -> (r: Self)
        ensures
            r@ == (WaitView { probes: 0, answered: false }),
    {
        GatewayWait { probes: 0, answered: false }
    }

    /// The next step.
    pub fn next(&self) -> (r: WaitAction)
        ensures
            r == wait_action(self@),
    {
        if self.answered {
            WaitAction::Ready
        } else if self.probes < GATEWAY_POLLS {
            WaitAction::SleepThenProbe
        } else {
            WaitAction::GiveUp
        }
    }

    /// Records the outcome of the probe that `next` asked for.
    pub fn record_probe(&mut self, answered: bool)
        requires
            wait_action(old(self)@) is SleepThenProbe,
        ensures
            final(self)@ == (WaitView { probes: old(self)@.probes + 1, answered }),
    {
        self.probes = self.probes + 1;
        self.answered = answered;
    }
}

/// Laws of the wait: it ends as ready exactly when a probe was answered, it
/// gives up only after 30 unanswered probes, and following `next` never
/// makes more than 30 probes.
pub proof fn lemma_gateway_wait_laws(w: WaitView, answered: bool)
    ensures
        wait_action(w) is Ready <==> w.answered,
        wait_action(w) is GiveUp ==> !w.answered && w.probes >= GATEWAY_POLLS,
        wait_action(w) is SleepThenProbe && w.probes <= GATEWAY_POLLS ==> (WaitView {
            probes: w.probes + 1,
            answered,
        }).probes <= GATEWAY_POLLS,
{
}

/// Only `http://` and `https://` URLs may be opened in the browser.
pub open spec fn url_allowed(url: Seq<char>) -> bool {
    starts_with(url, "http://"@) || starts_with(url, "https://"@)
}

/// Checks a URL before it is opened: refused with
/// `"Disallowed URL scheme: <url>"` unless it is `http://` or `https://`.
pub fn check_open_url(url: &str) -> (r: Result<(), String>)
    ensures
        r is Ok <==> url_allowed(url@),
        r matches Err(m) ==> m@ == "Disallowed URL scheme: "@ + url@,
{
    if !str_starts_with(url, "http://") && !str_starts_with(url, "https://") {
        let mut m = to_owned_string("Disallowed URL scheme: ");
        push_str(&mut m, url);
        return Err(m);
    }
    Ok(())
}

/// The program and arguments that open `url` in the default browser on the
/// operating system `os` (`std::env::consts::OS`).
pub open spec fn browser_command(os: Seq<char>, url: Seq<char>) -> (Seq<char>, Seq<Seq<char>>) {
    if os == "macos"@ {
        ("open"@, seq![url])
    } else if os == "windows"@ {
        ("cmd"@, seq!["/c"@, "start"@, ""@, url])
    } else {
        ("xdg-open"@, seq![url])
    }
}

/// The command that opens `url` in the default browser on `os`.
pub fn browser_command_exec(os: &str, url: &str) -> (r: (String, Vec<String>))
    ensures
        r.0@ == browser_command(os@, url@).0,
        string_views(r.1@) == browser_command(os@, url@).1,
{
    let mut args: Vec<String> = Vec::new();
    if str_eq(os, "macos") {
        args.push(to_owned_string(url));
        assert(string_views(args@) =~= seq![url@]);
        (to_owned_string("open"), args)
    } else if str_eq(os, "windows") {
        args.push(to_owned_string("/c"));
        args.push(to_owned_string("start"));
        args.push(to_owned_string(""));
        args.push(to_owned_string(url));
        assert(string_views(args@) =~= seq!["/c"@, "start"@, ""@, url@]);
        (to_owned_string("cmd"), args)
    } else {
        args.push(to_owned_string(url));
        assert(string_views(args@) =~= seq![url@]);
        (to_owned_string("xdg-open"), args)
    }
}

/// What the status panel shows about OpenClaw.
pub struct OpenClawStatus {
    pub installed: bool,
    pub running: bool,
    pub current_version: Option<String>,
    pub latest_version: Option<String>,
    pub needs_update: bool,
    pub gateway_url: String,
}

/// An update is due when both versions are known and differ.
pub open spec fn needs_update(current: Option<Seq<char>>, latest: Option<Seq<char>>) -> bool {
    match (current, latest) {
        (Some(c), Some(l)) => c != l,
        _ => false,
    }
}

pub open spec fn opt_view(o: Option<String>) -> Option<Seq<char>> {
    match o {
        Some(s) => Some(s@),
        None => None,
    }
}

/// The status report from what was probed: whether the `openclaw` binary was
/// found, whether the gateway answered, the installed and published
/// versions, and the gateway token.
pub fn openclaw_status(
    installed: bool,
    running: bool,
    current_version: Option<String>,
    latest_version: Option<String>,
    token: Option<&str>,
) -> (r: OpenClawStatus)
    ensures
        r.installed == installed,
        r.running == running,
        opt_view(r.current_version) == opt_view(current_version),
        opt_view(r.latest_version) == opt_view(latest_version),
        r.needs_update == needs_update(opt_view(current_version), opt_view(latest_version)),
        r.gateway_url@ == gateway_url(
            match token {
                Some(t) => Some(t@),
                None => None,
            },
        ),
{
    let update = match (&current_version, &latest_version) {
        (Some(c), Some(l)) => !str_eq(c.as_str(), l.as_str()),
        _ => false,
    };
    OpenClawStatus {
        installed,
        running,
        current_version,
        latest_version,
        needs_update: update,
        gateway_url: gateway_url_for_token(token),
    }
}

/// The site's `version.json` is used only when it was served with a success
/// (2xx) status; any other status is reported with its text, such as
/// `"404 Not Found"`.
pub fn version_check_status(status: u16, status_text: &str) -> (r: Result<(), String>)
    ensures
        r is Ok <==> 200 <= status <= 299,
        r matches Err(m) ==> m@ == "Version check failed with status: "@ + status_text@,
{
    if 200 <= status && status <= 299 {
        Ok(())
    } else {
        let mut m = to_owned_string("Version check failed with status: ");
        push_str(&mut m, status_text);
        Err(m)
    }
}

/// The error when both `openclaw update` and the npm fallback failed, with
/// the standard error of each.
pub fn update_failure_message(stderr: &str, npm_stderr: &str) -> (r: String)
    ensures
        r@ == "Update failed: "@ + stderr@ + "\nnpm fallback: "@ + npm_stderr@,
{
    let mut m = to_owned_string("Update failed: ");
    push_str(&mut m, stderr);
    push_str(&mut m, "\nnpm fallback: ");
    push_str(&mut m, npm_stderr);
    m
}

/// What the update check reports about the desktop app.
pub struct AppUpdateInfo {
    pub has_update: bool,
    pub current_version: String,
    pub latest_version: String,
    pub download_url: String,
    pub release_notes: String,
}

/// The site's `version.json` values, with the defaults used when a field is
/// missing or not a string.
pub open spec fn or_default(v: Option<Seq<char>>, d: Seq<char>) -> Seq<char> {
    match v {
        Some(s) => s,
        None => d,
    }
}

fn or_default_exec(v: Option<String>, d: &str) -> (r: String)
    ensures
        r@ == or_default(opt_view(v), d@),
{
    match v {
        Some(s) => s,
        None => to_owned_string(d),
    }
}

/// The update report from the running version and the fields of the site's
/// `version.json`: an update exists when a latest version is given and
/// differs from the running one.
pub fn app_update_info(
    current_version: String,
    latest_version: Option<String>,
    download_url: Option<String>,
    release_notes: Option<String>,
) -> (r: AppUpdateInfo)
    ensures
        r.current_version@ == current_version@,
        r.latest_version@ == or_default(opt_view(latest_version), ""@),
        r.download_url@ == or_default(opt_view(download_url), "https://malalongxia.com"@),
        r.release_notes@ == or_default(opt_view(release_notes), ""@),
        r.has_update == (r.latest_version@.len() > 0 && r.latest_version@ != current_version@),
{
    let latest = or_default_exec(latest_version, "");
    let url = or_default_exec(download_url, "https://malalongxia.com");
    let notes = or_default_exec(release_notes, "");
    let has_update = !latest.as_str().is_empty() && !str_eq(latest.as_str(), current_version.as_str());
    AppUpdateInfo {
        has_update,
        current_version,
        latest_version: latest,
        download_url: url,
        release_notes: notes,
    }
}

/// The string member `key` of the document `body`, if there is one.
pub open spec fn string_member(body: serde_json::Value, key: Seq<char>) -> Option<Seq<char>> {
    match json_at(body, seq![key]) {
        Some(x) => json_str(x),
        None => None,
    }
}

fn string_member_exec(body: &serde_json::Value, key: &'static str) -> (r: Option<String>)
    ensures
        opt_view(r) == string_member(*body, key@),
{
    let path = vec![key];
    assert(path@.map_values(|k: &str| k@) =~= seq![key@]);
    json_string_in(body, &path)
}

/// The update report from the running version and the site's
/// `version.json` document: its `version`, `download_url` and
/// `release_notes` strings, with the defaults of `app_update_info`.
pub fn app_update_from_json(current_version: String, body: &serde_json::Value) -> (r: AppUpdateInfo)
    ensures
        r.current_version@ == current_version@,
        r.latest_version@ == or_default(string_member(*body, "version"@), ""@),
        r.download_url@ == or_default(
            string_member(*body, "download_url"@),
            "https://malalongxia.com"@,
        ),
        r.release_notes@ == or_default(string_member(*body, "release_notes"@), ""@),
        r.has_update == (r.latest_version@.len() > 0 && r.latest_version@ != current_version@),
{
    let latest = string_member_exec(body, "version");
    let url = string_member_exec(body, "download_url");
    let notes = string_member_exec(body, "release_notes");
    app_update_info(current_version, latest, url, notes)
}

/// `s` without trailing `c` characters (`trim_end_matches`).
pub open spec fn trim_end_char(s: Seq<char>, c: char) -> Seq<char>
    decreases s.len(),
{
    if s.len() > 0 && s.last() == c {
        trim_end_char(s.drop_last(), c)
    } else {
        s
    }
}

/// The string `s` without trailing `c` characters.
pub fn trim_end_char_exec(s: &str, c: char) -> (r: String)
    ensures
        r@ == trim_end_char(s@, c),
{
    let v = chars_of(s);
    let mut j: usize = v.len();
    assert(v@.subrange(0, v.len() as int) =~= v@);
    while j > 0 && v[j - 1] == c
        invariant
            j <= v.len(),
            trim_end_char(s@, c) == trim_end_char(v@.subrange(0, j as int), c),
            v@ == s@,
        decreases j,
    {
        assert(v@.subrange(0, j as int).drop_last() =~= v@.subrange(0, j - 1));
        j = j - 1;
    }
    let t = crate::text::slice_chars(v.as_slice(), 0, j);
    crate::text::string_of(t.as_slice())
}

/// Laws of `trim_end_char`: the result does not end with `c`, and it is `s`
/// with only copies of `c` removed from its end.
pub proof fn lemma_trim_end_char(s: Seq<char>, c: char)
    ensures
        trim_end_char(s, c).len() == 0 || trim_end_char(s, c).last() != c,
        trim_end_char(s, c).len() <= s.len(),
        trim_end_char(s, c) == s.subrange(0, trim_end_char(s, c).len() as int),
        forall|i: int|
            trim_end_char(s, c).len() <= i < s.len() ==> #[trigger] s[i] == c,
    decreases s.len(),
{
    if s.len() > 0 && s.last() == c {
        lemma_trim_end_char(s.drop_last(), c);
        let t = trim_end_char(s.drop_last(), c);
        assert(s.drop_last().subrange(0, t.len() as int) =~= s.subrange(0, t.len() as int));
        assert forall|i: int| t.len() <= i < s.len() implies #[trigger] s[i] == c by {
            if i < s.len() - 1 {
                assert(s[i] == s.drop_last()[i]);
            }
        }
    } else {
        assert(s.subrange(0, s.len() as int) =~= s);
    }
}

/// The chat completions endpoint under an OpenAI-compatible base URL.
pub open spec fn chat_endpoint(base_url: Seq<char>) -> Seq<char> {
    trim_end_char(base_url, '/') + "/chat/completions"@
}

/// The chat completions endpoint used to test an API key.
pub fn chat_completions_endpoint(base_url: &str) -> (r: String)
    ensures
        r@ == chat_endpoint(base_url@),
{
    let mut s = trim_end_char_exec(base_url, '/');
    push_str(&mut s, "/chat/completions");
    s
}

/// The request that tests an API key: `model`, one user message `"Hi"`,
/// at most 5 tokens, no streaming.
pub open spec fn is_chat_test_body(b: serde_json::Value, model: Seq<char>) -> bool {
    &&& json_object(b) matches Some(m)
    &&& m == Map::<Seq<char>, serde_json::Value>::empty().insert("model"@, json_of_string(model)).insert(
        "messages"@,
        m["messages"@],
    ).insert("max_tokens"@, json_of_u64(5)).insert("stream"@, json_of_bool(false))
    &&& json_array_items(m["messages"@]) matches Some(items)
    &&& items.len() == 1
    &&& json_object(items[0]) == Some(
        Map::<Seq<char>, serde_json::Value>::empty().insert("role"@, json_of_string("user"@)).insert(
            "content"@,
            json_of_string("Hi"@),
        ),
    )
}

/// The compact JSON text of the API test request for `model`.
pub fn chat_test_request(model: &str) -> (r: Result<String, String>)
    ensures
        exists|b: serde_json::Value|
            #[trigger] is_chat_test_body(b, model@) && match json_compact(b) {
                Ok(t) => r matches Ok(s) && s@ == t,
                Err(e) => r matches Err(s) && s@ == "Failed to serialize request body: "@ + e,
            },
{
    proof {
        reveal_strlit("messages");
        reveal_strlit("max_tokens");
        reveal_strlit("stream");
        assert("messages"@ != "max_tokens"@ && "messages"@ != "stream"@) by {
            assert("messages"@[1] != "max_tokens"@[1] && "messages"@[0] != "stream"@[0]);
        }
    }
    let mut msg = empty_json_object();
    json_set(&mut msg, "role", json_string("user"));
    json_set(&mut msg, "content", json_string("Hi"));
    let mut items: Vec<serde_json::Value> = Vec::new();
    let ghost mv = msg;
    items.push(msg);
    assert(items@ =~= seq![mv]);
    let messages = json_array(items);
    let ghost msgs = messages;
    let mut b = empty_json_object();
    json_set(&mut b, "model", json_string(model));
    json_set(&mut b, "messages", messages);
    json_set(&mut b, "max_tokens", json_u64(5));
    json_set(&mut b, "stream", json_bool(false));
    assert(json_object(b)->0["messages"@] == msgs);
    let ghost bv = b;
    assert(is_chat_test_body(bv, model@));
    match json_to_compact(&b) {
        Ok(s) => Ok(s),
        Err(e) => {
            let mut m = to_owned_string("Failed to serialize request body: ");
            push_str(&mut m, e.as_str());
            Err(m)
        },
    }
}

/// The error for a failed API test: the API's own `error.message` when the
/// response carried one, else the response body.
pub open spec fn api_error(status: u16, message: Option<Seq<char>>, body: Seq<char>) -> Seq<char> {
    "API error ("@ + decimal(status as nat) + "): "@ + match message {
        Some(m) => m,
        None => body,
    }
}

/// The error for a failed API test with HTTP status `status`.
pub fn api_error_message(status: u16, message: Option<&str>, body: &str) -> (r: String)
    ensures
        r@ == api_error(
            status,
            match message {
                Some(m) => Some(m@),
                None => None,
            },
            body@,
        ),
{
    let mut s = to_owned_string("API error (");
    let d = decimal_string(status as u64);
    push_str(&mut s, d.as_str());
    push_str(&mut s, "): ");
    match message {
        Some(m) => push_str(&mut s, m),
        None => push_str(&mut s, body),
    }
    s
}

/// The answer of a successful API test: the model the API reported, or
/// `"OK"`.
pub fn api_test_success(model: Option<String>) -> (r: String)
    ensures
        r@ == or_default(opt_view(model), "OK"@),
{
    or_default_exec(model, "OK")
}

// ---------------------------------------------------------------------------
// Provider configuration
// ---------------------------------------------------------------------------

/// Providers that `openclaw onboard` knows by name.
pub open spec fn is_native_provider(p: Seq<char>) -> bool {
    p == "zai"@ || p == "openai"@ || p == "anthropic"@ || p == "moonshot"@ || p == "qianfan"@
}

/// Whether `provider` is one that `openclaw onboard` supports directly.
pub fn is_native_provider_exec(provider: &str) -> (r: bool)
    ensures
        r == is_native_provider(provider@),
{
    str_eq(provider, "zai") || str_eq(provider, "openai") || str_eq(provider, "anthropic")
        || str_eq(provider, "moonshot") || str_eq(provider, "qianfan")
}

/// The arguments every `openclaw onboard` run gets.
pub open spec fn onboard_base_args() -> Seq<Seq<char>> {
    seq![
        "onboard"@,
        "--non-interactive"@,
        "--accept-risk"@,
        "--skip-channels"@,
        "--skip-daemon"@,
        "--skip-health"@,
        "--skip-skills"@,
        "--skip-ui"@,
    ]
}

/// The provider-specific `openclaw onboard` arguments: a native provider's
/// own auth choice and key flag; any other provider goes through the custom
/// provider flags, with its base URL and model when they are given.
pub open spec fn onboard_provider_args(provider: Seq<char>, key: Seq<char>, base_url: Seq<char>, model: Seq<char>) -> Seq<Seq<char>> {
    if is_native_provider(provider) {
        seq!["--auth-choice"@, provider + "-api-key"@, "--"@ + provider + "-api-key"@, key]
    } else {
        seq!["--auth-choice"@, "custom-api-key"@, "--custom-api-key"@, key] + (if base_url.len() > 0 {
            seq!["--custom-base-url"@, base_url]
        } else {
            seq![]
        }) + (if model.len() > 0 {
            seq!["--custom-model-id"@, model]
        } else {
            seq![]
        })
    }
}

/// The five providers `openclaw onboard` knows by name (zai, openai,
/// anthropic, moonshot, qianfan) get their own auth choice and key flag,
/// never the custom-provider flags, and their model becomes the default as
/// `<provider>/<model>` (or as given when it already names a provider).
pub proof fn lemma_named_providers_onboard(p: Seq<char>, key: Seq<char>, base_url: Seq<char>, model: Seq<char>)
    requires
        p == "zai"@ || p == "openai"@ || p == "anthropic"@ || p == "moonshot"@ || p == "qianfan"@,
    ensures
        onboard_provider_args(p, key, base_url, model) == seq![
            "--auth-choice"@,
            p + "-api-key"@,
            "--"@ + p + "-api-key"@,
            key,
        ],
        p + "-api-key"@ != "custom-api-key"@,
        !is_direct_provider(p),
        model.len() > 0 ==> default_model_id(p, model) == Some(
            if contains(model, "/"@) {
                model
            } else {
                p + "/"@ + model
            },
        ),
{
    reveal_strlit("zai");
    reveal_strlit("openai");
    reveal_strlit("anthropic");
    reveal_strlit("moonshot");
    reveal_strlit("qianfan");
    reveal_strlit("bailian");
    reveal_strlit("-api-key");
    reveal_strlit("--auth-choice");
    reveal_strlit("custom-api-key");
    assert(p != "bailian"@) by {
        if p == "bailian"@ {
            assert(p.len() == 7);
            assert(p[0] == 'b');
        }
    }
    assert((p + "-api-key"@)[0] == p[0]);
    assert("custom-api-key"@[0] == 'c');
}

/// How a provider is configured.
pub enum OnboardPlan {
    /// Written straight into `openclaw.json` (providers `onboard` lacks).
    Direct,
    /// `openclaw` run with these arguments.
    Onboard(Vec<String>),
}

/// Providers that are configured by editing `openclaw.json` directly.
pub open spec fn is_direct_provider(p: Seq<char>) -> bool {
    p == "bailian"@
}

fn push_owned(v: &mut Vec<String>, s: &str)
    ensures
        string_views(final(v)@) == string_views(old(v)@).push(s@),
{
    let ghost before = string_views(v@);
    v.push(to_owned_string(s));
    assert(string_views(v@) =~= before.push(s@));
}

fn push_built(v: &mut Vec<String>, s: String)
    ensures
        string_views(final(v)@) == string_views(old(v)@).push(s@),
{
    let ghost before = string_views(v@);
    v.push(s);
    assert(string_views(v@) =~= before.push(s@));
}

/// The way `configure_api` sets up `provider`: directly for `bailian`, else
/// the `openclaw onboard` arguments for it.
pub fn onboard_plan(provider: &str, api_key: &str, base_url: &str, model: &str) -> (r: OnboardPlan)
    ensures
        is_direct_provider(provider@) <==> r is Direct,
        r matches OnboardPlan::Onboard(args) ==> string_views(args@) == onboard_base_args()
            + onboard_provider_args(provider@, api_key@, base_url@, model@),
{
    if str_eq(provider, "bailian") {
        return OnboardPlan::Direct;
    }
    let mut args: Vec<String> = Vec::new();
    push_owned(&mut args, "onboard");
    push_owned(&mut args, "--non-interactive");
    push_owned(&mut args, "--accept-risk");
    push_owned(&mut args, "--skip-channels");
    push_owned(&mut args, "--skip-daemon");
    push_owned(&mut args, "--skip-health");
    push_owned(&mut args, "--skip-skills");
    push_owned(&mut args, "--skip-ui");
    let ghost base = string_views(args@);
    assert(base =~= onboard_base_args());
    if is_native_provider_exec(provider) {
        push_owned(&mut args, "--auth-choice");
        let mut choice = to_owned_string(provider);
        push_str(&mut choice, "-api-key");
        push_built(&mut args, choice);
        let mut flag = to_owned_string("--");
        push_str(&mut flag, provider);
        push_str(&mut flag, "-api-key");
        push_built(&mut args, flag);
        push_owned(&mut args, api_key);
        assert(string_views(args@) =~= base + onboard_provider_args(
            provider@,
            api_key@,
            base_url@,
            model@,
        ));
    } else {
        push_owned(&mut args, "--auth-choice");
        push_owned(&mut args, "custom-api-key");
        push_owned(&mut args, "--custom-api-key");
        push_owned(&mut args, api_key);
        let ghost s1 = string_views(args@);
        if !base_url.is_empty() {
            push_owned(&mut args, "--custom-base-url");
            push_owned(&mut args, base_url);
        }
        let ghost s2 = string_views(args@);
        if !model.is_empty() {
            push_owned(&mut args, "--custom-model-id");
            push_owned(&mut args, model);
        }
        proof {
            let b = if base_url@.len() > 0 {
                seq!["--custom-base-url"@, base_url@]
            } else {
                Seq::<Seq<char>>::empty()
            };
            let m = if model@.len() > 0 {
                seq!["--custom-model-id"@, model@]
            } else {
                Seq::<Seq<char>>::empty()
            };
            assert(s2 =~= s1 + b);
            assert(string_views(args@) =~= s2 + m);
            assert(string_views(args@) =~= base + onboard_provider_args(
                provider@,
                api_key@,
                base_url@,
                model@,
            ));
        }
    }
    OnboardPlan::Onboard(args)
}

/// The default model to set after onboarding a native provider: the model as
/// given when it already names its provider (`"zai/glm-5"`), else
/// `"<provider>/<model>"`; none for other providers or an empty model.
pub open spec fn default_model_id(provider: Seq<char>, model: Seq<char>) -> Option<Seq<char>> {
    if !is_native_provider(provider) || model.len() == 0 {
        None
    } else if contains(model, "/"@) {
        Some(model)
    } else {
        Some(provider + "/"@ + model)
    }
}

/// The model id to make the default after `openclaw onboard`, if any.
pub fn default_model_for(provider: &str, model: &str) -> (r: Option<String>)
    ensures
        match r {
            Some(m) => default_model_id(provider@, model@) == Some(m@),
            None => default_model_id(provider@, model@) is None,
        },
{
    if !is_native_provider_exec(provider) || model.is_empty() {
        return None;
    }
    if str_contains(model, "/") {
        Some(to_owned_string(model))
    } else {
        let mut s = to_owned_string(provider);
        push_str(&mut s, "/");
        push_str(&mut s, model);
        Some(s)
    }
}

/// The model id written for a directly configured provider (`"default"` when
/// none is given) and the full id `"<provider>/<model id>"` made the default.
pub open spec fn direct_model_ids(provider: Seq<char>, model: Seq<char>) -> (Seq<char>, Seq<char>) {
    let id = if model.len() == 0 {
        "default"@
    } else {
        model
    };
    (id, provider + "/"@ + id)
}

/// The model ids for a provider configured directly in `openclaw.json`.
pub fn direct_model_ids_exec(provider: &str, model: &str) -> (r: (String, String))
    ensures
        r.0@ == direct_model_ids(provider@, model@).0,
        r.1@ == direct_model_ids(provider@, model@).1,
{
    let id = if model.is_empty() {
        to_owned_string("default")
    } else {
        to_owned_string(model)
    };
    let mut full = to_owned_string(provider);
    push_str(&mut full, "/");
    push_str(&mut full, id.as_str());
    (id, full)
}

// ---------------------------------------------------------------------------
// Direct configuration in openclaw.json
// ---------------------------------------------------------------------------

/// A model entry of a directly configured provider: the model `id` as id
/// and name, no reasoning, text and image input, zero costs, a context
/// window of 1000000 tokens and at most 65536 output tokens.
pub open spec fn is_model_entry(x: serde_json::Value, id: Seq<char>) -> bool {
    &&& json_object(x) matches Some(m)
    &&& m == Map::<Seq<char>, serde_json::Value>::empty().insert("id"@, json_of_string(id)).insert(
        "name"@,
        json_of_string(id),
    ).insert("reasoning"@, json_of_bool(false)).insert("input"@, m["input"@]).insert(
        "cost"@,
        m["cost"@],
    ).insert("contextWindow"@, json_of_u64(1000000)).insert("maxTokens"@, json_of_u64(65536))
    &&& json_array_items(m["input"@]) == Some(seq![json_of_string("text"@), json_of_string("image"@)])
    &&& json_object(m["cost"@]) == Some(
        Map::<Seq<char>, serde_json::Value>::empty().insert("input"@, json_of_u64(0)).insert(
            "output"@,
            json_of_u64(0),
        ).insert("cacheRead"@, json_of_u64(0)).insert("cacheWrite"@, json_of_u64(0)),
    )
}

/// The provider entry written for a directly configured provider: its base
/// URL and key, the OpenAI-compatible completions API, and one model entry.
pub open spec fn is_provider_entry(e: serde_json::Value, base_url: Seq<char>, api_key: Seq<char>, id: Seq<char>) -> bool {
    &&& json_object(e) matches Some(m)
    &&& m == Map::<Seq<char>, serde_json::Value>::empty().insert("baseUrl"@, json_of_string(base_url))
        .insert("apiKey"@, json_of_string(api_key)).insert(
        "api"@,
        json_of_string("openai-completions"@),
    ).insert("models"@, m["models"@])
    &&& json_array_items(m["models"@]) matches Some(items)
    &&& items.len() == 1
    &&& is_model_entry(items[0], id)
}

fn set_u64(v: &mut serde_json::Value, key: &str, n: u64)
    requires
        json_object(*old(v)) is Some,
    ensures
        json_object(*final(v)) == Some(json_object(*old(v))->0.insert(key@, json_of_u64(n))),
{
    let x = json_u64(n);
    json_set(v, key, x);
}

fn set_string(v: &mut serde_json::Value, key: &str, t: &str)
    requires
        json_object(*old(v)) is Some,
    ensures
        json_object(*final(v)) == Some(json_object(*old(v))->0.insert(key@, json_of_string(t@))),
{
    let x = json_string(t);
    json_set(v, key, x);
}

/// The provider entry for `base_url`, `api_key` and the model id `id`.
fn provider_entry(base_url: &str, api_key: &str, id: &str) -> (r: serde_json::Value)
    ensures
        is_provider_entry(r, base_url@, api_key@, id@),
{
    proof {
        reveal_strlit("input");
        reveal_strlit("cost");
        reveal_strlit("contextWindow");
        reveal_strlit("maxTokens");
        assert("input"@ != "cost"@ && "input"@ != "contextWindow"@ && "input"@ != "maxTokens"@) by {
            assert("input"@[0] != "cost"@[0] && "input"@[0] != "contextWindow"@[0]
                && "input"@[0] != "maxTokens"@[0]);
        }
        assert("cost"@ != "contextWindow"@ && "cost"@ != "maxTokens"@) by {
            assert("cost"@.len() != "contextWindow"@.len() && "cost"@[0] != "maxTokens"@[0]);
        }
    }
    let mut cost = empty_json_object();
    set_u64(&mut cost, "input", 0);
    set_u64(&mut cost, "output", 0);
    set_u64(&mut cost, "cacheRead", 0);
    set_u64(&mut cost, "cacheWrite", 0);
    let mut input: Vec<serde_json::Value> = Vec::new();
    input.push(json_string("text"));
    input.push(json_string("image"));
    let ghost input_items = input@;
    assert(input_items =~= seq![json_of_string("text"@), json_of_string("image"@)]);
    let input = json_array(input);
    let mut m = empty_json_object();
    set_string(&mut m, "id", id);
    set_string(&mut m, "name", id);
    let b = json_bool(false);
    json_set(&mut m, "reasoning", b);
    let ghost iv = input;
    json_set(&mut m, "input", input);
    let ghost cv = cost;
    json_set(&mut m, "cost", cost);
    set_u64(&mut m, "contextWindow", 1000000);
    set_u64(&mut m, "maxTokens", 65536);
    let ghost mm = json_object(m)->0;
    assert(mm["input"@] == iv);
    assert(mm["cost"@] == cv);
    let mut models: Vec<serde_json::Value> = Vec::new();
    let ghost mv = m;
    models.push(m);
    assert(models@ =~= seq![mv]);
    let models = json_array(models);
    let mut e = empty_json_object();
    set_string(&mut e, "baseUrl", base_url);
    set_string(&mut e, "apiKey", api_key);
    set_string(&mut e, "api", "openai-completions");
    let ghost modv = models;
    json_set(&mut e, "models", models);
    assert(json_object(e)->0["models"@] == modv);
    e
}

/// The members of the object member `key` of `parent`: those of an empty
/// object when there is no such member, `None` when it is not an object.
pub open spec fn object_member_map(parent: Map<Seq<char>, serde_json::Value>, key: Seq<char>) -> Option<
    Map<Seq<char>, serde_json::Value>,
> {
    if parent.dom().contains(key) {
        json_object(parent[key])
    } else {
        Some(Map::empty())
    }
}

/// The error for a member `key` that should be an object and is not.
pub open spec fn not_object(key: Seq<char>) -> Seq<char> {
    key + " is not an object"@
}

/// Why `config` cannot take a directly configured provider, checked in
/// order: the document, then `models`, `models.providers`, `agents`,
/// `agents.defaults` and `agents.defaults.model` must be objects where they
/// exist.
pub open spec fn direct_config_error(config: serde_json::Value) -> Option<Seq<char>> {
    match json_object(config) {
        None => Some("Config is not an object"@),
        Some(c) => match object_member_map(c, "models"@) {
            None => Some(not_object("models"@)),
            Some(ms) => match object_member_map(ms, "providers"@) {
                None => Some(not_object("providers"@)),
                Some(_) => match object_member_map(c, "agents"@) {
                    None => Some(not_object("agents"@)),
                    Some(ags) => match object_member_map(ags, "defaults"@) {
                        None => Some(not_object("defaults"@)),
                        Some(ds) => match object_member_map(ds, "model"@) {
                            None => Some(not_object("model"@)),
                            Some(_) => None,
                        },
                    },
                },
            },
        },
    }
}

/// `out` is `config` with the provider entry put at
/// `models.providers.<provider>` and the provider's model made the default
/// at `agents.defaults.model.primary`; objects on the way that were missing
/// are created, and every other member keeps its value.
pub open spec fn direct_config_applied(
    config: serde_json::Value,
    out: serde_json::Value,
    provider: Seq<char>,
    api_key: Seq<char>,
    base_url: Seq<char>,
    model: Seq<char>,
) -> bool {
    let c = json_object(config)->0;
    let ms = object_member_map(c, "models"@)->0;
    let ps = object_member_map(ms, "providers"@)->0;
    let ags = object_member_map(c, "agents"@)->0;
    let ds = object_member_map(ags, "defaults"@)->0;
    let mds = object_member_map(ds, "model"@)->0;
    let ids = direct_model_ids(provider, model);
    &&& json_object(out) matches Some(oc)
    &&& oc == c.insert("models"@, oc["models"@]).insert("agents"@, oc["agents"@])
    &&& json_object(oc["models"@]) matches Some(om)
    &&& om == ms.insert("providers"@, om["providers"@])
    &&& json_object(om["providers"@]) matches Some(op)
    &&& op == ps.insert(provider, op[provider])
    &&& is_provider_entry(op[provider], base_url, api_key, ids.0)
    &&& json_object(oc["agents"@]) matches Some(oa)
    &&& oa == ags.insert("defaults"@, oa["defaults"@])
    &&& json_object(oa["defaults"@]) matches Some(od)
    &&& od == ds.insert("model"@, od["model"@])
    &&& json_object(od["model"@]) == Some(mds.insert("primary"@, json_of_string(ids.1)))
}

/// Configuring the same provider again on the document a first
/// configuration produced succeeds, and what it produces is again what one
/// configuration of the original document produces: the merge is
/// idempotent on documents.
pub proof fn lemma_direct_config_again(
    config: serde_json::Value,
    out: serde_json::Value,
    out2: serde_json::Value,
    provider: Seq<char>,
    api_key: Seq<char>,
    base_url: Seq<char>,
    model: Seq<char>,
)
    requires
        direct_config_error(config) is None,
        direct_config_applied(config, out, provider, api_key, base_url, model),
    ensures
        direct_config_error(out) is None,
        direct_config_applied(out, out2, provider, api_key, base_url, model) ==> direct_config_applied(
            config,
            out2,
            provider,
            api_key,
            base_url,
            model,
        ),
{
    let c = json_object(config)->0;
    let oc = json_object(out)->0;
    assert(oc.dom().contains("models"@) && oc.dom().contains("agents"@));
    let om = json_object(oc["models"@])->0;
    assert(om.dom().contains("providers"@));
    let oa = json_object(oc["agents"@])->0;
    assert(oa.dom().contains("defaults"@));
    let od = json_object(oa["defaults"@])->0;
    assert(od.dom().contains("model"@));
    if direct_config_applied(out, out2, provider, api_key, base_url, model) {
        let oc2 = json_object(out2)->0;
        assert(oc2 =~= c.insert("models"@, oc2["models"@]).insert("agents"@, oc2["agents"@]));
        let ms = object_member_map(c, "models"@)->0;
        let om2 = json_object(oc2["models"@])->0;
        assert(om2 =~= ms.insert("providers"@, om2["providers"@]));
        let ps = object_member_map(ms, "providers"@)->0;
        let op2 = json_object(om2["providers"@])->0;
        assert(op2 =~= ps.insert(provider, op2[provider]));
        let ags = object_member_map(c, "agents"@)->0;
        let oa2 = json_object(oc2["agents"@])->0;
        assert(oa2 =~= ags.insert("defaults"@, oa2["defaults"@]));
        let ds = object_member_map(ags, "defaults"@)->0;
        let od2 = json_object(oa2["defaults"@])->0;
        assert(od2 =~= ds.insert("model"@, od2["model"@]));
        let mds = object_member_map(ds, "model"@)->0;
        let ids = direct_model_ids(provider, model);
        assert(json_object(od2["model"@])->0 =~= mds.insert("primary"@, json_of_string(ids.1)));
    }
}

/// The object member `key` of `parent` (an empty object when missing), or
/// the error when it is not an object.
fn object_member(parent: &serde_json::Value, key: &str) -> (r: Result<serde_json::Value, String>)
    requires
        json_object(*parent) is Some,
    ensures
        match r {
            Ok(v) => object_member_map(json_object(*parent)->0, key@) is Some && json_object(v)
                == object_member_map(json_object(*parent)->0, key@),
            Err(m) => object_member_map(json_object(*parent)->0, key@) is None && m@ == not_object(
                key@,
            ),
        },
{
    match json_member(parent, key) {
        None => Ok(empty_json_object()),
        Some(v) => if json_is_object(&v) {
            Ok(v)
        } else {
            let mut m = to_owned_string(key);
            push_str(&mut m, " is not an object");
            Err(m)
        },
    }
}

/// Puts a directly configured provider into the openclaw.json document
/// `config`: its entry under `models.providers` and its model as the
/// default under `agents.defaults.model.primary`.
pub fn merge_provider_config(
    config: serde_json::Value,
    provider: &str,
    api_key: &str,
    base_url: &str,
    model: &str,
) -> (r: Result<serde_json::Value, String>)
    ensures
        match r {
            Ok(out) => direct_config_error(config) is None && direct_config_applied(
                config,
                out,
                provider@,
                api_key@,
                base_url@,
                model@,
            ),
            Err(m) => direct_config_error(config) == Some(m@),
        },
{
    proof {
        reveal_strlit("models");
        reveal_strlit("agents");
        assert("agents"@ != "models"@) by {
            assert("agents"@[0] != "models"@[0]);
        }
    }
    let ghost c0 = config;
    let mut config = config;
    if !json_is_object(&config) {
        return Err(to_owned_string("Config is not an object"));
    }
    let ghost c = json_object(c0)->0;
    let mut models = object_member(&config, "models")?;
    let ghost ms = json_object(models)->0;
    let mut providers = object_member(&models, "providers")?;
    let ghost ps = json_object(providers)->0;
    let (id, full) = direct_model_ids_exec(provider, model);
    let entry = provider_entry(base_url, api_key, id.as_str());
    let ghost ev = entry;
    json_set(&mut providers, provider, entry);
    let ghost pv = providers;
    json_set(&mut models, "providers", providers);
    let ghost mv = models;
    json_set(&mut config, "models", models);
    let ghost c1 = json_object(config)->0;
    assert(c1 == c.insert("models"@, mv));
    assert(c1.dom().contains("agents"@) == c.dom().contains("agents"@));
    assert(c.dom().contains("agents"@) ==> c1["agents"@] == c["agents"@]);
    let mut agents = object_member(&config, "agents")?;
    let ghost ags = json_object(agents)->0;
    let mut defaults = object_member(&agents, "defaults")?;
    let ghost ds = json_object(defaults)->0;
    let mut model_obj = object_member(&defaults, "model")?;
    set_string(&mut model_obj, "primary", full.as_str());
    let ghost mdv = model_obj;
    json_set(&mut defaults, "model", model_obj);
    let ghost dv = defaults;
    json_set(&mut agents, "defaults", defaults);
    let ghost av = agents;
    json_set(&mut config, "agents", agents);
    proof {
        let oc = json_object(config)->0;
        assert(oc["models"@] == mv);
        assert(oc["agents"@] == av);
        assert(json_object(mv)->0["providers"@] == pv);
        assert(json_object(pv)->0[provider@] == ev);
        assert(json_object(av)->0["defaults"@] == dv);
        assert(json_object(dv)->0["model"@] == mdv);
    }
    Ok(config)
}

/// The outcome of configuring a provider directly in the openclaw.json text
/// `content`: a text that does not parse is refused with the parse error,
/// a document of the wrong shape with `direct_config_error`, else the
/// updated document is printed with indentation.
pub open spec fn direct_config_outcome(
    content: Seq<char>,
    provider: Seq<char>,
    api_key: Seq<char>,
    base_url: Seq<char>,
    model: Seq<char>,
    r: Result<Seq<char>, Seq<char>>,
) -> bool {
    match json_parse(content) {
        Err(e) => r == Err::<Seq<char>, Seq<char>>("Invalid openclaw.json: "@ + e),
        Ok(config) => match direct_config_error(config) {
            Some(m) => r == Err::<Seq<char>, Seq<char>>(m),
            None => exists|out: serde_json::Value|
                #[trigger] direct_config_applied(config, out, provider, api_key, base_url, model)
                    && match json_pretty(out) {
                    Ok(t) => r == Ok::<Seq<char>, Seq<char>>(t),
                    Err(e) => r == Err::<Seq<char>, Seq<char>>(
                        "Failed to serialize config: "@ + e,
                    ),
                },
        },
    }
}

/// The new text of `~/.openclaw/openclaw.json` (`content` is its current
/// text, `"{}"` when there is none) after configuring `provider` directly.
pub fn merged_openclaw_config(content: &str, provider: &str, api_key: &str, base_url: &str, model: &str) -> (r: Result<String, String>)
    ensures
        direct_config_outcome(
            content@,
            provider@,
            api_key@,
            base_url@,
            model@,
            match r {
                Ok(s) => Ok::<Seq<char>, Seq<char>>(s@),
                Err(e) => Err::<Seq<char>, Seq<char>>(e@),
            },
        ),
{
    let config = match parse_json(content) {
        Ok(v) => v,
        Err(e) => {
            let mut m = to_owned_string("Invalid openclaw.json: ");
            push_str(&mut m, e.as_str());
            return Err(m);
        },
    };
    let ghost c = config;
    let out = merge_provider_config(config, provider, api_key, base_url, model)?;
    let ghost o = out;
    assert(direct_config_applied(c, o, provider@, api_key@, base_url@, model@));
    match json_to_pretty(&out) {
        Ok(s) => Ok(s),
        Err(e) => {
            let mut m = to_owned_string("Failed to serialize config: ");
            push_str(&mut m, e.as_str());
            Err(m)
        },
    }
}

/// The gateway auth token in the openclaw.json text: `gateway.auth.token`,
/// when it is a string.
pub fn gateway_token_from_config(content: &str) -> (r: Option<String>)
    ensures
        match r {
            Some(t) => json_text_at(content@, seq!["gateway"@, "auth"@, "token"@]) == Some(t@),
            None => json_text_at(content@, seq!["gateway"@, "auth"@, "token"@]) is None,
        },
{
    let path = vec!["gateway", "auth", "token"];
    assert(path@.map_values(|k: &str| k@) =~= seq!["gateway"@, "auth"@, "token"@]);
    json_string_at(content, &path)
}

/// The installed OpenClaw version in the JSON printed by
/// `npm list -g openclaw --depth=0 --json`: `dependencies.openclaw.version`.
pub fn openclaw_version_from_npm_list(stdout: &str) -> (r: Option<String>)
    ensures
        match r {
            Some(v) => json_text_at(stdout@, seq!["dependencies"@, "openclaw"@, "version"@]) == Some(v@),
            None => json_text_at(stdout@, seq!["dependencies"@, "openclaw"@, "version"@]) is None,
        },
{
    let path = vec!["dependencies", "openclaw", "version"];
    assert(path@.map_values(|k: &str| k@) =~= seq!["dependencies"@, "openclaw"@, "version"@]);
    json_string_at(stdout, &path)
}

/// What an API test reads from the response text: the `error.message`
/// string and the `model` string, each when present.
pub fn api_response_fields(body: &str) -> (r: (Option<String>, Option<String>))
    ensures
        match r.0 {
            Some(m) => json_text_at(body@, seq!["error"@, "message"@]) == Some(m@),
            None => json_text_at(body@, seq!["error"@, "message"@]) is None,
        },
        match r.1 {
            Some(m) => json_text_at(body@, seq!["model"@]) == Some(m@),
            None => json_text_at(body@, seq!["model"@]) is None,
        },
{
    let p1 = vec!["error", "message"];
    assert(p1@.map_values(|k: &str| k@) =~= seq!["error"@, "message"@]);
    let p2 = vec!["model"];
    assert(p2@.map_values(|k: &str| k@) =~= seq!["model"@]);
    (json_string_at(body, &p1), json_string_at(body, &p2))
}

/// The error when `openclaw onboard` fails: its trimmed stderr, then its
/// trimmed stdout on a new line when there is any.
pub open spec fn onboard_failure(stderr: Seq<char>, stdout: Seq<char>) -> Seq<char> {
    "Failed to configure API: "@ + trim(stderr) + if trim(stdout).len() > 0 {
        "\n"@ + trim(stdout)
    } else {
        ""@
    }
}

/// The error when `openclaw onboard` fails.
pub fn onboard_failure_message(stderr: &str, stdout: &str) -> (r: String)
    ensures
        r@ == onboard_failure(stderr@, stdout@),
{
    let mut s = to_owned_string("Failed to configure API: ");
    let e = str_trim(stderr);
    push_str(&mut s, e.as_str());
    let o = str_trim(stdout);
    if !o.as_str().is_empty() {
        push_str(&mut s, "\n");
        push_str(&mut s, o.as_str());
    } else {
        proof {
            reveal_strlit("");
        }
        assert(s@ =~= s@ + ""@);
    }
    s
}

// ---------------------------------------------------------------------------
// Management commands
// ---------------------------------------------------------------------------

/// The error of a failed `openclaw` command: its stderr, or its stdout when
/// stderr is empty, after `prefix`.
pub open spec fn command_failure(prefix: Seq<char>, stdout: Seq<char>, stderr: Seq<char>) -> Seq<char> {
    prefix + if stderr.len() == 0 {
        stdout
    } else {
        stderr
    }
}

/// The error of a failed `openclaw` command such as `gateway stop`
/// (prefix `"Stop failed: "`) or `health` (`"Health check failed: "`).
pub fn command_failure_message(prefix: &str, stdout: &str, stderr: &str) -> (r: String)
    ensures
        r@ == command_failure(prefix@, stdout@, stderr@),
{
    let mut s = to_owned_string(prefix);
    if stderr.is_empty() {
        push_str(&mut s, stdout);
    } else {
        push_str(&mut s, stderr);
    }
    s
}

/// The outcome of an `openclaw` command: `Ok(stdout)` when it succeeded,
/// else the failure message with `prefix`.
pub fn command_outcome(success: bool, prefix: &str, stdout: &str, stderr: &str) -> (r: Result<String, String>)
    ensures
        success ==> (r matches Ok(o) && o@ == stdout@),
        !success ==> (r matches Err(m) && m@ == command_failure(prefix@, stdout@, stderr@)),
{
    if success {
        Ok(to_owned_string(stdout))
    } else {
        Err(command_failure_message(prefix, stdout, stderr))
    }
}

/// Whether `openclaw plugins list` output lists the Feishu plugin.
pub fn feishu_plugin_listed(stdout: &str) -> (r: bool)
    ensures
        r == contains(stdout@, "@openclaw/feishu"@),
{
    str_contains(stdout, "@openclaw/feishu")
}

/// The outcome of setting the Feishu app id and secret.
pub fn feishu_config_outcome(id_ok: bool, secret_ok: bool) -> (r: Result<(), String>)
    ensures
        r is Ok <==> (id_ok && secret_ok),
        r matches Err(m) ==> m@ == "Failed to configure Feishu plugin"@,
{
    if id_ok && secret_ok {
        Ok(())
    } else {
        Err(to_owned_string("Failed to configure Feishu plugin"))
    }
}

/// Whether a failed `npm uninstall -g openclaw` stops the reset: it does
/// unless npm says the package was not installed.
pub fn uninstall_outcome(success: bool, stderr: &str) -> (r: Result<(), String>)
    ensures
        r is Ok <==> (success || contains(stderr@, "not installed"@)),
        r matches Err(m) ==> m@ == "Failed to uninstall openclaw: "@ + stderr@,
{
    if !success && !str_contains(stderr, "not installed") {
        let mut m = to_owned_string("Failed to uninstall openclaw: ");
        push_str(&mut m, stderr);
        return Err(m);
    }
    Ok(())
}

/// How the permission step of a repair went.
pub enum PermissionStep {
    /// `~/.openclaw` does not exist; nothing to report.
    Skipped,
    /// Permissions set to owner-only.
    Fixed,
    /// Setting them failed with this error.
    Failed(String),
    /// Not applicable on Windows.
    NotApplicable,
}

/// The report lines of a repair run, in order: setting `gateway.mode`,
/// stopping the service, uninstalling and reinstalling it, and the
/// permission step.
pub open spec fn repair_lines(
    mode_ok: bool,
    uninstall_ok: bool,
    install: Result<(), Seq<char>>,
    perms: Option<Result<(), Seq<char>>>,
    windows: bool,
) -> Seq<Seq<char>> {
    seq![
        if mode_ok {
            "[OK] Set gateway.mode=local"@
        } else {
            "[FAIL] Failed to set gateway.mode"@
        },
        "[OK] Stopped existing service"@,
        if uninstall_ok {
            "[OK] Uninstalled old service"@
        } else {
            "[WARN] No existing service to uninstall"@
        },
        match install {
            Ok(()) => "[OK] Installed gateway service"@,
            Err(e) => "[FAIL] Failed to install service: "@ + e,
        },
    ] + match perms {
        None => seq![],
        Some(p) => if windows {
            seq!["[OK] Directory permissions (not applicable on Windows)"@]
        } else {
            match p {
                Ok(()) => seq!["[OK] Fixed directory permissions"@],
                Err(e) => seq!["[FAIL] Failed to fix permissions: "@ + e],
            }
        },
    }
}

/// A report line starts with one of the ASCII status markers.
pub open spec fn has_status_marker(l: Seq<char>) -> bool {
    starts_with(l, "[OK]"@) || starts_with(l, "[FAIL]"@) || starts_with(l, "[WARN]"@)
}

proof fn lemma_ok_marker(l: Seq<char>)
    requires
        l.len() >= 4,
        l[0] == '[' && l[1] == 'O' && l[2] == 'K' && l[3] == ']',
    ensures
        has_status_marker(l),
{
    reveal_strlit("[OK]");
    assert forall|k: int| 0 <= k < 4 implies l.subrange(0, 4)[k] == "[OK]"@[k] by {
        if k == 0 {
        } else if k == 1 {
        } else if k == 2 {
        } else {
        }
    }
    assert(l.subrange(0, 4) =~= "[OK]"@);
}

proof fn lemma_fail_marker(l: Seq<char>)
    requires
        l.len() >= 6,
        l[0] == '[' && l[1] == 'F' && l[2] == 'A' && l[3] == 'I' && l[4] == 'L' && l[5] == ']',
    ensures
        has_status_marker(l),
{
    reveal_strlit("[FAIL]");
    assert forall|k: int| 0 <= k < 6 implies l.subrange(0, 6)[k] == "[FAIL]"@[k] by {
        if k == 0 {
        } else if k == 1 {
        } else if k == 2 {
        } else if k == 3 {
        } else if k == 4 {
        } else {
        }
    }
    assert(l.subrange(0, 6) =~= "[FAIL]"@);
}

proof fn lemma_warn_marker(l: Seq<char>)
    requires
        l.len() >= 6,
        l[0] == '[' && l[1] == 'W' && l[2] == 'A' && l[3] == 'R' && l[4] == 'N' && l[5] == ']',
    ensures
        has_status_marker(l),
{
    reveal_strlit("[WARN]");
    assert forall|k: int| 0 <= k < 6 implies l.subrange(0, 6)[k] == "[WARN]"@[k] by {
        if k == 0 {
        } else if k == 1 {
        } else if k == 2 {
        } else if k == 3 {
        } else if k == 4 {
        } else {
        }
    }
    assert(l.subrange(0, 6) =~= "[WARN]"@);
}

/// Every line of a repair report starts with an ASCII status marker
/// (`[OK]`, `[FAIL]` or `[WARN]`); there are four lines, and a fifth when
/// the permission step ran.
pub proof fn lemma_repair_lines_markers(
    mode_ok: bool,
    uninstall_ok: bool,
    install: Result<(), Seq<char>>,
    perms: Option<Result<(), Seq<char>>>,
    windows: bool,
)
    ensures
        repair_lines(mode_ok, uninstall_ok, install, perms, windows).len() == if perms is Some {
            5int
        } else {
            4int
        },
        forall|i: int|
            0 <= i < repair_lines(mode_ok, uninstall_ok, install, perms, windows).len()
                ==> has_status_marker(
                #[trigger] repair_lines(mode_ok, uninstall_ok, install, perms, windows)[i],
            ),
{
    reveal_strlit("[OK] Set gateway.mode=local");
    reveal_strlit("[FAIL] Failed to set gateway.mode");
    reveal_strlit("[OK] Stopped existing service");
    reveal_strlit("[OK] Uninstalled old service");
    reveal_strlit("[WARN] No existing service to uninstall");
    reveal_strlit("[OK] Installed gateway service");
    reveal_strlit("[FAIL] Failed to install service: ");
    reveal_strlit("[OK] Directory permissions (not applicable on Windows)");
    reveal_strlit("[OK] Fixed directory permissions");
    reveal_strlit("[FAIL] Failed to fix permissions: ");
    let ls = repair_lines(mode_ok, uninstall_ok, install, perms, windows);
    if mode_ok {
        lemma_ok_marker("[OK] Set gateway.mode=local"@);
    } else {
        lemma_fail_marker("[FAIL] Failed to set gateway.mode"@);
    }
    lemma_ok_marker("[OK] Stopped existing service"@);
    if uninstall_ok {
        lemma_ok_marker("[OK] Uninstalled old service"@);
    } else {
        lemma_warn_marker("[WARN] No existing service to uninstall"@);
    }
    match install {
        Ok(()) => lemma_ok_marker("[OK] Installed gateway service"@),
        Err(e) => lemma_fail_marker("[FAIL] Failed to install service: "@ + e),
    }
    match perms {
        None => {},
        Some(p) => if windows {
            lemma_ok_marker("[OK] Directory permissions (not applicable on Windows)"@);
        } else {
            match p {
                Ok(()) => lemma_ok_marker("[OK] Fixed directory permissions"@),
                Err(e) => lemma_fail_marker("[FAIL] Failed to fix permissions: "@ + e),
            }
        },
    }
    assert forall|i: int| 0 <= i < ls.len() implies has_status_marker(#[trigger] ls[i]) by {
        if i == 0 {
        } else if i == 1 {
        } else if i == 2 {
        } else if i == 3 {
        } else {
        }
    }
}

pub open spec fn perm_view(p: PermissionStep) -> (Option<Result<(), Seq<char>>>, bool) {
    match p {
        PermissionStep::Skipped => (None, false),
        PermissionStep::Fixed => (Some(Ok(())), false),
        PermissionStep::Failed(e) => (Some(Err(e@)), false),
        PermissionStep::NotApplicable => (Some(Ok(())), true),
    }
}

/// The repair report: its lines joined with newlines. `install_error` is the
/// trimmed stderr or the error of a failed reinstall, `None` when it
/// succeeded.
pub fn repair_report(mode_ok: bool, uninstall_ok: bool, install_error: Option<&str>, perms: PermissionStep) -> (r: String)
    ensures
        r@ == join(
            repair_lines(
                mode_ok,
                uninstall_ok,
                match install_error {
                    Some(e) => Err(e@),
                    None => Ok(()),
                },
                perm_view(perms).0,
                perm_view(perms).1,
            ),
            "\n"@,
        ),
{
    let ghost pv = perm_view(perms);
    let mut lines: Vec<Vec<char>> = Vec::new();
    let l1 = if mode_ok {
        chars_of("[OK] Set gateway.mode=local")
    } else {
        chars_of("[FAIL] Failed to set gateway.mode")
    };
    lines.push(l1);
    lines.push(chars_of("[OK] Stopped existing service"));
    let l3 = if uninstall_ok {
        chars_of("[OK] Uninstalled old service")
    } else {
        chars_of("[WARN] No existing service to uninstall")
    };
    lines.push(l3);
    let l4 = match install_error {
        None => chars_of("[OK] Installed gateway service"),
        Some(e) => {
            let mut s = to_owned_string("[FAIL] Failed to install service: ");
            push_str(&mut s, e);
            chars_of(s.as_str())
        },
    };
    lines.push(l4);
    match perms {
        PermissionStep::Skipped => {},
        PermissionStep::Fixed => {
            lines.push(chars_of("[OK] Fixed directory permissions"));
        },
        PermissionStep::Failed(e) => {
            let mut s = to_owned_string("[FAIL] Failed to fix permissions: ");
            push_str(&mut s, e.as_str());
            lines.push(chars_of(s.as_str()));
        },
        PermissionStep::NotApplicable => {
            lines.push(chars_of("[OK] Directory permissions (not applicable on Windows)"));
        },
    }
    assert(views(lines@) =~= repair_lines(
        mode_ok,
        uninstall_ok,
        match install_error {
            Some(e) => Err(e@),
            None => Ok(()),
        },
        pv.0,
        pv.1,
    ));
    let sep = chars_of("\n");
    let joined = join_exec(&lines, sep.as_slice());
    crate::text::string_of(joined.as_slice())
}

// ---------------------------------------------------------------------------
// Log export and timestamps
// ---------------------------------------------------------------------------

/// Calls `SystemTime::elapsed` on `UNIX_EPOCH`: the time since the Unix
/// epoch by the system clock, `None` when the clock is before the epoch.
/// Nothing is claimed of the value: it depends on the clock.
#[verifier::external_body]
fn time_since_epoch() -> (r: Option<std::time::Duration>) {
    std::time::UNIX_EPOCH.elapsed().ok()
}

/// Calls `Duration::as_secs`, the whole seconds of `d`. Nothing is claimed
/// of the value, which depends only on `d`.
#[verifier::external_body]
fn whole_seconds(d: &std::time::Duration) -> (r: u64) {
    d.as_secs()
}

/// Seconds since the Unix epoch by the system clock, 0 when the clock is
/// before the epoch.
fn seconds_since_epoch() -> (r: u64) {
    match time_since_epoch() {
        Some(d) => whole_seconds(&d),
        None => 0,
    }
}

/// The timestamp text for `secs` seconds since the epoch.
pub fn timestamp_from_secs(secs: u64) -> (r: String)
    ensures
        r@ == decimal(secs as nat),
{
    decimal_string(secs)
}

/// The current time as decimal seconds since the Unix epoch.
pub fn chrono_timestamp() -> (r: String)
    ensures
        exists|secs: u64| r@ == decimal(secs as nat),
{
    let secs = seconds_since_epoch();
    timestamp_from_secs(secs)
}

/// The name of an exported log file.
pub fn log_file_name(timestamp: &str) -> (r: String)
    ensures
        r@ == "install-log-"@ + timestamp@ + ".txt"@,
{
    let mut s = to_owned_string("install-log-");
    push_str(&mut s, timestamp);
    push_str(&mut s, ".txt");
    s
}

/// The exported log text: the lines joined with newlines.
pub fn log_file_content(logs: &Vec<String>) -> (r: String)
    ensures
        r@ == join(string_views(logs@), "\n"@),
{
    let parts = crate::path_env::chars_of_all(logs);
    let sep = chars_of("\n");
    let joined = join_exec(&parts, sep.as_slice());
    crate::text::string_of(joined.as_slice())
}

} // verus!
