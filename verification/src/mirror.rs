//! Download mirrors: the built-in mirror configuration, the verdict on a
//! mirror probe, and ordering probe results by latency.

use vstd::prelude::*;
use crate::text::{starts_with, str_starts_with, to_owned_string};

verus! {

/// A mirror of the remote mirror configuration.
pub struct MirrorEntry {
    pub name: String,
    pub url: String,
    pub enabled: bool,
}

/// The mirror configuration handed to the front end.
pub struct RemoteMirrorConfig {
    pub version: u32,
    pub updated_at: String,
    pub node_mirrors: Vec<MirrorEntry>,
    pub npm_mirrors: Vec<MirrorEntry>,
    pub nvm_install_script: Option<String>,
    pub node_version: Option<String>,
}

/// The outcome of probing one mirror.
pub struct MirrorResult {
    pub name: String,
    pub url: String,
    pub latency_ms: Option<u64>,
    pub reachable: bool,
}

/// A mirror entry is enabled unless the configuration says otherwise.
pub fn default_enabled() -> (r: bool)
    ensures
        r,
{
    true
}

/// The built-in Node.js download mirrors, as (name, url).
pub open spec fn node_mirror_list() -> Seq<(Seq<char>, Seq<char>)> {
    seq![
        ("mirror.aliyun"@, "https://npmmirror.com/mirrors/node/"@),
        ("mirror.tencent"@, "https://mirrors.cloud.tencent.com/nodejs-release/"@),
        ("mirror.tsinghua"@, "https://mirrors.tuna.tsinghua.edu.cn/nodejs-release/"@),
        ("mirror.huawei"@, "https://repo.huaweicloud.com/nodejs/"@),
    ]
}

/// The built-in npm registry mirrors, as (name, url).
pub open spec fn npm_mirror_list() -> Seq<(Seq<char>, Seq<char>)> {
    seq![
        ("mirror.npmmirror"@, "https://registry.npmmirror.com"@),
        ("mirror.tencent"@, "https://mirrors.cloud.tencent.com/npm/"@),
        ("mirror.huawei"@, "https://repo.huaweicloud.com/repository/npm/"@),
        ("mirror.official"@, "https://registry.npmjs.org"@),
    ]
}

/// The entries `v` list exactly the (name, url) pairs `l`, all enabled.
pub open spec fn entries_match(v: Seq<MirrorEntry>, l: Seq<(Seq<char>, Seq<char>)>) -> bool {
    &&& v.len() == l.len()
    &&& forall|i: int|
        0 <= i < v.len() ==> (#[trigger] v[i]).name@ == l[i].0 && v[i].url@ == l[i].1
            && v[i].enabled
}

fn entry(name: &str, url: &str) -> (r: MirrorEntry)
    ensures
        r.name@ == name@,
        r.url@ == url@,
        r.enabled,
{
    MirrorEntry { name: to_owned_string(name), url: to_owned_string(url), enabled: default_enabled() }
}

/// The built-in mirror configuration: version 1, the Node.js and npm mirror
/// lists, the Gitee copy of the nvm install script, and no pinned Node.js
/// version.
pub fn build_config() -> (r: RemoteMirrorConfig)
    ensures
        r.version == 1,
        r.updated_at@ == Seq::<char>::empty(),
        entries_match(r.node_mirrors@, node_mirror_list()),
        entries_match(r.npm_mirrors@, npm_mirror_list()),
        r.nvm_install_script matches Some(s) && s@ == "https://gitee.com/mirrors/nvm/raw/master/install.sh"@,
        r.node_version is None,
{
    let mut node: Vec<MirrorEntry> = Vec::new();
    node.push(entry("mirror.aliyun", "https://npmmirror.com/mirrors/node/"));
    node.push(entry("mirror.tencent", "https://mirrors.cloud.tencent.com/nodejs-release/"));
    node.push(entry("mirror.tsinghua", "https://mirrors.tuna.tsinghua.edu.cn/nodejs-release/"));
    node.push(entry("mirror.huawei", "https://repo.huaweicloud.com/nodejs/"));
    let mut npm: Vec<MirrorEntry> = Vec::new();
    npm.push(entry("mirror.npmmirror", "https://registry.npmmirror.com"));
    npm.push(entry("mirror.tencent", "https://mirrors.cloud.tencent.com/npm/"));
    npm.push(entry("mirror.huawei", "https://repo.huaweicloud.com/repository/npm/"));
    npm.push(entry("mirror.official", "https://registry.npmjs.org"));
    RemoteMirrorConfig {
        version: 1,
        updated_at: String::new(),
        node_mirrors: node,
        npm_mirrors: npm,
        nvm_install_script: Some(to_owned_string("https://gitee.com/mirrors/nvm/raw/master/install.sh")),
        node_version: None,
    }
}

/// The built-in mirror configuration; it is never fetched from elsewhere.
pub fn fetch_mirror_config() -> (r: Result<RemoteMirrorConfig, String>)
    ensures
        r matches Ok(c) && c.version == 1 && entries_match(c.node_mirrors@, node_mirror_list())
            && entries_match(c.npm_mirrors@, npm_mirror_list()),
{
    Ok(build_config())
}

/// The mirrors probed by the latency test, as (name, url).
pub open spec fn probe_mirror_list() -> Seq<(Seq<char>, Seq<char>)> {
    seq![
        ("aliyun"@, "https://npmmirror.com"@),
        ("tencent"@, "https://mirrors.cloud.tencent.com"@),
        ("tsinghua"@, "https://mirrors.tuna.tsinghua.edu.cn"@),
        ("huawei"@, "https://mirrors.huaweicloud.com"@),
    ]
}

/// The mirrors probed by the latency test, as (name, url).
pub fn mirrors() -> (r: Vec<(&'static str, &'static str)>)
    ensures
        r.len() == probe_mirror_list().len(),
        forall|i: int|
            0 <= i < r.len() ==> (#[trigger] r@[i]).0@ == probe_mirror_list()[i].0 && r@[i].1@
                == probe_mirror_list()[i].1,
{
    let mut v: Vec<(&'static str, &'static str)> = Vec::new();
    v.push(("aliyun", "https://npmmirror.com"));
    v.push(("tencent", "https://mirrors.cloud.tencent.com"));
    v.push(("tsinghua", "https://mirrors.tuna.tsinghua.edu.cn"));
    v.push(("huawei", "https://mirrors.huaweicloud.com"));
    v
}

/// A probe counts as reachable when the HEAD request got a success (2xx) or
/// redirection (3xx) status, or 405 (HEAD not allowed).
pub open spec fn probe_reachable(status: Option<u16>) -> bool {
    match status {
        Some(s) => (200 <= s && s <= 399) || s == 405,
        None => false,
    }
}

/// The result of probing mirror `name` at `url`: `status` is the HTTP status
/// of the HEAD request (`None` when it failed) and `elapsed_ms` its duration.
pub fn mirror_result(name: &str, url: &str, status: Option<u16>, elapsed_ms: u64) -> (r: MirrorResult)
    ensures
        r.name@ == name@,
        r.url@ == url@,
        r.reachable == probe_reachable(status),
        r.latency_ms == (if probe_reachable(status) {
            Some(elapsed_ms)
        } else {
            None
        }),
{
    let reachable = match status {
        Some(s) => (200 <= s && s <= 399) || s == 405,
        None => false,
    };
    MirrorResult {
        name: to_owned_string(name),
        url: to_owned_string(url),
        latency_ms: if reachable {
            Some(elapsed_ms)
        } else {
            None
        },
        reachable,
    }
}

/// A probe counts as reachable, with a latency, exactly for a success or
/// redirection status (200 to 399) or 405; a failed request and every other
/// status (such as 404 or any 5xx) give an unreachable mirror without
/// latency, which sorts after every reachable one.
pub proof fn lemma_probe_verdict(name: Seq<char>, url: Seq<char>, status: Option<u16>, elapsed_ms: u64, r: MirrorResult, other: MirrorResult)
    requires
        r.name@ == name && r.url@ == url,
        r.reachable == probe_reachable(status),
        r.latency_ms == (if probe_reachable(status) {
            Some(elapsed_ms)
        } else {
            None
        }),
    ensures
        status is None ==> !r.reachable && r.latency_ms is None,
        forall|s: u16|
            status == Some(s) ==> (r.reachable <==> ((200 <= s && s <= 399) || s == 405)),
        forall|s: u16| status == Some(s) && s >= 500 ==> !r.reachable && r.latency_ms is None,
        r.reachable ==> r.latency_ms == Some(elapsed_ms),
        !r.reachable && other.latency_ms is Some ==> latency_key(other) < latency_key(r),
{
}

/// The message for a latency test of a URL that is not `https://`.
pub open spec fn https_only_message() -> Seq<char> {
    "Only https:// URLs are allowed for mirror testing"@
}

/// Only `https://` URLs may be probed for latency.
pub fn check_latency_url(url: &str) -> (r: Result<(), String>)
    ensures
        r is Ok <==> starts_with(url@, "https://"@),
        r matches Err(m) ==> m@ == https_only_message(),
{
    if str_starts_with(url, "https://") {
        Ok(())
    } else {
        Err(to_owned_string("Only https:// URLs are allowed for mirror testing"))
    }
}

// ---------------------------------------------------------------------------
// Ordering by latency
// ---------------------------------------------------------------------------

/// The sort key: the latency, with unreachable mirrors after every reachable
/// one.
pub open spec fn latency_key(r: MirrorResult) -> int {
    match r.latency_ms {
        Some(l) => l as int,
        None => u64::MAX as int + 1,
    }
}

/// The position of the first result with the smallest key.
pub open spec fn first_min(s: Seq<MirrorResult>) -> int
    decreases s.len(),
{
    if s.len() <= 1 {
        0
    } else {
        let m = first_min(s.drop_last());
        if latency_key(s.last()) < latency_key(s[m]) {
            s.len() - 1
        } else {
            m
        }
    }
}

pub proof fn lemma_first_min(s: Seq<MirrorResult>)
    requires
        s.len() > 0,
    ensures
        0 <= first_min(s) < s.len(),
        forall|j: int| 0 <= j < s.len() ==> latency_key(s[first_min(s)]) <= latency_key(#[trigger] s[j]),
        forall|j: int| 0 <= j < first_min(s) ==> latency_key(s[first_min(s)]) < latency_key(#[trigger] s[j]),
    decreases s.len(),
{
    if s.len() > 1 {
        lemma_first_min(s.drop_last());
        let m = first_min(s.drop_last());
        assert forall|j: int| 0 <= j < s.len() - 1 implies #[trigger] s[j] == s.drop_last()[j] by {}
    }
}

/// `s` ordered by latency, reachable mirrors first, equal keys keeping their
/// order (what a stable sort by that key gives).
pub open spec fn sorted_by_latency(s: Seq<MirrorResult>) -> Seq<MirrorResult>
    decreases s.len(),
{
    if s.len() == 0 {
        seq![]
    } else {
        let m = first_min(s);
        if 0 <= m < s.len() {
            seq![s[m]] + sorted_by_latency(s.remove(m))
        } else {
            s
        }
    }
}

fn first_min_exec(v: &Vec<MirrorResult>) -> (m: usize)
    requires
        v.len() > 0,
    ensures
        m as int == first_min(v@),
        m < v.len(),
{
    proof {
        lemma_first_min(v@);
    }
    let mut best: usize = 0;
    let mut i: usize = 1;
    while i < v.len()
        invariant
            1 <= i <= v.len(),
            best as int == first_min(v@.take(i as int)),
            best < i,
        decreases v.len() - i,
    {
        proof {
            lemma_first_min(v@.take(i as int));
            assert(v@.take(i + 1).drop_last() =~= v@.take(i as int));
        }
        let kb = match v[best].latency_ms {
            Some(l) => l as u128,
            None => u64::MAX as u128 + 1,
        };
        let ki = match v[i].latency_ms {
            Some(l) => l as u128,
            None => u64::MAX as u128 + 1,
        };
        assert(v@.take(i as int)[best as int] == v@[best as int]);
        if ki < kb {
            best = i;
        }
        i = i + 1;
    }
    assert(v@.take(v.len() as int) =~= v@);
    best
}

/// Orders probe results by latency: reachable mirrors first, fastest first,
/// results with equal latency in their original order.
pub fn sort_by_latency(results: &mut Vec<MirrorResult>)
    ensures
        final(results)@ == sorted_by_latency(old(results)@),
{
    let mut rest: Vec<MirrorResult> = Vec::new();
    std::mem::swap(results, &mut rest);
    let ghost orig = rest@;
    while rest.len() > 0
        invariant
            sorted_by_latency(orig) == results@ + sorted_by_latency(rest@),
        decreases rest.len(),
    {
        let m = first_min_exec(&rest);
        proof {
            lemma_first_min(rest@);
        }
        let ghost before = rest@;
        let x = rest.remove(m);
        let ghost prev = results@;
        results.push(x);
        assert(sorted_by_latency(before) == seq![x] + sorted_by_latency(rest@));
        assert(prev + (seq![x] + sorted_by_latency(rest@)) =~= results@ + sorted_by_latency(rest@));
    }
    assert(results@ + sorted_by_latency(rest@) =~= results@);
}


/// The results of `s` whose key is `k`, in order.
pub open spec fn with_key(s: Seq<MirrorResult>, k: int) -> Seq<MirrorResult>
    decreases s.len(),
{
    if s.len() == 0 {
        seq![]
    } else {
        (if latency_key(s[0]) == k {
            seq![s[0]]
        } else {
            Seq::<MirrorResult>::empty()
        }) + with_key(s.drop_first(), k)
    }
}

proof fn lemma_with_key_concat(a: Seq<MirrorResult>, b: Seq<MirrorResult>, k: int)
    ensures
        with_key(a + b, k) == with_key(a, k) + with_key(b, k),
    decreases a.len(),
{
    if a.len() == 0 {
        assert(a + b =~= b);
        assert(with_key(a, k) + with_key(b, k) =~= with_key(b, k));
    } else {
        lemma_with_key_concat(a.drop_first(), b, k);
        assert((a + b).drop_first() =~= a.drop_first() + b);
        assert((a + b)[0] == a[0]);
    }
}

proof fn lemma_with_key_none(a: Seq<MirrorResult>, k: int)
    requires
        forall|j: int| 0 <= j < a.len() ==> latency_key(#[trigger] a[j]) != k,
    ensures
        with_key(a, k) == Seq::<MirrorResult>::empty(),
    decreases a.len(),
{
    if a.len() > 0 {
        assert forall|j: int| 0 <= j < a.drop_first().len() implies latency_key(
            #[trigger] a.drop_first()[j],
        ) != k by {
            assert(a.drop_first()[j] == a[j + 1]);
        }
        lemma_with_key_none(a.drop_first(), k);
    }
}

proof fn lemma_with_key_remove_min(s: Seq<MirrorResult>, k: int)
    requires
        s.len() > 0,
    ensures
        with_key(s, k) == (if latency_key(s[first_min(s)]) == k {
            seq![s[first_min(s)]]
        } else {
            Seq::<MirrorResult>::empty()
        }) + with_key(s.remove(first_min(s)), k),
{
    lemma_first_min(s);
    let m = first_min(s);
    let a = s.subrange(0, m);
    let b = s.subrange(m + 1, s.len() as int);
    assert(s =~= a + seq![s[m]] + b);
    assert(s.remove(m) =~= a + b);
    lemma_with_key_concat(a + seq![s[m]], b, k);
    lemma_with_key_concat(a, seq![s[m]], k);
    lemma_with_key_concat(a, b, k);
    assert(with_key(seq![s[m]], k) =~= (if latency_key(s[m]) == k {
        seq![s[m]]
    } else {
        Seq::<MirrorResult>::empty()
    })) by {
        assert(seq![s[m]].drop_first() =~= Seq::<MirrorResult>::empty());
        assert(with_key(seq![s[m]].drop_first(), k) =~= Seq::<MirrorResult>::empty());
    }
    if latency_key(s[m]) == k {
        assert forall|j: int| 0 <= j < a.len() implies latency_key(#[trigger] a[j]) != k by {
            assert(a[j] == s[j]);
        }
        lemma_with_key_none(a, k);
        assert(with_key(s, k) =~= seq![s[m]] + with_key(b, k));
        assert(with_key(s.remove(m), k) =~= with_key(b, k));
    } else {
        assert(with_key(s, k) =~= with_key(a, k) + with_key(b, k));
    }
}

/// Laws of `sort_by_latency`: the result holds the same results (as a
/// multiset), its keys never decrease, and the results that share a key keep
/// their original order.
pub proof fn lemma_sort_by_latency_laws(s: Seq<MirrorResult>)
    ensures
        sorted_by_latency(s).to_multiset() == s.to_multiset(),
        forall|i: int, j: int|
            0 <= i < j < sorted_by_latency(s).len() ==> latency_key(
                #[trigger] sorted_by_latency(s)[i],
            ) <= latency_key(#[trigger] sorted_by_latency(s)[j]),
        forall|k: int| #[trigger] with_key(sorted_by_latency(s), k) == with_key(s, k),
    decreases s.len(),
{
    broadcast use vstd::seq_lib::group_to_multiset_ensures;
    broadcast use vstd::seq_lib::lemma_multiset_commutative;
    if s.len() == 0 {
        assert(sorted_by_latency(s) =~= s);
    } else {
        lemma_first_min(s);
        let m = first_min(s);
        let x = s[m];
        let t = s.remove(m);
        lemma_sort_by_latency_laws(t);
        let r = sorted_by_latency(s);
        let rt = sorted_by_latency(t);
        assert(r == seq![x] + rt);
        // multiset
        assert(r.to_multiset() =~= seq![x].to_multiset().add(rt.to_multiset()));
        assert(seq![x].to_multiset() =~= Seq::<MirrorResult>::empty().push(x).to_multiset());
        assert(s.to_multiset() =~= t.to_multiset().insert(x));
        // order
        assert forall|i: int, j: int|
            0 <= i < j < r.len() implies latency_key(#[trigger] r[i]) <= latency_key(
            #[trigger] r[j],
        ) by {
            if i == 0 {
                assert(rt.to_multiset().count(r[j]) > 0);
                assert(t.contains(r[j]));
                let q = choose|q: int| 0 <= q < t.len() && t[q] == r[j];
                if q < m {
                    assert(t[q] == s[q]);
                } else {
                    assert(t[q] == s[q + 1]);
                }
            } else {
                assert(r[i] == rt[i - 1] && r[j] == rt[j - 1]);
            }
        }
        // stability
        assert forall|k: int| #[trigger] with_key(r, k) == with_key(s, k) by {
            lemma_with_key_remove_min(s, k);
            assert(r.drop_first() =~= rt);
            assert(r[0] == x);
            assert(with_key(rt, k) == with_key(t, k));
            assert(with_key(r, k) == (if latency_key(x) == k {
                seq![x]
            } else {
                Seq::<MirrorResult>::empty()
            }) + with_key(rt, k));
        }
    }
}

} // verus!
