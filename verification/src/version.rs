//! Version numbers: the minimum Node.js check, version tuples read from
//! install paths, and choosing the newest installation.

use vstd::prelude::*;
use crate::text::{
    chars_of, contains, contains_exec, parse_unsigned, parse_unsigned_exec, slice_chars,
    split_char, split_char_exec, trim, trim_exec, views,
};

verus! {

/// Oldest Node.js release the installer accepts: v22.22.0.
pub const MIN_NODE_MAJOR: u64 = 22;
pub const MIN_NODE_MINOR: u64 = 22;
pub const MIN_NODE_PATCH: u64 = 0;

/// A (major, minor, patch) triple.
pub type VersionTuple = (u64, u64, u64);

pub open spec fn tuple_view(t: VersionTuple) -> (nat, nat, nat) {
    (t.0 as nat, t.1 as nat, t.2 as nat)
}

/// Lexicographic `a < b` on triples (the derived order of tuples).
pub open spec fn tuple_lt(a: (nat, nat, nat), b: (nat, nat, nat)) -> bool {
    ||| a.0 < b.0
    ||| a.0 == b.0 && a.1 < b.1
    ||| a.0 == b.0 && a.1 == b.1 && a.2 < b.2
}

pub open spec fn tuple_le(a: (nat, nat, nat), b: (nat, nat, nat)) -> bool {
    tuple_lt(a, b) || a == b
}

/// `s` without one leading `'v'` (`strip_prefix('v')`).
pub open spec fn strip_v(s: Seq<char>) -> Seq<char> {
    if s.len() > 0 && s[0] == 'v' {
        s.drop_first()
    } else {
        s
    }
}

/// The `u64` that field `i` of `parts` holds, or 0 when it is missing or not a
/// number.
pub open spec fn field_or_zero(parts: Seq<Seq<char>>, i: int) -> nat {
    if 0 <= i < parts.len() {
        match parse_unsigned(parts[i], u64::MAX as nat) {
            Some(v) => v,
            None => 0,
        }
    } else {
        0
    }
}

/// The version triple of a Node.js version string such as `"v22.22.0"`.
pub open spec fn node_version_fields(version: Seq<char>) -> (nat, nat, nat) {
    let parts = split_char(strip_v(trim(version)), '.');
    (field_or_zero(parts, 0), field_or_zero(parts, 1), field_or_zero(parts, 2))
}

/// A Node.js version passes when, trimmed and without its `v`, it has no
/// `'-'` (no pre-release) and its triple is at least the minimum.
pub open spec fn node_version_ok(version: Seq<char>) -> bool {
    let t = strip_v(trim(version));
    &&& !contains(t, seq!['-'])
    &&& tuple_le(
        (MIN_NODE_MAJOR as nat, MIN_NODE_MINOR as nat, MIN_NODE_PATCH as nat),
        node_version_fields(version),
    )
}

/// `s` without one leading `'v'`.
fn strip_v_exec(s: &[char]) -> (r: Vec<char>)
    ensures
        r@ == strip_v(s@),
{
    if s.len() > 0 && s[0] == 'v' {
        let r = slice_chars(s, 1, s.len());
        assert(r@ =~= s@.drop_first());
        r
    } else {
        slice_chars(s, 0, s.len())
    }
}

fn field_or_zero_exec(parts: &Vec<Vec<char>>, i: usize) -> (r: u64)
    ensures
        r as nat == field_or_zero(views(parts@), i as int),
{
    if i < parts.len() {
        match parse_unsigned_exec(parts[i].as_slice(), u64::MAX) {
            Some(v) => v,
            None => 0,
        }
    } else {
        0
    }
}

/// Whether a Node.js version string such as `"v22.22.0"` is at least
/// v22.22.0 and is not a pre-release (`"v23.0.0-nightly"` is refused).
pub fn node_version_meets_minimum(version: &str) -> (r: bool)
    ensures
        r == node_version_ok(version@),
{
    let v = chars_of(version);
    let t = trim_exec(v.as_slice());
    let s = strip_v_exec(t.as_slice());
    let dash = vec!['-'];
    assert(dash@ =~= seq!['-']);
    if contains_exec(s.as_slice(), dash.as_slice()) {
        return false;
    }
    let parts = split_char_exec(s.as_slice(), '.');
    let major = field_or_zero_exec(&parts, 0);
    let minor = field_or_zero_exec(&parts, 1);
    let patch = field_or_zero_exec(&parts, 2);
    if major != MIN_NODE_MAJOR {
        major > MIN_NODE_MAJOR
    } else if minor != MIN_NODE_MINOR {
        minor > MIN_NODE_MINOR
    } else {
        patch >= MIN_NODE_PATCH
    }
}


/// The version a single path component names, such as `"v22.14.0"` or
/// `"22.14"`: at least two dot-separated fields whose first two are numbers;
/// a missing or non-numeric third field counts as 0.
pub open spec fn component_version(c: Seq<char>) -> Option<(nat, nat, nat)> {
    let parts = split_char(strip_v(c), '.');
    if parts.len() >= 2 {
        match (parse_unsigned(parts[0], u64::MAX as nat), parse_unsigned(parts[1], u64::MAX as nat)) {
            (Some(major), Some(minor)) => Some((major, minor, field_or_zero(parts, 2))),
            _ => None,
        }
    } else {
        None
    }
}

/// The version of the first component in `comps` that names one, or
/// (0, 0, 0) when none does.
pub open spec fn first_component_version(comps: Seq<Seq<char>>) -> (nat, nat, nat)
    decreases comps.len(),
{
    if comps.len() == 0 {
        (0, 0, 0)
    } else {
        match component_version(comps[0]) {
            Some(v) => v,
            None => first_component_version(comps.drop_first()),
        }
    }
}

/// The version triple found in a `/`-separated path such as
/// `".nvm/versions/node/v22.14.0/bin"`.
pub open spec fn path_version(path: Seq<char>) -> (nat, nat, nat) {
    first_component_version(split_char(path, '/'))
}

fn component_version_exec(c: &[char]) -> (r: Option<VersionTuple>)
    ensures
        match r {
            Some(t) => component_version(c@) == Some(tuple_view(t)),
            None => component_version(c@) is None,
        },
{
    let s = strip_v_exec(c);
    let parts = split_char_exec(s.as_slice(), '.');
    if parts.len() >= 2 {
        let major = parse_unsigned_exec(parts[0].as_slice(), u64::MAX);
        let minor = parse_unsigned_exec(parts[1].as_slice(), u64::MAX);
        match (major, minor) {
            (Some(a), Some(b)) => {
                let p = field_or_zero_exec(&parts, 2);
                Some((a, b, p))
            },
            _ => None,
        }
    } else {
        None
    }
}

/// The (major, minor, patch) triple of the first component of a
/// `/`-separated path that looks like a version, or (0, 0, 0).
pub fn version_tuple_from_path(path: &str) -> (r: VersionTuple)
    ensures
        tuple_view(r) == path_version(path@),
{
    let v = chars_of(path);
    extract_version_tuple(v.as_slice())
}

/// The version triple found in the path `path`, given as characters.
pub fn extract_version_tuple(path: &[char]) -> (r: VersionTuple)
    ensures
        tuple_view(r) == path_version(path@),
{
    let comps = split_char_exec(path, '/');
    let ghost all = views(comps@);
    let mut i: usize = 0;
    assert(all.skip(0) =~= all);
    while i < comps.len()
        invariant
            i <= comps.len(),
            all == views(comps@),
            all == split_char(path@, '/'),
            first_component_version(all) == first_component_version(all.skip(i as int)),
        decreases comps.len() - i,
    {
        assert(all.skip(i as int)[0] == comps@[i as int]@);
        assert(all.skip(i as int).drop_first() =~= all.skip(i + 1));
        match component_version_exec(comps[i].as_slice()) {
            Some(t) => {
                assert(component_version(all.skip(i as int)[0]) == Some(tuple_view(t)));
                assert(all.skip(i as int).len() > 0);
                assert(first_component_version(all.skip(i as int)) == tuple_view(t));
                return t;
            },
            None => {},
        }
        i = i + 1;
    }
    assert(all.skip(i as int) =~= Seq::<Seq<char>>::empty());
    (0, 0, 0)
}

/// `t[k]` is the newest of `t`, and the last one of those that are newest
/// (what a stable sort by version followed by `pop` picks).
pub open spec fn is_last_newest(t: Seq<(nat, nat, nat)>, k: int) -> bool {
    &&& 0 <= k < t.len()
    &&& forall|j: int| 0 <= j < t.len() ==> tuple_le(#[trigger] t[j], t[k])
    &&& forall|j: int| k < j < t.len() ==> tuple_lt(#[trigger] t[j], t[k])
}

/// `t[k]` is the first entry with a version above (0, 0, 0) and no entry has
/// a newer one (what the Windows fnm scan keeps).
pub open spec fn is_first_newest_positive(t: Seq<(nat, nat, nat)>, k: int) -> bool {
    &&& 0 <= k < t.len()
    &&& tuple_lt((0, 0, 0), t[k])
    &&& forall|j: int| 0 <= j < t.len() ==> tuple_le(#[trigger] t[j], t[k])
    &&& forall|j: int| 0 <= j < k ==> tuple_lt(#[trigger] t[j], t[k])
}

/// The versions of a list of paths.
pub open spec fn path_versions(paths: Seq<String>) -> Seq<(nat, nat, nat)> {
    paths.map_values(|p: String| path_version(p@))
}

fn versions_of(paths: &Vec<String>) -> (r: Vec<VersionTuple>)
    ensures
        r.len() == paths.len(),
        forall|j: int| 0 <= j < r.len() ==> tuple_view(#[trigger] r@[j]) == path_version(paths@[j]@),
{
    let mut r: Vec<VersionTuple> = Vec::new();
    let mut i: usize = 0;
    while i < paths.len()
        invariant
            i <= paths.len(),
            r.len() == i,
            forall|j: int| 0 <= j < i ==> tuple_view(#[trigger] r@[j]) == path_version(paths@[j]@),
        decreases paths.len() - i,
    {
        let t = version_tuple_from_path(paths[i].as_str());
        r.push(t);
        i = i + 1;
    }
    r
}

fn tuple_lt_exec(a: VersionTuple, b: VersionTuple) -> (r: bool)
    ensures
        r == tuple_lt(tuple_view(a), tuple_view(b)),
{
    a.0 < b.0 || (a.0 == b.0 && a.1 < b.1) || (a.0 == b.0 && a.1 == b.1 && a.2 < b.2)
}

/// Which of the matched install directories to use: the one with the highest
/// version, the last of those when several tie; `None` when there are none.
pub fn latest_by_version(paths: &Vec<String>) -> (r: Option<usize>)
    ensures
        r is None <==> paths.len() == 0,
        r matches Some(k) ==> is_last_newest(path_versions(paths@), k as int),
{
    let vs = versions_of(paths);
    let ghost t = path_versions(paths@);
    assert forall|j: int| 0 <= j < vs.len() implies #[trigger] t[j] == tuple_view(vs@[j]) by {}
    if vs.len() == 0 {
        return None;
    }
    let mut best: usize = 0;
    let mut i: usize = 1;
    while i < vs.len()
        invariant
            1 <= i <= vs.len(),
            best < i,
            t.len() == vs.len(),
            forall|j: int| 0 <= j < vs.len() ==> #[trigger] t[j] == tuple_view(vs@[j]),
            forall|j: int| 0 <= j < i ==> tuple_le(#[trigger] t[j], t[best as int]),
            forall|j: int| best < j < i ==> tuple_lt(#[trigger] t[j], t[best as int]),
        decreases vs.len() - i,
    {
        if !tuple_lt_exec(vs[i], vs[best]) {
            best = i;
        }
        i = i + 1;
    }
    Some(best)
}

/// Which fnm installation to use on Windows: the first one whose version is
/// above (0, 0, 0) and not beaten by a later one; `None` when no entry has a
/// version.
pub fn first_latest_versioned(paths: &Vec<String>) -> (r: Option<usize>)
    ensures
        r is None <==> forall|j: int|
            0 <= j < paths.len() ==> !tuple_lt((0, 0, 0), #[trigger] path_versions(paths@)[j]),
        r matches Some(k) ==> is_first_newest_positive(path_versions(paths@), k as int),
{
    let vs = versions_of(paths);
    let ghost t = path_versions(paths@);
    assert forall|j: int| 0 <= j < vs.len() implies #[trigger] t[j] == tuple_view(vs@[j]) by {}
    let mut best: Option<usize> = None;
    let mut i: usize = 0;
    while i < vs.len()
        invariant
            i <= vs.len(),
            t.len() == vs.len(),
            forall|j: int| 0 <= j < vs.len() ==> #[trigger] t[j] == tuple_view(vs@[j]),
            match best {
                None => forall|j: int| 0 <= j < i ==> !tuple_lt((0, 0, 0), #[trigger] t[j]),
                Some(b) => {
                    &&& b < i
                    &&& tuple_lt((0, 0, 0), t[b as int])
                    &&& forall|j: int| 0 <= j < i ==> tuple_le(#[trigger] t[j], t[b as int])
                    &&& forall|j: int| 0 <= j < b ==> tuple_lt(#[trigger] t[j], t[b as int])
                },
            },
        decreases vs.len() - i,
    {
        let v = vs[i];
        if tuple_lt_exec((0, 0, 0), v) {
            match best {
                Some(b) => {
                    if tuple_lt_exec(vs[b], v) {
                        best = Some(i);
                    }
                },
                None => {
                    best = Some(i);
                },
            }
        }
        i = i + 1;
    }
    best
}

} // verus!
