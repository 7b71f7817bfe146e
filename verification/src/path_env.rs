//! The search PATH: reading registry output, merging PATH lists without
//! duplicates, adding install directories, the npm prefix cache, and the
//! directories that hold Node.js installations.

use vstd::prelude::*;
use crate::text::{
    chars_of, find, find_exec, join, join_exec, lines, lines_exec, slice_chars,
    spec_to_lowercase, split_char, split_char_exec, string_of, to_lowercase, trim, trim_exec,
    views, chars_eq, string_views, starts_with, starts_with_exec, lemma_split_no_sep,
    lemma_split_single, lemma_split_join, lemma_trim_laws, trim_start,
};

verus! {

// ---------------------------------------------------------------------------
// `reg query` output
// ---------------------------------------------------------------------------

/// The first line of `ls` that contains `p`.
pub open spec fn first_line_containing(ls: Seq<Seq<char>>, p: Seq<char>) -> Option<Seq<char>>
    decreases ls.len(),
{
    if ls.len() == 0 {
        None
    } else if find(ls[0], p) is Some {
        Some(ls[0])
    } else {
        first_line_containing(ls.drop_first(), p)
    }
}

/// The trimmed text after the first `p` in `line`.
pub open spec fn text_after(line: Seq<char>, p: Seq<char>) -> Option<Seq<char>> {
    match find(line, p) {
        Some(pos) => Some(trim(line.subrange(pos + p.len(), line.len() as int))),
        None => None,
    }
}

/// The value on a `reg query` line: the trimmed text after `REG_EXPAND_SZ`,
/// or else after `REG_SZ`.
pub open spec fn reg_line_value(line: Seq<char>) -> Option<Seq<char>> {
    match text_after(line, "REG_EXPAND_SZ"@) {
        Some(v) => Some(v),
        None => text_after(line, "REG_SZ"@),
    }
}

/// The value that `reg query` printed: taken from the first line that
/// mentions `REG_`, and absent when that line has no value type or the value
/// is empty.
pub open spec fn reg_value(output: Seq<char>) -> Option<Seq<char>> {
    match first_line_containing(lines(output), "REG_"@) {
        Some(line) => match reg_line_value(line) {
            Some(v) => if v.len() > 0 {
                Some(v)
            } else {
                None
            },
            None => None,
        },
        None => None,
    }
}

fn text_after_exec(line: &[char], p: &str) -> (r: Option<Vec<char>>)
    ensures
        match r {
            Some(v) => text_after(line@, p@) == Some(v@),
            None => text_after(line@, p@) is None,
        },
{
    let pv = chars_of(p);
    match find_exec(line, pv.as_slice()) {
        Some(pos) => {
            proof {
                crate::text::lemma_find(line@, pv@);
                assert(crate::text::occurs_at(line@, pv@, pos as int));
                assert(pos + pv@.len() <= line@.len());
            }
            let plen = pv.len();
            assert(plen == pv@.len());
            assert(pos + plen <= line.len());
            assert(pos + plen <= usize::MAX);
            let rest = slice_chars(line, pos + plen, line.len());
            Some(trim_exec(rest.as_slice()))
        },
        None => None,
    }
}

/// Parses the value out of `reg query` output such as
/// `"    Path    REG_EXPAND_SZ    C:\\Windows;..."`.
pub fn parse_reg_value(output: &str) -> (r: Option<String>)
    ensures
        match r {
            Some(v) => reg_value(output@) == Some(v@),
            None => reg_value(output@) is None,
        },
{
    let v = chars_of(output);
    let ls = lines_exec(v.as_slice());
    let ghost all = views(ls@);
    let reg = chars_of("REG_");
    let mut i: usize = 0;
    assert(all.skip(0) =~= all);
    while i < ls.len()
        invariant
            i <= ls.len(),
            all == views(ls@),
            all == lines(output@),
            reg@ == "REG_"@,
            first_line_containing(all, "REG_"@) == first_line_containing(all.skip(i as int), "REG_"@),
        decreases ls.len() - i,
    {
        assert(all.skip(i as int)[0] == ls@[i as int]@);
        assert(all.skip(i as int).drop_first() =~= all.skip(i + 1));
        if find_exec(ls[i].as_slice(), reg.as_slice()).is_some() {
            let line = ls[i].as_slice();
            let value = match text_after_exec(line, "REG_EXPAND_SZ") {
                Some(x) => Some(x),
                None => text_after_exec(line, "REG_SZ"),
            };
            return match value {
                Some(x) => if x.len() > 0 {
                    Some(string_of(x.as_slice()))
                } else {
                    None
                },
                None => None,
            };
        }
        i = i + 1;
    }
    None
}

// ---------------------------------------------------------------------------
// Merging PATH lists
// ---------------------------------------------------------------------------

/// `es` without its empty entries.
pub open spec fn drop_empty(es: Seq<Seq<char>>) -> Seq<Seq<char>>
    decreases es.len(),
{
    if es.len() == 0 {
        seq![]
    } else {
        drop_empty(es.drop_last()) + if es.last().len() == 0 {
            Seq::<Seq<char>>::empty()
        } else {
            seq![es.last()]
        }
    }
}

/// The trimmed, non-empty entries of a `;`-separated PATH value.
pub open spec fn path_entries(s: Seq<char>) -> Seq<Seq<char>> {
    drop_empty(split_char(s, ';').map_values(|e: Seq<char>| trim(e)))
}

/// An entry whose lowercase form matches that of an entry before position `n`.
pub open spec fn seen_before(es: Seq<Seq<char>>, n: int, e: Seq<char>) -> bool {
    exists|j: int| 0 <= j < n && spec_to_lowercase(#[trigger] es[j]) == spec_to_lowercase(e)
}

/// `es` keeping only the first entry of each lowercase form.
pub open spec fn dedup_ci(es: Seq<Seq<char>>) -> Seq<Seq<char>>
    decreases es.len(),
{
    if es.len() == 0 {
        seq![]
    } else {
        let init = es.drop_last();
        dedup_ci(init) + if seen_before(init, init.len() as int, es.last()) {
            Seq::<Seq<char>>::empty()
        } else {
            seq![es.last()]
        }
    }
}

/// The merged PATH: registry machine entries, then user entries, then the
/// process entries, each kept once regardless of case and joined with `;`;
/// `None` (leave PATH alone) when both registry values are empty.
pub open spec fn merged_path(machine: Seq<char>, user: Seq<char>, current: Seq<char>) -> Option<
    Seq<char>,
> {
    if machine.len() == 0 && user.len() == 0 {
        None
    } else {
        Some(
            join(
                dedup_ci(path_entries(machine) + path_entries(user) + path_entries(current)),
                ";"@,
            ),
        )
    }
}

fn path_entries_exec(s: &str, out: &mut Vec<Vec<char>>)
    ensures
        views(final(out)@) == views(old(out)@) + path_entries(s@),
{
    let v = chars_of(s);
    let pieces = split_char_exec(v.as_slice(), ';');
    let ghost trimmed = split_char(s@, ';').map_values(|e: Seq<char>| trim(e));
    let ghost start = views(out@);
    let mut i: usize = 0;
    while i < pieces.len()
        invariant
            i <= pieces.len(),
            views(pieces@) == split_char(s@, ';'),
            trimmed == split_char(s@, ';').map_values(|e: Seq<char>| trim(e)),
            views(out@) == start + drop_empty(trimmed.take(i as int)),
        decreases pieces.len() - i,
    {
        let t = trim_exec(pieces[i].as_slice());
        assert(trimmed.take(i + 1).drop_last() =~= trimmed.take(i as int));
        assert(trimmed[i as int] == t@);
        if t.len() > 0 {
            let ghost before = views(out@);
            out.push(t);
            assert(views(out@) =~= before + seq![t@]);
        } else {
            assert(drop_empty(trimmed.take(i + 1)) =~= drop_empty(trimmed.take(i as int)));
        }
        i = i + 1;
    }
    assert(trimmed.take(pieces.len() as int) =~= trimmed);
}

/// The lowercase form of an entry.
fn lower_of(e: &Vec<char>) -> (r: Vec<char>)
    ensures
        r@ == spec_to_lowercase(e@),
{
    let s = string_of(e.as_slice());
    let l = to_lowercase(s.as_str());
    chars_of(l.as_str())
}

/// The entries of `es`, keeping only the first of each lowercase form.
pub fn dedup_ci_exec(es: &Vec<Vec<char>>) -> (r: Vec<Vec<char>>)
    ensures
        views(r@) == dedup_ci(views(es@)),
{
    let ghost all = views(es@);
    let mut seen: Vec<Vec<char>> = Vec::new();
    let mut out: Vec<Vec<char>> = Vec::new();
    let mut i: usize = 0;
    while i < es.len()
        invariant
            i <= es.len(),
            all == views(es@),
            seen.len() == i,
            forall|k: int| 0 <= k < i ==> (#[trigger] seen@[k])@ == spec_to_lowercase(all[k]),
            views(out@) == dedup_ci(all.take(i as int)),
        decreases es.len() - i,
    {
        let l = lower_of(&es[i]);
        let mut found = false;
        let mut k: usize = 0;
        while k < seen.len()
            invariant
                k <= seen.len(),
                seen.len() == i,
                i < es.len(),
                all == views(es@),
                l@ == spec_to_lowercase(all[i as int]),
                forall|m: int| 0 <= m < i ==> (#[trigger] seen@[m])@ == spec_to_lowercase(all[m]),
                found == exists|m: int| 0 <= m < k && spec_to_lowercase(#[trigger] all[m]) == l@,
            decreases seen.len() - k,
        {
            if chars_eq(seen[k].as_slice(), l.as_slice()) {
                found = true;
            }
            k = k + 1;
        }
        proof {
            let init = all.take(i + 1).drop_last();
            assert(init =~= all.take(i as int));
            assert(all.take(i + 1).last() == all[i as int]);
            assert(found == seen_before(init, init.len() as int, all[i as int])) by {
                if found {
                    let m = choose|m: int|
                        0 <= m < i && spec_to_lowercase(#[trigger] all[m]) == l@;
                    assert(init[m] == all[m]);
                }
                if seen_before(init, init.len() as int, all[i as int]) {
                    let m = choose|m: int|
                        0 <= m < init.len() && spec_to_lowercase(#[trigger] init[m])
                            == spec_to_lowercase(all[i as int]);
                    assert(init[m] == all[m]);
                }
            }
        }
        if !found {
            let ghost before = views(out@);
            let e = slice_chars(es[i].as_slice(), 0, es[i].len());
            assert(e@ =~= all[i as int]);
            out.push(e);
            assert(views(out@) =~= before + seq![all[i as int]]);
        } else {
            assert(views(out@) =~= views(out@) + Seq::<Seq<char>>::empty());
        }
        seen.push(l);
        i = i + 1;
    }
    assert(all.take(es.len() as int) =~= all);
    out
}

/// The PATH value after reloading the registry: the machine PATH, the user
/// PATH and the process PATH merged without case-insensitive duplicates;
/// `None` when both registry values are empty and PATH should stay as it is.
pub fn refresh_system_path(machine: &str, user: &str, current: &str) -> (r: Option<String>)
    ensures
        match r {
            Some(p) => merged_path(machine@, user@, current@) == Some(p@),
            None => merged_path(machine@, user@, current@) is None,
        },
{
    let mv = chars_of(machine);
    let uv = chars_of(user);
    if mv.len() == 0 && uv.len() == 0 {
        return None;
    }
    let mut all: Vec<Vec<char>> = Vec::new();
    path_entries_exec(machine, &mut all);
    path_entries_exec(user, &mut all);
    path_entries_exec(current, &mut all);
    assert(views(all@) =~= path_entries(machine@) + path_entries(user@) + path_entries(current@));
    let kept = dedup_ci_exec(&all);
    let sep = chars_of(";");
    let joined = join_exec(&kept, sep.as_slice());
    Some(string_of(joined.as_slice()))
}


/// Laws of the case-insensitive deduplication behind `refresh_system_path`:
/// no two kept entries share a lowercase form, every entry has a kept entry
/// with its lowercase form, and every kept entry is one of the entries.
pub proof fn lemma_dedup_ci_laws(es: Seq<Seq<char>>)
    ensures
        forall|i: int, j: int|
            0 <= i < j < dedup_ci(es).len() ==> spec_to_lowercase(#[trigger] dedup_ci(es)[i])
                != spec_to_lowercase(#[trigger] dedup_ci(es)[j]),
        forall|i: int|
            0 <= i < es.len() ==> exists|k: int|
                0 <= k < dedup_ci(es).len() && spec_to_lowercase(#[trigger] dedup_ci(es)[k])
                    == spec_to_lowercase(#[trigger] es[i]),
        forall|k: int| 0 <= k < dedup_ci(es).len() ==> es.contains(#[trigger] dedup_ci(es)[k]),
    decreases es.len(),
{
    if es.len() > 0 {
        let init = es.drop_last();
        let last = es.last();
        lemma_dedup_ci_laws(init);
        let prev = dedup_ci(init);
        let r = dedup_ci(es);
        let seen = seen_before(init, init.len() as int, last);
        if seen {
            assert(r =~= prev);
        } else {
            assert(r =~= prev.push(last));
        }
        assert forall|k: int| 0 <= k < r.len() implies es.contains(#[trigger] r[k]) by {
            if k < prev.len() {
                assert(init.contains(prev[k]));
                let m = choose|m: int| 0 <= m < init.len() && init[m] == prev[k];
                assert(es[m] == prev[k]);
            } else {
                assert(es[es.len() - 1] == r[k]);
            }
        }
        assert forall|i: int, j: int|
            0 <= i < j < r.len() implies spec_to_lowercase(#[trigger] r[i]) != spec_to_lowercase(
            #[trigger] r[j],
        ) by {
            if j >= prev.len() {
                assert(init.contains(prev[i]));
                let m = choose|m: int| 0 <= m < init.len() && init[m] == prev[i];
                assert(!seen);
                if spec_to_lowercase(r[i]) == spec_to_lowercase(r[j]) {
                    assert(spec_to_lowercase(init[m]) == spec_to_lowercase(last));
                }
            } else {
                assert(r[i] == prev[i] && r[j] == prev[j]);
            }
        }
        assert forall|i: int| 0 <= i < es.len() implies exists|k: int|
            0 <= k < r.len() && spec_to_lowercase(#[trigger] r[k]) == spec_to_lowercase(
                #[trigger] es[i],
            ) by {
            if i < init.len() {
                assert(es[i] == init[i]);
                let k = choose|k: int|
                    0 <= k < prev.len() && spec_to_lowercase(#[trigger] prev[k])
                        == spec_to_lowercase(init[i]);
                assert(r[k] == prev[k]);
            } else if seen {
                let j = choose|j: int|
                    0 <= j < init.len() && spec_to_lowercase(#[trigger] init[j])
                        == spec_to_lowercase(last);
                let k = choose|k: int|
                    0 <= k < prev.len() && spec_to_lowercase(#[trigger] prev[k])
                        == spec_to_lowercase(init[j]);
                assert(r[k] == prev[k]);
            } else {
                assert(r[prev.len() as int] == es[i]);
            }
        }
    }
}


/// Some entry of `xs` has the lowercase form `l`.
pub open spec fn has_lower(xs: Seq<Seq<char>>, l: Seq<char>) -> bool {
    exists|j: int| 0 <= j < xs.len() && spec_to_lowercase(#[trigger] xs[j]) == l
}

/// The entries of `ys` that `dedup_ci` keeps after the entries `xs`.
pub open spec fn dedup_after(xs: Seq<Seq<char>>, ys: Seq<Seq<char>>) -> Seq<Seq<char>>
    decreases ys.len(),
{
    if ys.len() == 0 {
        seq![]
    } else {
        let init = ys.drop_last();
        dedup_after(xs, init) + if has_lower(xs + init, spec_to_lowercase(ys.last())) {
            Seq::<Seq<char>>::empty()
        } else {
            seq![ys.last()]
        }
    }
}

proof fn lemma_has_lower_concat(xs: Seq<Seq<char>>, ys: Seq<Seq<char>>, l: Seq<char>)
    ensures
        has_lower(xs + ys, l) == (has_lower(xs, l) || has_lower(ys, l)),
{
    let z = xs + ys;
    if has_lower(z, l) {
        let j = choose|j: int| 0 <= j < z.len() && spec_to_lowercase(#[trigger] z[j]) == l;
        if j < xs.len() {
            assert(z[j] == xs[j]);
        } else {
            assert(z[j] == ys[j - xs.len()]);
        }
    }
    if has_lower(xs, l) {
        let j = choose|j: int| 0 <= j < xs.len() && spec_to_lowercase(#[trigger] xs[j]) == l;
        assert(z[j] == xs[j]);
    }
    if has_lower(ys, l) {
        let j = choose|j: int| 0 <= j < ys.len() && spec_to_lowercase(#[trigger] ys[j]) == l;
        assert(z[xs.len() + j] == ys[j]);
    }
}

proof fn lemma_dedup_split(xs: Seq<Seq<char>>, ys: Seq<Seq<char>>)
    ensures
        dedup_ci(xs + ys) == dedup_ci(xs) + dedup_after(xs, ys),
    decreases ys.len(),
{
    if ys.len() == 0 {
        assert(xs + ys =~= xs);
    } else {
        let init = ys.drop_last();
        lemma_dedup_split(xs, init);
        assert((xs + ys).drop_last() =~= xs + init);
        assert((xs + ys).last() == ys.last());
    }
}

proof fn lemma_dedup_after_same_lower(x1: Seq<Seq<char>>, x2: Seq<Seq<char>>, ys: Seq<Seq<char>>)
    requires
        forall|l: Seq<char>| #[trigger] has_lower(x1, l) == has_lower(x2, l),
    ensures
        dedup_after(x1, ys) == dedup_after(x2, ys),
    decreases ys.len(),
{
    if ys.len() > 0 {
        let init = ys.drop_last();
        lemma_dedup_after_same_lower(x1, x2, init);
        let l = spec_to_lowercase(ys.last());
        lemma_has_lower_concat(x1, init, l);
        lemma_has_lower_concat(x2, init, l);
        assert(has_lower(x1, l) == has_lower(x2, l));
    }
}

proof fn lemma_dedup_after_seen(xs: Seq<Seq<char>>, ys: Seq<Seq<char>>)
    requires
        forall|i: int| 0 <= i < ys.len() ==> has_lower(xs, spec_to_lowercase(#[trigger] ys[i])),
    ensures
        dedup_after(xs, ys) == Seq::<Seq<char>>::empty(),
    decreases ys.len(),
{
    if ys.len() > 0 {
        let init = ys.drop_last();
        assert forall|i: int| 0 <= i < init.len() implies has_lower(
            xs,
            spec_to_lowercase(#[trigger] init[i]),
        ) by {
            assert(init[i] == ys[i]);
        }
        lemma_dedup_after_seen(xs, init);
        let l = spec_to_lowercase(ys.last());
        assert(has_lower(xs, spec_to_lowercase(ys[ys.len() - 1])));
        lemma_has_lower_concat(xs, init, l);
    }
}

proof fn lemma_dedup_after_fresh(xs: Seq<Seq<char>>, ys: Seq<Seq<char>>)
    requires
        forall|i: int| 0 <= i < ys.len() ==> !has_lower(xs, spec_to_lowercase(#[trigger] ys[i])),
        forall|i: int, j: int|
            0 <= i < j < ys.len() ==> spec_to_lowercase(#[trigger] ys[i]) != spec_to_lowercase(
                #[trigger] ys[j],
            ),
    ensures
        dedup_after(xs, ys) == ys,
    decreases ys.len(),
{
    if ys.len() > 0 {
        let init = ys.drop_last();
        let n = ys.len() - 1;
        assert forall|i: int| 0 <= i < init.len() implies !has_lower(
            xs,
            spec_to_lowercase(#[trigger] init[i]),
        ) by {
            assert(init[i] == ys[i]);
        }
        assert forall|i: int, j: int| 0 <= i < j < init.len() implies spec_to_lowercase(
            #[trigger] init[i],
        ) != spec_to_lowercase(#[trigger] init[j]) by {
            assert(init[i] == ys[i] && init[j] == ys[j]);
        }
        lemma_dedup_after_fresh(xs, init);
        let l = spec_to_lowercase(ys.last());
        assert(!has_lower(xs, spec_to_lowercase(ys[n])));
        if has_lower(init, l) {
            let j = choose|j: int| 0 <= j < init.len() && spec_to_lowercase(#[trigger] init[j]) == l;
            assert(init[j] == ys[j]);
            assert(spec_to_lowercase(ys[j]) != spec_to_lowercase(ys[n]));
        }
        lemma_has_lower_concat(xs, init, l);
        assert(init + seq![ys.last()] =~= ys);
    }
}

/// Deduplicating again after putting the same entries in front changes
/// nothing: `dedup_ci(a + dedup_ci(a + b)) == dedup_ci(a + b)`.
pub proof fn lemma_dedup_ci_again(a: Seq<Seq<char>>, b: Seq<Seq<char>>)
    ensures
        dedup_ci(a + dedup_ci(a + b)) == dedup_ci(a + b),
{
    let da = dedup_ci(a);
    let d2 = dedup_after(a, b);
    let d = dedup_ci(a + b);
    lemma_dedup_split(a, b);
    assert(d == da + d2);
    lemma_dedup_ci_laws(a);
    lemma_dedup_ci_laws(a + b);
    // Every kept entry of `a` is an entry of `a`.
    assert forall|i: int| 0 <= i < da.len() implies has_lower(a, spec_to_lowercase(#[trigger] da[i])) by {
        assert(a.contains(da[i]));
        let j = choose|j: int| 0 <= j < a.len() && a[j] == da[i];
    }
    // `a + da` and `a` have the same lowercase forms.
    assert forall|l: Seq<char>| #[trigger] has_lower(a + da, l) == has_lower(a, l) by {
        lemma_has_lower_concat(a, da, l);
        if has_lower(da, l) {
            let i = choose|i: int| 0 <= i < da.len() && spec_to_lowercase(#[trigger] da[i]) == l;
        }
    }
    // The entries kept from `b` are new after `a` and distinct.
    assert forall|i: int| 0 <= i < d2.len() implies !has_lower(a, spec_to_lowercase(#[trigger] d2[i])) by {
        assert(d[da.len() + i] == d2[i]);
        if has_lower(a, spec_to_lowercase(d2[i])) {
            let j = choose|j: int| 0 <= j < a.len() && spec_to_lowercase(#[trigger] a[j]) == spec_to_lowercase(d2[i]);
            let k = choose|k: int| 0 <= k < da.len() && spec_to_lowercase(#[trigger] da[k]) == spec_to_lowercase(#[trigger] a[j]);
            assert(d[k] == da[k]);
            assert(spec_to_lowercase(d[k]) != spec_to_lowercase(d[da.len() + i]));
        }
    }
    assert forall|i: int, j: int| 0 <= i < j < d2.len() implies spec_to_lowercase(#[trigger] d2[i])
        != spec_to_lowercase(#[trigger] d2[j]) by {
        assert(d[da.len() + i] == d2[i] && d[da.len() + j] == d2[j]);
    }
    lemma_dedup_split(a, d);
    lemma_dedup_split(a + da, d2);
    lemma_dedup_after_seen(a, da);
    lemma_dedup_after_same_lower(a + da, a, d2);
    lemma_dedup_after_fresh(a, d2);
    // dedup_after(a, da + d2) == dedup_after(a, da) + dedup_after(a + da, d2)
    lemma_dedup_split(a, da);
    assert(a + da + d2 =~= a + d);
    assert(dedup_ci(a + d) == dedup_ci(a + da) + dedup_after(a + da, d2));
    assert(dedup_ci(a + da) == da + dedup_after(a, da));
    assert(dedup_ci(a + d) =~= d);
}

/// A PATH entry as `path_entries` gives it: not empty, trimmed, and
/// without `;`.
pub open spec fn is_clean_entry(e: Seq<char>) -> bool {
    &&& e.len() > 0
    &&& trim(e) == e
    &&& forall|k: int| 0 <= k < e.len() ==> e[k] != ';'
}

proof fn lemma_drop_empty(xs: Seq<Seq<char>>)
    ensures
        forall|i: int|
            0 <= i < drop_empty(xs).len() ==> (#[trigger] drop_empty(xs)[i]).len() > 0 && xs.contains(
                drop_empty(xs)[i],
            ),
        (forall|i: int| 0 <= i < xs.len() ==> (#[trigger] xs[i]).len() > 0) ==> drop_empty(xs) == xs,
    decreases xs.len(),
{
    if xs.len() > 0 {
        let init = xs.drop_last();
        lemma_drop_empty(init);
        let d = drop_empty(xs);
        let di = drop_empty(init);
        assert forall|i: int| 0 <= i < d.len() implies (#[trigger] d[i]).len() > 0 && xs.contains(d[i]) by {
            if i < di.len() {
                assert(d[i] == di[i]);
                let j = choose|j: int| 0 <= j < init.len() && init[j] == di[i];
                assert(xs[j] == init[j]);
            } else {
                assert(d[i] == xs.last());
                assert(xs[xs.len() - 1] == xs.last());
            }
        }
        if forall|i: int| 0 <= i < xs.len() ==> (#[trigger] xs[i]).len() > 0 {
            assert forall|i: int| 0 <= i < init.len() implies (#[trigger] init[i]).len() > 0 by {
                assert(init[i] == xs[i]);
            }
            assert(xs[xs.len() - 1].len() > 0);
            assert(init + seq![xs.last()] =~= xs);
        }
    }
}

proof fn lemma_path_entries_clean(s: Seq<char>)
    ensures
        forall|i: int| 0 <= i < path_entries(s).len() ==> is_clean_entry(#[trigger] path_entries(s)[i]),
{
    let pieces = split_char(s, ';');
    let t = pieces.map_values(|e: Seq<char>| trim(e));
    lemma_split_no_sep(s, ';');
    lemma_drop_empty(t);
    assert forall|i: int| 0 <= i < path_entries(s).len() implies is_clean_entry(#[trigger] path_entries(s)[i]) by {
        let e = path_entries(s)[i];
        let j = choose|j: int| 0 <= j < t.len() && t[j] == e;
        let p = pieces[j];
        assert(forall|k: int| 0 <= k < p.len() ==> p[k] != ';');
        lemma_trim_laws(p, ';');
    }
}

proof fn lemma_path_entries_join(l: Seq<Seq<char>>)
    requires
        forall|i: int| 0 <= i < l.len() ==> is_clean_entry(#[trigger] l[i]),
    ensures
        path_entries(join(l, ";"@)) == l,
{
    reveal_strlit(";");
    assert(";"@ =~= seq![';']);
    if l.len() == 0 {
        let e = Seq::<char>::empty();
        lemma_split_single(e, ';');
        assert(trim_start(e) == e);
        assert(trim(e) == e);
        let t = split_char(e, ';').map_values(|x: Seq<char>| trim(x));
        assert(t =~= seq![e]);
        assert(t.drop_last() =~= Seq::<Seq<char>>::empty());
        assert(drop_empty(t.drop_last()) =~= Seq::<Seq<char>>::empty());
        assert(t.last().len() == 0);
        assert(drop_empty(t) =~= Seq::<Seq<char>>::empty());
        assert(join(l, ";"@) =~= e);
    } else {
        assert forall|i: int, k: int| 0 <= i < l.len() && 0 <= k < l[i].len() implies #[trigger] l[i][k]
            != ';' by {
            assert(is_clean_entry(l[i]));
        }
        lemma_split_join(l, ';');
        let t = l.map_values(|x: Seq<char>| trim(x));
        assert forall|i: int| 0 <= i < l.len() implies t[i] == l[i] by {
            assert(is_clean_entry(l[i]));
        }
        assert(t =~= l);
        assert forall|i: int| 0 <= i < l.len() implies (#[trigger] l[i]).len() > 0 by {
            assert(is_clean_entry(l[i]));
        }
        lemma_drop_empty(l);
    }
}

/// Refreshing PATH again with the same registry values leaves it as the
/// first refresh made it.
pub proof fn lemma_refresh_idempotent(machine: Seq<char>, user: Seq<char>, current: Seq<char>)
    ensures
        merged_path(machine, user, current) matches Some(p) ==> merged_path(machine, user, p) == Some(p),
{
    if merged_path(machine, user, current) is Some {
        let a = path_entries(machine) + path_entries(user);
        let b = path_entries(current);
        let d = dedup_ci(a + b);
        lemma_path_entries_clean(machine);
        lemma_path_entries_clean(user);
        lemma_path_entries_clean(current);
        lemma_dedup_ci_laws(a + b);
        assert forall|i: int| 0 <= i < d.len() implies is_clean_entry(#[trigger] d[i]) by {
            let j = choose|j: int| 0 <= j < (a + b).len() && (a + b)[j] == d[i];
            if j < path_entries(machine).len() {
                assert((a + b)[j] == path_entries(machine)[j]);
            } else if j < a.len() {
                assert((a + b)[j] == path_entries(user)[j - path_entries(machine).len()]);
            } else {
                assert((a + b)[j] == b[j - a.len()]);
            }
        }
        lemma_path_entries_join(d);
        lemma_dedup_ci_again(a, b);
    }
}

// ---------------------------------------------------------------------------
// Adding directories to the user PATH
// ---------------------------------------------------------------------------

/// The trimmed entries of the lowercased user PATH.
pub open spec fn lowered_entries(existing: Seq<char>) -> Seq<Seq<char>> {
    split_char(spec_to_lowercase(existing), ';').map_values(|e: Seq<char>| trim(e))
}

/// The lowercase forms of `es`.
pub open spec fn lowered(es: Seq<Seq<char>>) -> Seq<Seq<char>> {
    es.map_values(|e: Seq<char>| spec_to_lowercase(e))
}

/// The directories of `dirs` to add to the user PATH `existing`, in their
/// order: a directory is left out when its lowercase form is already an
/// entry of the PATH or is that of a directory kept before it.
pub open spec fn dirs_to_add(existing: Seq<char>, dirs: Seq<Seq<char>>) -> Seq<Seq<char>>
    decreases dirs.len(),
{
    if dirs.len() == 0 {
        seq![]
    } else {
        let prev = dirs_to_add(existing, dirs.drop_last());
        let l = spec_to_lowercase(dirs.last());
        prev + if lowered_entries(existing).contains(l) || lowered(prev).contains(l) {
            Seq::<Seq<char>>::empty()
        } else {
            seq![dirs.last()]
        }
    }
}

/// Laws of the directories added to the user PATH: none of them is already
/// an entry of the PATH, and no two of them are equal ignoring case.
pub proof fn lemma_dirs_to_add_laws(existing: Seq<char>, dirs: Seq<Seq<char>>)
    ensures
        forall|i: int|
            0 <= i < dirs_to_add(existing, dirs).len() ==> !lowered_entries(existing).contains(
                spec_to_lowercase(#[trigger] dirs_to_add(existing, dirs)[i]),
            ),
        forall|i: int, j: int|
            0 <= i < j < dirs_to_add(existing, dirs).len() ==> spec_to_lowercase(
                #[trigger] dirs_to_add(existing, dirs)[i],
            ) != spec_to_lowercase(#[trigger] dirs_to_add(existing, dirs)[j]),
    decreases dirs.len(),
{
    if dirs.len() > 0 {
        let init = dirs.drop_last();
        lemma_dirs_to_add_laws(existing, init);
        let prev = dirs_to_add(existing, init);
        let r = dirs_to_add(existing, dirs);
        let l = spec_to_lowercase(dirs.last());
        if lowered_entries(existing).contains(l) || lowered(prev).contains(l) {
            assert(r =~= prev);
        } else {
            assert(r =~= prev.push(dirs.last()));
            assert forall|i: int, j: int| 0 <= i < j < r.len() implies spec_to_lowercase(
                #[trigger] r[i],
            ) != spec_to_lowercase(#[trigger] r[j]) by {
                if j == prev.len() {
                    assert(lowered(prev)[i] == spec_to_lowercase(prev[i]));
                } else {
                    assert(r[i] == prev[i] && r[j] == prev[j]);
                }
            }
            assert forall|i: int| 0 <= i < r.len() implies !lowered_entries(existing).contains(
                spec_to_lowercase(#[trigger] r[i]),
            ) by {
                if i < prev.len() {
                    assert(r[i] == prev[i]);
                }
            }
        }
    }
}

/// The user PATH after adding `dirs`: the missing ones appended with `;`
/// (or the missing ones alone when the PATH was empty); `None` when every
/// directory is already there and nothing is to be written.
pub open spec fn user_path_after_adding(existing: Seq<char>, dirs: Seq<Seq<char>>) -> Option<
    Seq<char>,
> {
    let add = dirs_to_add(existing, dirs);
    if add.len() == 0 {
        None
    } else if existing.len() == 0 {
        Some(join(add, ";"@))
    } else {
        Some(existing + ";"@ + join(add, ";"@))
    }
}

/// Whether `v` holds the characters `e`.
fn contains_entry(v: &Vec<Vec<char>>, e: &[char]) -> (r: bool)
    ensures
        r == views(v@).contains(e@),
{
    let mut i: usize = 0;
    while i < v.len()
        invariant
            i <= v.len(),
            forall|k: int| 0 <= k < i ==> views(v@)[k] != e@,
        decreases v.len() - i,
    {
        if chars_eq(v[i].as_slice(), e) {
            assert(views(v@)[i as int] == e@);
            return true;
        }
        i = i + 1;
    }
    false
}

/// The new value of the user PATH once `new_dirs` are added to `existing`,
/// comparing without regard to case; `None` when all are already listed.
pub fn user_path_with_dirs(existing: &str, new_dirs: &Vec<String>) -> (r: Option<String>)
    ensures
        match r {
            Some(p) => user_path_after_adding(existing@, string_views(new_dirs@)) == Some(p@),
            None => user_path_after_adding(existing@, string_views(new_dirs@)) is None,
        },
{
    let lower = to_lowercase(existing);
    let lv = chars_of(lower.as_str());
    let pieces = split_char_exec(lv.as_slice(), ';');
    let mut entries: Vec<Vec<char>> = Vec::new();
    let mut i: usize = 0;
    while i < pieces.len()
        invariant
            i <= pieces.len(),
            views(pieces@) == split_char(spec_to_lowercase(existing@), ';'),
            views(entries@) == split_char(spec_to_lowercase(existing@), ';').map_values(
                |e: Seq<char>| trim(e),
            ).take(i as int),
        decreases pieces.len() - i,
    {
        let t = trim_exec(pieces[i].as_slice());
        let ghost before = views(entries@);
        let ghost m = split_char(spec_to_lowercase(existing@), ';').map_values(
            |e: Seq<char>| trim(e),
        );
        assert(views(pieces@)[i as int] == pieces@[i as int]@);
        assert(m[i as int] == t@);
        entries.push(t);
        assert(views(entries@) =~= before.push(t@));
        assert(m.take(i + 1) =~= m.take(i as int).push(m[i as int]));
        assert(views(entries@) =~= split_char(spec_to_lowercase(existing@), ';').map_values(
            |e: Seq<char>| trim(e),
        ).take(i + 1));
        i = i + 1;
    }
    assert(views(entries@) =~= lowered_entries(existing@));
    let ghost dirs = string_views(new_dirs@);
    let mut add: Vec<Vec<char>> = Vec::new();
    let mut add_lower: Vec<Vec<char>> = Vec::new();
    let mut j: usize = 0;
    while j < new_dirs.len()
        invariant
            j <= new_dirs.len(),
            dirs == string_views(new_dirs@),
            views(entries@) == lowered_entries(existing@),
            views(add@) == dirs_to_add(existing@, dirs.take(j as int)),
            views(add_lower@) == lowered(views(add@)),
        decreases new_dirs.len() - j,
    {
        let d = chars_of(new_dirs[j].as_str());
        let dl = to_lowercase(new_dirs[j].as_str());
        let dlv = chars_of(dl.as_str());
        assert(dirs.take(j + 1).drop_last() =~= dirs.take(j as int));
        assert(dirs.take(j + 1).last() == d@);
        if !contains_entry(&entries, dlv.as_slice()) && !contains_entry(&add_lower, dlv.as_slice()) {
            let ghost before = views(add@);
            let ghost before_lower = views(add_lower@);
            add.push(d);
            add_lower.push(dlv);
            assert(views(add@) =~= before + seq![d@]);
            assert(views(add_lower@) =~= before_lower.push(dlv@));
            assert(dlv@ == spec_to_lowercase(d@));
            assert(lowered(before + seq![d@]) =~= lowered(before).push(spec_to_lowercase(d@)));
            assert(views(add_lower@) =~= lowered(views(add@)));
        } else {
            assert(views(add@) =~= views(add@) + Seq::<Seq<char>>::empty());
        }
        j = j + 1;
    }
    assert(dirs.take(new_dirs.len() as int) =~= dirs);
    if add.len() == 0 {
        return None;
    }
    let sep = chars_of(";");
    let joined = join_exec(&add, sep.as_slice());
    let ev = chars_of(existing);
    if ev.len() == 0 {
        Some(string_of(joined.as_slice()))
    } else {
        let mut out = string_of(ev.as_slice());
        crate::text::push_chars(&mut out, sep.as_slice());
        crate::text::push_chars(&mut out, joined.as_slice());
        Some(out)
    }
}

/// PATH with `dir` put in front, joined with `sep`; `None` (leave PATH
/// alone) when PATH already contains `dir`.
pub open spec fn prepended_path(current: Seq<char>, dir: Seq<char>, sep: Seq<char>) -> Option<Seq<char>> {
    if crate::text::contains(current, dir) {
        None
    } else {
        Some(dir + sep + current)
    }
}

/// The PATH value with `dir` in front, unless `current` already contains it.
pub fn path_with_prepended(current: &str, dir: &str, sep: &str) -> (r: Option<String>)
    ensures
        match r {
            Some(p) => prepended_path(current@, dir@, sep@) == Some(p@),
            None => prepended_path(current@, dir@, sep@) is None,
        },
{
    if crate::text::str_contains(current, dir) {
        None
    } else {
        let mut p = crate::text::to_owned_string(dir);
        crate::text::push_str(&mut p, sep);
        crate::text::push_str(&mut p, current);
        Some(p)
    }
}

// ---------------------------------------------------------------------------
// npm global prefix cache
// ---------------------------------------------------------------------------

/// The npm global prefix that `npm config get prefix` printed: its trimmed
/// text, unless that is empty or starts with `npm` (an error message).
pub open spec fn prefix_from_output(out: Seq<char>) -> Option<Seq<char>> {
    let t = trim(out);
    if t.len() > 0 && !starts_with(t, "npm"@) {
        Some(t)
    } else {
        None
    }
}

/// The npm global prefix named by the output of `npm config get prefix`.
pub fn npm_prefix_from_output(output: &str) -> (r: Option<String>)
    ensures
        match r {
            Some(p) => prefix_from_output(output@) == Some(p@),
            None => prefix_from_output(output@) is None,
        },
{
    let v = chars_of(output);
    let t = trim_exec(v.as_slice());
    let npm = chars_of("npm");
    if t.len() > 0 && !starts_with_exec(t.as_slice(), npm.as_slice()) {
        Some(string_of(t.as_slice()))
    } else {
        None
    }
}

/// The cache after a query whose (successful) output was `out`: an accepted
/// prefix replaces it, anything else leaves it as it was.
pub open spec fn cache_after_query(cache: Option<Seq<char>>, out: Option<Seq<char>>) -> Option<
    Seq<char>,
> {
    match out {
        Some(o) => match prefix_from_output(o) {
            Some(p) => Some(p),
            None => cache,
        },
        None => cache,
    }
}

/// The npm global prefix learned from `npm config get prefix`, kept so that
/// the command runs at most once until the cache is invalidated.
pub struct NpmPrefixCache {
    cached: Option<String>,
}

impl View for NpmPrefixCache {
    type V = Option<Seq<char>>;

    closed spec fn view(&self) -> Option<Seq<char>> {
        match self.cached {
            Some(s) => Some(s@),
            None => None,
        }
    }
}

impl NpmPrefixCache {
    /// An empty cache.
    pub fn new() -> (r: Self)
        ensures
            r@ is None,
    {
        NpmPrefixCache { cached: None }
    }

    /// The cached prefix, if any; when there is one, no query is needed.
    pub fn lookup(&self) -> (r: Option<String>)
        ensures
            match r {
                Some(p) => self@ == Some(p@),
                None => self@ is None,
            },
    {
        match &self.cached {
            Some(p) => Some(crate::text::to_owned_string(p.as_str())),
            None => None,
        }
    }

    /// Takes the output of `npm config get prefix` (`None` when the command
    /// failed, did not finish in time or could not be read) and returns the
    /// prefix it names, remembering it.
    pub fn record_query(&mut self, output: Option<&str>) -> (r: Option<String>)
        ensures
            match output {
                Some(o) => match r {
                    Some(p) => prefix_from_output(o@) == Some(p@),
                    None => prefix_from_output(o@) is None,
                },
                None => r is None,
            },
            final(self)@ == cache_after_query(
                old(self)@,
                match output {
                    Some(o) => Some(o@),
                    None => None,
                },
            ),
    {
        match output {
            Some(o) => match npm_prefix_from_output(o) {
                Some(p) => {
                    self.cached = Some(crate::text::to_owned_string(p.as_str()));
                    Some(p)
                },
                None => None,
            },
            None => None,
        }
    }
}

/// Forgets the cached npm prefix.
pub fn invalidate(cache: &mut NpmPrefixCache)
    ensures
        final(cache)@ is None,
{
    cache.cached = None;
}

/// Forgets the cached npm prefix so that the next PATH expansion asks npm
/// again; called after Node.js is installed.
pub fn invalidate_npm_prefix_cache(cache: &mut NpmPrefixCache)
    ensures
        final(cache)@ is None,
{
    invalidate(cache);
}

/// Laws of the npm prefix cache: after invalidation a lookup needs a new
/// query; a query whose output names a prefix makes later lookups return it
/// without another query; a query that names none leaves the cache alone.
pub proof fn lemma_npm_prefix_cache_laws(cache: Option<Seq<char>>, out: Seq<char>)
    ensures
        prefix_from_output(out) matches Some(p) ==> cache_after_query(cache, Some(out)) == Some(
            p,
        ),
        prefix_from_output(out) is None ==> cache_after_query(cache, Some(out)) == cache,
        cache_after_query(cache, None) == cache,
{
}


// ---------------------------------------------------------------------------
// Directories searched for Node.js tools
// ---------------------------------------------------------------------------

/// `base` joined with the relative path `rel` on Unix (`Path::join`): no
/// separator after an empty base or one that ends with `/`.
pub open spec fn unix_join(base: Seq<char>, rel: Seq<char>) -> Seq<char> {
    if base.len() == 0 || base.last() == '/' {
        base + rel
    } else {
        base + "/"@ + rel
    }
}

/// `base` is a bare drive such as `C:`.
pub open spec fn is_bare_drive(base: Seq<char>) -> bool {
    base.len() == 2 && base[1] == ':' && (('A' <= base[0] && base[0] <= 'Z') || ('a' <= base[0]
        && base[0] <= 'z'))
}

/// `base` joined with the relative path `rel` on Windows: a `\` is put in
/// between unless `base` is empty, already ends with `\` or `/`, or is a bare
/// drive.
pub open spec fn windows_join(base: Seq<char>, rel: Seq<char>) -> Seq<char> {
    if base.len() == 0 || base.last() == '\\' || base.last() == '/' || is_bare_drive(base) {
        base + rel
    } else {
        base + "\\"@ + rel
    }
}

/// `base` joined with the relative Unix path `rel`.
pub fn unix_join_exec(base: &str, rel: &str) -> (r: String)
    ensures
        r@ == unix_join(base@, rel@),
{
    let b = chars_of(base);
    let mut out = string_of(b.as_slice());
    if b.len() > 0 && b[b.len() - 1] != '/' {
        crate::text::push_char(&mut out, '/');
        proof {
            reveal_strlit("/");
        }
        assert(out@ =~= base@ + "/"@);
    }
    crate::text::push_str(&mut out, rel);
    out
}

/// `base` joined with the relative Windows path `rel`.
pub fn windows_join_exec(base: &str, rel: &str) -> (r: String)
    ensures
        r@ == windows_join(base@, rel@),
{
    let b = chars_of(base);
    let mut out = string_of(b.as_slice());
    let bare_drive = b.len() == 2 && b[1] == ':' && (('A' <= b[0] && b[0] <= 'Z') || ('a' <= b[0]
        && b[0] <= 'z'));
    if b.len() > 0 && b[b.len() - 1] != '\\' && b[b.len() - 1] != '/' && !bare_drive {
        crate::text::push_char(&mut out, '\\');
        proof {
            reveal_strlit("\\");
        }
        assert(out@ =~= base@ + "\\"@);
    }
    crate::text::push_str(&mut out, rel);
    out
}

pub open spec fn opt_seq(o: Option<Seq<char>>) -> Seq<Seq<char>> {
    match o {
        Some(s) => seq![s],
        None => seq![],
    }
}

pub open spec fn opt_view(o: Option<String>) -> Option<Seq<char>> {
    match o {
        Some(s) => Some(s@),
        None => None,
    }
}

/// The glob pattern for nvm's Node.js `bin` directories under `home`.
pub open spec fn nvm_bin_pattern(home: Seq<char>) -> Seq<char> {
    unix_join(home, ".nvm/versions/node/*/bin"@)
}

/// The glob pattern for fnm's Node.js `bin` directories under `home`.
pub open spec fn fnm_bin_pattern(home: Seq<char>) -> Seq<char> {
    unix_join(home, ".fnm/node-versions/*/installation/bin"@)
}

/// Glob patterns searched on Unix for the newest nvm and fnm installations.
pub fn unix_node_patterns(home: &str) -> (r: (String, String))
    ensures
        r.0@ == nvm_bin_pattern(home@),
        r.1@ == fnm_bin_pattern(home@),
{
    (unix_join_exec(home, ".nvm/versions/node/*/bin"), unix_join_exec(
        home,
        ".fnm/node-versions/*/installation/bin",
    ))
}

/// The directories added to PATH on Unix, in order: Homebrew, `/usr/local`,
/// the newest nvm and fnm installations when found, then Volta, `n`,
/// `~/.local/bin` and the install locations this app uses.
pub open spec fn unix_extra_dirs(
    home: Seq<char>,
    nvm_latest: Option<Seq<char>>,
    fnm_latest: Option<Seq<char>>,
) -> Seq<Seq<char>> {
    seq!["/opt/homebrew/bin"@, "/opt/homebrew/sbin"@, "/usr/local/bin"@] + opt_seq(nvm_latest)
        + opt_seq(fnm_latest) + seq![
        unix_join(home, ".volta/bin"@),
        unix_join(home, "n/bin"@),
        unix_join(home, ".local/bin"@),
        unix_join(home, ".local/node/bin"@),
        unix_join(home, ".local/git/bin"@),
    ]
}

fn push_string(v: &mut Vec<String>, s: String)
    ensures
        string_views(final(v)@) == string_views(old(v)@).push(s@),
{
    let ghost before = string_views(v@);
    v.push(s);
    assert(string_views(v@) =~= before.push(s@));
}

fn push_opt(v: &mut Vec<String>, s: &Option<String>)
    ensures
        string_views(final(v)@) == string_views(old(v)@) + opt_seq(opt_view(*s)),
{
    match s {
        Some(x) => {
            push_string(v, crate::text::to_owned_string(x.as_str()));
        },
        None => {
            assert(string_views(v@) =~= string_views(v@) + Seq::<Seq<char>>::empty());
        },
    }
}

/// The candidate directories for PATH on Unix, before keeping those that
/// exist.
pub fn unix_extra_dirs_exec(home: &str, nvm_latest: &Option<String>, fnm_latest: &Option<String>) -> (r: Vec<String>)
    ensures
        string_views(r@) == unix_extra_dirs(home@, opt_view(*nvm_latest), opt_view(*fnm_latest)),
{
    let mut v: Vec<String> = Vec::new();
    push_string(&mut v, crate::text::to_owned_string("/opt/homebrew/bin"));
    push_string(&mut v, crate::text::to_owned_string("/opt/homebrew/sbin"));
    push_string(&mut v, crate::text::to_owned_string("/usr/local/bin"));
    push_opt(&mut v, nvm_latest);
    push_opt(&mut v, fnm_latest);
    push_string(&mut v, unix_join_exec(home, ".volta/bin"));
    push_string(&mut v, unix_join_exec(home, "n/bin"));
    push_string(&mut v, unix_join_exec(home, ".local/bin"));
    push_string(&mut v, unix_join_exec(home, ".local/node/bin"));
    push_string(&mut v, unix_join_exec(home, ".local/git/bin"));
    assert(string_views(v@) =~= unix_extra_dirs(
        home@,
        opt_view(*nvm_latest),
        opt_view(*fnm_latest),
    ));
    v
}

/// `p` when it is not empty.
pub open spec fn if_set(p: Seq<char>) -> Seq<Seq<char>> {
    if p.len() > 0 {
        seq![p]
    } else {
        seq![]
    }
}

/// What the Windows environment contributes to the PATH search.
pub struct WindowsPathInputs {
    pub home: String,
    pub appdata: String,
    pub npm_prefix: Option<String>,
    pub nvm_home: String,
    pub nvm_symlink: String,
    pub local_app_data: String,
    pub fnm_local_latest: Option<String>,
    pub fnm_dir: String,
    pub fnm_dir_latest: Option<String>,
}

/// The directories added to PATH on Windows, in order: the Node.js installer
/// locations, npm's global directory and prefix, nvm-windows, the newest fnm
/// installations, Volta, Scoop, Git for Windows, and the portable Git and
/// Node.js this app installs. Unset variables contribute nothing.
pub open spec fn windows_extra_dirs(w: WindowsPathInputs) -> Seq<Seq<char>> {
    seq!["C:\\Program Files\\nodejs"@, "C:\\Program Files (x86)\\nodejs"@] + windows_env_dirs(w)
        + windows_home_dirs(w.home@) + windows_local_dirs(w.local_app_data@)
}

/// The directory that holds fnm's Node.js versions under `base`
/// (`%LOCALAPPDATA%\fnm` or `FNM_DIR`).
pub open spec fn fnm_versions_dir(base: Seq<char>, under_fnm: bool) -> Seq<char> {
    if under_fnm {
        windows_join(windows_join(base, "fnm"@), "node-versions"@)
    } else {
        windows_join(base, "node-versions"@)
    }
}

/// The fnm versions directory under `%LOCALAPPDATA%` (`under_fnm`) or under
/// `FNM_DIR`.
pub fn fnm_versions_dir_exec(base: &str, under_fnm: bool) -> (r: String)
    ensures
        r@ == fnm_versions_dir(base@, under_fnm),
{
    if under_fnm {
        let f = windows_join_exec(base, "fnm");
        windows_join_exec(f.as_str(), "node-versions")
    } else {
        windows_join_exec(base, "node-versions")
    }
}

fn append_strings(v: &mut Vec<String>, w: Vec<String>)
    ensures
        string_views(final(v)@) == string_views(old(v)@) + string_views(w@),
{
    let ghost start = string_views(v@);
    let n = w.len();
    let mut i: usize = 0;
    let ghost ws = string_views(w@);
    while i < n
        invariant
            n == w.len(),
            i <= n,
            ws == string_views(w@),
            string_views(v@) == start + ws.take(i as int),
        decreases n - i,
    {
        let s = crate::text::to_owned_string(w[i].as_str());
        let ghost before = string_views(v@);
        v.push(s);
        assert(string_views(v@) =~= before.push(ws[i as int]));
        assert(ws.take(i + 1) =~= ws.take(i as int).push(ws[i as int]));
        i = i + 1;
    }
    assert(ws.take(n as int) =~= ws);
}

/// The part of the Windows list that comes from environment variables.
pub open spec fn windows_env_dirs(w: WindowsPathInputs) -> Seq<Seq<char>> {
    (if w.appdata@.len() > 0 {
        seq![windows_join(w.appdata@, "npm"@)]
    } else {
        seq![]
    }) + opt_seq(opt_view(w.npm_prefix)) + if_set(w.nvm_home@) + if_set(w.nvm_symlink@) + (if w.local_app_data@.len() > 0 {
        opt_seq(opt_view(w.fnm_local_latest))
    } else {
        seq![]
    }) + (if w.fnm_dir@.len() > 0 {
        opt_seq(opt_view(w.fnm_dir_latest))
    } else {
        seq![]
    })
}

/// The part of the Windows list under the home directory and Git's locations.
pub open spec fn windows_home_dirs(home: Seq<char>) -> Seq<Seq<char>> {
    seq![
        windows_join(windows_join(home, ".volta"@), "bin"@),
        windows_join(windows_join(home, "scoop"@), "shims"@),
        "C:\\Program Files\\Git\\cmd"@,
        "C:\\Program Files (x86)\\Git\\cmd"@,
    ]
}

/// The part of the Windows list under `%LOCALAPPDATA%\Programs`.
pub open spec fn windows_local_dirs(local: Seq<char>) -> Seq<Seq<char>> {
    if local.len() > 0 {
        seq![
            windows_join(windows_join(windows_join(local, "Programs"@), "MinGit"@), "cmd"@),
            windows_join(windows_join(local, "Programs"@), "nodejs"@),
        ]
    } else {
        seq![]
    }
}

fn windows_env_dirs_exec(w: &WindowsPathInputs) -> (r: Vec<String>)
    ensures
        string_views(r@) == windows_env_dirs(*w),
{
    let mut v: Vec<String> = Vec::new();
    if !w.appdata.as_str().is_empty() {
        push_string(&mut v, windows_join_exec(w.appdata.as_str(), "npm"));
    }
    let ghost s1 = string_views(v@);
    push_opt(&mut v, &w.npm_prefix);
    let ghost s2 = string_views(v@);
    if !w.nvm_home.as_str().is_empty() {
        push_string(&mut v, crate::text::to_owned_string(w.nvm_home.as_str()));
    }
    assert(string_views(v@) =~= s2 + if_set(w.nvm_home@));
    let ghost s3 = string_views(v@);
    if !w.nvm_symlink.as_str().is_empty() {
        push_string(&mut v, crate::text::to_owned_string(w.nvm_symlink.as_str()));
    }
    assert(string_views(v@) =~= s3 + if_set(w.nvm_symlink@));
    let ghost s4 = string_views(v@);
    if !w.local_app_data.as_str().is_empty() {
        push_opt(&mut v, &w.fnm_local_latest);
    }
    let ghost s5 = string_views(v@);
    if !w.fnm_dir.as_str().is_empty() {
        push_opt(&mut v, &w.fnm_dir_latest);
    }
    proof {
        let a = if w.appdata@.len() > 0 {
            seq![windows_join(w.appdata@, "npm"@)]
        } else {
            Seq::<Seq<char>>::empty()
        };
        let e = if w.local_app_data@.len() > 0 {
            opt_seq(opt_view(w.fnm_local_latest))
        } else {
            Seq::<Seq<char>>::empty()
        };
        let f = if w.fnm_dir@.len() > 0 {
            opt_seq(opt_view(w.fnm_dir_latest))
        } else {
            Seq::<Seq<char>>::empty()
        };
        assert(s1 =~= a);
        assert(s5 =~= s4 + e);
        assert(string_views(v@) =~= s5 + f);
    }
    v
}

fn windows_home_dirs_exec(home: &str) -> (r: Vec<String>)
    ensures
        string_views(r@) == windows_home_dirs(home@),
{
    let mut v: Vec<String> = Vec::new();
    let volta = windows_join_exec(home, ".volta");
    push_string(&mut v, windows_join_exec(volta.as_str(), "bin"));
    let scoop = windows_join_exec(home, "scoop");
    push_string(&mut v, windows_join_exec(scoop.as_str(), "shims"));
    push_string(&mut v, crate::text::to_owned_string("C:\\Program Files\\Git\\cmd"));
    push_string(&mut v, crate::text::to_owned_string("C:\\Program Files (x86)\\Git\\cmd"));
    assert(string_views(v@) =~= windows_home_dirs(home@));
    v
}

fn windows_local_dirs_exec(local: &str) -> (r: Vec<String>)
    ensures
        string_views(r@) == windows_local_dirs(local@),
{
    let mut v: Vec<String> = Vec::new();
    if !local.is_empty() {
        let programs = windows_join_exec(local, "Programs");
        let mingit = windows_join_exec(programs.as_str(), "MinGit");
        push_string(&mut v, windows_join_exec(mingit.as_str(), "cmd"));
        push_string(&mut v, windows_join_exec(programs.as_str(), "nodejs"));
    }
    assert(string_views(v@) =~= windows_local_dirs(local@));
    v
}

/// The candidate directories for PATH on Windows, before keeping those that
/// exist.
pub fn windows_extra_dirs_exec(w: &WindowsPathInputs) -> (r: Vec<String>)
    ensures
        string_views(r@) == windows_extra_dirs(*w),
{
    let mut v: Vec<String> = Vec::new();
    push_string(&mut v, crate::text::to_owned_string("C:\\Program Files\\nodejs"));
    push_string(&mut v, crate::text::to_owned_string("C:\\Program Files (x86)\\nodejs"));
    let ghost s0 = string_views(v@);
    append_strings(&mut v, windows_env_dirs_exec(w));
    let ghost s1 = string_views(v@);
    append_strings(&mut v, windows_home_dirs_exec(w.home.as_str()));
    let ghost s2 = string_views(v@);
    append_strings(&mut v, windows_local_dirs_exec(w.local_app_data.as_str()));
    proof {
        assert(s0 =~= seq!["C:\\Program Files\\nodejs"@, "C:\\Program Files (x86)\\nodejs"@]);
    }
    v
}

/// The character vectors of a list of strings.
pub fn chars_of_all(v: &Vec<String>) -> (r: Vec<Vec<char>>)
    ensures
        views(r@) == string_views(v@),
{
    let mut parts: Vec<Vec<char>> = Vec::new();
    let mut i: usize = 0;
    while i < v.len()
        invariant
            i <= v.len(),
            views(parts@) == string_views(v@).take(i as int),
        decreases v.len() - i,
    {
        let c = chars_of(v[i].as_str());
        let ghost before = views(parts@);
        parts.push(c);
        assert(views(parts@) =~= before.push(c@));
        assert(string_views(v@)[i as int] == c@);
        assert(string_views(v@).take(i + 1) =~= string_views(v@).take(i as int).push(c@));
        i = i + 1;
    }
    assert(string_views(v@).take(v.len() as int) =~= string_views(v@));
    parts
}

/// The expanded PATH: the candidate directories that exist, then the current
/// PATH, joined with `;` on Windows and `:` elsewhere.
pub open spec fn expanded_path_value(existing: Seq<Seq<char>>, current: Seq<char>, windows: bool) -> Seq<char> {
    join(existing.push(current), if windows {
        ";"@
    } else {
        ":"@
    })
}

/// Builds the expanded PATH from the candidate directories that exist and
/// the current PATH.
pub fn assemble_expanded_path(existing: &Vec<String>, current: &str, windows: bool) -> (r: String)
    ensures
        r@ == expanded_path_value(string_views(existing@), current@, windows),
{
    let mut parts = chars_of_all(existing);
    let cur = chars_of(current);
    let ghost before = views(parts@);
    parts.push(cur);
    assert(views(parts@) =~= before.push(cur@));
    let sep = if windows {
        chars_of(";")
    } else {
        chars_of(":")
    };
    let joined = join_exec(&parts, sep.as_slice());
    string_of(joined.as_slice())
}

} // verus!
