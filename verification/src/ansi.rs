//! Removal of ANSI escape sequences (colours, cursor movement) from the log
//! lines that child processes print.

use vstd::prelude::*;
use crate::text::{chars_of, push_char};

verus! {

/// The escape character that starts an ANSI sequence.
pub const ESC: char = '\u{1b}';

pub open spec fn is_ascii_alphabetic(c: char) -> bool {
    ('A' <= c && c <= 'Z') || ('a' <= c && c <= 'z')
}

/// The position just after the first ASCII letter at or after `k` (the final
/// byte of a control sequence), or the end of `s` when there is none.
pub open spec fn csi_end(s: Seq<char>, k: int) -> int
    decreases s.len() - k,
{
    if k < 0 || k >= s.len() {
        s.len() as int
    } else if is_ascii_alphabetic(s[k]) {
        k + 1
    } else {
        csi_end(s, k + 1)
    }
}

pub proof fn lemma_csi_end_bounds(s: Seq<char>, k: int)
    requires
        0 <= k <= s.len(),
    ensures
        k <= csi_end(s, k) <= s.len(),
    decreases s.len() - k,
{
    if k < s.len() && !is_ascii_alphabetic(s[k]) {
        lemma_csi_end_bounds(s, k + 1);
    }
}

/// What is left of `s[i..]` once escape sequences are removed: an `ESC '['`
/// drops everything up to and including the next ASCII letter; a lone `ESC`
/// is dropped; every other character is kept.
pub open spec fn strip_ansi_from(s: Seq<char>, i: int) -> Seq<char>
    decreases s.len() - i,
{
    if i < 0 || i >= s.len() {
        seq![]
    } else if s[i] == ESC {
        if i + 1 < s.len() && s[i + 1] == '[' {
            proof {
                lemma_csi_end_bounds(s, i + 2);
            }
            strip_ansi_from(s, csi_end(s, i + 2))
        } else {
            strip_ansi_from(s, i + 1)
        }
    } else {
        seq![s[i]] + strip_ansi_from(s, i + 1)
    }
}

/// `s` with its ANSI escape sequences removed.
pub open spec fn strip_ansi(s: Seq<char>) -> Seq<char> {
    strip_ansi_from(s, 0)
}

/// Removes ANSI escape sequences (such as `"\x1b[31m"`) from `s`.
pub fn strip_ansi_codes(s: &str) -> (r: String)
    ensures
        r@ == strip_ansi(s@),
{
    let v = chars_of(s);
    let n = v.len();
    let mut out = String::new();
    let mut i: usize = 0;
    while i < n
        invariant
            n == v.len(),
            i <= n,
            strip_ansi(v@) == out@ + strip_ansi_from(v@, i as int),
        decreases n - i,
    {
        let c = v[i];
        if c == ESC {
            if i + 1 < n && v[i + 1] == '[' {
                let mut j: usize = i + 2;
                proof {
                    lemma_csi_end_bounds(v@, i + 2);
                }
                while j < n
                    invariant_except_break
                        i + 2 <= j <= n,
                        n == v.len(),
                        csi_end(v@, i + 2) == csi_end(v@, j as int),
                    ensures
                        j == csi_end(v@, i + 2),
                    decreases n - j,
                {
                    let d = v[j];
                    j = j + 1;
                    if ('A' <= d && d <= 'Z') || ('a' <= d && d <= 'z') {
                        break;
                    }
                }
                i = j;
            } else {
                i = i + 1;
            }
        } else {
            let ghost before = out@;
            push_char(&mut out, c);
            assert(before + strip_ansi_from(v@, i as int) == out@ + strip_ansi_from(
                v@,
                i + 1,
            ));
            i = i + 1;
        }
    }
    assert(out@ + Seq::<char>::empty() =~= out@);
    out
}

/// The output of stripping holds no escape character.
pub proof fn lemma_strip_ansi_from_no_esc(s: Seq<char>, i: int)
    ensures
        forall|k: int|
            0 <= k < strip_ansi_from(s, i).len() ==> #[trigger] strip_ansi_from(s, i)[k] != ESC,
    decreases s.len() - i,
{
    if 0 <= i < s.len() {
        if s[i] == ESC {
            if i + 1 < s.len() && s[i + 1] == '[' {
                lemma_csi_end_bounds(s, i + 2);
                lemma_strip_ansi_from_no_esc(s, csi_end(s, i + 2));
                assert(strip_ansi_from(s, i) == strip_ansi_from(s, csi_end(s, i + 2)));
            } else {
                lemma_strip_ansi_from_no_esc(s, i + 1);
                assert(strip_ansi_from(s, i) == strip_ansi_from(s, i + 1));
            }
        } else {
            lemma_strip_ansi_from_no_esc(s, i + 1);
            let rest = strip_ansi_from(s, i + 1);
            assert forall|k: int|
                0 <= k < strip_ansi_from(s, i).len() implies #[trigger] strip_ansi_from(
                s,
                i,
            )[k] != ESC by {
                if k > 0 {
                    assert(strip_ansi_from(s, i)[k] == rest[k - 1]);
                }
            }
        }
    }
}

/// Text without escape characters passes through unchanged.
pub proof fn lemma_strip_ansi_from_plain(s: Seq<char>, i: int)
    requires
        0 <= i <= s.len(),
        forall|k: int| 0 <= k < s.len() ==> s[k] != ESC,
    ensures
        strip_ansi_from(s, i) == s.subrange(i, s.len() as int),
    decreases s.len() - i,
{
    if i < s.len() {
        lemma_strip_ansi_from_plain(s, i + 1);
        assert(seq![s[i]] + s.subrange(i + 1, s.len() as int) =~= s.subrange(i, s.len() as int));
    } else {
        assert(s.subrange(i, s.len() as int) =~= Seq::<char>::empty());
    }
}

/// Laws of `strip_ansi_codes`: the result holds no escape character, text
/// without escape characters is returned unchanged, and stripping twice gives
/// what stripping once gives.
pub proof fn lemma_strip_ansi_laws(s: Seq<char>)
    ensures
        forall|k: int| 0 <= k < strip_ansi(s).len() ==> #[trigger] strip_ansi(s)[k] != ESC,
        (forall|k: int| 0 <= k < s.len() ==> s[k] != ESC) ==> strip_ansi(s) == s,
        strip_ansi(strip_ansi(s)) == strip_ansi(s),
{
    lemma_strip_ansi_from_no_esc(s, 0);
    if forall|k: int| 0 <= k < s.len() ==> s[k] != ESC {
        lemma_strip_ansi_from_plain(s, 0);
        assert(s.subrange(0, s.len() as int) =~= s);
    }
    let t = strip_ansi(s);
    lemma_strip_ansi_from_plain(t, 0);
    assert(t.subrange(0, t.len() as int) =~= t);
}

} // verus!
