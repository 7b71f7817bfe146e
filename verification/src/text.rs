//! Text primitives over `Seq<char>`: whitespace trimming, substring search,
//! splitting and decimal numbers, with executable counterparts.

use vstd::prelude::*;

verus! {

// ---------------------------------------------------------------------------
// Spec-level string model
// ---------------------------------------------------------------------------

/// The Unicode `White_Space` property, as `char::is_whitespace` defines it.
pub open spec fn is_whitespace(c: char) -> bool {
    ||| c == '\t' || c == '\n' || c == '\u{0B}' || c == '\u{0C}' || c == '\r'
    ||| c == ' ' || c == '\u{85}' || c == '\u{A0}' || c == '\u{1680}'
    ||| ('\u{2000}' <= c && c <= '\u{200A}')
    ||| c == '\u{2028}' || c == '\u{2029}' || c == '\u{202F}' || c == '\u{205F}'
    ||| c == '\u{3000}'
}

/// `s` with its leading whitespace removed.
pub open spec fn trim_start(s: Seq<char>) -> Seq<char>
    decreases s.len(),
{
    if s.len() > 0 && is_whitespace(s[0]) {
        trim_start(s.drop_first())
    } else {
        s
    }
}

/// `s` with its trailing whitespace removed.
pub open spec fn trim_end(s: Seq<char>) -> Seq<char>
    decreases s.len(),
{
    if s.len() > 0 && is_whitespace(s.last()) {
        trim_end(s.drop_last())
    } else {
        s
    }
}

/// `s` with whitespace removed at both ends (`str::trim`).
pub open spec fn trim(s: Seq<char>) -> Seq<char> {
    trim_end(trim_start(s))
}

pub open spec fn starts_with(s: Seq<char>, p: Seq<char>) -> bool {
    p.len() <= s.len() && s.subrange(0, p.len() as int) == p
}

/// `p` occurs in `s` at position `i`.
pub open spec fn occurs_at(s: Seq<char>, p: Seq<char>, i: int) -> bool {
    0 <= i && i + p.len() <= s.len() && s.subrange(i, i + p.len()) == p
}

/// `p` occurs somewhere in `s` (`str::contains`).
pub open spec fn contains(s: Seq<char>, p: Seq<char>) -> bool {
    exists|i: int| occurs_at(s, p, i)
}

/// The first position at or after `i` where `p` occurs in `s`.
pub open spec fn find_from(s: Seq<char>, p: Seq<char>, i: int) -> Option<int>
    decreases s.len() + 1 - i,
{
    if i < 0 || i + p.len() > s.len() {
        None
    } else if s.subrange(i, i + p.len()) == p {
        Some(i)
    } else {
        find_from(s, p, i + 1)
    }
}

/// The first position where `p` occurs in `s` (`str::find`).
pub open spec fn find(s: Seq<char>, p: Seq<char>) -> Option<int> {
    find_from(s, p, 0)
}

/// The pieces of `s` between occurrences of `c` (`str::split` with a char).
pub open spec fn split_char(s: Seq<char>, c: char) -> Seq<Seq<char>>
    decreases s.len(),
{
    match find(s, seq![c]) {
        Some(i) => if 0 <= i < s.len() {
            seq![s.subrange(0, i)] + split_char(s.subrange(i + 1, s.len() as int), c)
        } else {
            seq![s]
        },
        None => seq![s],
    }
}

/// The lines of `s` (`str::lines`): split after each `'\n'`, the newline and a
/// `'\r'` just before it removed, and no empty last line after a final newline.
pub open spec fn lines(s: Seq<char>) -> Seq<Seq<char>>
    decreases s.len(),
{
    if s.len() == 0 {
        seq![]
    } else {
        match find(s, seq!['\n']) {
            Some(i) => if 0 <= i < s.len() {
                let line = s.subrange(0, i);
                let line = if line.len() > 0 && line.last() == '\r' {
                    line.drop_last()
                } else {
                    line
                };
                seq![line] + lines(s.subrange(i + 1, s.len() as int))
            } else {
                seq![s]
            },
            None => seq![s],
        }
    }
}

/// The pieces of `parts` joined with `sep` between them (`[T]::join`).
pub open spec fn join(parts: Seq<Seq<char>>, sep: Seq<char>) -> Seq<char>
    decreases parts.len(),
{
    if parts.len() == 0 {
        seq![]
    } else if parts.len() == 1 {
        parts[0]
    } else {
        join(parts.drop_last(), sep) + sep + parts.last()
    }
}

pub open spec fn is_digit(c: char) -> bool {
    '0' <= c && c <= '9'
}

pub open spec fn digit_value(c: char) -> nat {
    (c as int - '0' as int) as nat
}

pub open spec fn all_digits(s: Seq<char>) -> bool {
    forall|i: int| 0 <= i < s.len() ==> #[trigger] is_digit(s[i])
}

/// The number that the decimal digits `s` denote.
pub open spec fn digits_value(s: Seq<char>) -> nat
    decreases s.len(),
{
    if s.len() == 0 {
        0
    } else {
        digits_value(s.drop_last()) * 10 + digit_value(s.last())
    }
}

/// What `str::parse` gives for an unsigned integer type whose largest value is
/// `max`: an optional `'+'`, then at least one decimal digit, and a value that
/// fits.
pub open spec fn parse_unsigned(s: Seq<char>, max: nat) -> Option<nat> {
    let d = if s.len() > 0 && s[0] == '+' {
        s.drop_first()
    } else {
        s
    };
    if d.len() == 0 || !all_digits(d) || digits_value(d) > max {
        None
    } else {
        Some(digits_value(d))
    }
}

pub open spec fn digit_char(d: nat) -> char {
    (d + '0' as nat) as char
}

/// The decimal rendering of `n` (`Display` for unsigned integers).
pub open spec fn decimal(n: nat) -> Seq<char>
    decreases n,
{
    if n < 10 {
        seq![digit_char(n)]
    } else {
        decimal(n / 10).push(digit_char(n % 10))
    }
}

// ---------------------------------------------------------------------------
// Lowercasing: Unicode case mapping is delegated to std
// ---------------------------------------------------------------------------

/// What `str::to_lowercase` returns for a string: its Unicode lowercase
/// mapping, a function of the characters alone.
pub uninterp spec fn spec_to_lowercase(s: Seq<char>) -> Seq<char>;

/// Calls `str::to_lowercase`. The contract names its result and claims only
/// that it depends on the characters of `s` alone.
#[verifier::external_body]
pub(crate) fn to_lowercase(s: &str) -> (r: String)
    ensures
        r@ == spec_to_lowercase(s@),
{
    s.to_lowercase()
}

// ---------------------------------------------------------------------------
// Executable primitives
// ---------------------------------------------------------------------------

/// Calls `String::push`, which appends one character.
#[verifier::external_body]
pub(crate) fn push_char(s: &mut String, c: char)
    ensures
        final(s)@ == old(s)@.push(c),
{
    s.push(c);
}

/// Appends the characters of `t` to `s`.
pub fn push_chars(s: &mut String, t: &[char])
    ensures
        final(s)@ == old(s)@ + t@,
{
    let ghost start = s@;
    let mut i: usize = 0;
    while i < t.len()
        invariant
            i <= t.len(),
            s@ == start + t@.take(i as int),
        decreases t.len() - i,
    {
        push_char(s, t[i]);
        assert(t@.take(i as int).push(t@[i as int]) == t@.take(i + 1));
        i = i + 1;
    }
    assert(t@.take(t.len() as int) == t@);
}

/// Appends the characters of `t` to `s`.
pub fn push_str(s: &mut String, t: &str)
    ensures
        final(s)@ == old(s)@ + t@,
{
    let v = chars_of(t);
    push_chars(s, v.as_slice());
}

/// The characters of `s`.
pub fn chars_of(s: &str) -> (v: Vec<char>)
    ensures
        v@ == s@,
{
    let mut v: Vec<char> = Vec::new();
    for c in it: s.chars()
        invariant
            v@ == it.seq().take(it.index() as int),
            it.seq() == s@,
    {
        v.push(c);
    }
    v
}

/// A string made of the characters `v`.
pub fn string_of(v: &[char]) -> (s: String)
    ensures
        s@ == v@,
{
    let mut s = String::new();
    push_chars(&mut s, v);
    s
}

/// A string with the characters of `s`.
pub fn to_owned_string(s: &str) -> (r: String)
    ensures
        r@ == s@,
{
    s.to_owned()
}

/// Whether two character sequences are equal.
pub fn chars_eq(a: &[char], b: &[char]) -> (r: bool)
    ensures
        r == (a@ == b@),
{
    if a.len() != b.len() {
        return false;
    }
    let mut i: usize = 0;
    while i < a.len()
        invariant
            a.len() == b.len(),
            i <= a.len(),
            forall|j: int| 0 <= j < i ==> a@[j] == b@[j],
        decreases a.len() - i,
    {
        if a[i] != b[i] {
            return false;
        }
        i = i + 1;
    }
    assert(a@ =~= b@);
    true
}

/// Whether two strings are equal.
pub fn str_eq(a: &str, b: &str) -> (r: bool)
    ensures
        r == (a@ == b@),
{
    let va = chars_of(a);
    let vb = chars_of(b);
    chars_eq(va.as_slice(), vb.as_slice())
}

/// Whether `p` occurs in `s` at position `i`.
pub fn occurs_at_exec(s: &[char], p: &[char], i: usize) -> (r: bool)
    ensures
        r == occurs_at(s@, p@, i as int),
{
    if i > s.len() || p.len() > s.len() - i {
        return false;
    }
    let mut j: usize = 0;
    while j < p.len()
        invariant
            i + p.len() <= s.len(),
            j <= p.len(),
            forall|k: int| 0 <= k < j ==> s@[i + k] == p@[k],
        decreases p.len() - j,
    {
        if s[i + j] != p[j] {
            assert(s@.subrange(i as int, i + p.len())[j as int] != p@[j as int]);
            return false;
        }
        j = j + 1;
    }
    assert(s@.subrange(i as int, i + p.len()) =~= p@);
    true
}

pub proof fn lemma_find_from_none(s: Seq<char>, p: Seq<char>, i: int)
    requires
        0 <= i,
        find_from(s, p, i) is None,
    ensures
        forall|j: int| i <= j ==> !occurs_at(s, p, j),
    decreases s.len() + 1 - i,
{
    if i + p.len() <= s.len() {
        lemma_find_from_none(s, p, i + 1);
    }
}

pub proof fn lemma_find_from_some(s: Seq<char>, p: Seq<char>, i: int)
    requires
        0 <= i,
        find_from(s, p, i) is Some,
    ensures
        ({
            let k = find_from(s, p, i)->0;
            &&& i <= k
            &&& occurs_at(s, p, k)
            &&& forall|j: int| i <= j < k ==> !occurs_at(s, p, j)
        }),
    decreases s.len() + 1 - i,
{
    if i + p.len() <= s.len() && s.subrange(i, i + p.len()) != p {
        lemma_find_from_some(s, p, i + 1);
    }
}

/// `find` is `Some` exactly when the pattern occurs, and then gives the first
/// occurrence.
pub proof fn lemma_find(s: Seq<char>, p: Seq<char>)
    ensures
        find(s, p) is Some <==> contains(s, p),
        find(s, p) is Some ==> ({
            let k = find(s, p)->0;
            &&& occurs_at(s, p, k)
            &&& forall|j: int| 0 <= j < k ==> !occurs_at(s, p, j)
        }),
{
    if find(s, p) is Some {
        lemma_find_from_some(s, p, 0);
    } else {
        lemma_find_from_none(s, p, 0);
    }
}

/// The first position where `p` occurs in `s`.
pub fn find_exec(s: &[char], p: &[char]) -> (r: Option<usize>)
    ensures
        r is Some <==> find(s@, p@) is Some,
        r is Some ==> r->0 as int == find(s@, p@)->0,
{
    if p.len() > s.len() {
        return None;
    }
    if p.len() == 0 {
        assert(s@.subrange(0, 0) =~= p@);
        return Some(0);
    }
    let mut i: usize = 0;
    while i <= s.len() - p.len()
        invariant
            1 <= p.len() <= s.len(),
            i <= s.len() - p.len() + 1,
            find(s@, p@) == find_from(s@, p@, i as int),
        decreases s.len() - p.len() + 1 - i,
    {
        if occurs_at_exec(s, p, i) {
            return Some(i);
        }
        i = i + 1;
    }
    None
}

/// Whether `p` occurs in `s`.
pub fn contains_exec(s: &[char], p: &[char]) -> (r: bool)
    ensures
        r == contains(s@, p@),
{
    proof {
        lemma_find(s@, p@);
    }
    find_exec(s, p).is_some()
}

/// Whether the string `s` contains the string `p`.
pub fn str_contains(s: &str, p: &str) -> (r: bool)
    ensures
        r == contains(s@, p@),
{
    let vs = chars_of(s);
    let vp = chars_of(p);
    contains_exec(vs.as_slice(), vp.as_slice())
}

/// Whether `s` starts with `p`.
pub fn starts_with_exec(s: &[char], p: &[char]) -> (r: bool)
    ensures
        r == starts_with(s@, p@),
{
    occurs_at_exec(s, p, 0)
}

/// Whether the string `s` starts with the string `p`.
pub fn str_starts_with(s: &str, p: &str) -> (r: bool)
    ensures
        r == starts_with(s@, p@),
{
    let vs = chars_of(s);
    let vp = chars_of(p);
    starts_with_exec(vs.as_slice(), vp.as_slice())
}

/// Whether the character `c` is whitespace (`char::is_whitespace`).
pub fn is_whitespace_exec(c: char) -> (r: bool)
    ensures
        r == is_whitespace(c),
{
    c == '\t' || c == '\n' || c == '\u{0B}' || c == '\u{0C}' || c == '\r' || c == ' '
        || c == '\u{85}' || c == '\u{A0}' || c == '\u{1680}' || ('\u{2000}' <= c && c
        <= '\u{200A}') || c == '\u{2028}' || c == '\u{2029}' || c == '\u{202F}' || c
        == '\u{205F}' || c == '\u{3000}'
}

/// `s` without surrounding whitespace (`str::trim`).
pub fn trim_exec(s: &[char]) -> (r: Vec<char>)
    ensures
        r@ == trim(s@),
{
    let mut i: usize = 0;
    assert(s@.subrange(0, s.len() as int) =~= s@);
    while i < s.len() && is_whitespace_exec(s[i])
        invariant
            i <= s.len(),
            trim_start(s@) == trim_start(s@.subrange(i as int, s.len() as int)),
        decreases s.len() - i,
    {
        assert(s@.subrange(i as int, s.len() as int).drop_first() =~= s@.subrange(
            i + 1,
            s.len() as int,
        ));
        i = i + 1;
    }
    let ghost mid = s@.subrange(i as int, s.len() as int);
    assert(trim_start(s@) == mid);
    let mut j: usize = s.len();
    while j > i && is_whitespace_exec(s[j - 1])
        invariant
            i <= j <= s.len(),
            mid == s@.subrange(i as int, s.len() as int),
            trim_end(mid) == trim_end(s@.subrange(i as int, j as int)),
        decreases j,
    {
        assert(s@.subrange(i as int, j as int).drop_last() =~= s@.subrange(
            i as int,
            j - 1,
        ));
        j = j - 1;
    }
    let mut r: Vec<char> = Vec::new();
    let mut k: usize = i;
    while k < j
        invariant
            i <= k <= j <= s.len(),
            r@ == s@.subrange(i as int, k as int),
        decreases j - k,
    {
        r.push(s[k]);
        assert(s@.subrange(i as int, k as int).push(s@[k as int]) =~= s@.subrange(
            i as int,
            k + 1,
        ));
        k = k + 1;
    }
    r
}

/// The string `s` without surrounding whitespace.
pub fn str_trim(s: &str) -> (r: String)
    ensures
        r@ == trim(s@),
{
    let v = chars_of(s);
    let t = trim_exec(v.as_slice());
    string_of(t.as_slice())
}

/// The characters `s[from..to]`.
pub fn slice_chars(s: &[char], from: usize, to: usize) -> (r: Vec<char>)
    requires
        from <= to <= s.len(),
    ensures
        r@ == s@.subrange(from as int, to as int),
{
    let mut r: Vec<char> = Vec::new();
    let mut k: usize = from;
    while k < to
        invariant
            from <= k <= to <= s.len(),
            r@ == s@.subrange(from as int, k as int),
        decreases to - k,
    {
        r.push(s[k]);
        assert(s@.subrange(from as int, k as int).push(s@[k as int]) =~= s@.subrange(
            from as int,
            k + 1,
        ));
        k = k + 1;
    }
    r
}


/// The character views of a sequence of character vectors.
pub open spec fn views(v: Seq<Vec<char>>) -> Seq<Seq<char>> {
    v.map_values(|x: Vec<char>| x@)
}

/// The character views of a sequence of strings.
pub open spec fn string_views(v: Seq<String>) -> Seq<Seq<char>> {
    v.map_values(|x: String| x@)
}

/// A first occurrence is what `find` returns.
pub proof fn lemma_find_first(s: Seq<char>, p: Seq<char>, k: int)
    requires
        occurs_at(s, p, k),
        forall|j: int| 0 <= j < k ==> !occurs_at(s, p, j),
    ensures
        find(s, p) == Some(k),
{
    lemma_find(s, p);
    if find(s, p) is None {
        assert(contains(s, p));
    } else {
        let f = find(s, p)->0;
        if f < k {
            assert(!occurs_at(s, p, f));
        } else if f > k {
            assert(!occurs_at(s, p, k));
        }
    }
}

/// A one-character pattern occurs at `j` exactly when that character is there.
pub proof fn lemma_occurs_char(s: Seq<char>, c: char, j: int)
    ensures
        occurs_at(s, seq![c], j) <==> (0 <= j < s.len() && s[j] == c),
{
    if 0 <= j < s.len() {
        if s[j] == c {
            assert(s.subrange(j, j + 1) =~= seq![c]);
        } else {
            assert(s.subrange(j, j + 1)[0] != seq![c][0]);
        }
    }
}

/// Where `find` puts a single character: its first position, or nowhere
/// when it does not occur.
pub proof fn lemma_find_char(s: Seq<char>, c: char)
    ensures
        match find(s, seq![c]) {
            Some(i) => 0 <= i < s.len() && s[i] == c && forall|k: int| 0 <= k < i ==> s[k] != c,
            None => forall|k: int| 0 <= k < s.len() ==> s[k] != c,
        },
{
    lemma_find(s, seq![c]);
    match find(s, seq![c]) {
        Some(i) => {
            lemma_occurs_char(s, c, i);
            assert forall|k: int| 0 <= k < i implies s[k] != c by {
                lemma_occurs_char(s, c, k);
            }
        },
        None => {
            assert forall|k: int| 0 <= k < s.len() implies s[k] != c by {
                lemma_occurs_char(s, c, k);
            }
        },
    }
}

/// No piece of a split holds the separator.
pub proof fn lemma_split_no_sep(s: Seq<char>, c: char)
    ensures
        forall|i: int, k: int|
            0 <= i < split_char(s, c).len() && 0 <= k < split_char(s, c)[i].len() ==> #[trigger] split_char(
                s,
                c,
            )[i][k] != c,
    decreases s.len(),
{
    lemma_find_char(s, c);
    match find(s, seq![c]) {
        Some(i) => {
            let rest = s.subrange(i + 1, s.len() as int);
            lemma_split_no_sep(rest, c);
            let p = split_char(s, c);
            assert(p == seq![s.subrange(0, i)] + split_char(rest, c));
            assert forall|j: int, k: int| 0 <= j < p.len() && 0 <= k < p[j].len() implies #[trigger] p[j][k]
                != c by {
                if j > 0 {
                    assert(p[j] == split_char(rest, c)[j - 1]);
                }
            }
        },
        None => {},
    }
}

/// A text without the separator splits into itself alone.
pub proof fn lemma_split_single(x: Seq<char>, c: char)
    requires
        forall|k: int| 0 <= k < x.len() ==> x[k] != c,
    ensures
        split_char(x, c) == seq![x],
{
    lemma_find_char(x, c);
    if find(x, seq![c]) is Some {
        let i = find(x, seq![c])->0;
        assert(x[i] == c);
    }
}

/// Splitting two texts joined by the separator splits each of them.
pub proof fn lemma_split_concat(x: Seq<char>, y: Seq<char>, c: char)
    ensures
        split_char(x + seq![c] + y, c) == split_char(x, c) + split_char(y, c),
    decreases x.len(),
{
    let s = x + seq![c] + y;
    lemma_find_char(x, c);
    match find(x, seq![c]) {
        Some(i) => {
            assert(s[i] == c);
            assert forall|k: int| 0 <= k < i implies !occurs_at(s, seq![c], k) by {
                lemma_occurs_char(s, c, k);
                assert(s[k] == x[k]);
            }
            lemma_occurs_char(s, c, i);
            lemma_find_first(s, seq![c], i);
            let xr = x.subrange(i + 1, x.len() as int);
            lemma_split_concat(xr, y, c);
            assert(s.subrange(0, i) =~= x.subrange(0, i));
            assert(s.subrange(i + 1, s.len() as int) =~= xr + seq![c] + y);
        },
        None => {
            let n = x.len() as int;
            assert(s[n] == c);
            assert forall|k: int| 0 <= k < n implies !occurs_at(s, seq![c], k) by {
                lemma_occurs_char(s, c, k);
                assert(s[k] == x[k]);
            }
            lemma_occurs_char(s, c, n);
            lemma_find_first(s, seq![c], n);
            assert(s.subrange(0, n) =~= x);
            assert(s.subrange(n + 1, s.len() as int) =~= y);
            lemma_split_single(x, c);
        },
    }
}

/// Splitting pieces joined with the separator gives the pieces back, when
/// none of them holds the separator.
pub proof fn lemma_split_join(l: Seq<Seq<char>>, c: char)
    requires
        l.len() > 0,
        forall|i: int, k: int| 0 <= i < l.len() && 0 <= k < l[i].len() ==> #[trigger] l[i][k] != c,
    ensures
        split_char(join(l, seq![c]), c) == l,
    decreases l.len(),
{
    if l.len() == 1 {
        assert forall|k: int| 0 <= k < l[0].len() implies l[0][k] != c by {}
        lemma_split_single(l[0], c);
        assert(seq![l[0]] =~= l);
    } else {
        let init = l.drop_last();
        assert forall|i: int, k: int| 0 <= i < init.len() && 0 <= k < init[i].len() implies #[trigger] init[i][k]
            != c by {
            assert(init[i] == l[i]);
        }
        lemma_split_join(init, c);
        assert forall|k: int| 0 <= k < l.last().len() implies l.last()[k] != c by {
            assert(l.last() == l[l.len() - 1]);
        }
        lemma_split_single(l.last(), c);
        lemma_split_concat(join(init, seq![c]), l.last(), c);
        assert(init + seq![l.last()] =~= l);
    }
}

/// After trimming the start, the text is empty or starts with a
/// non-whitespace character, and it is an end of the original.
pub proof fn lemma_trim_start(s: Seq<char>)
    ensures
        trim_start(s).len() == 0 || !is_whitespace(trim_start(s)[0]),
        trim_start(s).len() <= s.len(),
        trim_start(s) == s.subrange(s.len() - trim_start(s).len(), s.len() as int),
    decreases s.len(),
{
    if s.len() > 0 && is_whitespace(s[0]) {
        lemma_trim_start(s.drop_first());
        let t = trim_start(s.drop_first());
        assert(s.drop_first().subrange(s.len() - 1 - t.len(), s.len() - 1) =~= s.subrange(
            s.len() - t.len(),
            s.len() as int,
        ));
    } else {
        assert(s.subrange(0, s.len() as int) =~= s);
    }
}

/// After trimming the end, the text is empty or ends with a non-whitespace
/// character, and it is a start of the original.
pub proof fn lemma_trim_end(s: Seq<char>)
    ensures
        trim_end(s).len() == 0 || !is_whitespace(trim_end(s).last()),
        trim_end(s).len() <= s.len(),
        trim_end(s) == s.subrange(0, trim_end(s).len() as int),
    decreases s.len(),
{
    if s.len() > 0 && is_whitespace(s.last()) {
        lemma_trim_end(s.drop_last());
        let t = trim_end(s.drop_last());
        assert(s.drop_last().subrange(0, t.len() as int) =~= s.subrange(0, t.len() as int));
    } else {
        assert(s.subrange(0, s.len() as int) =~= s);
    }
}

/// Trimming is idempotent, and a character absent from a text is absent
/// from its trimmed form.
pub proof fn lemma_trim_laws(s: Seq<char>, c: char)
    ensures
        trim(trim(s)) == trim(s),
        (forall|k: int| 0 <= k < s.len() ==> s[k] != c) ==> forall|k: int|
            0 <= k < trim(s).len() ==> trim(s)[k] != c,
{
    let u = trim_start(s);
    lemma_trim_start(s);
    lemma_trim_end(u);
    let t = trim(s);
    assert(t == u.subrange(0, t.len() as int));
    if t.len() > 0 {
        assert(t[0] == u[0]);
        assert(trim_start(t) == t);
        assert(trim_end(t) == t);
    } else {
        assert(trim_start(t) == t);
    }
    if forall|k: int| 0 <= k < s.len() ==> s[k] != c {
        assert forall|k: int| 0 <= k < t.len() implies t[k] != c by {
            assert(t[k] == u[k]);
            assert(u[k] == s[s.len() - u.len() + k]);
        }
    }
}

/// The first position at or after `from` where `c` stands in `s`.
pub fn find_char_from(s: &[char], c: char, from: usize) -> (r: Option<usize>)
    requires
        from <= s.len(),
    ensures
        ({
            let sub = s@.subrange(from as int, s.len() as int);
            match r {
                Some(j) => from <= j < s.len() && find(sub, seq![c]) == Some(j - from),
                None => find(sub, seq![c]) is None,
            }
        }),
{
    let ghost sub = s@.subrange(from as int, s.len() as int);
    let mut j: usize = from;
    while j < s.len()
        invariant
            from <= j <= s.len(),
            sub == s@.subrange(from as int, s.len() as int),
            forall|k: int| from <= k < j ==> s@[k] != c,
        decreases s.len() - j,
    {
        if s[j] == c {
            proof {
                assert forall|k: int| 0 <= k < j - from implies !occurs_at(sub, seq![c], k) by {
                    lemma_occurs_char(sub, c, k);
                }
                lemma_occurs_char(sub, c, j - from);
                lemma_find_first(sub, seq![c], j - from);
            }
            return Some(j);
        }
        j = j + 1;
    }
    proof {
        lemma_find(sub, seq![c]);
        if contains(sub, seq![c]) {
            let k = choose|k: int| occurs_at(sub, seq![c], k);
            lemma_occurs_char(sub, c, k);
            assert(s@[from + k] == c);
        }
    }
    None
}

/// The pieces of `s` between occurrences of `c`.
pub fn split_char_exec(s: &[char], c: char) -> (r: Vec<Vec<char>>)
    ensures
        views(r@) == split_char(s@, c),
{
    let mut out: Vec<Vec<char>> = Vec::new();
    let mut start: usize = 0;
    assert(s@.subrange(0, s.len() as int) =~= s@);
    loop
        invariant
            start <= s.len(),
            split_char(s@, c) == views(out@) + split_char(
                s@.subrange(start as int, s.len() as int),
                c,
            ),
        decreases s.len() - start,
    {
        let ghost sub = s@.subrange(start as int, s.len() as int);
        match find_char_from(s, c, start) {
            Some(i) => {
                let piece = slice_chars(s, start, i);
                proof {
                    assert(sub.subrange(0, i - start) =~= piece@);
                    assert(sub.subrange(i - start + 1, sub.len() as int) =~= s@.subrange(
                        i + 1,
                        s.len() as int,
                    ));
                    assert(split_char(sub, c) == seq![piece@] + split_char(
                        s@.subrange(i + 1, s.len() as int),
                        c,
                    ));
                }
                let ghost old_out = out@;
                out.push(piece);
                assert(views(out@) =~= views(old_out) + seq![piece@]);
                start = i + 1;
            },
            None => {
                let piece = slice_chars(s, start, s.len());
                let ghost old_out = out@;
                out.push(piece);
                assert(views(out@) =~= views(old_out) + seq![piece@]);
                return out;
            },
        }
    }
}

/// The lines of `s` (`str::lines`).
pub fn lines_exec(s: &[char]) -> (r: Vec<Vec<char>>)
    ensures
        views(r@) == lines(s@),
{
    let mut out: Vec<Vec<char>> = Vec::new();
    let mut start: usize = 0;
    assert(s@.subrange(0, s.len() as int) =~= s@);
    while start < s.len()
        invariant
            start <= s.len(),
            lines(s@) == views(out@) + lines(s@.subrange(start as int, s.len() as int)),
        decreases s.len() - start,
    {
        let ghost sub = s@.subrange(start as int, s.len() as int);
        match find_char_from(s, '\n', start) {
            Some(i) => {
                let end = if i > start && s[i - 1] == '\r' {
                    i - 1
                } else {
                    i
                };
                let piece = slice_chars(s, start, end);
                proof {
                    let line = sub.subrange(0, i - start);
                    if i > start && s@[i - 1] == '\r' {
                        assert(line.drop_last() =~= piece@);
                    } else {
                        assert(line =~= piece@);
                    }
                    assert(sub.subrange(i - start + 1, sub.len() as int) =~= s@.subrange(
                        i + 1,
                        s.len() as int,
                    ));
                    assert(lines(sub) == seq![piece@] + lines(
                        s@.subrange(i + 1, s.len() as int),
                    ));
                }
                let ghost old_out = out@;
                out.push(piece);
                assert(views(out@) =~= views(old_out) + seq![piece@]);
                start = i + 1;
            },
            None => {
                let piece = slice_chars(s, start, s.len());
                let ghost old_out = out@;
                out.push(piece);
                assert(views(out@) =~= views(old_out) + seq![piece@]);
                assert(s@.subrange(s.len() as int, s.len() as int) =~= Seq::<char>::empty());
                return out;
            },
        }
    }
    assert(s@.subrange(start as int, s.len() as int) =~= Seq::<char>::empty());
    assert(views(out@) + Seq::<Seq<char>>::empty() =~= views(out@));
    out
}

/// The pieces `parts` joined with `sep` between them.
pub fn join_exec(parts: &Vec<Vec<char>>, sep: &[char]) -> (r: Vec<char>)
    ensures
        r@ == join(views(parts@), sep@),
{
    let mut r: Vec<char> = Vec::new();
    let mut i: usize = 0;
    while i < parts.len()
        invariant
            i <= parts.len(),
            r@ == join(views(parts@).take(i as int), sep@),
        decreases parts.len() - i,
    {
        let ghost before = r@;
        if i > 0 {
            let mut k: usize = 0;
            while k < sep.len()
                invariant
                    k <= sep.len(),
                    r@ == before + sep@.take(k as int),
                decreases sep.len() - k,
            {
                r.push(sep[k]);
                assert(sep@.take(k as int).push(sep@[k as int]) =~= sep@.take(k + 1));
                k = k + 1;
            }
            assert(sep@.take(sep.len() as int) =~= sep@);
        }
        let ghost mid = r@;
        let piece = &parts[i];
        let mut k: usize = 0;
        while k < piece.len()
            invariant
                k <= piece.len(),
                r@ == mid + piece@.take(k as int),
            decreases piece.len() - k,
        {
            r.push(piece[k]);
            assert(piece@.take(k as int).push(piece@[k as int]) =~= piece@.take(k + 1));
            k = k + 1;
        }
        assert(piece@.take(piece.len() as int) =~= piece@);
        proof {
            let vs = views(parts@).take(i + 1);
            assert(vs.drop_last() =~= views(parts@).take(i as int));
            assert(vs.last() == piece@);
            if i == 0 {
                assert(before =~= Seq::<char>::empty());
            }
        }
        i = i + 1;
    }
    assert(views(parts@).take(parts.len() as int) =~= views(parts@));
    r
}

/// `digits_value` never decreases as digits are appended.
pub proof fn lemma_digits_value_prefix(s: Seq<char>, k: int)
    requires
        0 <= k <= s.len(),
    ensures
        digits_value(s.take(k)) <= digits_value(s),
    decreases s.len(),
{
    if k < s.len() {
        assert(s.drop_last().take(k) =~= s.take(k));
        lemma_digits_value_prefix(s.drop_last(), k);
    } else {
        assert(s.take(k) =~= s);
    }
}

/// Parses an unsigned decimal number whose largest allowed value is `max`
/// (`str::parse` for unsigned integer types).
pub fn parse_unsigned_exec(s: &[char], max: u64) -> (r: Option<u64>)
    ensures
        match r {
            Some(v) => parse_unsigned(s@, max as nat) == Some(v as nat),
            None => parse_unsigned(s@, max as nat) is None,
        },
{
    let start: usize = if s.len() > 0 && s[0] == '+' {
        1
    } else {
        0
    };
    let ghost d = if s@.len() > 0 && s@[0] == '+' {
        s@.drop_first()
    } else {
        s@
    };
    assert(d =~= s@.subrange(start as int, s.len() as int));
    if start == s.len() {
        return None;
    }
    let mut acc: u64 = 0;
    let mut i: usize = start;
    while i < s.len()
        invariant
            start <= i <= s.len(),
            d == s@.subrange(start as int, s.len() as int),
            d == (if s@.len() > 0 && s@[0] == '+' {
                s@.drop_first()
            } else {
                s@
            }),
            all_digits(d.take(i - start)),
            acc as nat == digits_value(d.take(i - start)),
            acc <= max,
        decreases s.len() - i,
    {
        let c = s[i];
        if !('0' <= c && c <= '9') {
            assert(!is_digit(d[i - start]));
            assert(!all_digits(d));
            assert(parse_unsigned(s@, max as nat) is None);
            return None;
        }
        let dig: u64 = (c as u32 - '0' as u32) as u64;
        assert(dig == digit_value(c));
        assert(d.take(i - start + 1).drop_last() =~= d.take(i - start));
        assert(d.take(i - start + 1).last() == c);
        if dig > max || acc > (max - dig) / 10 {
            proof {
                assert(acc * 10 + dig > max) by (nonlinear_arith)
                    requires
                        dig > max || acc > (max - dig) / 10,
                ;
                if all_digits(d) {
                    lemma_digits_value_prefix(d, i - start + 1);
                    assert(digits_value(d.take(i - start + 1)) == acc * 10 + dig);
                    assert(digits_value(d) > max);
                }
                assert(parse_unsigned(s@, max as nat) is None);
            }
            return None;
        }
        assert(acc * 10 + dig <= max) by (nonlinear_arith)
            requires
                dig <= max,
                acc <= (max - dig) / 10,
        ;
        acc = acc * 10 + dig;
        assert(all_digits(d.take(i - start + 1))) by {
            assert forall|k: int| 0 <= k < i - start + 1 implies #[trigger] is_digit(
                d.take(i - start + 1)[k],
            ) by {
                if k < i - start {
                    assert(d.take(i - start + 1)[k] == d.take(i - start)[k]);
                }
            }
        }
        i = i + 1;
    }
    assert(d.take(i - start) =~= d);
    Some(acc)
}

/// The decimal digit character for `d < 10`.
pub fn digit_char_exec(d: u64) -> (c: char)
    requires
        d < 10,
    ensures
        c == digit_char(d as nat),
{
    match d {
        0 => '0',
        1 => '1',
        2 => '2',
        3 => '3',
        4 => '4',
        5 => '5',
        6 => '6',
        7 => '7',
        8 => '8',
        _ => '9',
    }
}

/// The decimal rendering of `n`.
pub fn decimal_string(n: u64) -> (r: String)
    ensures
        r@ == decimal(n as nat),
    decreases n,
{
    if n < 10 {
        let mut s = String::new();
        push_char(&mut s, digit_char_exec(n));
        s
    } else {
        let mut s = decimal_string(n / 10);
        push_char(&mut s, digit_char_exec(n % 10));
        s
    }
}


/// The number of bytes of `c` in UTF-8 (`char::len_utf8`).
pub open spec fn utf8_char_len(c: char) -> nat {
    if (c as u32) < 0x80 {
        1
    } else if (c as u32) < 0x800 {
        2
    } else if (c as u32) < 0x10000 {
        3
    } else {
        4
    }
}

/// The number of bytes of `s` in UTF-8.
pub open spec fn utf8_len(s: Seq<char>) -> nat
    decreases s.len(),
{
    if s.len() == 0 {
        0
    } else {
        utf8_len(s.drop_last()) + utf8_char_len(s.last())
    }
}

/// The longest end of `s` that takes at most `n` bytes in UTF-8: the text
/// from the first character boundary at or after `n` bytes before the end.
pub open spec fn utf8_tail(s: Seq<char>, n: nat) -> Seq<char>
    decreases s.len(),
{
    if s.len() == 0 || utf8_char_len(s.last()) > n {
        seq![]
    } else {
        utf8_tail(s.drop_last(), (n - utf8_char_len(s.last())) as nat).push(s.last())
    }
}

/// Laws of `utf8_tail`: it is an end of `s`, it takes at most `n` bytes,
/// and the character before it (if any) would not fit, so it starts at the
/// first character boundary at or after `n` bytes before the end.
pub proof fn lemma_utf8_tail(s: Seq<char>, n: nat)
    ensures
        utf8_tail(s, n).len() <= s.len(),
        utf8_tail(s, n) == s.subrange(s.len() - utf8_tail(s, n).len(), s.len() as int),
        utf8_len(utf8_tail(s, n)) <= n,
        utf8_tail(s, n).len() < s.len() ==> utf8_len(utf8_tail(s, n)) + utf8_char_len(
            s[s.len() - utf8_tail(s, n).len() - 1],
        ) > n,
        utf8_len(s) <= n ==> utf8_tail(s, n) == s,
    decreases s.len(),
{
    if s.len() == 0 {
        assert(s.subrange(0, 0) =~= s);
    } else if utf8_char_len(s.last()) > n {
        assert(s.subrange(s.len() as int, s.len() as int) =~= Seq::<char>::empty());
        assert(utf8_len(Seq::<char>::empty()) == 0);
    } else {
        let c = s.last();
        let init = s.drop_last();
        let m = (n - utf8_char_len(c)) as nat;
        lemma_utf8_tail(init, m);
        let t = utf8_tail(init, m);
        let r = utf8_tail(s, n);
        assert(r == t.push(c));
        assert(r =~= s.subrange(s.len() - r.len(), s.len() as int));
        assert(r.drop_last() =~= t);
        if r.len() < s.len() {
            assert(s[s.len() - r.len() - 1] == init[init.len() - t.len() - 1]);
        }
        if utf8_len(s) <= n {
            assert(utf8_len(init) <= m);
            assert(t == init);
            assert(init.push(c) =~= s);
        }
    }
}

/// The number of bytes of `c` in UTF-8.
pub fn utf8_char_len_exec(c: char) -> (r: usize)
    ensures
        r as nat == utf8_char_len(c),
{
    let v = c as u32;
    if v < 0x80 {
        1
    } else if v < 0x800 {
        2
    } else if v < 0x10000 {
        3
    } else {
        4
    }
}

/// The longest end of `s` that takes at most `n` bytes in UTF-8 (the last
/// `n` bytes, moved forward to a character boundary when they would split a
/// character).
pub fn utf8_tail_exec(s: &str, n: usize) -> (r: String)
    ensures
        r@ == utf8_tail(s@, n as nat),
{
    let v = chars_of(s);
    let mut k: usize = v.len();
    let mut left: usize = n;
    assert(v@.subrange(0, v.len() as int) =~= v@);
    assert(v@.subrange(v.len() as int, v.len() as int) =~= Seq::<char>::empty());
    while k > 0 && utf8_char_len_exec(v[k - 1]) <= left
        invariant
            k <= v.len(),
            v@ == s@,
            utf8_tail(s@, n as nat) == utf8_tail(v@.subrange(0, k as int), left as nat) + v@.subrange(
                k as int,
                v.len() as int,
            ),
        decreases k,
    {
        let ghost pre = v@.subrange(0, k as int);
        let cl = utf8_char_len_exec(v[k - 1]);
        assert(pre.last() == v@[k - 1]);
        assert(pre.drop_last() =~= v@.subrange(0, k - 1));
        assert(v@.subrange(k - 1, v.len() as int) =~= seq![v@[k - 1]] + v@.subrange(
            k as int,
            v.len() as int,
        ));
        assert(utf8_tail(pre, left as nat) == utf8_tail(v@.subrange(0, k - 1), (left - cl) as nat).push(v@[k - 1]));
        assert(utf8_tail(v@.subrange(0, k - 1), (left - cl) as nat).push(v@[k - 1]) + v@.subrange(
            k as int,
            v.len() as int,
        ) =~= utf8_tail(v@.subrange(0, k - 1), (left - cl) as nat) + v@.subrange(
            k - 1,
            v.len() as int,
        ));
        left = left - cl;
        k = k - 1;
    }
    assert(utf8_tail(v@.subrange(0, k as int), left as nat) =~= Seq::<char>::empty());
    let t = slice_chars(v.as_slice(), k, v.len());
    string_of(t.as_slice())
}


proof fn lemma_digit_char(k: nat)
    requires
        k < 10,
    ensures
        is_digit(digit_char(k)),
        digit_value(digit_char(k)) == k,
{
    assert(digit_char(k) as int == k + 48) by {
        assert(k + 48 < 0xD800);
    }
}

/// Rendering a number in decimal and parsing it back gives the number: the
/// rendering is a non-empty run of digits whose value is `n`, so
/// `parse_unsigned` accepts it whenever `n` fits.
pub proof fn lemma_decimal_roundtrip(n: nat, max: nat)
    ensures
        decimal(n).len() > 0,
        all_digits(decimal(n)),
        digits_value(decimal(n)) == n,
        n <= max ==> parse_unsigned(decimal(n), max) == Some(n),
    decreases n,
{
    lemma_digit_char(n % 10);
    if n < 10 {
        let d = decimal(n);
        assert(n % 10 == n);
        assert(d.drop_last() =~= Seq::<char>::empty());
        assert(digits_value(d) == digits_value(d.drop_last()) * 10 + digit_value(d.last()));
        assert(is_digit(d[0]));
    }
    if n >= 10 {
        lemma_decimal_roundtrip(n / 10, max);
        let d = decimal(n);
        assert(d.drop_last() =~= decimal(n / 10));
        assert(d.last() == digit_char(n % 10));
        assert(digits_value(d) == digits_value(d.drop_last()) * 10 + digit_value(d.last()));
        assert((n / 10) * 10 + n % 10 == n);
        assert forall|i: int| 0 <= i < d.len() implies #[trigger] is_digit(d[i]) by {
            if i < d.len() - 1 {
                assert(d[i] == decimal(n / 10)[i]);
            }
        }
    }
    let d = decimal(n);
    assert(d.len() > 0 && d[0] != '+') by {
        if n >= 10 {
            assert(d[0] == decimal(n / 10)[0]);
            assert(is_digit(decimal(n / 10)[0]));
        }
    }
}

} // verus!
