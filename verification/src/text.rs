//! Character-level text utilities with their specifications.
use vstd::prelude::*;
use vstd::string::StringExecFns;

verus! {

/// Unicode `White_Space`, the property behind `char::is_whitespace`.
pub open spec fn is_ws(c: char) -> bool {
    ||| ('\u{9}' <= c && c <= '\u{d}')
    ||| c == ' '
    ||| c == '\u{85}'
    ||| c == '\u{a0}'
    ||| c == '\u{1680}'
    ||| ('\u{2000}' <= c && c <= '\u{200a}')
    ||| c == '\u{2028}'
    ||| c == '\u{2029}'
    ||| c == '\u{202f}'
    ||| c == '\u{205f}'
    ||| c == '\u{3000}'
}

pub fn is_whitespace(c: char) -> (r: bool)
    ensures
        r == is_ws(c),
{
    ('\u{9}' <= c && c <= '\u{d}') || c == ' ' || c == '\u{85}' || c == '\u{a0}' || c
        == '\u{1680}' || ('\u{2000}' <= c && c <= '\u{200a}') || c == '\u{2028}' || c
        == '\u{2029}' || c == '\u{202f}' || c == '\u{205f}' || c == '\u{3000}'
}

/// Appends one character (`String::push`).
#[verifier::external_body]
pub(crate) fn push_char(s: &mut String, c: char)
    ensures
        final(s)@ == old(s)@.push(c),
{
    s.push(c);
}

/// The characters of a string slice.
pub fn chars_of(s: &str) -> (v: Vec<char>)
    ensures
        v@ == s@,
{
    let mut v: Vec<char> = Vec::new();
    for c in it: s.chars()
        invariant
            v@ == it.seq().take(it.index() as int),
            it.seq() == s@,
    {
        v.push(c);
    }
    v
}

/// A string made of the given characters.
pub fn string_of(v: &[char]) -> (s: String)
    ensures
        s@ == v@,
{
    let mut s = String::new();
    let mut i: usize = 0;
    while i < v.len()
        invariant
            i <= v@.len(),
            s@ == v@.take(i as int),
        decreases v@.len() - i,
    {
        push_char(&mut s, v[i]);
        i = i + 1;
        assert(v@.take(i as int) =~= v@.take((i - 1) as int).push(v@[i - 1]));
    }
    assert(v@.take(i as int) =~= v@);
    s
}


/// Appends `w` to `v`.
pub fn extend_chars(v: &mut Vec<char>, w: &[char])
    ensures
        final(v)@ == old(v)@ + w@,
{
    let mut i: usize = 0;
    while i < w.len()
        invariant
            i <= w@.len(),
            v@ == old(v)@ + w@.take(i as int),
        decreases w@.len() - i,
    {
        v.push(w[i]);
        i = i + 1;
        assert(w@.take(i as int) =~= w@.take((i - 1) as int).push(w@[i - 1]));
    }
    assert(w@.take(i as int) =~= w@);
}

/// A copy of `v[from..to]`.
pub fn slice_chars(v: &[char], from: usize, to: usize) -> (r: Vec<char>)
    requires
        from <= to <= v@.len(),
    ensures
        r@ == v@.subrange(from as int, to as int),
{
    let mut r: Vec<char> = Vec::new();
    let mut i: usize = from;
    while i < to
        invariant
            from <= i <= to <= v@.len(),
            r@ == v@.subrange(from as int, i as int),
        decreases to - i,
    {
        r.push(v[i]);
        i = i + 1;
        assert(v@.subrange(from as int, i as int) =~= v@.subrange(from as int, (i - 1) as int).push(
            v@[i - 1],
        ));
    }
    r
}

// ---------------------------------------------------------------- prefixes

pub open spec fn starts_with(s: Seq<char>, p: Seq<char>) -> bool {
    p.len() <= s.len() && s.take(p.len() as int) == p
}

pub open spec fn ends_with(s: Seq<char>, p: Seq<char>) -> bool {
    p.len() <= s.len() && s.skip(s.len() - p.len()) == p
}

/// `p` occurs in `s` at position `i`.
pub open spec fn matches_at(s: Seq<char>, p: Seq<char>, i: int) -> bool {
    0 <= i && i + p.len() <= s.len() && s.subrange(i, i + p.len()) == p
}

pub fn matches_at_exec(s: &[char], p: &[char], i: usize) -> (r: bool)
    ensures
        r == matches_at(s@, p@, i as int),
{
    if i > s.len() || p.len() > s.len() - i {
        return false;
    }
    let mut k: usize = 0;
    while k < p.len()
        invariant
            k <= p@.len(),
            i + p@.len() <= s@.len(),
            s@.len() == s.len(),
            forall|j: int| 0 <= j < k ==> s@[i + j] == p@[j],
        decreases p@.len() - k,
    {
        if s[i + k] != p[k] {
            assert(s@.subrange(i as int, i + p@.len())[k as int] != p@[k as int]);
            return false;
        }
        k = k + 1;
    }
    assert(s@.subrange(i as int, i + p@.len()) =~= p@);
    true
}

pub fn starts_with_exec(s: &[char], p: &[char]) -> (r: bool)
    ensures
        r == starts_with(s@, p@),
{
    let r = matches_at_exec(s, p, 0);
    assert(s@.take(p@.len() as int) =~= s@.subrange(0, p@.len() as int));
    r
}

pub fn ends_with_exec(s: &[char], p: &[char]) -> (r: bool)
    ensures
        r == ends_with(s@, p@),
{
    if p.len() > s.len() {
        return false;
    }
    let r = matches_at_exec(s, p, s.len() - p.len());
    assert(s@.skip(s@.len() - p@.len()) =~= s@.subrange(s@.len() - p@.len(), s@.len() as int));
    r
}

/// The first position at or after `i` where `p` occurs in `s`.
pub open spec fn find_from(s: Seq<char>, p: Seq<char>, i: int) -> Option<int>
    decreases s.len() - i,
{
    if i < 0 || i + p.len() > s.len() {
        None
    } else if p.len() == 0 || matches_at(s, p, i) {
        Some(i)
    } else {
        find_from(s, p, i + 1)
    }
}

pub open spec fn find(s: Seq<char>, p: Seq<char>) -> Option<int> {
    find_from(s, p, 0)
}

pub open spec fn contains(s: Seq<char>, p: Seq<char>) -> bool {
    find(s, p) is Some
}

/// What `find_from` returns is a real occurrence, and the first one.
pub proof fn lemma_find_from(s: Seq<char>, p: Seq<char>, i: int)
    requires
        0 <= i,
    ensures
        find_from(s, p, i) matches Some(k) ==> i <= k && matches_at(s, p, k) && forall|j: int|
            i <= j < k ==> !matches_at(s, p, j),
        find_from(s, p, i) is None ==> forall|j: int| i <= j ==> !matches_at(s, p, j),
    decreases s.len() - i,
{
    if i + p.len() > s.len() {
    } else if p.len() == 0 || matches_at(s, p, i) {
        assert(s.subrange(i, i + p.len()) =~= p);
    } else {
        lemma_find_from(s, p, i + 1);
    }
}

pub fn find_exec(s: &[char], p: &[char], from: usize) -> (r: Option<usize>)
    ensures
        r matches Some(k) ==> find_from(s@, p@, from as int) == Some(k as int),
        r is None ==> find_from(s@, p@, from as int) is None,
{
    if from > s.len() || p.len() > s.len() - from {
        return None;
    }
    if p.len() == 0 {
        return Some(from);
    }
    let mut i: usize = from;
    while p.len() <= s.len() - i
        invariant
            from <= i <= s@.len(),
            p@.len() > 0,
            find_from(s@, p@, from as int) == find_from(s@, p@, i as int),
        decreases s@.len() - i,
    {
        if matches_at_exec(s, p, i) {
            return Some(i);
        }
        i = i + 1;
    }
    None
}

pub fn contains_exec(s: &[char], p: &[char]) -> (r: bool)
    ensures
        r == contains(s@, p@),
{
    find_exec(s, p, 0).is_some()
}

/// `contains` on string slices.
pub fn str_contains(s: &str, p: &str) -> (r: bool)
    ensures
        r == contains(s@, p@),
{
    let sv = chars_of(s);
    let pv = chars_of(p);
    contains_exec(sv.as_slice(), pv.as_slice())
}

/// `starts_with` on string slices.
pub fn str_starts_with(s: &str, p: &str) -> (r: bool)
    ensures
        r == starts_with(s@, p@),
{
    let sv = chars_of(s);
    let pv = chars_of(p);
    starts_with_exec(sv.as_slice(), pv.as_slice())
}

/// String equality.
pub fn str_eq(a: &str, b: &str) -> (r: bool)
    ensures
        r == (a@ == b@),
{
    let av = chars_of(a);
    let bv = chars_of(b);
    if av.len() != bv.len() {
        return false;
    }
    let r = matches_at_exec(av.as_slice(), bv.as_slice(), 0);
    assert(av@.subrange(0, bv@.len() as int) =~= av@);
    r
}

// ---------------------------------------------------------------- trimming

/// Index of the first non-whitespace character at or after `i`.
pub open spec fn skip_ws(s: Seq<char>, i: int) -> int
    decreases s.len() - i,
{
    if 0 <= i < s.len() && is_ws(s[i]) {
        skip_ws(s, i + 1)
    } else {
        i
    }
}

/// End of `s.take(j)` once trailing whitespace is dropped.
pub open spec fn back_ws(s: Seq<char>, j: int) -> int
    decreases j,
{
    if 0 < j <= s.len() && is_ws(s[j - 1]) {
        back_ws(s, j - 1)
    } else {
        j
    }
}

pub open spec fn trim_start(s: Seq<char>) -> Seq<char> {
    s.skip(skip_ws(s, 0))
}

pub open spec fn trim_end(s: Seq<char>) -> Seq<char> {
    s.take(back_ws(s, s.len() as int))
}

/// `str::trim`: leading and trailing whitespace removed.
pub open spec fn trim(s: Seq<char>) -> Seq<char> {
    trim_end(trim_start(s))
}

pub proof fn lemma_skip_ws_bounds(s: Seq<char>, i: int)
    requires
        0 <= i <= s.len(),
    ensures
        i <= skip_ws(s, i) <= s.len(),
        forall|k: int| i <= k < skip_ws(s, i) ==> is_ws(s[k]),
        skip_ws(s, i) < s.len() ==> !is_ws(s[skip_ws(s, i)]),
    decreases s.len() - i,
{
    if i < s.len() && is_ws(s[i]) {
        lemma_skip_ws_bounds(s, i + 1);
    }
}

pub proof fn lemma_back_ws_bounds(s: Seq<char>, j: int)
    requires
        0 <= j <= s.len(),
    ensures
        0 <= back_ws(s, j) <= j,
        forall|k: int| back_ws(s, j) <= k < j ==> is_ws(s[k]),
        back_ws(s, j) > 0 ==> !is_ws(s[back_ws(s, j) - 1]),
    decreases j,
{
    if 0 < j && is_ws(s[j - 1]) {
        lemma_back_ws_bounds(s, j - 1);
    }
}

pub fn skip_ws_exec(s: &[char], from: usize) -> (r: usize)
    requires
        from <= s@.len(),
    ensures
        r == skip_ws(s@, from as int),
{
    let mut i = from;
    while i < s.len() && is_whitespace(s[i])
        invariant
            from <= i <= s@.len(),
            skip_ws(s@, from as int) == skip_ws(s@, i as int),
        decreases s@.len() - i,
    {
        i = i + 1;
    }
    i
}

pub fn back_ws_exec(s: &[char], to: usize) -> (r: usize)
    requires
        to <= s@.len(),
    ensures
        r == back_ws(s@, to as int),
{
    let mut j = to;
    while j > 0 && is_whitespace(s[j - 1])
        invariant
            j <= to <= s@.len(),
            back_ws(s@, to as int) == back_ws(s@, j as int),
        decreases j,
    {
        j = j - 1;
    }
    j
}

/// Bounds `(start, end)` of the trimmed part of `s`.
pub fn trim_bounds(s: &[char]) -> (r: (usize, usize))
    ensures
        r.0 <= r.1 <= s@.len(),
        s@.subrange(r.0 as int, r.1 as int) == trim(s@),
{
    let start = skip_ws_exec(s, 0);
    proof {
        lemma_skip_ws_bounds(s@, 0);
    }
    let t = slice_chars(s, start, s.len());
    let e = back_ws_exec(t.as_slice(), t.len());
    proof {
        lemma_back_ws_bounds(t@, t@.len() as int);
        assert(t@ == trim_start(s@));
        assert(s@.subrange(start as int, (start + e) as int) =~= t@.take(e as int));
    }
    (start, start + e)
}

pub fn trim_chars(s: &[char]) -> (r: Vec<char>)
    ensures
        r@ == trim(s@),
{
    let (a, b) = trim_bounds(s);
    slice_chars(s, a, b)
}

/// `str::trim`, as an owned string.
pub fn trim_str(s: &str) -> (r: String)
    ensures
        r@ == trim(s@),
{
    let v = chars_of(s);
    let t = trim_chars(v.as_slice());
    string_of(t.as_slice())
}

// ---------------------------------------------------------------- replacing

/// `s[from..]` with every non-overlapping occurrence of `p`, scanning left
/// to right, replaced by `r`.
pub open spec fn replace_from(s: Seq<char>, p: Seq<char>, r: Seq<char>, from: int) -> Seq<char>
    decreases s.len() - from,
{
    if p.len() == 0 || from < 0 || from > s.len() {
        s.skip(from)
    } else {
        match find_from(s, p, from) {
            None => s.skip(from),
            Some(i) => if from <= i && i + p.len() <= s.len() {
                s.subrange(from, i) + r + replace_from(s, p, r, i + p.len())
            } else {
                s.skip(from)
            },
        }
    }
}

/// `str::replace` for a non-empty pattern.
pub open spec fn replace_all(s: Seq<char>, p: Seq<char>, r: Seq<char>) -> Seq<char> {
    replace_from(s, p, r, 0)
}

pub fn replace_all_exec(s: &[char], p: &[char], r: &[char]) -> (out: Vec<char>)
    requires
        p@.len() > 0,
    ensures
        out@ == replace_all(s@, p@, r@),
{
    let mut out: Vec<char> = Vec::new();
    let mut cur: usize = 0;
    loop
        invariant
            cur <= s@.len(),
            p@.len() > 0,
            out@ + replace_from(s@, p@, r@, cur as int) == replace_all(s@, p@, r@),
        decreases s@.len() - cur,
    {
        match find_exec(s, p, cur) {
            None => {
                let rest = slice_chars(s, cur, s.len());
                extend_chars(&mut out, rest.as_slice());
                assert(s@.skip(cur as int) =~= s@.subrange(cur as int, s@.len() as int));
                return out;
            },
            Some(i) => {
                proof {
                    lemma_find_from(s@, p@, cur as int);
                    assert(matches_at(s@, p@, i as int));
                    assert(s@.len() == s.len() && p@.len() == p.len());
                }
                let piece = slice_chars(s, cur, i);
                let ghost before = out@;
                extend_chars(&mut out, piece.as_slice());
                extend_chars(&mut out, r);
                assert(before + replace_from(s@, p@, r@, cur as int) =~= out@ + replace_from(
                    s@,
                    p@,
                    r@,
                    (i + p@.len()) as int,
                ));
                cur = i + p.len();
            },
        }
    }
}

/// `s` without its leading copies of `c`.
pub open spec fn trim_start_char(s: Seq<char>, c: char) -> Seq<char>
    decreases s.len(),
{
    if s.len() > 0 && s[0] == c {
        trim_start_char(s.drop_first(), c)
    } else {
        s
    }
}

/// `s` without its trailing copies of `c`.
pub open spec fn trim_end_char(s: Seq<char>, c: char) -> Seq<char>
    decreases s.len(),
{
    if s.len() > 0 && s.last() == c {
        trim_end_char(s.drop_last(), c)
    } else {
        s
    }
}

pub fn trim_start_char_exec(s: &[char], c: char) -> (r: Vec<char>)
    ensures
        r@ == trim_start_char(s@, c),
{
    let mut i: usize = 0;
    assert(s@.skip(0) =~= s@);
    while i < s.len() && s[i] == c
        invariant
            i <= s@.len(),
            trim_start_char(s@.skip(i as int), c) == trim_start_char(s@, c),
        decreases s@.len() - i,
    {
        assert(s@.skip(i as int).drop_first() =~= s@.skip(i + 1));
        i = i + 1;
    }
    assert(s@.skip(i as int) =~= s@.subrange(i as int, s@.len() as int));
    slice_chars(s, i, s.len())
}

pub fn trim_end_char_exec(s: &[char], c: char) -> (r: Vec<char>)
    ensures
        r@ == trim_end_char(s@, c),
{
    let mut j: usize = s.len();
    assert(s@.take(j as int) =~= s@);
    while j > 0 && s[j - 1] == c
        invariant
            j <= s@.len(),
            trim_end_char(s@.take(j as int), c) == trim_end_char(s@, c),
        decreases j,
    {
        assert(s@.take(j as int).drop_last() =~= s@.take(j - 1));
        j = j - 1;
    }
    assert(s@.take(j as int) =~= s@.subrange(0, j as int));
    assert(s@.take(s@.len() as int) =~= s@);
    slice_chars(s, 0, j)
}

/// How many times `c` occurs in `s`.
pub open spec fn count_char(s: Seq<char>, c: char) -> nat
    decreases s.len(),
{
    if s.len() == 0 {
        0
    } else {
        count_char(s.drop_last(), c) + if s.last() == c {
            1nat
        } else {
            0nat
        }
    }
}

pub fn count_char_exec(s: &[char], c: char) -> (r: usize)
    ensures
        r == count_char(s@, c),
{
    let mut n: usize = 0;
    let mut i: usize = 0;
    while i < s.len()
        invariant
            i <= s@.len(),
            n == count_char(s@.take(i as int), c),
            n <= i,
        decreases s@.len() - i,
    {
        assert(s@.take(i + 1).drop_last() =~= s@.take(i as int));
        if s[i] == c {
            n = n + 1;
        }
        i = i + 1;
    }
    assert(s@.take(i as int) =~= s@);
    n
}

/// The last position of `c` in `s`.
pub open spec fn rfind_char(s: Seq<char>, c: char) -> Option<int>
    decreases s.len(),
{
    if s.len() == 0 {
        None
    } else if s.last() == c {
        Some(s.len() - 1)
    } else {
        rfind_char(s.drop_last(), c)
    }
}

pub fn rfind_char_exec(s: &[char], c: char) -> (r: Option<usize>)
    ensures
        r matches Some(k) ==> rfind_char(s@, c) == Some(k as int),
        r is None ==> rfind_char(s@, c) is None,
{
    let mut j: usize = s.len();
    assert(s@.take(j as int) =~= s@);
    while j > 0
        invariant
            j <= s@.len(),
            rfind_char(s@.take(j as int), c) == rfind_char(s@, c),
        decreases j,
    {
        if s[j - 1] == c {
            return Some(j - 1);
        }
        assert(s@.take(j as int).drop_last() =~= s@.take(j - 1));
        j = j - 1;
    }
    None
}

pub proof fn lemma_rfind_char_bounds(s: Seq<char>, c: char)
    ensures
        rfind_char(s, c) matches Some(k) ==> 0 <= k < s.len() && s[k] == c,
    decreases s.len(),
{
    if s.len() > 0 && s.last() != c {
        lemma_rfind_char_bounds(s.drop_last(), c);
    }
}

// ---------------------------------------------------------------- joining

/// The parts with `sep` between each two.
pub open spec fn join(parts: Seq<Seq<char>>, sep: Seq<char>) -> Seq<char>
    decreases parts.len(),
{
    if parts.len() == 0 {
        Seq::empty()
    } else if parts.len() == 1 {
        parts[0]
    } else {
        join(parts.drop_last(), sep) + sep + parts.last()
    }
}

/// The views of a list of strings.
pub open spec fn string_views(v: Seq<String>) -> Seq<Seq<char>> {
    v.map_values(|s: String| s@)
}

/// `[String]::join`.
pub fn join_strings(parts: &Vec<String>, sep: &str) -> (r: String)
    ensures
        r@ == join(string_views(parts@), sep@),
{
    let mut r = String::new();
    let mut i: usize = 0;
    while i < parts.len()
        invariant
            i <= parts@.len(),
            r@ == join(string_views(parts@).take(i as int), sep@),
        decreases parts@.len() - i,
    {
        assert(string_views(parts@).take(i + 1).drop_last() =~= string_views(parts@).take(
            i as int,
        ));
        if i > 0 {
            r.append(sep);
        }
        r.append(parts[i].as_str());
        i = i + 1;
    }
    assert(string_views(parts@).take(i as int) =~= string_views(parts@));
    r
}


// ---------------------------------------------------------------- words

pub open spec fn all_ws(s: Seq<char>) -> bool {
    forall|i: int| 0 <= i < s.len() ==> is_ws(#[trigger] s[i])
}

pub open spec fn no_ws(s: Seq<char>) -> bool {
    forall|i: int| 0 <= i < s.len() ==> !is_ws(#[trigger] s[i])
}

/// Non-empty, and neither starts nor ends with whitespace.
pub open spec fn trimmed_shape(s: Seq<char>) -> bool {
    s.len() > 0 && !is_ws(s[0]) && !is_ws(s.last())
}

/// The finished words and the word in progress after reading `s`.
pub open spec fn words_fold(s: Seq<char>) -> (Seq<Seq<char>>, Seq<char>)
    decreases s.len(),
{
    if s.len() == 0 {
        (Seq::empty(), Seq::empty())
    } else {
        let prev = words_fold(s.drop_last());
        if is_ws(s.last()) {
            if prev.1.len() == 0 {
                prev
            } else {
                (prev.0.push(prev.1), Seq::empty())
            }
        } else {
            (prev.0, prev.1.push(s.last()))
        }
    }
}

/// `str::split_whitespace`: the maximal runs of non-whitespace characters.
pub open spec fn words(s: Seq<char>) -> Seq<Seq<char>> {
    let f = words_fold(s);
    if f.1.len() == 0 {
        f.0
    } else {
        f.0.push(f.1)
    }
}

/// The words of `s` joined by single spaces.
pub open spec fn collapse_ws(s: Seq<char>) -> Seq<char> {
    join(words(s), seq![' '])
}

pub open spec fn char_seqs(v: Seq<Vec<char>>) -> Seq<Seq<char>> {
    v.map_values(|w: Vec<char>| w@)
}

pub fn split_words(s: &[char]) -> (r: Vec<Vec<char>>)
    ensures
        char_seqs(r@) == words(s@),
{
    let mut out: Vec<Vec<char>> = Vec::new();
    let mut cur: Vec<char> = Vec::new();
    let mut i: usize = 0;
    while i < s.len()
        invariant
            i <= s@.len(),
            (char_seqs(out@), cur@) == words_fold(s@.take(i as int)),
        decreases s@.len() - i,
    {
        assert(s@.take(i + 1).drop_last() =~= s@.take(i as int));
        let c = s[i];
        if is_whitespace(c) {
            if cur.len() > 0 {
                let ghost pv = char_seqs(out@);
                let ghost cv = cur@;
                out.push(cur);
                cur = Vec::new();
                assert(char_seqs(out@) =~= pv.push(cv));
            }
        } else {
            cur.push(c);
        }
        i = i + 1;
    }
    assert(s@.take(i as int) =~= s@);
    if cur.len() > 0 {
        let ghost pv = char_seqs(out@);
        let ghost cv = cur@;
        out.push(cur);
        assert(char_seqs(out@) =~= pv.push(cv));
    }
    out
}

/// `[..].join(sep)` on character vectors.
pub fn join_chars(parts: &Vec<Vec<char>>, sep: &[char]) -> (r: Vec<char>)
    ensures
        r@ == join(char_seqs(parts@), sep@),
{
    let mut r: Vec<char> = Vec::new();
    let mut i: usize = 0;
    while i < parts.len()
        invariant
            i <= parts@.len(),
            r@ == join(char_seqs(parts@).take(i as int), sep@),
        decreases parts@.len() - i,
    {
        assert(char_seqs(parts@).take(i + 1).drop_last() =~= char_seqs(parts@).take(i as int));
        if i > 0 {
            extend_chars(&mut r, sep);
        }
        extend_chars(&mut r, parts[i].as_slice());
        i = i + 1;
    }
    assert(char_seqs(parts@).take(i as int) =~= char_seqs(parts@));
    r
}

pub fn collapse_ws_exec(s: &[char]) -> (r: Vec<char>)
    ensures
        r@ == collapse_ws(s@),
{
    let ws = split_words(s);
    let sep = vec![' '];
    assert(sep@ =~= seq![' ']);
    join_chars(&ws, sep.as_slice())
}

/// What the fold keeps: finished words are non-empty and whitespace-free,
/// the word in progress is whitespace-free, and nothing is kept exactly
/// when everything read was whitespace.
pub proof fn lemma_words_fold(s: Seq<char>)
    ensures
        forall|i: int| 0 <= i < words_fold(s).0.len() ==> (#[trigger] words_fold(s).0[i]).len() > 0
            && no_ws(words_fold(s).0[i]),
        no_ws(words_fold(s).1),
        (words_fold(s).0.len() == 0 && words_fold(s).1.len() == 0) <==> all_ws(s),
    decreases s.len(),
{
    if s.len() > 0 {
        lemma_words_fold(s.drop_last());
        assert(all_ws(s) <==> all_ws(s.drop_last()) && is_ws(s.last())) by {
            if all_ws(s.drop_last()) && is_ws(s.last()) {
                assert forall|i: int| 0 <= i < s.len() implies is_ws(#[trigger] s[i]) by {
                    if i < s.len() - 1 {
                        assert(s[i] == s.drop_last()[i]);
                    }
                }
            }
            if all_ws(s) {
                assert forall|i: int| 0 <= i < s.drop_last().len() implies is_ws(#[trigger] s.drop_last()[i]) by {
                    assert(s[i] == s.drop_last()[i]);
                }
                assert(is_ws(s[s.len() - 1]));
            }
        }
        let prev = words_fold(s.drop_last());
        if !is_ws(s.last()) {
            assert forall|i: int| 0 <= i < prev.1.push(s.last()).len() implies !is_ws(#[trigger] prev.1.push(s.last())[i]) by {
                if i < prev.1.len() {
                    assert(prev.1.push(s.last())[i] == prev.1[i]);
                }
            }
        }
    }
}

/// Words are non-empty and whitespace-free; there are none exactly when `s` is all whitespace.
pub proof fn lemma_words(s: Seq<char>)
    ensures
        forall|i: int| 0 <= i < words(s).len() ==> (#[trigger] words(s)[i]).len() > 0 && no_ws(words(s)[i]),
        words(s).len() == 0 <==> all_ws(s),
{
    lemma_words_fold(s);
    let f = words_fold(s);
    assert forall|i: int| 0 <= i < words(s).len() implies (#[trigger] words(s)[i]).len() > 0 && no_ws(words(s)[i]) by {
        if f.1.len() > 0 && i == f.0.len() {
        } else {
            assert(words(s)[i] == f.0[i]);
        }
    }
}

/// Joining non-empty whitespace-free words with single spaces gives a
/// trimmed text, empty exactly when there are no words.
pub proof fn lemma_join_words(parts: Seq<Seq<char>>)
    requires
        forall|i: int| 0 <= i < parts.len() ==> (#[trigger] parts[i]).len() > 0 && no_ws(parts[i]),
    ensures
        parts.len() == 0 ==> join(parts, seq![' ']).len() == 0,
        parts.len() > 0 ==> trimmed_shape(join(parts, seq![' '])),
        parts.len() == 1 ==> join(parts, seq![' ']) == parts[0],
    decreases parts.len(),
{
    if parts.len() > 1 {
        lemma_join_words(parts.drop_last());
        let j = join(parts.drop_last(), seq![' ']);
        assert(parts.drop_last()[0] == parts[0]);
        let w = parts.last();
        assert(w.len() > 0 && !is_ws(w[w.len() - 1]));
        assert((j + seq![' '] + w)[0] == j[0]);
        assert((j + seq![' '] + w).last() == w.last());
    } else if parts.len() == 1 {
        assert(!is_ws(parts[0][0]));
        assert(!is_ws(parts[0][parts[0].len() - 1]));
    }
}

/// The words of `s`, joined by spaces, are empty exactly when `s` is all whitespace,
/// and trimmed otherwise.
pub proof fn lemma_collapse_ws(s: Seq<char>)
    ensures
        collapse_ws(s).len() == 0 <==> all_ws(s),
        !all_ws(s) ==> trimmed_shape(collapse_ws(s)),
{
    lemma_words(s);
    lemma_join_words(words(s));
}

/// A trimmed text is its own trim.
pub proof fn lemma_trim_of_trimmed(s: Seq<char>)
    requires
        trimmed_shape(s),
    ensures
        trim(s) == s,
{
    assert(skip_ws(s, 0) == 0);
    assert(s.skip(0) =~= s);
    assert(back_ws(s, s.len() as int) == s.len());
    assert(s.take(s.len() as int) =~= s);
}

/// Trimming leaves either nothing or a trimmed text; it leaves nothing
/// exactly when `s` is all whitespace.
pub proof fn lemma_trim_shape(s: Seq<char>)
    ensures
        trim(s).len() == 0 <==> all_ws(s),
        trim(s).len() > 0 ==> trimmed_shape(trim(s)),
{
    lemma_skip_ws_bounds(s, 0);
    let a = skip_ws(s, 0);
    let t = s.skip(a);
    lemma_back_ws_bounds(t, t.len() as int);
    let b = back_ws(t, t.len() as int);
    if a < s.len() {
        assert(t[0] == s[a]);
        assert(b > 0);
        assert(!all_ws(s)) by {
            assert(!is_ws(s[a]));
        }
        assert(trim(s) == t.take(b));
        assert(t.take(b)[0] == t[0]);
        assert(t.take(b).last() == t[b - 1]);
    } else {
        assert forall|i: int| 0 <= i < s.len() implies is_ws(#[trigger] s[i]) by {}
    }
}

// ---------------------------------------------------------------- splitting

/// `s[from..].split(p)` for a non-empty pattern: the pieces between
/// non-overlapping occurrences, found left to right.
pub open spec fn split_from(s: Seq<char>, p: Seq<char>, from: int) -> Seq<Seq<char>>
    decreases s.len() - from,
{
    if p.len() == 0 || from < 0 || from > s.len() {
        seq![s.skip(from)]
    } else {
        match find_from(s, p, from) {
            None => seq![s.skip(from)],
            Some(i) => if from <= i && i + p.len() <= s.len() {
                seq![s.subrange(from, i)] + split_from(s, p, i + p.len())
            } else {
                seq![s.skip(from)]
            },
        }
    }
}

/// `str::split` with a non-empty pattern.
pub open spec fn split_on(s: Seq<char>, p: Seq<char>) -> Seq<Seq<char>> {
    split_from(s, p, 0)
}

pub fn split_on_exec(s: &[char], p: &[char]) -> (r: Vec<Vec<char>>)
    requires
        p@.len() > 0,
    ensures
        char_seqs(r@) == split_on(s@, p@),
{
    let mut out: Vec<Vec<char>> = Vec::new();
    let mut cur: usize = 0;
    loop
        invariant
            cur <= s@.len(),
            p@.len() > 0,
            char_seqs(out@) + split_from(s@, p@, cur as int) == split_on(s@, p@),
        decreases s@.len() - cur,
    {
        match find_exec(s, p, cur) {
            None => {
                let rest = slice_chars(s, cur, s.len());
                let ghost before = char_seqs(out@);
                assert(s@.skip(cur as int) =~= rest@);
                out.push(rest);
                assert(char_seqs(out@) =~= before + split_from(s@, p@, cur as int));
                return out;
            },
            Some(i) => {
                proof {
                    lemma_find_from(s@, p@, cur as int);
                    assert(matches_at(s@, p@, i as int));
                    assert(s@.len() == s.len() && p@.len() == p.len());
                }
                let piece = slice_chars(s, cur, i);
                let ghost before = char_seqs(out@);
                out.push(piece);
                assert(before + split_from(s@, p@, cur as int) =~= char_seqs(out@) + split_from(
                    s@,
                    p@,
                    (i + p@.len()) as int,
                ));
                cur = i + p.len();
            },
        }
    }
}

/// With a whitespace pattern, a text that is all whitespace splits into
/// all-whitespace pieces, and one that is not has a piece that is not.
pub proof fn lemma_split_from_ws(s: Seq<char>, p: Seq<char>, from: int)
    requires
        p.len() > 0,
        all_ws(p),
        0 <= from <= s.len(),
    ensures
        all_ws(s.skip(from)) ==> forall|k: int| 0 <= k < split_from(s, p, from).len() ==> all_ws(
            #[trigger] split_from(s, p, from)[k],
        ),
        !all_ws(s.skip(from)) ==> exists|k: int| 0 <= k < split_from(s, p, from).len() && !all_ws(
            #[trigger] split_from(s, p, from)[k],
        ),
    decreases s.len() - from,
{
    lemma_find_from(s, p, from);
    match find_from(s, p, from) {
        None => {
            assert(split_from(s, p, from)[0] == s.skip(from));
        },
        Some(i) => {
            if from <= i && i + p.len() <= s.len() {
                let rest = split_from(s, p, i + p.len());
                let head = s.subrange(from, i);
                lemma_split_from_ws(s, p, i + p.len());
                assert(split_from(s, p, from) == seq![head] + rest);
                assert(s.subrange(i, i + p.len()) =~= p);
                if all_ws(s.skip(from)) {
                    assert forall|q: int| 0 <= q < s.skip(i + p.len()).len() implies is_ws(
                        #[trigger] s.skip(i + p.len())[q],
                    ) by {
                        assert(s.skip(i + p.len())[q] == s.skip(from)[q + i + p.len() - from]);
                    }
                    assert forall|q: int| 0 <= q < head.len() implies is_ws(#[trigger] head[q]) by {
                        assert(head[q] == s.skip(from)[q]);
                    }
                    assert forall|k: int| 0 <= k < split_from(s, p, from).len() implies all_ws(
                        #[trigger] split_from(s, p, from)[k],
                    ) by {
                        if k > 0 {
                            assert(split_from(s, p, from)[k] == rest[k - 1]);
                        }
                    }
                } else {
                    let q = choose|q: int| 0 <= q < s.skip(from).len() && !is_ws(#[trigger] s.skip(from)[q]);
                    if from + q < i {
                        assert(head[q] == s.skip(from)[q]);
                        assert(!all_ws(split_from(s, p, from)[0]));
                    } else if from + q < i + p.len() {
                        assert(s.skip(from)[q] == p[from + q - i]);
                    } else {
                        assert(s.skip(i + p.len())[from + q - i - p.len()] == s.skip(from)[q]);
                        assert(!all_ws(s.skip(i + p.len())));
                        let k = choose|k: int| 0 <= k < rest.len() && !all_ws(#[trigger] rest[k]);
                        assert(split_from(s, p, from)[k + 1] == rest[k]);
                    }
                }
            } else {
                assert(split_from(s, p, from)[0] == s.skip(from));
            }
        },
    }
}

/// Replacing whitespace by whitespace keeps a text all whitespace, or not.
pub proof fn lemma_replace_ws(s: Seq<char>, p: Seq<char>, r: Seq<char>, from: int)
    requires
        p.len() > 0,
        all_ws(p),
        all_ws(r),
        0 <= from <= s.len(),
    ensures
        all_ws(replace_from(s, p, r, from)) <==> all_ws(s.skip(from)),
    decreases s.len() - from,
{
    lemma_find_from(s, p, from);
    match find_from(s, p, from) {
        None => {},
        Some(i) => {
            if from <= i && i + p.len() <= s.len() {
                lemma_replace_ws(s, p, r, i + p.len());
                let head = s.subrange(from, i);
                let rest = replace_from(s, p, r, i + p.len());
                let out = head + r + rest;
                assert(replace_from(s, p, r, from) == out);
                assert(s.subrange(i, i + p.len()) =~= p);
                assert(s.skip(from) =~= head + p + s.skip(i + p.len()));
                lemma_all_ws_concat3(head, r, rest);
                lemma_all_ws_concat3(head, p, s.skip(i + p.len()));
            }
        },
    }
}

pub proof fn lemma_all_ws_concat3(a: Seq<char>, b: Seq<char>, c: Seq<char>)
    ensures
        all_ws(a + b + c) <==> (all_ws(a) && all_ws(b) && all_ws(c)),
{
    let s = a + b + c;
    if all_ws(s) {
        assert forall|i: int| 0 <= i < a.len() implies is_ws(#[trigger] a[i]) by {
            assert(s[i] == a[i]);
        }
        assert forall|i: int| 0 <= i < b.len() implies is_ws(#[trigger] b[i]) by {
            assert(s[a.len() + i] == b[i]);
        }
        assert forall|i: int| 0 <= i < c.len() implies is_ws(#[trigger] c[i]) by {
            assert(s[a.len() + b.len() + i] == c[i]);
        }
    }
    if all_ws(a) && all_ws(b) && all_ws(c) {
        assert forall|i: int| 0 <= i < s.len() implies is_ws(#[trigger] s[i]) by {
            if i < a.len() {
                assert(s[i] == a[i]);
            } else if i < a.len() + b.len() {
                assert(s[i] == b[i - a.len()]);
            } else {
                assert(s[i] == c[i - a.len() - b.len()]);
            }
        }
    }
}

/// The UTF-8 length of `s` when it is at most `limit`.
pub fn byte_len_upto(s: &[char], limit: usize) -> (r: Option<usize>)
    ensures
        r matches Some(n) ==> n == byte_len(s@) && n <= limit,
        r is None ==> byte_len(s@) > limit,
{
    let mut total: usize = 0;
    let mut i: usize = 0;
    while i < s.len()
        invariant
            i <= s@.len(),
            total == byte_len(s@.take(i as int)),
            total <= limit,
        decreases s@.len() - i,
    {
        assert(s@.take(i + 1).drop_last() =~= s@.take(i as int));
        let w = char_width_exec(s[i]);
        if w > limit - total {
            proof {
                lemma_byte_len_prefix_mono(s@, i + 1);
            }
            return None;
        }
        total = total + w;
        i = i + 1;
    }
    assert(s@.take(i as int) =~= s@);
    Some(total)
}


// ---------------------------------------------------------------- lines

/// A line without its carriage return, if it ends with one.
pub open spec fn strip_cr(l: Seq<char>) -> Seq<char> {
    if l.len() > 0 && l.last() == '\r' {
        l.drop_last()
    } else {
        l
    }
}

/// `str::lines` on `s[from..]`: pieces ended by `\n` lose it and a `\r`
/// before it; a last piece without `\n` is kept whole; nothing follows a
/// final `\n`.
pub open spec fn lines_from(s: Seq<char>, from: int) -> Seq<Seq<char>>
    decreases s.len() - from,
{
    if from < 0 || from >= s.len() {
        Seq::empty()
    } else {
        match find_from(s, seq!['\n'], from) {
            None => seq![s.subrange(from, s.len() as int)],
            Some(i) => if from <= i < s.len() {
                seq![strip_cr(s.subrange(from, i))] + lines_from(s, i + 1)
            } else {
                Seq::empty()
            },
        }
    }
}

/// `str::lines`.
pub open spec fn lines(s: Seq<char>) -> Seq<Seq<char>> {
    lines_from(s, 0)
}

pub fn lines_exec(s: &[char]) -> (r: Vec<Vec<char>>)
    ensures
        char_seqs(r@) == lines(s@),
{
    let nl = vec!['\n'];
    assert(nl@ =~= seq!['\n']);
    let mut out: Vec<Vec<char>> = Vec::new();
    let mut cur: usize = 0;
    while cur < s.len()
        invariant
            cur <= s@.len(),
            nl@ == seq!['\n'],
            char_seqs(out@) + lines_from(s@, cur as int) == lines(s@),
        decreases s@.len() - cur,
    {
        match find_exec(s, nl.as_slice(), cur) {
            None => {
                let rest = slice_chars(s, cur, s.len());
                let ghost before = char_seqs(out@);
                out.push(rest);
                assert(char_seqs(out@) =~= before + lines_from(s@, cur as int));
                assert(lines_from(s@, s@.len() as int) =~= Seq::<Seq<char>>::empty());
                assert(char_seqs(out@) + lines_from(s@, s@.len() as int) =~= char_seqs(out@));
                return out;
            },
            Some(i) => {
                proof {
                    lemma_find_from(s@, seq!['\n'], cur as int);
                    assert(matches_at(s@, seq!['\n'], i as int));
                    assert(s@.len() == s.len());
                }
                let mut piece = slice_chars(s, cur, i);
                if piece.len() > 0 && piece[piece.len() - 1] == '\r' {
                    piece.pop();
                }
                let ghost before = char_seqs(out@);
                assert(piece@ == strip_cr(s@.subrange(cur as int, i as int)));
                out.push(piece);
                assert(before + lines_from(s@, cur as int) =~= char_seqs(out@) + lines_from(
                    s@,
                    i + 1,
                ));
                cur = i + 1;
            },
        }
    }
    assert(lines_from(s@, cur as int) =~= Seq::<Seq<char>>::empty());
    assert(char_seqs(out@) + lines_from(s@, cur as int) =~= char_seqs(out@));
    out
}

/// The first `n` characters of `s` (all of it when shorter).
pub open spec fn truncate(s: Seq<char>, n: nat) -> Seq<char> {
    if s.len() <= n {
        s
    } else {
        s.take(n as int)
    }
}

/// At most `max_chars` characters of `input`, from its start.
pub fn truncate_chars(input: &str, max_chars: usize) -> (r: String)
    ensures
        r@ == truncate(input@, max_chars as nat),
{
    let v = chars_of(input);
    if v.len() <= max_chars {
        return input.to_string();
    }
    let t = slice_chars(v.as_slice(), 0, max_chars);
    assert(v@.subrange(0, max_chars as int) =~= v@.take(max_chars as int));
    string_of(t.as_slice())
}


// ---------------------------------------------------------------- pattern lists

pub open spec fn str_views(v: Seq<&str>) -> Seq<Seq<char>> {
    v.map_values(|s: &str| s@)
}

/// The first pattern of `ps` that occurs in `hay`.
pub open spec fn first_contained(hay: Seq<char>, ps: Seq<Seq<char>>) -> Option<int>
    decreases ps.len(),
{
    if ps.len() == 0 {
        None
    } else if contains(hay, ps[0]) {
        Some(0)
    } else {
        match first_contained(hay, ps.drop_first()) {
            Some(i) => Some(i + 1),
            None => None,
        }
    }
}

pub proof fn lemma_first_contained(hay: Seq<char>, ps: Seq<Seq<char>>)
    ensures
        first_contained(hay, ps) matches Some(i) ==> 0 <= i < ps.len() && contains(hay, ps[i]),
        first_contained(hay, ps) is None <==> forall|i: int| 0 <= i < ps.len() ==> !contains(hay, #[trigger] ps[i]),
    decreases ps.len(),
{
    if ps.len() > 0 {
        lemma_first_contained(hay, ps.drop_first());
        assert forall|i: int| 0 < i < ps.len() implies ps[i] == ps.drop_first()[i - 1] by {}
        if first_contained(hay, ps) is None {
            assert forall|i: int| 0 <= i < ps.len() implies !contains(hay, #[trigger] ps[i]) by {
                if i > 0 {
                    assert(ps[i] == ps.drop_first()[i - 1]);
                }
            }
        }
    }
}

pub fn first_contained_exec(hay: &str, pats: &[&str]) -> (r: Option<usize>)
    ensures
        r matches Some(i) ==> first_contained(hay@, str_views(pats@)) == Some(i as int),
        r is None ==> first_contained(hay@, str_views(pats@)) is None,
{
    let mut i: usize = 0;
    assert(str_views(pats@).skip(0) =~= str_views(pats@));
    while i < pats.len()
        invariant
            i <= pats@.len(),
            forall|k: int| 0 <= k < i ==> !contains(hay@, #[trigger] str_views(pats@)[k]),
        decreases pats@.len() - i,
    {
        if str_contains(hay, pats[i]) {
            proof {
                lemma_first_contained_at(hay@, str_views(pats@), i as int);
            }
            return Some(i);
        }
        i = i + 1;
    }
    proof {
        lemma_first_contained(hay@, str_views(pats@));
    }
    None
}

/// The first match is where the first pattern that occurs is.
pub proof fn lemma_first_contained_at(hay: Seq<char>, ps: Seq<Seq<char>>, i: int)
    requires
        0 <= i < ps.len(),
        contains(hay, ps[i]),
        forall|k: int| 0 <= k < i ==> !contains(hay, #[trigger] ps[k]),
    ensures
        first_contained(hay, ps) == Some(i),
    decreases i,
{
    if i > 0 {
        let t = ps.drop_first();
        assert forall|k: int| 0 <= k < i - 1 implies !contains(hay, #[trigger] t[k]) by {
            assert(t[k] == ps[k + 1]);
        }
        assert(t[i - 1] == ps[i]);
        lemma_first_contained_at(hay, t, i - 1);
    }
}

// ---------------------------------------------------------------- trimming by class

pub open spec fn is_ascii_alnum(c: char) -> bool {
    ('0' <= c && c <= '9') || ('A' <= c && c <= 'Z') || ('a' <= c && c <= 'z')
}

/// Characters a `strip_class` trims: `0` anything not ASCII alphanumeric,
/// `1` anything not ASCII alphanumeric, `$` or `_`, `2` `:`, `-` and space.
pub open spec fn strippable(c: char, class: u8) -> bool {
    if class == 0 {
        !is_ascii_alnum(c)
    } else if class == 1 {
        !(is_ascii_alnum(c) || c == '$' || c == '_')
    } else {
        c == ':' || c == '-' || c == ' '
    }
}

pub fn strippable_exec(c: char, class: u8) -> (r: bool)
    ensures
        r == strippable(c, class),
{
    let alnum = ('0' <= c && c <= '9') || ('A' <= c && c <= 'Z') || ('a' <= c && c <= 'z');
    if class == 0 {
        !alnum
    } else if class == 1 {
        !(alnum || c == '$' || c == '_')
    } else {
        c == ':' || c == '-' || c == ' '
    }
}

pub open spec fn skip_class(s: Seq<char>, i: int, class: u8) -> int
    decreases s.len() - i,
{
    if 0 <= i < s.len() && strippable(s[i], class) {
        skip_class(s, i + 1, class)
    } else {
        i
    }
}

pub open spec fn back_class(s: Seq<char>, j: int, class: u8) -> int
    decreases j,
{
    if 0 < j <= s.len() && strippable(s[j - 1], class) {
        back_class(s, j - 1, class)
    } else {
        j
    }
}

/// `str::trim_matches` with the characters of `class` (see `strippable`).
pub open spec fn strip_class(s: Seq<char>, class: u8) -> Seq<char> {
    let t = s.skip(skip_class(s, 0, class));
    t.take(back_class(t, t.len() as int, class))
}

proof fn lemma_skip_class(s: Seq<char>, i: int, class: u8)
    requires
        0 <= i <= s.len(),
    ensures
        i <= skip_class(s, i, class) <= s.len(),
    decreases s.len() - i,
{
    if i < s.len() && strippable(s[i], class) {
        lemma_skip_class(s, i + 1, class);
    }
}

proof fn lemma_back_class(s: Seq<char>, j: int, class: u8)
    requires
        0 <= j <= s.len(),
    ensures
        0 <= back_class(s, j, class) <= j,
    decreases j,
{
    if 0 < j && strippable(s[j - 1], class) {
        lemma_back_class(s, j - 1, class);
    }
}

pub fn strip_class_exec(s: &[char], class: u8) -> (r: Vec<char>)
    ensures
        r@ == strip_class(s@, class),
{
    let mut i: usize = 0;
    while i < s.len() && strippable_exec(s[i], class)
        invariant
            i <= s@.len(),
            skip_class(s@, 0, class) == skip_class(s@, i as int, class),
        decreases s@.len() - i,
    {
        i = i + 1;
    }
    let t = slice_chars(s, i, s.len());
    assert(t@ =~= s@.skip(i as int));
    let mut j: usize = t.len();
    while j > 0 && strippable_exec(t[j - 1], class)
        invariant
            j <= t@.len(),
            back_class(t@, t@.len() as int, class) == back_class(t@, j as int, class),
        decreases j,
    {
        j = j - 1;
    }
    let r = slice_chars(t.as_slice(), 0, j);
    assert(r@ =~= t@.take(j as int));
    r
}

/// `s` with leading copies of a non-empty `p` removed (`trim_start_matches`).
pub open spec fn strip_prefix_all(s: Seq<char>, p: Seq<char>) -> Seq<char>
    decreases s.len(),
{
    if p.len() > 0 && starts_with(s, p) {
        strip_prefix_all(s.skip(p.len() as int), p)
    } else {
        s
    }
}

pub fn strip_prefix_all_exec(s: &[char], p: &[char]) -> (r: Vec<char>)
    requires
        p@.len() > 0,
    ensures
        r@ == strip_prefix_all(s@, p@),
{
    let mut i: usize = 0;
    assert(s@.skip(0) =~= s@);
    loop
        invariant
            i <= s@.len(),
            p@.len() > 0,
            strip_prefix_all(s@.skip(i as int), p@) == strip_prefix_all(s@, p@),
        decreases s@.len() - i,
    {
        let rest = slice_chars(s, i, s.len());
        assert(rest@ =~= s@.skip(i as int));
        if starts_with_exec(rest.as_slice(), p) {
            assert(s@.skip(i as int).skip(p@.len() as int) =~= s@.skip(i + p@.len()));
            i = i + p.len();
        } else {
            return rest;
        }
    }
}


/// The first occurrence at or after `i` is found.
pub proof fn lemma_find_from_first(s: Seq<char>, p: Seq<char>, i: int, k: int)
    requires
        0 <= i <= k,
        matches_at(s, p, k),
        forall|j: int| i <= j < k ==> !matches_at(s, p, j),
    ensures
        find_from(s, p, i) == Some(k),
    decreases k - i,
{
    if p.len() == 0 {
        assert(s.subrange(i, i) =~= p);
        assert(matches_at(s, p, i));
    } else if i < k {
        lemma_find_from_first(s, p, i + 1, k);
    }
}

/// `"\n" + t + "\n"` trims back to `t` when `t` is already trimmed.
pub proof fn lemma_trim_wrapped(t: Seq<char>)
    requires
        t.len() == 0 || trimmed_shape(t),
    ensures
        trim(seq!['\n'] + t + seq!['\n']) == t,
{
    let x = seq!['\n'] + t + seq!['\n'];
    if t.len() == 0 {
        assert(x =~= seq!['\n', '\n']);
        assert forall|i: int| 0 <= i < x.len() implies is_ws(#[trigger] x[i]) by {}
        lemma_trim_shape(x);
    } else {
        assert(x[0] == '\n');
        assert(x[1] == t[0]);
        assert(skip_ws(x, 1) == 1);
        assert(skip_ws(x, 0) == 1);
        let y = x.skip(1);
        assert(y =~= t + seq!['\n']);
        assert(y[y.len() - 1] == '\n');
        assert(y[y.len() - 2] == t.last());
        assert(back_ws(y, y.len() - 1) == y.len() - 1);
        assert(back_ws(y, y.len() as int) == y.len() - 1);
        assert(y.take(y.len() - 1) =~= t);
    }
}


// ---------------------------------------------------------------- building text

/// Whether a string has any character.
pub fn str_nonempty(s: &str) -> (r: bool)
    ensures
        r == (s@.len() > 0),
{
    proof {
        reveal_strlit("");
    }
    !s.is_empty()
}


pub fn push_str(out: &mut Vec<char>, s: &str)
    ensures
        final(out)@ == old(out)@ + s@,
{
    let v = chars_of(s);
    extend_chars(out, v.as_slice());
}

pub fn push_u64(out: &mut Vec<char>, n: u64)
    ensures
        final(out)@ == old(out)@ + decimal(n as nat),
{
    let v = decimal_chars(n);
    extend_chars(out, v.as_slice());
}

/// Decimal rendering of an integer, with a minus sign when negative.
pub open spec fn signed_decimal(x: int) -> Seq<char> {
    if x < 0 {
        seq!['-'] + decimal((-x) as nat)
    } else {
        decimal(x as nat)
    }
}

pub fn push_i64(out: &mut Vec<char>, n: i64)
    ensures
        final(out)@ == old(out)@ + signed_decimal(n as int),
{
    if n < 0 {
        out.push('-');
        let m: i128 = -(n as i128);
        let v = decimal_chars(m as u64);
        extend_chars(out, v.as_slice());
    } else {
        let v = decimal_chars(n as u64);
        extend_chars(out, v.as_slice());
    }
}

/// Rust's `/` on integers: the quotient rounded toward zero.
pub open spec fn tdiv(a: int, b: int) -> int {
    if a >= 0 {
        a / b
    } else {
        -((-a) / b)
    }
}

/// Rust's `%` on integers: the remainder with the sign of `a`.
pub open spec fn trem(a: int, b: int) -> int {
    if a >= 0 {
        a % b
    } else {
        -((-a) % b)
    }
}

/// `i64` division and remainder by a positive divisor, as Rust computes them.
pub fn i64_div_rem(a: i64, b: i64) -> (r: (i64, i64))
    requires
        b > 0,
    ensures
        r.0 == tdiv(a as int, b as int),
        r.1 == trem(a as int, b as int),
{
    let m: i128 = if a >= 0 {
        a as i128
    } else {
        -(a as i128)
    };
    let bb: i128 = b as i128;
    let q: i128 = m / bb;
    let rr: i128 = m % bb;
    assert(0 <= q <= m) by (nonlinear_arith)
        requires
            bb >= 1,
            m >= 0,
            q == m / bb,
    ;
    assert(0 <= rr < bb) by (nonlinear_arith)
        requires
            bb >= 1,
            m >= 0,
            rr == m % bb,
    ;
    if a >= 0 {
        (q as i64, rr as i64)
    } else {
        let nq: i128 = -q;
        let nr: i128 = -rr;
        (nq as i64, nr as i64)
    }
}

// ---------------------------------------------------------------- UTF-8 length

/// Bytes taken by `c` in UTF-8.
pub open spec fn char_width(c: char) -> nat {
    if (c as u32) < 0x80 {
        1
    } else if (c as u32) < 0x800 {
        2
    } else if (c as u32) < 0x10000 {
        3
    } else {
        4
    }
}

/// Bytes taken by `s` in UTF-8, which is what `str::len` counts.
pub open spec fn byte_len(s: Seq<char>) -> nat
    decreases s.len(),
{
    if s.len() == 0 {
        0
    } else {
        byte_len(s.drop_last()) + char_width(s.last())
    }
}

pub fn char_width_exec(c: char) -> (r: usize)
    ensures
        r == char_width(c),
{
    let u = c as u32;
    if u < 0x80 {
        1
    } else if u < 0x800 {
        2
    } else if u < 0x10000 {
        3
    } else {
        4
    }
}

/// Whether `s` takes more than `limit` bytes in UTF-8.
pub fn byte_len_gt(s: &[char], limit: usize) -> (r: bool)
    requires
        limit < usize::MAX - 4,
    ensures
        r == (byte_len(s@) > limit),
{
    let mut total: usize = 0;
    let mut i: usize = 0;
    while i < s.len()
        invariant
            i <= s@.len(),
            total == byte_len(s@.take(i as int)),
            total <= limit,
            limit < usize::MAX - 4,
        decreases s@.len() - i,
    {
        assert(s@.take(i + 1).drop_last() =~= s@.take(i as int));
        total = total + char_width_exec(s[i]);
        i = i + 1;
        if total > limit {
            proof {
                lemma_byte_len_prefix_mono(s@, i as int);
            }
            return true;
        }
    }
    assert(s@.take(i as int) =~= s@);
    false
}


/// The UTF-8 length of `s`, counted wide enough never to overflow.
pub fn byte_len_wide(s: &[char]) -> (r: u128)
    ensures
        r == byte_len(s@),
        r <= 4 * s@.len(),
{
    let mut total: u128 = 0;
    let mut i: usize = 0;
    while i < s.len()
        invariant
            i <= s@.len(),
            total == byte_len(s@.take(i as int)),
            total <= 4 * i,
        decreases s@.len() - i,
    {
        assert(s@.take(i + 1).drop_last() =~= s@.take(i as int));
        total = total + char_width_exec(s[i]) as u128;
        i = i + 1;
    }
    assert(s@.take(i as int) =~= s@);
    total
}

/// A prefix never takes more bytes than the whole.
pub proof fn lemma_byte_len_prefix_mono(s: Seq<char>, i: int)
    requires
        0 <= i <= s.len(),
    ensures
        byte_len(s.take(i)) <= byte_len(s),
    decreases s.len(),
{
    if i < s.len() {
        assert(s.drop_last().take(i) =~= s.take(i));
        lemma_byte_len_prefix_mono(s.drop_last(), i);
    } else {
        assert(s.take(i) =~= s);
    }
}

/// Byte length adds up over concatenation.
pub proof fn lemma_byte_len_concat(a: Seq<char>, b: Seq<char>)
    ensures
        byte_len(a + b) == byte_len(a) + byte_len(b),
    decreases b.len(),
{
    if b.len() == 0 {
        assert(a + b =~= a);
    } else {
        assert((a + b).drop_last() =~= a + b.drop_last());
        lemma_byte_len_concat(a, b.drop_last());
    }
}

// ---------------------------------------------------------------- case

/// Full Unicode lowercase mapping of a string, as `str::to_lowercase` computes it.
pub uninterp spec fn lowercase(s: Seq<char>) -> Seq<char>;

/// Full Unicode uppercase mapping of a string, as `str::to_uppercase` computes it.
pub uninterp spec fn uppercase(s: Seq<char>) -> Seq<char>;

/// `str::to_lowercase`; its result is named `lowercase`.
#[verifier::external_body]
pub(crate) fn to_lowercase(s: &str) -> (r: String)
    ensures
        r@ == lowercase(s@),
{
    s.to_lowercase()
}

/// `str::to_uppercase`; its result is named `uppercase`.
#[verifier::external_body]
pub(crate) fn to_uppercase(s: &str) -> (r: String)
    ensures
        r@ == uppercase(s@),
{
    s.to_uppercase()
}

// ---------------------------------------------------------------- numbers

pub open spec fn digit(d: nat) -> char {
    (d + 48) as char
}

/// Decimal rendering of a natural number, without leading zeros.
pub open spec fn decimal(n: nat) -> Seq<char>
    decreases n,
{
    if n < 10 {
        seq![digit(n)]
    } else {
        decimal(n / 10).push(digit(n % 10))
    }
}

pub fn decimal_chars(n: u64) -> (r: Vec<char>)
    ensures
        r@ == decimal(n as nat),
    decreases n,
{
    let d = (n % 10) as u8;
    let c = (48u8 + d) as char;
    if n < 10 {
        let mut v: Vec<char> = Vec::new();
        v.push(c);
        v
    } else {
        let mut v = decimal_chars(n / 10);
        v.push(c);
        v
    }
}

/// `u64::to_string`.
pub fn u64_to_string(n: u64) -> (r: String)
    ensures
        r@ == decimal(n as nat),
{
    let v = decimal_chars(n);
    string_of(v.as_slice())
}

// ---------------------------------------------------------------- lines and joins

/// `s` holds no line break.
pub open spec fn no_newline(s: Seq<char>) -> bool {
    forall|k: int| 0 <= k < s.len() ==> s[k] != '\n'
}

proof fn lemma_newline_match(s: Seq<char>, k: int)
    ensures
        matches_at(s, seq!['\n'], k) <==> (0 <= k < s.len() && s[k] == '\n'),
{
    if 0 <= k < s.len() {
        assert(s.subrange(k, k + 1)[0] == s[k]);
        if s[k] == '\n' {
            assert(s.subrange(k, k + 1) =~= seq!['\n']);
        }
    }
}

proof fn lemma_find_from_shift(p: Seq<char>, q: Seq<char>, pat: Seq<char>, j: int)
    requires
        0 <= j,
    ensures
        find_from(p + q, pat, p.len() + j) == match find_from(q, pat, j) {
            Some(k) => Some(k + p.len()),
            None => None::<int>,
        },
    decreases q.len() - j,
{
    let s = p + q;
    if j + pat.len() <= q.len() {
        assert(s.subrange(p.len() + j, p.len() + j + pat.len()) =~= q.subrange(j, j + pat.len()));
        if !(pat.len() == 0 || matches_at(q, pat, j)) {
            lemma_find_from_shift(p, q, pat, j + 1);
        }
    }
}

/// Lines read from inside the second part of a text are that part's lines.
pub proof fn lemma_lines_from_shift(p: Seq<char>, q: Seq<char>, j: int)
    requires
        0 <= j,
    ensures
        lines_from(p + q, p.len() + j) == lines_from(q, j),
    decreases q.len() - j,
{
    let s = p + q;
    if j < q.len() {
        lemma_find_from_shift(p, q, seq!['\n'], j);
        lemma_find_from(q, seq!['\n'], j);
        match find_from(q, seq!['\n'], j) {
            None => {
                assert(s.subrange(p.len() + j, s.len() as int) =~= q.subrange(j, q.len() as int));
            },
            Some(i) => {
                assert(s.subrange(p.len() + j, p.len() + i) =~= q.subrange(j, i));
                lemma_lines_from_shift(p, q, i + 1);
            },
        }
    }
}

/// After a text that ends a line, the lines of what follows simply come after.
pub proof fn lemma_lines_concat(a: Seq<char>, b: Seq<char>, i: int)
    requires
        a.len() > 0,
        a.last() == '\n',
        0 <= i <= a.len(),
    ensures
        lines_from(a + b, i) == lines_from(a, i) + lines_from(b, 0),
    decreases a.len() - i,
{
    let s = a + b;
    let nl = seq!['\n'];
    if i == a.len() {
        lemma_lines_from_shift(a, b, 0);
        assert(Seq::<Seq<char>>::empty() + lines_from(b, 0) =~= lines_from(b, 0));
    } else {
        lemma_find_from(a, nl, i);
        lemma_newline_match(a, a.len() - 1);
        let e = find_from(a, nl, i)->0;
        lemma_newline_match(a, e);
        lemma_newline_match(s, e);
        assert(s[e] == a[e]);
        assert forall|j: int| i <= j < e implies !matches_at(s, nl, j) by {
            lemma_newline_match(s, j);
            lemma_newline_match(a, j);
            assert(s[j] == a[j]);
        }
        lemma_find_from_first(s, nl, i, e);
        assert(s.subrange(i, e) =~= a.subrange(i, e));
        lemma_lines_concat(a, b, e + 1);
        assert(seq![strip_cr(a.subrange(i, e))] + (lines_from(a, e + 1) + lines_from(b, 0)) =~= (seq![
            strip_cr(a.subrange(i, e)),
        ] + lines_from(a, e + 1)) + lines_from(b, 0));
    }
}

proof fn lemma_no_newline_found(x: Seq<char>, from: int)
    requires
        no_newline(x),
        0 <= from,
    ensures
        find_from(x, seq!['\n'], from) is None,
{
    lemma_find_from(x, seq!['\n'], from);
    if let Some(k) = find_from(x, seq!['\n'], from) {
        lemma_newline_match(x, k);
    }
}

/// One line ended by a line break.
pub proof fn lemma_lines_of_ended_line(x: Seq<char>)
    requires
        no_newline(x),
    ensures
        lines(x + seq!['\n']) == seq![strip_cr(x)],
{
    let s = x + seq!['\n'];
    lemma_newline_match(s, x.len() as int);
    assert forall|j: int| 0 <= j < x.len() implies !matches_at(s, seq!['\n'], j) by {
        lemma_newline_match(s, j);
        assert(s[j] == x[j]);
    }
    lemma_find_from_first(s, seq!['\n'], 0, x.len() as int);
    assert(s.subrange(0, x.len() as int) =~= x);
    assert(lines_from(s, (x.len() + 1) as int) == Seq::<Seq<char>>::empty());
    assert(seq![strip_cr(x)] + Seq::<Seq<char>>::empty() =~= seq![strip_cr(x)]);
}

/// A text without line breaks is one line, or none when empty.
pub proof fn lemma_lines_of_bare_line(x: Seq<char>)
    requires
        no_newline(x),
    ensures
        lines(x) == if x.len() == 0 {
            Seq::<Seq<char>>::empty()
        } else {
            seq![x]
        },
{
    if x.len() > 0 {
        lemma_no_newline_found(x, 0);
        assert(x.subrange(0, x.len() as int) =~= x);
    }
}

/// Joining lines with line breaks and ending with one gives back the lines.
pub proof fn lemma_lines_of_join_ended(xs: Seq<Seq<char>>)
    requires
        xs.len() > 0,
        forall|i: int| 0 <= i < xs.len() ==> no_newline(#[trigger] xs[i]),
    ensures
        lines(join(xs, seq!['\n']) + seq!['\n']) == xs.map_values(|l: Seq<char>| strip_cr(l)),
    decreases xs.len(),
{
    let nl = seq!['\n'];
    if xs.len() == 1 {
        lemma_lines_of_ended_line(xs[0]);
        assert(xs.map_values(|l: Seq<char>| strip_cr(l)) =~= seq![strip_cr(xs[0])]);
    } else {
        let d = xs.drop_last();
        assert forall|i: int| 0 <= i < d.len() implies no_newline(#[trigger] d[i]) by {
            assert(d[i] == xs[i]);
        }
        lemma_lines_of_join_ended(d);
        let a = join(d, nl) + nl;
        let b = xs.last() + nl;
        assert(join(xs, nl) + nl =~= a + b);
        lemma_lines_concat(a, b, 0);
        lemma_lines_of_ended_line(xs.last());
        assert(xs.map_values(|l: Seq<char>| strip_cr(l)) =~= d.map_values(|l: Seq<char>| strip_cr(l)) + seq![
            strip_cr(xs.last()),
        ]);
    }
}

/// Joining lines with line breaks gives back the lines, but the last one
/// whole and only when not empty.
pub proof fn lemma_lines_of_join(xs: Seq<Seq<char>>)
    requires
        xs.len() > 0,
        forall|i: int| 0 <= i < xs.len() ==> no_newline(#[trigger] xs[i]),
    ensures
        lines(join(xs, seq!['\n'])) == xs.drop_last().map_values(|l: Seq<char>| strip_cr(l)) + if xs.last().len()
            == 0 {
            Seq::<Seq<char>>::empty()
        } else {
            seq![xs.last()]
        },
    decreases xs.len(),
{
    let nl = seq!['\n'];
    lemma_lines_of_bare_line(xs.last());
    if xs.len() == 1 {
        assert(xs.drop_last().map_values(|l: Seq<char>| strip_cr(l)) =~= Seq::<Seq<char>>::empty());
        assert(join(xs, nl) == xs[0]);
        assert(Seq::<Seq<char>>::empty() + lines(xs.last()) =~= lines(xs.last()));
    } else {
        let d = xs.drop_last();
        assert forall|i: int| 0 <= i < d.len() implies no_newline(#[trigger] d[i]) by {
            assert(d[i] == xs[i]);
        }
        lemma_lines_of_join_ended(d);
        let a = join(d, nl) + nl;
        assert(join(xs, nl) =~= a + xs.last());
        lemma_lines_concat(a, xs.last(), 0);
    }
}

/// No line of a text holds a line break.
pub proof fn lemma_lines_have_no_newline(s: Seq<char>, from: int)
    ensures
        forall|k: int| 0 <= k < lines_from(s, from).len() ==> no_newline(#[trigger] lines_from(s, from)[k]),
    decreases s.len() - from,
{
    if 0 <= from < s.len() {
        lemma_find_from(s, seq!['\n'], from);
        match find_from(s, seq!['\n'], from) {
            None => {
                let x = s.subrange(from, s.len() as int);
                assert forall|k: int| 0 <= k < x.len() implies x[k] != '\n' by {
                    lemma_newline_match(s, from + k);
                }
            },
            Some(i) => {
                let x = s.subrange(from, i);
                assert forall|k: int| 0 <= k < x.len() implies x[k] != '\n' by {
                    lemma_newline_match(s, from + k);
                }
                assert forall|k: int| 0 <= k < strip_cr(x).len() implies strip_cr(x)[k] != '\n' by {
                    assert(strip_cr(x)[k] == x[k]);
                }
                lemma_lines_have_no_newline(s, i + 1);
                let r = lines_from(s, from);
                assert forall|k: int| 0 <= k < r.len() implies no_newline(#[trigger] r[k]) by {
                    if k > 0 {
                        assert(r[k] == lines_from(s, i + 1)[k - 1]);
                    }
                }
            },
        }
    }
}

proof fn lemma_skip_ws_push(x: Seq<char>, c: char, i: int)
    requires
        is_ws(c),
        0 <= i <= x.len(),
    ensures
        skip_ws(x, i) < x.len() ==> skip_ws(x.push(c), i) == skip_ws(x, i),
        skip_ws(x, i) >= x.len() ==> skip_ws(x.push(c), i) == x.len() + 1,
    decreases x.len() - i,
{
    let e = x.push(c);
    if i < x.len() {
        assert(e[i] == x[i]);
        if is_ws(x[i]) {
            lemma_skip_ws_push(x, c, i + 1);
        }
    } else {
        assert(e[i] == c);
        assert(skip_ws(e, i + 1) == i + 1);
    }
}

proof fn lemma_back_ws_push(y: Seq<char>, c: char, j: int)
    requires
        0 <= j <= y.len(),
    ensures
        back_ws(y.push(c), j) == back_ws(y, j),
    decreases j,
{
    if j > 0 {
        assert(y.push(c)[j - 1] == y[j - 1]);
        lemma_back_ws_push(y, c, j - 1);
    }
}

/// Trailing whitespace added to a text trims away.
pub proof fn lemma_trim_push_ws(x: Seq<char>, c: char)
    requires
        is_ws(c),
    ensures
        trim(x.push(c)) == trim(x),
{
    let e = x.push(c);
    lemma_skip_ws_push(x, c, 0);
    lemma_skip_ws_bounds(x, 0);
    let a = skip_ws(x, 0);
    if a < x.len() {
        let y = x.skip(a);
        assert(e.skip(a) =~= y.push(c));
        assert(y.push(c)[y.len() as int] == c);
        assert(back_ws(y.push(c), (y.len() + 1) as int) == back_ws(y.push(c), y.len() as int));
        lemma_back_ws_push(y, c, y.len() as int);
        lemma_back_ws_bounds(y, y.len() as int);
        assert(y.push(c).take(back_ws(y, y.len() as int)) =~= y.take(back_ws(y, y.len() as int)));
    } else {
        assert(e.skip((x.len() + 1) as int) =~= Seq::<char>::empty());
        assert(x.skip(x.len() as int) =~= Seq::<char>::empty());
    }
}

/// Dropping a line's carriage return does not change what it trims to.
pub proof fn lemma_trim_strip_cr(l: Seq<char>)
    ensures
        trim(strip_cr(l)) == trim(l),
{
    if l.len() > 0 && l.last() == '\r' {
        assert(l.drop_last().push('\r') =~= l);
        lemma_trim_push_ws(l.drop_last(), '\r');
    }
}

/// A space in front of a trimmed text trims away.
pub proof fn lemma_trim_lead_space(t: Seq<char>)
    requires
        trimmed_shape(t),
    ensures
        trim(seq![' '] + t) == t,
{
    let x = seq![' '] + t;
    assert(x[0] == ' ');
    assert(x[1] == t[0]);
    assert(skip_ws(x, 1) == 1);
    assert(skip_ws(x, 0) == 1);
    let y = x.skip(1);
    assert(y =~= t);
    assert(back_ws(y, y.len() as int) == y.len());
    assert(y.take(y.len() as int) =~= t);
}


/// Reading whitespace-free characters extends the word in progress.
pub proof fn lemma_words_fold_extend(s: Seq<char>, w: Seq<char>)
    requires
        no_ws(w),
    ensures
        words_fold(s + w) == (words_fold(s).0, words_fold(s).1 + w),
    decreases w.len(),
{
    if w.len() == 0 {
        assert(s + w =~= s);
        assert(words_fold(s).1 + w =~= words_fold(s).1);
    } else {
        let d = w.drop_last();
        assert(no_ws(d)) by {
            assert forall|i: int| 0 <= i < d.len() implies !is_ws(#[trigger] d[i]) by {
                assert(d[i] == w[i]);
            }
        }
        lemma_words_fold_extend(s, d);
        assert((s + w).drop_last() =~= s + d);
        assert((s + w).last() == w.last());
        assert(!is_ws(w[w.len() - 1]));
        assert(words_fold(s).1 + d + seq![w.last()] =~= words_fold(s).1 + w);
        assert((words_fold(s).1 + d).push(w.last()) =~= words_fold(s).1 + w);
    }
}

/// A word on its own, or after a text and a space, adds exactly that word.
pub proof fn lemma_words_then_word(cur: Seq<char>, w: Seq<char>)
    requires
        w.len() > 0,
        no_ws(w),
    ensures
        words(w) == seq![w],
        words(cur + seq![' '] + w) == words(cur).push(w),
{
    lemma_words_fold_extend(Seq::empty(), w);
    assert(Seq::<char>::empty() + w =~= w);
    assert(Seq::<char>::empty() + w =~= w);
    assert(words_fold(Seq::<char>::empty()).0 =~= Seq::<Seq<char>>::empty());
    assert(Seq::<Seq<char>>::empty().push(w) =~= seq![w]);
    let c = cur.push(' ');
    assert(c.drop_last() =~= cur);
    lemma_words_fold_extend(c, w);
    assert(cur + seq![' '] + w =~= c + w);
    assert(words_fold(c).1 =~= Seq::<char>::empty());
    assert(Seq::<char>::empty() + w =~= w);
}

} // verus!
