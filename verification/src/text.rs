//! Character-level text helpers used by every other module.
//!
//! Strings are modelled by their `Seq<char>` view. Searching, trimming and splitting are defined
//! here once as spec functions, with executable counterparts proved against them.
use vstd::prelude::*;
use vstd::string::*;

verus! {

broadcast use vstd::string::group_string_axioms;

// ------------------------------------------------------------------ spec vocabulary

/// Unicode `White_Space`, the set `char::is_whitespace` (and so `str::trim`) tests against.
pub open spec fn is_ws(c: char) -> bool {
    let n = c as u32;
    ||| 9 <= n <= 13
    ||| n == 32
    ||| n == 0x85
    ||| n == 0xA0
    ||| n == 0x1680
    ||| 0x2000 <= n <= 0x200A
    ||| n == 0x2028
    ||| n == 0x2029
    ||| n == 0x202F
    ||| n == 0x205F
    ||| n == 0x3000
}

/// `s` without its leading whitespace.
pub open spec fn trim_start(s: Seq<char>) -> Seq<char>
    decreases s.len(),
{
    if s.len() > 0 && is_ws(s[0]) {
        trim_start(s.drop_first())
    } else {
        s
    }
}

/// `s` without its trailing whitespace.
pub open spec fn trim_end(s: Seq<char>) -> Seq<char>
    decreases s.len(),
{
    if s.len() > 0 && is_ws(s.last()) {
        trim_end(s.drop_last())
    } else {
        s
    }
}

/// `s` without leading or trailing whitespace.
pub open spec fn trim(s: Seq<char>) -> Seq<char> {
    trim_end(trim_start(s))
}

/// The view of an optional string slice.
pub open spec fn opt_str(o: Option<&str>) -> Option<Seq<char>> {
    match o {
        Some(s) => Some(s@),
        None => None,
    }
}

/// The view of an optional string.
pub open spec fn opt_string(o: Option<String>) -> Option<Seq<char>> {
    match o {
        Some(s) => Some(s@),
        None => None,
    }
}

/// `p` occurs in `s` starting at index `i`.
pub open spec fn occurs_at(s: Seq<char>, p: Seq<char>, i: int) -> bool {
    0 <= i && i + p.len() <= s.len() && s.subrange(i, i + p.len()) == p
}

/// The first index at or after `i` where `p` occurs in `s`, or -1.
pub open spec fn find_from(s: Seq<char>, p: Seq<char>, i: int) -> int
    decreases s.len() + 1 - i,
{
    if i < 0 || i + p.len() > s.len() {
        -1
    } else if s.subrange(i, i + p.len()) == p {
        i
    } else {
        find_from(s, p, i + 1)
    }
}

/// The first index where `p` occurs in `s`, or -1.
pub open spec fn find(s: Seq<char>, p: Seq<char>) -> int {
    find_from(s, p, 0)
}

/// `s` contains `p`.
pub open spec fn contains(s: Seq<char>, p: Seq<char>) -> bool {
    find(s, p) >= 0
}

/// The last index at or before `i` where `p` occurs in `s`, or -1.
pub open spec fn rfind_from(s: Seq<char>, p: Seq<char>, i: int) -> int
    decreases i + 1,
{
    if i < 0 {
        -1
    } else if i + p.len() <= s.len() && s.subrange(i, i + p.len()) == p {
        i
    } else {
        rfind_from(s, p, i - 1)
    }
}

/// The last index where `p` occurs in `s`, or -1.
pub open spec fn rfind(s: Seq<char>, p: Seq<char>) -> int {
    rfind_from(s, p, s.len() - p.len())
}

/// `s` starts with `p`.
pub open spec fn starts_with(s: Seq<char>, p: Seq<char>) -> bool {
    p.len() <= s.len() && s.take(p.len() as int) == p
}

/// `s` ends with `p`.
pub open spec fn ends_with(s: Seq<char>, p: Seq<char>) -> bool {
    p.len() <= s.len() && s.skip(s.len() - p.len()) == p
}

/// The pieces of `s` between occurrences of the character `c`, as `str::split(c)` yields them.
pub open spec fn split_char(s: Seq<char>, c: char) -> Seq<Seq<char>>
    decreases s.len(),
{
    let k = find(s, seq![c]);
    if k < 0 {
        seq![s]
    } else {
        proof {
            lemma_find_range(s, seq![c], 0);
        }
        seq![s.take(k)] + split_char(s.skip(k + 1), c)
    }
}

/// The part of `s` before the first occurrence of `p`, or all of `s` when `p` does not occur
/// (`split_once(p).0`, falling back to `s`).
pub open spec fn head_before(s: Seq<char>, p: Seq<char>) -> Seq<char> {
    if find(s, p) >= 0 {
        s.take(find(s, p))
    } else {
        s
    }
}

/// The part of `s` after the last occurrence of `p`, or all of `s` when `p` does not occur
/// (`rsplit_once(p).1`, falling back to `s`).
pub open spec fn tail_after_last(s: Seq<char>, p: Seq<char>) -> Seq<char> {
    if rfind(s, p) >= 0 {
        s.skip(rfind(s, p) + p.len())
    } else {
        s
    }
}

/// `s` with every trailing repetition of `suf` removed (`str::trim_end_matches`).
pub open spec fn strip_suffix_all(s: Seq<char>, suf: Seq<char>) -> Seq<char>
    decreases s.len(),
{
    if suf.len() > 0 && ends_with(s, suf) {
        strip_suffix_all(s.take(s.len() - suf.len()), suf)
    } else {
        s
    }
}

/// `s` with every leading repetition of `pre` removed (`str::trim_start_matches`).
pub open spec fn strip_prefix_all(s: Seq<char>, pre: Seq<char>) -> Seq<char>
    decreases s.len(),
{
    if pre.len() > 0 && starts_with(s, pre) {
        strip_prefix_all(s.skip(pre.len() as int), pre)
    } else {
        s
    }
}

/// ASCII upper-case letters mapped to lower case, every other character kept.
pub open spec fn ascii_lower_char(c: char) -> char {
    if 'A' <= c && c <= 'Z' {
        ((c as u32) + 32) as char
    } else {
        c
    }
}

/// `s` with ASCII letters lowered, as `str::to_ascii_lowercase` does.
pub open spec fn ascii_lower(s: Seq<char>) -> Seq<char> {
    s.map_values(|c: char| ascii_lower_char(c))
}

/// Every character of `s` is ASCII.
pub open spec fn all_ascii(s: Seq<char>) -> bool {
    forall|i: int| 0 <= i < s.len() ==> (s[i] as u32) < 128
}

/// `s` as `str::to_lowercase` returns it (full Unicode case mapping; on ASCII text, only the
/// letters `A` to `Z` change, to `a` to `z`).
pub uninterp spec fn lower(s: Seq<char>) -> Seq<char>;

/// `s` as `str::to_uppercase` returns it (full Unicode case mapping).
pub uninterp spec fn upper(s: Seq<char>) -> Seq<char>;

// ------------------------------------------------------------------ lemmas

pub proof fn lemma_find_range(s: Seq<char>, p: Seq<char>, i: int)
    requires
        0 <= i,
    ensures
        find_from(s, p, i) == -1 || (i <= find_from(s, p, i) && occurs_at(s, p, find_from(s, p, i))),
        find_from(s, p, i) >= 0 ==> forall|j: int| i <= j < find_from(s, p, i) ==> !occurs_at(s, p, j),
        find_from(s, p, i) == -1 ==> forall|j: int| i <= j ==> !occurs_at(s, p, j),
    decreases s.len() + 1 - i,
{
    if i + p.len() > s.len() {
    } else if s.subrange(i, i + p.len()) == p {
    } else {
        lemma_find_range(s, p, i + 1);
    }
}

pub proof fn lemma_rfind_range(s: Seq<char>, p: Seq<char>, i: int)
    ensures
        rfind_from(s, p, i) == -1 || (rfind_from(s, p, i) <= i && occurs_at(s, p, rfind_from(s, p, i))),
        forall|j: int| rfind_from(s, p, i) < j <= i ==> !occurs_at(s, p, j),
    decreases i + 1,
{
    if i < 0 {
    } else if i + p.len() <= s.len() && s.subrange(i, i + p.len()) == p {
    } else {
        lemma_rfind_range(s, p, i - 1);
    }
}

/// A whitespace character at the front of the unexamined part does not change `trim_start`.
proof fn lemma_trim_start_step(s: Seq<char>, k: int)
    requires
        0 <= k < s.len(),
        is_ws(s[k]),
    ensures
        trim_start(s.skip(k)) == trim_start(s.skip(k + 1)),
{
    assert(s.skip(k).drop_first() =~= s.skip(k + 1));
}

proof fn lemma_trim_end_step(s: Seq<char>, k: int)
    requires
        0 < k <= s.len(),
        is_ws(s[k - 1]),
    ensures
        trim_end(s.take(k)) == trim_end(s.take(k - 1)),
{
    assert(s.take(k).drop_last() =~= s.take(k - 1));
}

// ------------------------------------------------------------------ executable helpers

/// A copy of an optional string.
pub fn clone_opt(o: &Option<String>) -> (r: Option<String>)
    ensures
        opt_string(r) == opt_string(*o),
{
    match o {
        Some(s) => Some(s.clone()),
        None => None,
    }
}

/// The characters of `s`, in order.
pub fn chars_of(s: &str) -> (v: Vec<char>)
    ensures
        v@ == s@,
{
    let mut v: Vec<char> = Vec::new();
    for c in it: s.chars()
        invariant
            v@ == it.seq().take(it.index() as int),
    {
        v.push(c);
    }
    v
}

/// Appends one character to a string: `String::push`.
#[verifier::external_body]
fn push_char(s: &mut String, c: char)
    ensures
        final(s)@ == old(s)@.push(c),
{
    s.push(c);
}

/// Appends `tail` to `s`.
pub fn push_chars(s: &mut String, tail: &[char])
    ensures
        final(s)@ == old(s)@ + tail@,
{
    let mut i: usize = 0;
    while i < tail.len()
        invariant
            i <= tail@.len(),
            s@ == old(s)@ + tail@.take(i as int),
        decreases tail@.len() - i,
    {
        push_char(s, tail[i]);
        assert(tail@.take(i + 1) =~= tail@.take(i as int).push(tail@[i as int]));
        i = i + 1;
    }
    assert(tail@.take(tail@.len() as int) =~= tail@);
}

/// A string made of `cs`, in order.
pub fn string_of(cs: &[char]) -> (s: String)
    ensures
        s@ == cs@,
{
    let mut s = String::new();
    push_chars(&mut s, cs);
    s
}

/// `a` followed by `b`.
pub fn concat(a: &str, b: &str) -> (r: String)
    ensures
        r@ == a@ + b@,
{
    let mut s = a.to_owned();
    s.append(b);
    s
}

/// `c` is whitespace (`char::is_whitespace`).
pub fn is_whitespace(c: char) -> (b: bool)
    ensures
        b == is_ws(c),
{
    let n = c as u32;
    (9 <= n && n <= 13) || n == 32 || n == 0x85 || n == 0xA0 || n == 0x1680 || (0x2000 <= n && n
        <= 0x200A) || n == 0x2028 || n == 0x2029 || n == 0x202F || n == 0x205F || n == 0x3000
}

/// `c` with an ASCII upper-case letter lowered.
pub fn ascii_lower_of(c: char) -> (r: char)
    ensures
        r == ascii_lower_char(c),
{
    if 'A' <= c && c <= 'Z' {
        let n = (c as u32) + 32;
        assert(n < 0xD800);
        char_from_ascii(n)
    } else {
        c
    }
}

/// The character with code point `n`, for `n` below the surrogate range.
#[verifier::external_body]
pub fn char_from_ascii(n: u32) -> (c: char)
    requires
        n < 0xD800,
    ensures
        c == n as char,
{
    char::from_u32(n).unwrap()
}

/// `s` lowered as `str::to_lowercase` does: on ASCII text, that is lowering `A` to `Z` alone.
#[verifier::external_body]
pub fn to_lower(s: &str) -> (r: String)
    ensures
        r@ == lower(s@),
        all_ascii(s@) ==> r@ == ascii_lower(s@),
{
    s.to_lowercase()
}

/// `s` raised as `str::to_uppercase` does.
#[verifier::external_body]
pub fn to_upper(s: &str) -> (r: String)
    ensures
        r@ == upper(s@),
{
    s.to_uppercase()
}

/// `s` with ASCII letters lowered.
pub fn to_ascii_lower(s: &[char]) -> (r: Vec<char>)
    ensures
        r@ == ascii_lower(s@),
{
    let mut r: Vec<char> = Vec::new();
    let mut i: usize = 0;
    while i < s.len()
        invariant
            i <= s@.len(),
            r@ == ascii_lower(s@.take(i as int)),
        decreases s@.len() - i,
    {
        r.push(ascii_lower_of(s[i]));
        assert(ascii_lower(s@.take(i + 1)) =~= ascii_lower(s@.take(i as int)).push(
            ascii_lower_char(s@[i as int]),
        ));
        i = i + 1;
    }
    assert(s@.take(s@.len() as int) =~= s@);
    r
}

/// The two sequences hold the same characters.
pub fn chars_eq(a: &[char], b: &[char]) -> (r: bool)
    ensures
        r == (a@ == b@),
{
    if a.len() != b.len() {
        return false;
    }
    let mut i: usize = 0;
    while i < a.len()
        invariant
            a@.len() == b@.len(),
            i <= a@.len(),
            forall|j: int| 0 <= j < i ==> a@[j] == b@[j],
        decreases a@.len() - i,
    {
        if a[i] != b[i] {
            return false;
        }
        i = i + 1;
    }
    assert(a@ =~= b@);
    true
}

/// The two strings are equal.
pub fn eq_str(a: &str, b: &str) -> (r: bool)
    ensures
        r == (a@ == b@),
{
    let x = chars_of(a);
    let y = chars_of(b);
    chars_eq(x.as_slice(), y.as_slice())
}

/// `p` occurs in `s` at index `i`.
pub fn matches_at(s: &[char], p: &[char], i: usize) -> (r: bool)
    ensures
        r == (i + p@.len() <= s@.len() && s@.subrange(i as int, i + p@.len()) == p@),
{
    if i > s.len() || p.len() > s.len() - i {
        return false;
    }
    let mut j: usize = 0;
    while j < p.len()
        invariant
            i + p.len() <= s.len(),
            j <= p@.len(),
            forall|k: int| 0 <= k < j ==> s@[i + k] == p@[k],
        decreases p@.len() - j,
    {
        assert(i + j < s@.len());
        if s[i + j] != p[j] {
            assert(s@.subrange(i as int, i + p@.len())[j as int] != p@[j as int]);
            return false;
        }
        j = j + 1;
    }
    assert(s@.subrange(i as int, i + p@.len()) =~= p@);
    true
}

/// The first index at or after `from` where `p` occurs in `s`.
pub fn find_at(s: &[char], p: &[char], from: usize) -> (r: Option<usize>)
    ensures
        match r {
            Some(k) => k as int == find_from(s@, p@, from as int),
            None => find_from(s@, p@, from as int) == -1,
        },
{
    let mut i = from;
    while i <= s.len() && p.len() <= s.len() - i
        invariant
            find_from(s@, p@, from as int) == find_from(s@, p@, i as int),
            from <= i,
        decreases s@.len() + 1 - i,
    {
        if matches_at(s, p, i) {
            return Some(i);
        }
        if i == s.len() {
            assert(s@.subrange(i as int, i as int) =~= p@);
        }
        i = i + 1;
    }
    None
}

/// The first index where `p` occurs in `s`.
pub fn find_chars(s: &[char], p: &[char]) -> (r: Option<usize>)
    ensures
        match r {
            Some(k) => k as int == find(s@, p@),
            None => find(s@, p@) == -1,
        },
{
    find_at(s, p, 0)
}

/// The last index where `p` occurs in `s`.
pub fn rfind_chars(s: &[char], p: &[char]) -> (r: Option<usize>)
    ensures
        match r {
            Some(k) => k as int == rfind(s@, p@),
            None => rfind(s@, p@) == -1,
        },
{
    if p.len() > s.len() {
        return None;
    }
    let mut i: usize = s.len() - p.len();
    loop
        invariant
            i + p@.len() <= s@.len(),
            rfind(s@, p@) == rfind_from(s@, p@, i as int),
        decreases i,
    {
        if matches_at(s, p, i) {
            return Some(i);
        }
        if i == 0 {
            assert(rfind_from(s@, p@, -1) == -1);
            return None;
        }
        i = i - 1;
    }
}

/// `s` contains `p`.
pub fn contains_chars(s: &[char], p: &[char]) -> (r: bool)
    ensures
        r == contains(s@, p@),
{
    find_chars(s, p).is_some()
}

/// `s` starts with `p`.
pub fn starts_with_chars(s: &[char], p: &[char]) -> (r: bool)
    ensures
        r == starts_with(s@, p@),
{
    let r = matches_at(s, p, 0);
    proof {
        if p@.len() <= s@.len() {
            assert(s@.subrange(0, p@.len() as int) =~= s@.take(p@.len() as int));
        }
    }
    r
}

/// `s` ends with `p`.
pub fn ends_with_chars(s: &[char], p: &[char]) -> (r: bool)
    ensures
        r == ends_with(s@, p@),
{
    if p.len() > s.len() {
        return false;
    }
    let r = matches_at(s, p, s.len() - p.len());
    assert(s@.subrange(s@.len() - p@.len(), s@.len() as int) =~= s@.skip(s@.len() - p@.len()));
    r
}

/// `s` contains `p`.
pub fn str_contains(s: &str, p: &str) -> (r: bool)
    ensures
        r == contains(s@, p@),
{
    let a = chars_of(s);
    let b = chars_of(p);
    contains_chars(a.as_slice(), b.as_slice())
}

/// `s` starts with `p`.
pub fn str_starts_with(s: &str, p: &str) -> (r: bool)
    ensures
        r == starts_with(s@, p@),
{
    let a = chars_of(s);
    let b = chars_of(p);
    starts_with_chars(a.as_slice(), b.as_slice())
}

/// `s` ends with `p`.
pub fn str_ends_with(s: &str, p: &str) -> (r: bool)
    ensures
        r == ends_with(s@, p@),
{
    let a = chars_of(s);
    let b = chars_of(p);
    ends_with_chars(a.as_slice(), b.as_slice())
}

/// The bounds of `s` with surrounding whitespace removed.
pub fn trim_bounds(s: &[char]) -> (r: (usize, usize))
    ensures
        r.0 <= r.1 <= s@.len(),
        s@.subrange(r.0 as int, r.1 as int) == trim(s@),
{
    let mut lo: usize = 0;
    assert(s@.skip(0) =~= s@);
    while lo < s.len() && is_whitespace(s[lo])
        invariant
            lo <= s@.len(),
            trim_start(s@) == trim_start(s@.skip(lo as int)),
        decreases s@.len() - lo,
    {
        proof {
            lemma_trim_start_step(s@, lo as int);
        }
        lo = lo + 1;
    }
    let ghost t = s@.skip(lo as int);
    assert(trim_start(s@) == t) by {
        if t.len() > 0 {
            assert(t[0] == s@[lo as int]);
        }
    }
    let mut hi: usize = s.len();
    assert(t.take(t.len() as int) =~= t);
    while hi > lo && is_whitespace(s[hi - 1])
        invariant
            lo <= hi <= s@.len(),
            t == s@.skip(lo as int),
            trim_end(t) == trim_end(t.take(hi - lo)),
        decreases hi,
    {
        proof {
            assert(t[hi - lo - 1] == s@[hi - 1]);
            lemma_trim_end_step(t, (hi - lo) as int);
        }
        hi = hi - 1;
    }
    assert(trim_end(t.take(hi - lo)) == t.take(hi - lo)) by {
        if hi > lo {
            assert(t.take(hi - lo).last() == s@[hi - 1]);
        }
    }
    assert(s@.subrange(lo as int, hi as int) =~= t.take(hi - lo));
    (lo, hi)
}

/// `s` with surrounding whitespace removed (`str::trim`).
pub fn trim_str(s: &str) -> (r: &str)
    ensures
        r@ == trim(s@),
{
    let cs = chars_of(s);
    let (lo, hi) = trim_bounds(cs.as_slice());
    s.substring_char(lo, hi)
}

/// The pieces of `s` between occurrences of `c` (`str::split`).
pub fn split_chars(s: &[char], c: char) -> (r: Vec<Vec<char>>)
    ensures
        r.deep_view() == split_char(s@, c),
{
    let sep = vec![c];
    let mut out: Vec<Vec<char>> = Vec::new();
    let mut start: usize = 0;
    assert(s@.skip(0) =~= s@);
    assert(out.deep_view() + split_char(s@, c) =~= split_char(s@, c));
    loop
        invariant
            start <= s@.len(),
            sep@ == seq![c],
            split_char(s@, c) == out.deep_view() + split_char(s@.skip(start as int), c),
        decreases s@.len() - start,
    {
        let ghost rest = s@.skip(start as int);
        let ghost before = out.deep_view();
        proof {
            lemma_find_range(s@, seq![c], start as int);
            lemma_find_range(rest, seq![c], 0);
        }
        match find_at(s, sep.as_slice(), start) {
            None => {
                proof {
                    if find(rest, seq![c]) >= 0 {
                        let k = find(rest, seq![c]);
                        assert(rest.subrange(k, k + 1) =~= s@.subrange(start + k, start + k + 1));
                        assert(occurs_at(s@, seq![c], start + k));
                    }
                    assert(split_char(rest, c) == seq![rest]);
                }
                let piece = slice_to_vec_range(s, start, s.len());
                assert(piece@ =~= rest);
                assert(piece.deep_view() =~= rest);
                out.push(piece);
                assert(out.deep_view() =~= before.push(rest));
                assert(out.deep_view() =~= before + split_char(rest, c));
                return out;
            },
            Some(k) => {
                let ghost kk = (k - start) as int;
                proof {
                    assert(rest.subrange(kk, kk + 1) =~= s@.subrange(k as int, k + 1));
                    assert(occurs_at(rest, seq![c], kk));
                    if find(rest, seq![c]) != kk {
                        let f = find(rest, seq![c]);
                        if 0 <= f < kk {
                            assert(rest.subrange(f, f + 1) =~= s@.subrange(start + f, start + f + 1));
                            assert(occurs_at(s@, seq![c], start + f));
                        }
                    }
                    assert(find(rest, seq![c]) == kk);
                    assert(rest.skip(kk + 1) =~= s@.skip(k + 1));
                    assert(split_char(rest, c) == seq![rest.take(kk)] + split_char(rest.skip(kk + 1), c));
                }
                let piece = slice_to_vec_range(s, start, k);
                assert(piece@ =~= rest.take(kk));
                assert(piece.deep_view() =~= rest.take(kk));
                assert(k < s.len());
                out.push(piece);
                assert(out.deep_view() =~= before.push(rest.take(kk)));
                assert(before + split_char(rest, c) =~= out.deep_view() + split_char(s@.skip(k + 1), c));
                start = k + 1;
            },
        }
    }
}

/// The part of `s` before the first `p`, or all of `s`.
pub fn head_before_chars(s: &[char], p: &[char]) -> (r: Vec<char>)
    ensures
        r@ == head_before(s@, p@),
{
    match find_chars(s, p) {
        Some(k) => {
            proof {
                lemma_find_range(s@, p@, 0);
            }
            let r = slice_to_vec_range(s, 0, k);
            assert(r@ =~= s@.take(k as int));
            r
        },
        None => slice_to_vec_range(s, 0, s.len()),
    }
}

/// The part of `s` after the last `p`, or all of `s`.
pub fn tail_after_last_chars(s: &[char], p: &[char]) -> (r: Vec<char>)
    ensures
        r@ == tail_after_last(s@, p@),
{
    match rfind_chars(s, p) {
        Some(k) => {
            proof {
                lemma_rfind_range(s@, p@, s@.len() - p@.len());
                assert(occurs_at(s@, p@, k as int));
            }
            assert(k + p.len() <= s.len());
            let r = slice_to_vec_range(s, k + p.len(), s.len());
            assert(r@ =~= s@.skip(k + p@.len()));
            r
        },
        None => {
            let r = slice_to_vec_range(s, 0, s.len());
            assert(r@ =~= s@);
            r
        },
    }
}

/// `s` with every trailing repetition of `suf` removed.
pub fn strip_suffix_all_chars(s: Vec<char>, suf: &[char]) -> (r: Vec<char>)
    ensures
        r@ == strip_suffix_all(s@, suf@),
{
    let mut s = s;
    let ghost orig = s@;
    while suf.len() > 0 && ends_with_chars(s.as_slice(), suf)
        invariant
            strip_suffix_all(orig, suf@) == strip_suffix_all(s@, suf@),
        decreases s@.len(),
    {
        let n = s.len() - suf.len();
        s.truncate(n);
    }
    s
}

/// `s` with every leading repetition of `pre` removed.
pub fn strip_prefix_all_chars(s: &[char], pre: &[char]) -> (r: Vec<char>)
    ensures
        r@ == strip_prefix_all(s@, pre@),
{
    let mut i: usize = 0;
    assert(s@.skip(0) =~= s@);
    while pre.len() > 0 && i <= s.len() && matches_at(s, pre, i)
        invariant
            i <= s@.len(),
            strip_prefix_all(s@, pre@) == strip_prefix_all(s@.skip(i as int), pre@),
        decreases s@.len() - i,
    {
        assert(s@.skip(i as int).take(pre@.len() as int) =~= s@.subrange(i as int, i + pre@.len()));
        assert(s@.skip(i as int).skip(pre@.len() as int) =~= s@.skip(i + pre@.len()));
        i = i + pre.len();
    }
    proof {
        if pre@.len() > 0 && starts_with(s@.skip(i as int), pre@) {
            assert(s@.skip(i as int).take(pre@.len() as int) =~= s@.subrange(i as int, i + pre@.len()));
        }
    }
    let r = slice_to_vec_range(s, i, s.len());
    assert(r@ =~= s@.skip(i as int));
    r
}

/// The characters of `s` in `[from, to)`.
pub fn slice_to_vec_range(s: &[char], from: usize, to: usize) -> (r: Vec<char>)
    requires
        from <= to <= s@.len(),
    ensures
        r@ == s@.subrange(from as int, to as int),
{
    let mut r: Vec<char> = Vec::new();
    let mut i = from;
    while i < to
        invariant
            from <= i <= to,
            to <= s@.len(),
            r@ == s@.subrange(from as int, i as int),
        decreases to - i,
    {
        r.push(s[i]);
        assert(s@.subrange(from as int, i + 1) =~= s@.subrange(from as int, i as int).push(
            s@[i as int],
        ));
        i = i + 1;
    }
    r
}

/// The digit character for `d` (below ten).
pub open spec fn digit_char(d: nat) -> char {
    ((48 + d) as u32) as char
}

/// The decimal digits of `n`, most significant first, with no leading zeros.
pub open spec fn decimal(n: nat) -> Seq<char>
    decreases n,
{
    if n < 10 {
        seq![digit_char(n)]
    } else {
        decimal(n / 10).push(digit_char(n % 10))
    }
}

/// `n` written in decimal.
pub fn decimal_string(n: u64) -> (r: String)
    ensures
        r@ == decimal(n as nat),
    decreases n,
{
    let d = (n % 10) as u32;
    let c = char_from_ascii(48 + d);
    if n < 10 {
        let mut s = String::new();
        push_char(&mut s, c);
        assert(s@ =~= seq![c]);
        s
    } else {
        let mut s = decimal_string(n / 10);
        push_char(&mut s, c);
        s
    }
}

/// `s` without its trailing whitespace (`str::trim_end`).
pub fn trim_end_chars(s: &[char]) -> (r: Vec<char>)
    ensures
        r@ == trim_end(s@),
{
    let mut hi: usize = s.len();
    assert(s@.take(s@.len() as int) =~= s@);
    while hi > 0 && is_whitespace(s[hi - 1])
        invariant
            hi <= s@.len(),
            trim_end(s@) == trim_end(s@.take(hi as int)),
        decreases hi,
    {
        proof {
            lemma_trim_end_step(s@, hi as int);
        }
        hi = hi - 1;
    }
    assert(trim_end(s@.take(hi as int)) == s@.take(hi as int)) by {
        if hi > 0 {
            assert(s@.take(hi as int).last() == s@[hi - 1]);
        }
    }
    slice_to_vec_range(s, 0, hi)
}


/// `s` with the first occurrence of `from` replaced by `to` (`str::replacen(from, to, 1)`).
pub open spec fn replace_once(s: Seq<char>, from: Seq<char>, to: Seq<char>) -> Seq<char> {
    let k = find(s, from);
    if k < 0 {
        s
    } else {
        s.take(k) + to + s.skip(k + from.len())
    }
}

/// `str::replacen(from, to, 1)`.
pub fn replace_once_str(s: &str, from: &str, to: &str) -> (r: String)
    ensures
        r@ == replace_once(s@, from@, to@),
{
    let cs = chars_of(s);
    let fs = chars_of(from);
    match find_chars(cs.as_slice(), fs.as_slice()) {
        None => s.to_owned(),
        Some(k) => {
            proof {
                lemma_find_range(cs@, fs@, 0);
            }
            let n = cs.len();
            assert(k + fs@.len() <= n);
            let head = slice_to_vec_range(cs.as_slice(), 0, k);
            let tail = slice_to_vec_range(cs.as_slice(), k + fs.len(), n);
            let mut out = string_of(head.as_slice());
            out.append(to);
            push_chars(&mut out, tail.as_slice());
            assert(head@ =~= s@.take(k as int));
            assert(tail@ =~= s@.skip(k + from@.len()));
            out
        },
    }
}

/// Whether one of `list` is `s`.
pub fn contains_str(list: &Vec<&str>, s: &str) -> (r: bool)
    ensures
        r == exists|i: int| 0 <= i < list@.len() && (#[trigger] list@[i])@ == s@,
{
    let mut i: usize = 0;
    while i < list.len()
        invariant
            i <= list@.len(),
            forall|j: int| 0 <= j < i ==> (#[trigger] list@[j])@ != s@,
        decreases list@.len() - i,
    {
        if eq_str(list[i], s) {
            return true;
        }
        i = i + 1;
    }
    false
}


/// Whether `s` is one of the texts in `v`.
pub fn contains_text(v: &Vec<String>, s: &str) -> (r: bool)
    ensures
        r == v.deep_view().contains(s@),
{
    let mut i: usize = 0;
    while i < v.len()
        invariant
            i <= v@.len(),
            forall|k: int| 0 <= k < i ==> v.deep_view()[k] != s@,
        decreases v@.len() - i,
    {
        if eq_str(v[i].as_str(), s) {
            assert(v.deep_view()[i as int] == s@);
            return true;
        }
        i = i + 1;
    }
    false
}


// ------------------------------------------------------------------ integers

/// A decimal digit.
pub open spec fn is_digit(c: char) -> bool {
    '0' <= c && c <= '9'
}

/// Every character is a decimal digit.
pub open spec fn all_digits(s: Seq<char>) -> bool {
    forall|i: int| 0 <= i < s.len() ==> is_digit(#[trigger] s[i])
}

/// The number decimal digits stand for.
pub open spec fn digits_value(s: Seq<char>) -> int
    decreases s.len(),
{
    if s.len() == 0 {
        0
    } else {
        10 * digits_value(s.drop_last()) + ((s.last() as u32) - 48)
    }
}

/// `str::parse::<i64>`: an optional `+` or `-`, then one or more decimal digits, nothing else,
/// within `i64`'s range.
pub open spec fn spec_parse_i64(s: Seq<char>) -> Option<i64> {
    let signed = s.len() > 0 && (s[0] == '-' || s[0] == '+');
    let body = if signed { s.skip(1) } else { s };
    if body.len() == 0 || !all_digits(body) {
        None
    } else {
        let v = if s[0] == '-' { -digits_value(body) } else { digits_value(body) };
        if i64::MIN <= v <= i64::MAX {
            Some(v as i64)
        } else {
            None
        }
    }
}

proof fn lemma_digits_grow(s: Seq<char>, k: int)
    requires
        0 <= k <= s.len(),
        all_digits(s),
    ensures
        0 <= digits_value(s.take(k)) <= digits_value(s),
    decreases s.len() - k,
{
    if k < s.len() {
        lemma_digits_grow(s, k + 1);
        assert(s.take(k + 1).drop_last() =~= s.take(k));
        assert(is_digit(s[k]));
    } else {
        assert(s.take(k) =~= s);
        lemma_digits_nonneg(s);
    }
}

/// The number some decimal digits stand for is not negative.
pub proof fn lemma_digits_nonneg(s: Seq<char>)
    requires
        all_digits(s),
    ensures
        digits_value(s) >= 0,
    decreases s.len(),
{
    if s.len() > 0 {
        assert(is_digit(s[s.len() - 1]));
        lemma_digits_nonneg(s.drop_last());
    }
}

/// A text read as an `i64` the way `str::parse` reads it.
pub fn parse_i64(s: &str) -> (r: Option<i64>)
    ensures
        r == spec_parse_i64(s@),
{
    let cs = chars_of(s);
    let n = cs.len();
    if n == 0 {
        return None;
    }
    let start: usize = if cs[0] == '-' || cs[0] == '+' { 1 } else { 0 };
    if start == n {
        return None;
    }
    let ghost body = cs@.skip(start as int);
    proof {
        if start == 0 {
            assert(body =~= s@);
        }
    }
    assert(body == (if s@.len() > 0 && (s@[0] == '-' || s@[0] == '+') { s@.skip(1) } else { s@ }));
    let mut acc: i128 = 0;
    let mut i = start;
    while i < n
        invariant
            start <= i <= n,
            n == cs@.len(),
            cs@ == s@,
            start < n,
            body == cs@.skip(start as int),
            body == (if s@.len() > 0 && (s@[0] == '-' || s@[0] == '+') { s@.skip(1) } else { s@ }),
            all_digits(body.take(i - start)),
            acc == digits_value(body.take(i - start)),
            0 <= acc <= 9223372036854775808,
        decreases n - i,
    {
        let c = cs[i];
        assert(body[i - start] == c);
        if !('0' <= c && c <= '9') {
            assert(!all_digits(body));
            return None;
        }
        let d = (c as u32) - 48;
        assert(body.take(i - start + 1).drop_last() =~= body.take(i - start));
        acc = acc * 10 + d as i128;
        assert(body.take(i - start + 1).last() == c);
        assert(acc == digits_value(body.take(i - start + 1)));
        assert(all_digits(body.take(i - start + 1))) by {
            assert forall|k: int| 0 <= k < body.take(i - start + 1).len() implies is_digit(
                #[trigger] body.take(i - start + 1)[k],
            ) by {
                if k < i - start {
                    assert(body.take(i - start + 1)[k] == body.take(i - start)[k]);
                }
            }
        }
        if acc > 9223372036854775808 {
            proof {
                if all_digits(body) {
                    lemma_digits_grow(body, i - start + 1);
                }
            }
            return None;
        }
        i = i + 1;
    }
    assert(body.take(n - start) =~= body);
    let v: i128 = if cs[0] == '-' { -acc } else { acc };
    if v > 9223372036854775807 || v < -9223372036854775808 {
        None
    } else {
        Some(v as i64)
    }
}

} // verus!
