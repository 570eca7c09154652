//! The files a skill's body points at. Only `SKILL.md` is ever loaded, so converting a
//! multi-file skill inlines the text files its body mentions: relative paths inside the skill's
//! folder, never the skill's own files or the files behind its declared commands.
use vstd::prelude::*;
use vstd::string::*;

use crate::text::{
    ascii_lower, chars_eq, chars_of, contains, contains_chars, matches_at, occurs_at,
    slice_to_vec_range, starts_with, starts_with_chars, string_of, strip_prefix_all,
    strip_prefix_all_chars, to_ascii_lower,
};

verus! {

broadcast use vstd::string::group_string_axioms;

/// The characters a referenced path is made of: ASCII letters and digits, `_`, `.`, `/`, `-`.
pub open spec fn in_path_class(c: char) -> bool {
    ('A' <= c && c <= 'Z') || ('a' <= c && c <= 'z') || ('0' <= c && c <= '9') || c == '_' || c == '.'
        || c == '/' || c == '-'
}

fn in_path_class_exec(c: char) -> (r: bool)
    ensures
        r == in_path_class(c),
{
    ('A' <= c && c <= 'Z') || ('a' <= c && c <= 'z') || ('0' <= c && c <= '9') || c == '_' || c == '.'
        || c == '/' || c == '-'
}

/// Where the run of path characters starting at `j` ends.
pub open spec fn run_end(s: Seq<char>, j: int) -> int
    decreases s.len() - j,
{
    if j < 0 || j >= s.len() || !in_path_class(s[j]) {
        j
    } else {
        run_end(s, j + 1)
    }
}

/// The length of the text-file extension starting at `k` (`md`, `txt`, `json`, `yaml`, `yml`,
/// `csv`), or 0.
pub open spec fn ext_len_at(s: Seq<char>, k: int) -> int {
    if occurs_at(s, "md"@, k) {
        2
    } else if occurs_at(s, "txt"@, k) {
        3
    } else if occurs_at(s, "json"@, k) {
        4
    } else if occurs_at(s, "yaml"@, k) {
        4
    } else if occurs_at(s, "yml"@, k) {
        3
    } else if occurs_at(s, "csv"@, k) {
        3
    } else {
        0
    }
}

/// The end of the longest path starting at `i` whose last dot, at `d` or before (and after `i`),
/// is followed by an extension.
pub open spec fn best_end(s: Seq<char>, i: int, d: int) -> int
    decreases d - i,
{
    if d <= i || d >= s.len() {
        -1
    } else if s[d] == '.' && ext_len_at(s, d + 1) > 0 {
        d + 1 + ext_len_at(s, d + 1)
    } else {
        best_end(s, i, d - 1)
    }
}

/// The end of the path mentioned at `i`, or -1: the greedy run of path characters from `i`, cut
/// back to the last dot that an extension follows.
pub open spec fn match_end(s: Seq<char>, i: int) -> int {
    if 0 <= i < s.len() && in_path_class(s[i]) {
        best_end(s, i, run_end(s, i) - 1)
    } else {
        -1
    }
}

/// The paths mentioned in `s` from `pos` on, left to right, none overlapping.
pub open spec fn path_mentions(s: Seq<char>, pos: int) -> Seq<Seq<char>>
    decreases s.len() - pos,
{
    if pos < 0 || pos >= s.len() {
        Seq::empty()
    } else {
        let e = match_end(s, pos);
        if pos < e <= s.len() {
            seq![s.subrange(pos, e)] + path_mentions(s, e)
        } else {
            path_mentions(s, pos + 1)
        }
    }
}

fn run_end_exec(s: &[char], j: usize) -> (r: usize)
    requires
        j <= s@.len(),
    ensures
        r as int == run_end(s@, j as int),
        j <= r <= s@.len(),
{
    let mut k = j;
    while k < s.len() && in_path_class_exec(s[k])
        invariant
            j <= k <= s@.len(),
            run_end(s@, j as int) == run_end(s@, k as int),
        decreases s@.len() - k,
    {
        k = k + 1;
    }
    k
}

fn ext_len_exec(s: &[char], k: usize) -> (r: usize)
    ensures
        r as int == ext_len_at(s@, k as int),
{
    proof {
        reveal_strlit("md");
        reveal_strlit("txt");
        reveal_strlit("json");
        reveal_strlit("yaml");
        reveal_strlit("yml");
        reveal_strlit("csv");
    }
    if matches_at(s, chars_of("md").as_slice(), k) {
        2
    } else if matches_at(s, chars_of("txt").as_slice(), k) {
        3
    } else if matches_at(s, chars_of("json").as_slice(), k) {
        4
    } else if matches_at(s, chars_of("yaml").as_slice(), k) {
        4
    } else if matches_at(s, chars_of("yml").as_slice(), k) {
        3
    } else if matches_at(s, chars_of("csv").as_slice(), k) {
        3
    } else {
        0
    }
}

fn match_end_exec(s: &[char], i: usize) -> (r: Option<usize>)
    requires
        i < s@.len(),
    ensures
        match r {
            Some(e) => e as int == match_end(s@, i as int) && i < e <= s@.len(),
            None => !(i < match_end(s@, i as int) <= s@.len()),
        },
{
    if !in_path_class_exec(s[i]) {
        return None;
    }
    let r = run_end_exec(s, i);
    if r <= i {
        return None;
    }
    let mut d: usize = r - 1;
    while d > i
        invariant
            i <= d < s@.len(),
            best_end(s@, i as int, run_end(s@, i as int) - 1) == best_end(s@, i as int, d as int),
        decreases d,
    {
        if s[d] == '.' {
            let x = ext_len_exec(s, d + 1);
            if x > 0 {
                proof {
                    reveal_strlit("md");
                    reveal_strlit("txt");
                    reveal_strlit("json");
                    reveal_strlit("yaml");
                    reveal_strlit("yml");
                    reveal_strlit("csv");
                }
                assert(d + 1 + x <= s@.len());
                return Some(d + 1 + x);
            }
        }
        d = d - 1;
    }
    None
}

/// The paths a text mentions.
fn path_mentions_exec(s: &[char]) -> (r: Vec<Vec<char>>)
    ensures
        r.deep_view() == path_mentions(s@, 0),
{
    let n = s.len();
    let mut out: Vec<Vec<char>> = Vec::new();
    let mut pos: usize = 0;
    while pos < n
        invariant
            pos <= n,
            n == s@.len(),
            out.deep_view() + path_mentions(s@, pos as int) == path_mentions(s@, 0),
        decreases n - pos,
    {
        let ghost before = out.deep_view();
        match match_end_exec(s, pos) {
            Some(e) => {
                let m = slice_to_vec_range(s, pos, e);
                assert(m.deep_view() =~= m@);
                out.push(m);
                proof {
                    assert(out.deep_view() =~= before.push(s@.subrange(pos as int, e as int)));
                    assert(before.push(s@.subrange(pos as int, e as int)) + path_mentions(s@, e as int)
                        =~= before + (seq![s@.subrange(pos as int, e as int)] + path_mentions(s@, e as int)));
                }
                pos = e;
            },
            None => {
                pos = pos + 1;
            },
        }
    }
    assert(out.deep_view() + path_mentions(s@, pos as int) =~= out.deep_view());
    out
}

/// A mention that may be inlined: no `..`, not absolute, not the skill's own `SKILL.md` or
/// `skill.json`, and not one of the command files (all compared without regard to ASCII case).
pub open spec fn is_candidate(rel: Seq<char>, exempt: Seq<Seq<char>>) -> bool {
    &&& !contains(rel, ".."@)
    &&& !starts_with(rel, "/"@)
    &&& ascii_lower(rel) != "skill.md"@
    &&& ascii_lower(rel) != "skill.json"@
    &&& forall|k: int| 0 <= k < exempt.len() ==> ascii_lower(#[trigger] exempt[k]) != ascii_lower(rel)
}

/// The mentions, each without leading `./`, that may be inlined, each once, in order of first
/// mention.
pub open spec fn candidates(ms: Seq<Seq<char>>, exempt: Seq<Seq<char>>) -> Seq<Seq<char>>
    decreases ms.len(),
{
    if ms.len() == 0 {
        Seq::empty()
    } else {
        let prev = candidates(ms.drop_last(), exempt);
        let rel = strip_prefix_all(ms.last(), "./"@);
        if is_candidate(rel, exempt) && !prev.contains(rel) {
            prev.push(rel)
        } else {
            prev
        }
    }
}

fn lower_eq(a: &[char], b: &[char]) -> (r: bool)
    ensures
        r == (ascii_lower(a@) == ascii_lower(b@)),
{
    let x = to_ascii_lower(a);
    let y = to_ascii_lower(b);
    chars_eq(x.as_slice(), y.as_slice())
}

fn is_candidate_exec(rel: &[char], exempt: &Vec<String>) -> (r: bool)
    ensures
        r == is_candidate(rel@, exempt.deep_view()),
{
    proof {
        reveal_strlit("..");
        reveal_strlit("/");
    }
    if contains_chars(rel, chars_of("..").as_slice()) || starts_with_chars(rel, chars_of("/").as_slice()) {
        return false;
    }
    if lower_eq(rel, chars_of("skill.md").as_slice()) || lower_eq(rel, chars_of("skill.json").as_slice()) {
        proof {
            reveal_strlit("skill.md");
            reveal_strlit("skill.json");
            assert(ascii_lower("skill.md"@) =~= "skill.md"@);
            assert(ascii_lower("skill.json"@) =~= "skill.json"@);
        }
        return false;
    }
    proof {
        reveal_strlit("skill.md");
        reveal_strlit("skill.json");
        assert(ascii_lower("skill.md"@) =~= "skill.md"@);
        assert(ascii_lower("skill.json"@) =~= "skill.json"@);
    }
    let mut k: usize = 0;
    while k < exempt.len()
        invariant
            k <= exempt@.len(),
            forall|j: int| 0 <= j < k ==> ascii_lower(#[trigger] exempt.deep_view()[j]) != ascii_lower(rel@),
        decreases exempt@.len() - k,
    {
        assert(exempt.deep_view()[k as int] == exempt@[k as int]@);
        if lower_eq(chars_of(exempt[k].as_str()).as_slice(), rel) {
            return false;
        }
        k = k + 1;
    }
    true
}

fn contains_vec(v: &Vec<Vec<char>>, x: &[char]) -> (r: bool)
    ensures
        r == v.deep_view().contains(x@),
{
    let mut i: usize = 0;
    while i < v.len()
        invariant
            i <= v@.len(),
            forall|k: int| 0 <= k < i ==> v.deep_view()[k] != x@,
        decreases v@.len() - i,
    {
        assert(v@[i as int].deep_view() =~= v@[i as int]@);
        if chars_eq(v[i].as_slice(), x) {
            assert(v.deep_view()[i as int] == x@);
            return true;
        }
        i = i + 1;
    }
    false
}

/// The files a skill's body may inline, before checking which exist: `exempt` holds the files
/// behind its declared commands, which load on demand and are never inlined.
pub fn referenced_candidates(body: &str, exempt: &Vec<String>) -> (r: Vec<String>)
    ensures
        r.deep_view() == candidates(path_mentions(body@, 0), exempt.deep_view()),
{
    let cs = chars_of(body);
    let ms = path_mentions_exec(cs.as_slice());
    let ghost mv = ms.deep_view();
    let dot_slash = chars_of("./");
    proof {
        reveal_strlit("./");
        assert(dot_slash@ =~= "./"@);
    }
    let mut seen: Vec<Vec<char>> = Vec::new();
    let mut i: usize = 0;
    while i < ms.len()
        invariant
            i <= ms@.len(),
            mv == ms.deep_view(),
            dot_slash@ == "./"@,
            seen.deep_view() == candidates(mv.take(i as int), exempt.deep_view()),
        decreases ms@.len() - i,
    {
        assert(mv.take(i + 1).drop_last() =~= mv.take(i as int));
        assert(mv[i as int] == ms@[i as int]@);
        let rel = strip_prefix_all_chars(ms[i].as_slice(), dot_slash.as_slice());
        if is_candidate_exec(rel.as_slice(), exempt) && !contains_vec(&seen, rel.as_slice()) {
            let ghost before = seen.deep_view();
            assert(rel.deep_view() =~= rel@);
            seen.push(rel);
            assert(seen.deep_view() =~= before.push(strip_prefix_all(mv[i as int], "./"@)));
        }
        i = i + 1;
    }
    assert(mv.take(ms@.len() as int) =~= mv);
    let mut r: Vec<String> = Vec::new();
    let mut j: usize = 0;
    while j < seen.len()
        invariant
            j <= seen@.len(),
            r.deep_view() == seen.deep_view().take(j as int),
        decreases seen@.len() - j,
    {
        let ghost before = r.deep_view();
        assert(seen@[j as int].deep_view() =~= seen@[j as int]@);
        assert(seen.deep_view()[j as int] == seen@[j as int]@);
        let t = string_of(seen[j].as_slice());
        r.push(t);
        assert(r.deep_view() =~= before.push(t@));
        assert(seen.deep_view().take(j + 1) =~= seen.deep_view().take(j as int).push(seen.deep_view()[j as int]));
        assert(r.deep_view() =~= seen.deep_view().take(j + 1));
        j = j + 1;
    }
    assert(seen.deep_view().take(seen@.len() as int) =~= seen.deep_view());
    r
}

/// `Path::is_file`. Nothing is stated: the answer is the disk's.
#[verifier::external_body]
fn is_file(p: &std::path::PathBuf) -> (r: bool) {
    p.is_file()
}

/// The entries of `s` whose mark is set, in order.
pub open spec fn select(s: Seq<Seq<char>>, keep: Seq<bool>) -> Seq<Seq<char>>
    decreases s.len(),
{
    if s.len() == 0 || keep.len() != s.len() {
        Seq::empty()
    } else if keep.last() {
        select(s.drop_last(), keep.drop_last()).push(s.last())
    } else {
        select(s.drop_last(), keep.drop_last())
    }
}

/// Every candidate may be inlined, and none is listed twice.
pub proof fn lemma_candidates_clean(ms: Seq<Seq<char>>, exempt: Seq<Seq<char>>)
    ensures
        forall|i: int| 0 <= i < candidates(ms, exempt).len() ==> is_candidate(#[trigger] candidates(ms, exempt)[i], exempt),
        forall|i: int, j: int|
            0 <= i < j < candidates(ms, exempt).len() ==> #[trigger] candidates(ms, exempt)[i] != #[trigger] candidates(ms, exempt)[j],
    decreases ms.len(),
{
    if ms.len() > 0 {
        lemma_candidates_clean(ms.drop_last(), exempt);
        let prev = candidates(ms.drop_last(), exempt);
        let c = candidates(ms, exempt);
        assert forall|i: int, j: int| 0 <= i < j < c.len() implies #[trigger] c[i] != #[trigger] c[j] by {
            if j == prev.len() {
                assert(c[i] == prev[i]);
                assert(prev.contains(prev[i]));
            } else {
                assert(c[i] == prev[i] && c[j] == prev[j]);
            }
        }
        assert forall|i: int| 0 <= i < c.len() implies is_candidate(#[trigger] c[i], exempt) by {
            if i < prev.len() {
                assert(c[i] == prev[i]);
            }
        }
    }
}

/// What a selection keeps comes from the list, and a list without repeats gives a selection
/// without repeats.
pub proof fn lemma_select_from(s: Seq<Seq<char>>, keep: Seq<bool>)
    ensures
        forall|i: int| 0 <= i < select(s, keep).len() ==> s.contains(#[trigger] select(s, keep)[i]),
        (forall|i: int, j: int| 0 <= i < j < s.len() ==> #[trigger] s[i] != #[trigger] s[j]) ==> (forall|i: int, j: int|
            0 <= i < j < select(s, keep).len() ==> #[trigger] select(s, keep)[i] != #[trigger] select(s, keep)[j]),
    decreases s.len(),
{
    if s.len() > 0 && keep.len() == s.len() {
        let s0 = s.drop_last();
        let k0 = keep.drop_last();
        lemma_select_from(s0, k0);
        let prev = select(s0, k0);
        let r = select(s, keep);
        assert forall|i: int| 0 <= i < r.len() implies s.contains(#[trigger] r[i]) by {
            if i < prev.len() {
                assert(r[i] == prev[i]);
                assert(s0.contains(prev[i]));
                let t = choose|t: int| 0 <= t < s0.len() && s0[t] == prev[i];
                assert(s[t] == s0[t]);
            } else {
                assert(r[i] == s[s.len() - 1]);
            }
        }
        if forall|i: int, j: int| 0 <= i < j < s.len() ==> #[trigger] s[i] != #[trigger] s[j] {
            assert(forall|i: int, j: int| 0 <= i < j < s0.len() ==> #[trigger] s0[i] != #[trigger] s0[j]) by {
                assert forall|i: int, j: int| 0 <= i < j < s0.len() implies #[trigger] s0[i] != #[trigger] s0[j] by {
                    assert(s0[i] == s[i] && s0[j] == s[j]);
                }
            }
            assert forall|i: int, j: int| 0 <= i < j < r.len() implies #[trigger] r[i] != #[trigger] r[j] by {
                if j == prev.len() && keep.last() {
                    assert(r[i] == prev[i]);
                    assert(s0.contains(prev[i]));
                    let t = choose|t: int| 0 <= t < s0.len() && s0[t] == prev[i];
                    assert(s[t] == s0[t]);
                    assert(r[j] == s[s.len() - 1]);
                } else {
                    assert(r[i] == prev[i] && r[j] == prev[j]);
                }
            }
        }
    }
}

/// The paths asked about for the candidates: each candidate inside the skill folder `dir`.
pub open spec fn candidate_paths_of(dir: std::path::PathBuf, cands: Seq<Seq<char>>) -> Seq<std::path::PathBuf> {
    cands.map_values(|c: Seq<char>| crate::tools::joined_path(dir, c))
}

/// Each candidate inside the skill folder `dir`.
pub fn candidate_paths(dir: &std::path::PathBuf, cands: &Vec<String>) -> (r: Vec<std::path::PathBuf>)
    ensures
        r@ == candidate_paths_of(*dir, cands.deep_view()),
{
    let mut r: Vec<std::path::PathBuf> = Vec::new();
    let mut i: usize = 0;
    while i < cands.len()
        invariant
            i <= cands@.len(),
            r@ == candidate_paths_of(*dir, cands.deep_view().take(i as int)),
        decreases cands@.len() - i,
    {
        r.push(crate::tools::join_path(dir, cands[i].as_str()));
        assert(cands.deep_view().take(i + 1) =~= cands.deep_view().take(i as int).push(cands@[i as int]@));
        assert(r@ =~= candidate_paths_of(*dir, cands.deep_view().take(i + 1)));
        i = i + 1;
    }
    assert(cands.deep_view().take(i as int) =~= cands.deep_view());
    r
}

/// The candidates that exist: `present[i]` is whether the file for `cands[i]` is there.
pub fn existing_referenced(cands: &Vec<String>, present: &Vec<bool>) -> (r: Vec<String>)
    requires
        present@.len() == cands@.len(),
    ensures
        r.deep_view() == select(cands.deep_view(), present@),
{
    let ghost cv = cands.deep_view();
    let mut r: Vec<String> = Vec::new();
    let mut i: usize = 0;
    while i < cands.len()
        invariant
            i <= cands@.len(),
            present@.len() == cands@.len(),
            cv == cands.deep_view(),
            r.deep_view() == select(cv.take(i as int), present@.take(i as int)),
        decreases cands@.len() - i,
    {
        assert(cv.take(i + 1).drop_last() =~= cv.take(i as int));
        assert(present@.take(i + 1).drop_last() =~= present@.take(i as int));
        assert(cv.take(i + 1).last() == cv[i as int]);
        assert(cv[i as int] == cands@[i as int]@);
        if present[i] {
            let ghost before = r.deep_view();
            r.push(cands[i].clone());
            assert(r.deep_view() =~= before.push(cv[i as int]));
        }
        i = i + 1;
    }
    assert(cv.take(cands@.len() as int) =~= cv);
    assert(present@.take(cands@.len() as int) =~= present@);
    r
}

/// The text files in the skill folder `dir` that the body points at and that exist there, in
/// order of first mention: [`existing_referenced`] of the candidates, with the disk's answer
/// (`Path::is_file`) for each of their [`candidate_paths`]. Each is a candidate (no `..`, not
/// absolute, not the skill's own files nor an exempt one) and none is listed twice.
pub fn referenced_files(body: &str, dir: &std::path::PathBuf, exempt: &Vec<String>) -> (r: Vec<String>)
    ensures
        exists|keep: Seq<bool>| #![trigger select(candidates(path_mentions(body@, 0), exempt.deep_view()), keep)]
            keep.len() == candidates(path_mentions(body@, 0), exempt.deep_view()).len()
            && r.deep_view() == select(candidates(path_mentions(body@, 0), exempt.deep_view()), keep),
        forall|i: int| 0 <= i < r@.len() ==> is_candidate(#[trigger] r.deep_view()[i], exempt.deep_view()),
        forall|i: int, j: int| 0 <= i < j < r@.len() ==> #[trigger] r.deep_view()[i] != #[trigger] r.deep_view()[j],
{
    let cands = referenced_candidates(body, exempt);
    let paths = candidate_paths(dir, &cands);
    let mut present: Vec<bool> = Vec::new();
    let mut i: usize = 0;
    while i < paths.len()
        invariant
            i <= paths@.len(),
            present@.len() == i,
        decreases paths@.len() - i,
    {
        present.push(is_file(&paths[i]));
        i = i + 1;
    }
    let r = existing_referenced(&cands, &present);
    proof {
        let cv = cands.deep_view();
        lemma_candidates_clean(path_mentions(body@, 0), exempt.deep_view());
        lemma_select_from(cv, present@);
        assert forall|i: int| 0 <= i < r@.len() implies is_candidate(#[trigger] r.deep_view()[i], exempt.deep_view()) by {
            assert(cv.contains(r.deep_view()[i]));
        }
    }
    r
}

/// The extensions of scripts a skill may bundle (copied, never run).
pub open spec fn script_exts() -> Seq<Seq<char>> {
    seq!["py"@, "sh"@, "ps1"@, "js"@, "mjs"@, "ts"@, "rb"@]
}

/// Whether a file extension is a script's.
pub fn is_script_ext(ext: &str) -> (r: bool)
    ensures
        r == script_exts().contains(ext@),
{
    let v: Vec<&str> = vec!["py", "sh", "ps1", "js", "mjs", "ts", "rb"];
    let r = crate::text::contains_str(&v, ext);
    proof {
        assert(v@.map_values(|s: &str| s@) =~= script_exts());
        if r {
            let i = choose|i: int| 0 <= i < v@.len() && (#[trigger] v@[i])@ == ext@;
            assert(script_exts()[i] == ext@);
        }
        if script_exts().contains(ext@) {
            let i = choose|i: int| 0 <= i < script_exts().len() && script_exts()[i] == ext@;
            assert(v@[i]@ == ext@);
        }
    }
    r
}

} // verus!
