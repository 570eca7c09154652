//! What the built-in tools do with what they read and what they return to the model: file
//! edits, directory listings, command output, file search, the code graph, and the Google tools'
//! text. The files, processes and requests themselves belong to the shell.
use vstd::prelude::*;
use vstd::string::*;

use crate::text::{
    chars_of, concat, eq_str, ends_with, find, find_from, split_char, split_chars, starts_with,
    starts_with_chars, ends_with_chars, string_of, slice_to_vec_range, trim, trim_str, decimal,
    decimal_string, find_at, lemma_find_range, occurs_at,
};
use crate::cli::join_with;

verus! {

broadcast use vstd::string::group_string_axioms;

// ------------------------------------------------------------------ paths

/// Whether `Path::is_absolute` calls a path with this text absolute on the platform the crate is
/// built for (a leading `/` on Unix; a drive or UNC prefix with a root on Windows).
pub uninterp spec fn absolute_path_text(path: Seq<char>) -> bool;

/// The path `PathBuf::from` makes of a text.
pub uninterp spec fn path_from_text(path: Seq<char>) -> std::path::PathBuf;

/// The path `Path::join` makes of a directory and a further path (the latter alone where it is
/// absolute), with the separator of the platform the crate is built for.
pub uninterp spec fn joined_path(dir: std::path::PathBuf, path: Seq<char>) -> std::path::PathBuf;

/// `Path::is_absolute` of the path with this text.
#[verifier::external_body]
fn path_is_absolute(path: &str) -> (r: bool)
    ensures
        r == absolute_path_text(path@),
{
    std::path::Path::new(path).is_absolute()
}

/// `Path::join`.
#[verifier::external_body]
pub(crate) fn join_path(dir: &std::path::PathBuf, path: &str) -> (r: std::path::PathBuf)
    ensures
        r == joined_path(*dir, path@),
{
    dir.join(path)
}

/// `PathBuf::from`.
#[verifier::external_body]
pub(crate) fn path_of(path: &str) -> (r: std::path::PathBuf)
    ensures
        r == path_from_text(path@),
{
    std::path::PathBuf::from(path)
}

/// `Path::to_string_lossy`. Nothing is stated of the text, which depends on the platform.
#[verifier::external_body]
pub(crate) fn path_text(p: &std::path::PathBuf) -> (r: String) {
    p.to_string_lossy().to_string()
}

/// How a tool's path argument is placed, given whether the platform calls it absolute: a
/// relative path with a working folder goes inside that folder (`Some` of the folder and the
/// path); otherwise the path is taken as it is (`None`).
pub fn resolve_plan(path: &str, is_absolute: bool, working_dir: Option<&str>) -> (r: Option<(String, String)>)
    ensures
        r is Some <==> (!is_absolute && working_dir is Some),
        r matches Some((d, p)) ==> d@ == working_dir.unwrap()@ && p@ == path@,
{
    if is_absolute {
        None
    } else {
        match working_dir {
            Some(d) => Some((d.to_string(), path.to_string())),
            None => None,
        }
    }
}

/// Where a tool's path argument points: an absolute path as it is; a relative one inside the
/// working folder where there is one, else as it is.
pub fn resolve_path(path_str: &str, working_dir: Option<&str>) -> (r: std::path::PathBuf)
    ensures
        r == if !absolute_path_text(path_str@) && working_dir is Some {
            joined_path(path_from_text(working_dir.unwrap()@), path_str@)
        } else {
            path_from_text(path_str@)
        },
{
    let abs = path_is_absolute(path_str);
    match resolve_plan(path_str, abs, working_dir) {
        Some((d, p)) => join_path(&path_of(d.as_str()), p.as_str()),
        None => path_of(path_str),
    }
}

// ------------------------------------------------------------------ file names

/// Whether the rest of a name matches the pattern's segments from `k` on, searching from `pos`:
/// a middle segment must occur at or after `pos` (the search then continues after it); the last
/// segment must end the name.
pub open spec fn glob_rest(segs: Seq<Seq<char>>, k: int, name: Seq<char>, pos: int) -> bool
    decreases segs.len() - k,
{
    if k < 0 || k >= segs.len() {
        true
    } else if k == segs.len() - 1 {
        ends_with(name, segs[k])
    } else {
        let idx = find_from(name, segs[k], pos);
        if idx < 0 {
            false
        } else {
            glob_rest(segs, k + 1, name, idx + segs[k].len())
        }
    }
}

/// Whether a file name matches a pattern where `*` matches any run of characters: `*` alone
/// matches everything; otherwise the name must start with the part before the first `*` (a
/// pattern without `*` matches any name that starts with it), contain the middle parts in order,
/// and end with the part after the last `*`.
pub open spec fn spec_glob_match(pattern: Seq<char>, name: Seq<char>) -> bool {
    if pattern == seq!['*'] {
        true
    } else {
        let segs = split_char(pattern, '*');
        let first = segs[0];
        if !starts_with(name, first) && first.len() > 0 {
            false
        } else {
            glob_rest(segs, 1, name, first.len() as int)
        }
    }
}

proof fn lemma_split_nonempty(s: Seq<char>, c: char)
    ensures
        split_char(s, c).len() >= 1,
    decreases s.len(),
{
    let k = find(s, seq![c]);
    if k >= 0 {
        lemma_find_range(s, seq![c], 0);
        lemma_split_nonempty(s.skip(k + 1), c);
    }
}

/// Whether a file name matches a `*` pattern.
pub fn glob_match(pattern: &str, name: &str) -> (r: bool)
    ensures
        r == spec_glob_match(pattern@, name@),
{
    let pc = chars_of(pattern);
    let star = vec!['*'];
    assert(star@ =~= seq!['*']);
    if crate::text::chars_eq(pc.as_slice(), star.as_slice()) {
        return true;
    }
    let nc = chars_of(name);
    let segs = split_chars(pc.as_slice(), '*');
    let ghost sv = segs.deep_view();
    proof {
        lemma_split_nonempty(pattern@, '*');
    }
    assert(sv[0] == segs@[0]@);
    let first = &segs[0];
    if !starts_with_chars(nc.as_slice(), first.as_slice()) && first.len() > 0 {
        return false;
    }
    let mut pos: usize = first.len();
    proof {
        if first@.len() > 0 {
            assert(first@.len() <= nc@.len());
        }
    }
    let mut k: usize = 1;
    while k < segs.len()
        invariant
            1 <= k <= segs@.len(),
            sv == segs.deep_view(),
            pos <= nc@.len() || k >= segs@.len(),
            nc@ == name@,
            spec_glob_match(pattern@, name@) == glob_rest(sv, k as int, name@, pos as int),
        decreases segs@.len() - k,
    {
        let seg = &segs[k];
        assert(sv[k as int] == seg@);
        if k == segs.len() - 1 {
            return ends_with_chars(nc.as_slice(), seg.as_slice());
        }
        proof {
            lemma_find_range(nc@, seg@, pos as int);
        }
        match find_at(nc.as_slice(), seg.as_slice(), pos) {
            Some(idx) => {
                assert(occurs_at(nc@, seg@, idx as int));
                let n = nc.len();
                let m = seg.len();
                assert(idx + m <= n);
                pos = idx + m;
            },
            None => {
                return false;
            },
        }
        k = k + 1;
    }
    true
}

// ------------------------------------------------------------------ editing and writing files

/// A file's text after an edit: the first occurrence of `old` replaced by `new`; `None` where
/// `old` does not occur (the edit is refused).
pub open spec fn spec_edit_text(content: Seq<char>, old: Seq<char>, new: Seq<char>) -> Option<Seq<char>> {
    let k = find(content, old);
    if k < 0 {
        None
    } else {
        Some(content.take(k) + new + content.skip(k + old.len()))
    }
}

/// A file's text after replacing the first occurrence of `old` with `new`, or `None` where `old`
/// does not occur.
pub fn edit_text(content: &str, old: &str, new: &str) -> (r: Option<String>)
    ensures
        crate::text::opt_string(r) == spec_edit_text(content@, old@, new@),
{
    let cs = chars_of(content);
    let oc = chars_of(old);
    match crate::text::find_chars(cs.as_slice(), oc.as_slice()) {
        None => None,
        Some(k) => {
            proof {
                lemma_find_range(cs@, oc@, 0);
                assert(occurs_at(cs@, oc@, k as int));
            }
            let n = cs.len();
            let m = oc.len();
            assert(k + m <= n);
            let head = slice_to_vec_range(cs.as_slice(), 0, k);
            let tail = slice_to_vec_range(cs.as_slice(), k + m, n);
            assert(head@ =~= cs@.take(k as int));
            assert(tail@ =~= cs@.skip(k + m));
            let a = concat(string_of(head.as_slice()).as_str(), new);
            Some(concat(a.as_str(), string_of(tail.as_slice()).as_str()))
        },
    }
}

/// What `edit_file` answers for an edit that could not be placed.
pub fn edit_not_found(path_display: &str) -> (r: String)
    ensures
        r@ == "Error: old_str not found in "@ + path_display@,
{
    concat("Error: old_str not found in ", path_display)
}

/// What `edit_file` answers once the edited text is written.
pub const EDIT_APPLIED: &'static str = "Edit applied successfully";

/// What `edit_file` does with the file's text: write the edited text (then answer
/// [`EDIT_APPLIED`]), or answer that `old` was not found.
#[derive(Debug, PartialEq, Eq)]
pub enum EditStep {
    /// Write this text back, then answer [`EDIT_APPLIED`].
    Write(String),
    /// Answer this without writing.
    Answer(String),
}

/// The step `edit_file` takes on a file it has read.
pub fn edit_step(content: &str, old: &str, new: &str, path_display: &str) -> (r: EditStep)
    ensures
        match spec_edit_text(content@, old@, new@) {
            Some(t) => r matches EditStep::Write(w) && w@ == t,
            None => r matches EditStep::Answer(a) && a@ == "Error: old_str not found in "@ + path_display@,
        },
{
    match edit_text(content, old, new) {
        Some(t) => EditStep::Write(t),
        None => EditStep::Answer(edit_not_found(path_display)),
    }
}

/// What `write_file` answers after writing `bytes` bytes.
pub fn written_message(bytes: usize, path_display: &str) -> (r: String)
    ensures
        r@ == "Written "@ + decimal(bytes as nat) + " bytes to "@ + path_display@,
{
    let a = concat("Written ", decimal_string(bytes as u64).as_str());
    let b = concat(a.as_str(), " bytes to ");
    concat(b.as_str(), path_display)
}

// ------------------------------------------------------------------ listing a directory

/// A directory entry as `list_dir` shows it: a folder with a trailing `/`, a file with its size.
pub open spec fn listing_line(name: Seq<char>, is_dir: bool, size: u64) -> Seq<char> {
    if is_dir {
        name + "/"@
    } else {
        name + "  ("@ + decimal(size as nat) + " bytes)"@
    }
}

/// An entry of a directory: its name, whether it is a folder, and its size in bytes.
#[derive(Debug)]
pub struct DirEntry {
    pub name: String,
    pub is_dir: bool,
    pub size: u64,
}

/// The lines of a listing, in the order the entries came.
pub open spec fn listing_lines(entries: Seq<DirEntry>) -> Seq<Seq<char>> {
    entries.map_values(|e: DirEntry| listing_line(e.name@, e.is_dir, e.size))
}

/// What `list_dir` answers: one line per entry, sorted as text, or a note that the directory is
/// empty.
pub open spec fn spec_listing(entries: Seq<DirEntry>) -> Seq<char> {
    if entries.len() == 0 {
        "(empty directory)"@
    } else {
        let lines = listing_lines(entries);
        let keyed = Seq::new(lines.len(), |i: int| (lines[i], lines[i]));
        join_with(crate::order::stable_sorted(keyed).map_values(|p: (Seq<char>, Seq<char>)| p.1), "\n"@)
    }
}

/// What `list_dir` answers for a directory's entries.
pub fn listing(entries: &Vec<DirEntry>) -> (r: String)
    ensures
        r@ == spec_listing(entries@),
{
    if entries.len() == 0 {
        return "(empty directory)".to_string();
    }
    let mut lines: Vec<String> = Vec::new();
    let mut keys: Vec<Vec<char>> = Vec::new();
    let mut i: usize = 0;
    while i < entries.len()
        invariant
            i <= entries@.len(),
            lines@.len() == i,
            keys@.len() == i,
            forall|j: int| 0 <= j < i ==> (#[trigger] lines@[j])@ == listing_line(entries@[j].name@, entries@[j].is_dir, entries@[j].size),
            forall|j: int| 0 <= j < i ==> (#[trigger] keys@[j])@ == lines@[j]@,
        decreases entries@.len() - i,
    {
        let e = &entries[i];
        let line = if e.is_dir {
            concat(e.name.as_str(), "/")
        } else {
            let a = concat(e.name.as_str(), "  (");
            let b = concat(a.as_str(), decimal_string(e.size).as_str());
            concat(b.as_str(), " bytes)")
        };
        keys.push(chars_of(line.as_str()));
        lines.push(line);
        i = i + 1;
    }
    let ghost kv = keys@;
    let ghost lv = lines@;
    let sorted = crate::order::sort_by_keys(lines, keys);
    proof {
        let ll = listing_lines(entries@);
        let keyed = Seq::new(ll.len(), |i: int| (ll[i], ll[i]));
        let kl = crate::order::keyed_view(kv, lv);
        let f = |t: String| t@;
        assert(crate::order::map_items(kl, f) =~= keyed);
        crate::order::lemma_sorted_map(kl, f);
        crate::order::lemma_stable_sorted_is_sorted(kl);
        let sk = crate::order::stable_sorted(kl);
        assert(sorted.deep_view() =~= crate::order::map_items(sk, f).map_values(|p: (Seq<char>, Seq<char>)| p.1));
    }
    join_strings_of(&sorted, "\n")
}

/// `parts` joined with `sep`.
fn join_strings_of(parts: &Vec<String>, sep: &str) -> (r: String)
    ensures
        r@ == join_with(parts.deep_view(), sep@),
{
    crate::cli::join_strings(parts, sep)
}

// ------------------------------------------------------------------ running a command

/// How much command output (in bytes) goes back to the model.
pub const MAX_OUTPUT: usize = 10240;

/// A command's standard output, then its error output under a `STDERR:` line (on a line of its
/// own where there was standard output).
pub open spec fn combined_output(stdout: Seq<char>, stderr: Seq<char>) -> Seq<char> {
    if stderr.len() == 0 {
        stdout
    } else {
        stdout + (if stdout.len() > 0 {
            "\n"@
        } else {
            Seq::empty()
        }) + "STDERR:\n"@ + stderr
    }
}

/// What `run_command` answers: the combined output cut to [`MAX_OUTPUT`] bytes (at a character
/// boundary, with a note that it was cut), or the exit code where the command printed nothing.
pub open spec fn spec_command_result(stdout: Seq<char>, stderr: Seq<char>, exit_code: Option<i32>) -> Seq<char> {
    let all = combined_output(stdout, stderr);
    let kept = if crate::stream::byte_len(all) > MAX_OUTPUT {
        all.take(crate::stream::char_cut(all, MAX_OUTPUT as int) as int) + "\n[output truncated]"@
    } else {
        all
    };
    if kept.len() == 0 {
        "[exit code: "@ + crate::google::signed_decimal(
            match exit_code {
                Some(c) => c as int,
                None => -1,
            },
        ) + "]"@
    } else {
        kept
    }
}

/// Ten to the power `k`.
pub open spec fn pow10(k: nat) -> nat
    decreases k,
{
    if k == 0 { 1 } else { 10 * pow10((k - 1) as nat) }
}

proof fn lemma_decimal_len(n: nat, k: nat)
    requires
        k >= 1,
        n < pow10(k),
    ensures
        crate::text::decimal(n).len() <= k,
    decreases n,
{
    if n >= 10 {
        let k1 = (k - 1) as nat;
        assert(pow10(1) == 10) by {
            reveal_with_fuel(pow10, 2);
        }
        if k == 1 {
            assert(false);
        }
        assert(n / 10 < pow10(k1)) by (nonlinear_arith)
            requires
                n < 10 * pow10(k1),
        ;
        lemma_decimal_len(n / 10, k1);
    }
}

proof fn lemma_byte_len_concat(a: Seq<char>, b: Seq<char>)
    ensures
        crate::stream::byte_len(a + b) == crate::stream::byte_len(a) + crate::stream::byte_len(b),
    decreases b.len(),
{
    if b.len() == 0 {
        assert(a + b =~= a);
        assert(vstd::utf8::encode_utf8(b) =~= Seq::<u8>::empty());
    } else {
        lemma_byte_len_concat(a, b.drop_last());
        assert(a + b =~= (a + b.drop_last()).push(b.last()));
        assert(b =~= b.drop_last().push(b.last()));
        crate::stream::lemma_encode_push(a + b.drop_last(), b.last());
        crate::stream::lemma_encode_push(b.drop_last(), b.last());
    }
}

proof fn lemma_byte_len_at_most_four(s: Seq<char>)
    ensures
        crate::stream::byte_len(s) <= 4 * s.len(),
    decreases s.len(),
{
    if s.len() == 0 {
        assert(vstd::utf8::encode_utf8(s) =~= Seq::<u8>::empty());
    } else {
        lemma_byte_len_at_most_four(s.drop_last());
        assert(s =~= s.drop_last().push(s.last()));
        crate::stream::lemma_encode_push(s.drop_last(), s.last());
        assert(vstd::utf8::encode_scalar(s.last() as u32).len() <= 4);
    }
}

proof fn lemma_cut_fits(s: Seq<char>, limit: int)
    requires
        0 <= limit,
    ensures
        crate::stream::byte_len(s.take(crate::stream::char_cut(s, limit) as int)) <= limit,
    decreases s.len(),
{
    let cut = crate::stream::char_cut(s, limit);
    if s.len() == 0 || crate::stream::char_width(s[0]) > limit {
        assert(s.take(0) =~= Seq::<char>::empty());
        assert(vstd::utf8::encode_utf8(Seq::<char>::empty()) =~= Seq::<u8>::empty());
    } else {
        let w = crate::stream::char_width(s[0]);
        let rest = s.drop_first();
        lemma_cut_fits(rest, limit - w);
        crate::stream::lemma_char_cut_all(rest, limit - w);
        let t = s.take(cut as int);
        assert(t =~= seq![s[0]] + rest.take(crate::stream::char_cut(rest, limit - w) as int));
        lemma_byte_len_concat(seq![s[0]], rest.take(crate::stream::char_cut(rest, limit - w) as int));
        crate::stream::lemma_encode_push(Seq::<char>::empty(), s[0]);
        assert(Seq::<char>::empty().push(s[0]) =~= seq![s[0]]);
        assert(vstd::utf8::encode_utf8(Seq::<char>::empty()) =~= Seq::<u8>::empty());
    }
}

/// What `run_command` answers is never longer than [`MAX_OUTPUT`] bytes and the truncation note;
/// where the combined output is longer than that, it is the output cut at the last character
/// that fits, then the note.
pub proof fn lemma_command_result_bounded(stdout: Seq<char>, stderr: Seq<char>, exit_code: Option<i32>)
    ensures
        crate::stream::byte_len(spec_command_result(stdout, stderr, exit_code)) <= MAX_OUTPUT
            + crate::stream::byte_len("\n[output truncated]"@),
        crate::stream::byte_len(combined_output(stdout, stderr)) > MAX_OUTPUT ==> spec_command_result(
            stdout,
            stderr,
            exit_code,
        ) == combined_output(stdout, stderr).take(
            crate::stream::char_cut(combined_output(stdout, stderr), MAX_OUTPUT as int) as int,
        ) + "\n[output truncated]"@,
{
    let all = combined_output(stdout, stderr);
    let note = "\n[output truncated]"@;
    if crate::stream::byte_len(all) > MAX_OUTPUT {
        let head = all.take(crate::stream::char_cut(all, MAX_OUTPUT as int) as int);
        lemma_cut_fits(all, MAX_OUTPUT as int);
        lemma_byte_len_concat(head, note);
        reveal_strlit("\n[output truncated]");
        assert((head + note).len() > 0);
    } else if all.len() == 0 {
        let c: int = match exit_code {
            Some(c) => c as int,
            None => -1,
        };
        let sd = crate::google::signed_decimal(c);
        let abs: nat = if c < 0 { (-c) as nat } else { c as nat };
        assert(pow10(10) == 10000000000) by {
            reveal_with_fuel(pow10, 11);
        }
        lemma_decimal_len(abs, 10);
        assert(sd.len() <= 11);
        let text = "[exit code: "@ + sd + "]"@;
        reveal_strlit("[exit code: ");
        reveal_strlit("]");
        lemma_byte_len_at_most_four(text);
        assert(text.len() <= 24);
    }
}

fn signed_text(n: i64) -> (r: String)
    ensures
        r@ == crate::google::signed_decimal(n as int),
{
    if n < 0 {
        let m: u64 = if n == i64::MIN { 9223372036854775808u64 } else { (-n) as u64 };
        proof {
            reveal_strlit("-");
            assert("-"@ =~= seq!['-']);
        }
        concat("-", decimal_string(m).as_str())
    } else {
        decimal_string(n as u64)
    }
}

/// What `run_command` answers for a finished command.
pub fn command_result(stdout: &str, stderr: &str, exit_code: Option<i32>) -> (r: String)
    ensures
        r@ == spec_command_result(stdout@, stderr@, exit_code),
{
    proof {
        reveal_strlit("");
    }
    let mut all = stdout.to_string();
    if stderr.unicode_len() > 0 {
        if all.as_str().unicode_len() > 0 {
            all = concat(all.as_str(), "\n");
        }
        all = concat(all.as_str(), "STDERR:\n");
        all = concat(all.as_str(), stderr);
    }
    let cs = chars_of(all.as_str());
    let fit = crate::stream::chars_within(cs.as_slice(), MAX_OUTPUT);
    proof {
        crate::stream::lemma_char_cut_all(cs@, MAX_OUTPUT as int);
    }
    let kept = if fit < cs.len() {
        let head = slice_to_vec_range(cs.as_slice(), 0, fit);
        concat(string_of(head.as_slice()).as_str(), "\n[output truncated]")
    } else {
        all
    };
    if kept.as_str().unicode_len() == 0 {
        let code: i64 = match exit_code {
            Some(c) => c as i64,
            None => -1,
        };
        let a = concat("[exit code: ", signed_text(code).as_str());
        concat(a.as_str(), "]")
    } else {
        kept
    }
}

// ------------------------------------------------------------------ searching files

/// How many matching lines a search reports before it stops.
pub const MAX_MATCHES: usize = 200;

/// Files larger than this (in bytes) are not searched.
pub const MAX_SEARCH_FILE: u64 = 1_048_576;

/// Whether a file of this size is searched.
pub fn searchable_size(size: u64) -> (r: bool)
    ensures
        r == (size <= MAX_SEARCH_FILE),
{
    size <= MAX_SEARCH_FILE
}

/// The line reported for a match: the file (relative to the search root), the 1-based line
/// number, and the line trimmed.
pub fn match_line(relative_path: &str, line_index: usize, line: &str) -> (r: String)
    requires
        line_index < usize::MAX,
    ensures
        r@ == relative_path@ + ":"@ + decimal((line_index + 1) as nat) + ": "@ + trim(line@),
{
    let a = concat(relative_path, ":");
    let b = concat(a.as_str(), decimal_string((line_index + 1) as u64).as_str());
    let c = concat(b.as_str(), ": ");
    concat(c.as_str(), trim_str(line))
}

/// The note added when a search stops early.
pub const MORE_MATCHES: &'static str = "[truncated \u{2014} more matches exist]";

/// Record a matching line; once [`MAX_MATCHES`] lines are recorded the note that more exist is
/// added and the search stops (`false`).
pub fn record_match(matches: &mut Vec<String>, line: String) -> (go_on: bool)
    requires
        old(matches)@.len() < MAX_MATCHES,
    ensures
        if old(matches)@.len() + 1 >= MAX_MATCHES {
            &&& !go_on
            &&& final(matches).deep_view() == old(matches).deep_view().push(line@).push(MORE_MATCHES@)
        } else {
            &&& go_on
            &&& final(matches).deep_view() == old(matches).deep_view().push(line@)
        },
{
    let ghost before = matches.deep_view();
    let ghost lv = line@;
    matches.push(line);
    assert(matches.deep_view() =~= before.push(lv));
    if matches.len() >= MAX_MATCHES {
        let ghost mid = matches.deep_view();
        matches.push(MORE_MATCHES.to_string());
        assert(matches.deep_view() =~= mid.push(MORE_MATCHES@));
        return false;
    }
    true
}

/// A line as `str::lines` gives it: without a carriage return at its end.
pub open spec fn without_cr(l: Seq<char>) -> Seq<char> {
    if l.len() > 0 && l.last() == '\r' { l.drop_last() } else { l }
}

/// The lines of a text as `str::lines` yields them: the pieces between newlines, each without a
/// closing carriage return, and no empty last piece after a final newline.
pub open spec fn text_lines(s: Seq<char>) -> Seq<Seq<char>> {
    let parts = crate::text::split_char(s, '\n');
    let kept = if parts.len() > 0 && parts.last().len() == 0 { parts.drop_last() } else { parts };
    kept.map_values(|l: Seq<char>| without_cr(l))
}

fn lines_of(s: &str) -> (r: Vec<String>)
    ensures
        r.deep_view() == text_lines(s@),
{
    let cs = chars_of(s);
    let parts = split_chars(cs.as_slice(), '\n');
    let ghost pv = parts.deep_view();
    let n = if parts.len() > 0 && parts[parts.len() - 1].len() == 0 { parts.len() - 1 } else { parts.len() };
    let ghost kept = if pv.len() > 0 && pv.last().len() == 0 { pv.drop_last() } else { pv };
    assert(kept =~= pv.take(n as int));
    let mut out: Vec<String> = Vec::new();
    let mut i: usize = 0;
    while i < n
        invariant
            i <= n <= parts@.len(),
            pv == parts.deep_view(),
            kept == pv.take(n as int),
            out.deep_view() == kept.take(i as int).map_values(|l: Seq<char>| without_cr(l)),
        decreases n - i,
    {
        let p = &parts[i];
        let end = if p.len() > 0 && p[p.len() - 1] == '\r' { p.len() - 1 } else { p.len() };
        let line = string_of(slice_to_vec_range(p.as_slice(), 0, end).as_slice());
        assert(pv[i as int] == p@);
        assert(line@ =~= without_cr(kept[i as int]));
        let ghost before = out.deep_view();
        out.push(line);
        assert(out.deep_view() =~= before.push(without_cr(kept[i as int])));
        assert(kept.take(i + 1).map_values(|l: Seq<char>| without_cr(l)) =~= kept.take(i as int).map_values(
            |l: Seq<char>| without_cr(l),
        ).push(without_cr(kept[i as int])));
        i = i + 1;
    }
    assert(kept.take(n as int) =~= kept);
    out
}

/// What `search_files` answers for a pattern that does not compile.
pub open spec fn invalid_pattern_text(error: Seq<char>) -> Seq<char> {
    "Invalid regex pattern: "@ + error
}

/// The pattern `search_files` searches with, or what it answers where it does not compile.
pub fn search_pattern(pattern: &str) -> (r: Result<regex::Regex, String>)
    ensures
        match r {
            Ok(re) => crate::pattern::regex_error(pattern@) is None && crate::pattern::regex_source(re) == pattern@,
            Err(e) => crate::pattern::regex_error(pattern@) matches Some(m) && e@ == invalid_pattern_text(m),
        },
{
    match crate::pattern::compile_regex(pattern) {
        Ok(re) => Ok(re),
        Err(e) => Err(concat("Invalid regex pattern: ", e.as_str())),
    }
}

/// The matches recorded after searching `lines` (the first numbered `first`), starting from
/// `found`, and whether the search goes on: each line the pattern matches is recorded as
/// `path:number: text` (see [`match_line`]), and once [`MAX_MATCHES`] are recorded the note that
/// more exist is added and the search stops.
pub open spec fn searched(
    pattern: Seq<char>,
    rel: Seq<char>,
    lines: Seq<Seq<char>>,
    first: int,
    found: Seq<Seq<char>>,
) -> (Seq<Seq<char>>, bool)
    decreases lines.len(),
{
    if lines.len() == 0 {
        (found, true)
    } else if crate::pattern::regex_is_match(pattern, lines[0]) {
        let entry = rel + ":"@ + decimal((first + 1) as nat) + ": "@ + trim(lines[0]);
        if found.len() + 1 >= MAX_MATCHES {
            (found.push(entry).push(MORE_MATCHES@), false)
        } else {
            searched(pattern, rel, lines.drop_first(), first + 1, found.push(entry))
        }
    } else {
        searched(pattern, rel, lines.drop_first(), first + 1, found)
    }
}

/// Search one file's text, `rel` being its path relative to the search root: its matching lines
/// are added to `matches`; `false` once the search is to stop.
pub fn search_file_lines(re: &regex::Regex, rel: &str, content: &str, matches: &mut Vec<String>) -> (go_on: bool)
    requires
        old(matches)@.len() < MAX_MATCHES,
    ensures
        (final(matches).deep_view(), go_on) == searched(
            crate::pattern::regex_source(*re),
            rel@,
            text_lines(content@),
            0,
            old(matches).deep_view(),
        ),
{
    let lines = lines_of(content);
    let ghost lv = lines.deep_view();
    let ghost pat = crate::pattern::regex_source(*re);
    let ghost start = matches.deep_view();
    let mut i: usize = 0;
    assert(lv.skip(0) =~= lv);
    while i < lines.len()
        invariant
            i <= lines@.len(),
            lv == lines.deep_view(),
            pat == crate::pattern::regex_source(*re),
            start == old(matches).deep_view(),
            lv == text_lines(content@),
            matches@.len() < MAX_MATCHES,
            matches.deep_view().len() == matches@.len(),
            searched(pat, rel@, lv.skip(i as int), i as int, matches.deep_view()) == searched(pat, rel@, lv, 0, start),
        decreases lines@.len() - i,
    {
        assert(lv.skip(i as int)[0] == lines@[i as int]@);
        assert(lv.skip(i as int).drop_first() =~= lv.skip(i + 1));
        let ghost before = matches.deep_view();
        let line = lines[i].as_str();
        let hit = crate::pattern::is_match(re, line);
        assert(line@ == lv[i as int]);
        assert(hit == crate::pattern::regex_is_match(pat, lv.skip(i as int)[0]));
        if hit {
            let entry = match_line(rel, i, lines[i].as_str());
            let ghost ev = entry@;
            assert(ev == rel@ + ":"@ + decimal((i + 1) as nat) + ": "@ + trim(lv.skip(i as int)[0]));
            let go = record_match(matches, entry);
            assert(matches.deep_view().len() == matches@.len());
            if !go {
                assert(lv.skip(i as int).len() > 0);
                assert(crate::pattern::regex_is_match(pat, lv.skip(i as int)[0]));
                assert(before.len() + 1 >= MAX_MATCHES);
                assert(searched(pat, rel@, lv.skip(i as int), i as int, before) == (before.push(ev).push(MORE_MATCHES@), false));
                return false;
            }
            assert(matches.deep_view() == before.push(ev));
        }
        i = i + 1;
    }
    true
}

/// What `search_files` answers: the matching lines, or that there were none.
pub fn search_result(matches: &Vec<String>) -> (r: String)
    ensures
        r@ == if matches@.len() == 0 {
            "No matches found"@
        } else {
            join_with(matches.deep_view(), "\n"@)
        },
{
    if matches.len() == 0 {
        "No matches found".to_string()
    } else {
        crate::cli::join_strings(matches, "\n")
    }
}

// ------------------------------------------------------------------ the code graph

/// The arguments of a graph query: the query itself, and for a `path` query the concept it leads
/// to, which is required.
pub open spec fn spec_graph_query_args(kind: Seq<char>, query: Seq<char>, target: Option<Seq<char>>) -> Result<Seq<Seq<char>>, Seq<char>> {
    if kind == "path"@ {
        match target {
            Some(t) if t.len() > 0 => Ok(seq![query, t]),
            _ => Err("graphify_query kind='path' needs both 'query' (concept A) and 'target' (concept B)."@),
        }
    } else {
        Ok(seq![query])
    }
}

/// The arguments of a graph query, or why a `path` query cannot run.
pub fn graph_query_args(kind: &str, query: &str, target: Option<&str>) -> (r: Result<Vec<String>, String>)
    ensures
        match r {
            Ok(v) => spec_graph_query_args(kind@, query@, crate::text::opt_str(target)) == Ok::<Seq<Seq<char>>, Seq<char>>(v.deep_view()),
            Err(e) => spec_graph_query_args(kind@, query@, crate::text::opt_str(target)) == Err::<Seq<Seq<char>>, Seq<char>>(e@),
        },
{
    let mut args: Vec<String> = Vec::new();
    args.push(query.to_string());
    if eq_str(kind, "path") {
        match target {
            Some(t) if t.unicode_len() > 0 => {
                args.push(t.to_string());
                assert(args.deep_view() =~= seq![query@, t@]);
                Ok(args)
            },
            _ => Err("graphify_query kind='path' needs both 'query' (concept A) and 'target' (concept B).".to_string()),
        }
    } else {
        assert(args.deep_view() =~= seq![query@]);
        Ok(args)
    }
}

/// The warning put before an answer from a graph older than the files it describes.
pub const STALE_NOTE: &'static str = "[Note: source files have changed since this graph was last built. The results below may be stale \u{2014} call graphify_build (update=true) to refresh before relying on them.]\n\n";

/// What `graphify_query` answers: the output (or that there were no results) after the stale
/// warning where one is due; on failure the error and a hint to build a graph first.
pub open spec fn spec_graph_query_result(stale_warning: bool, outcome: Result<Seq<char>, Seq<char>>) -> Seq<char> {
    let note = if stale_warning { STALE_NOTE@ } else { Seq::empty() };
    match outcome {
        Ok(out) => if trim(out).len() == 0 {
            note + "(no results)"@
        } else {
            note + out
        },
        Err(e) => e + "\n(If no graph exists yet, build one with graphify_build.)"@,
    }
}

/// What `graphify_query` answers.
pub fn graph_query_result(stale_warning: bool, outcome: Result<String, String>) -> (r: String)
    ensures
        r@ == spec_graph_query_result(
            stale_warning,
            match outcome {
                Ok(o) => Ok::<Seq<char>, Seq<char>>(o@),
                Err(e) => Err::<Seq<char>, Seq<char>>(e@),
            },
        ),
{
    proof {
        reveal_strlit("");
    }
    let note = if stale_warning { STALE_NOTE } else { "" };
    match outcome {
        Ok(out) => if trim_str(out.as_str()).unicode_len() == 0 {
            concat(note, "(no results)")
        } else {
            concat(note, out.as_str())
        },
        Err(e) => concat(e.as_str(), "\n(If no graph exists yet, build one with graphify_build.)"),
    }
}

// ------------------------------------------------------------------ the Google tools

/// A count asked for, or the default, capped.
pub fn capped_count(requested: Option<u64>, default: u64, cap: u64) -> (r: u64)
    ensures
        r == ({
            let n = match requested {
                Some(n) => n,
                None => default,
            };
            if n < cap { n } else { cap }
        }),
{
    let n = match requested {
        Some(n) => n,
        None => default,
    };
    if n < cap { n } else { cap }
}

/// How many days ahead the calendar tool looks: the asked number (a week by default) kept within
/// one day and a year.
pub fn days_ahead(requested: Option<i64>) -> (r: i64)
    ensures
        r == ({
            let n = match requested {
                Some(n) => n,
                None => 7,
            };
            if n < 1 { 1 } else if n > 365 { 365 } else { n }
        }),
{
    let n = match requested {
        Some(n) => n,
        None => 7,
    };
    if n < 1 { 1 } else if n > 365 { 365 } else { n }
}

/// A contact's resource name: the id as given where it already is one, else under `people/`.
pub fn contact_resource(id: &str) -> (r: String)
    ensures
        r@ == if starts_with(id@, "people/"@) { id@ } else { "people/"@ + id@ },
{
    if crate::text::str_starts_with(id, "people/") {
        id.to_string()
    } else {
        concat("people/", id)
    }
}

/// One message in the mail tool's list.
pub open spec fn email_entry(i: int, e: crate::google::EmailSummary) -> Seq<char> {
    decimal((i + 1) as nat) + ". ["@ + e.subject@ + "] From: "@ + e.from@ + "\n   Date: "@ + e.date@ + "\n   "@ + e.snippet@
}

/// What the mail tool answers for a page of messages.
pub open spec fn spec_emails_text(emails: Seq<crate::google::EmailSummary>) -> Seq<char> {
    if emails.len() == 0 {
        "No emails found."@
    } else {
        join_with(Seq::new(emails.len(), |i: int| email_entry(i, emails[i])), "\n\n"@)
    }
}

/// What the mail tool answers.
pub fn emails_text(emails: &Vec<crate::google::EmailSummary>) -> (r: String)
    ensures
        r@ == spec_emails_text(emails@),
{
    if emails.len() == 0 {
        return "No emails found.".to_string();
    }
    let mut entries: Vec<String> = Vec::new();
    let mut i: usize = 0;
    while i < emails.len()
        invariant
            i <= emails@.len(),
            entries@.len() == i,
            forall|j: int| 0 <= j < i ==> (#[trigger] entries@[j])@ == email_entry(j, emails@[j]),
        decreases emails@.len() - i,
    {
        let e = &emails[i];
        let mut t = concat(decimal_string((i + 1) as u64).as_str(), ". [");
        t = concat(t.as_str(), e.subject.as_str());
        t = concat(t.as_str(), "] From: ");
        t = concat(t.as_str(), e.from.as_str());
        t = concat(t.as_str(), "\n   Date: ");
        t = concat(t.as_str(), e.date.as_str());
        t = concat(t.as_str(), "\n   ");
        t = concat(t.as_str(), e.snippet.as_str());
        entries.push(t);
        i = i + 1;
    }
    assert(entries.deep_view() =~= Seq::new(emails@.len(), |i: int| email_entry(i, emails@[i])));
    crate::cli::join_strings(&entries, "\n\n")
}

/// One event in the calendar tool's list.
pub open spec fn event_entry(i: int, e: crate::google::CalendarEvent) -> Seq<char> {
    decimal((i + 1) as nat) + ". "@ + e.summary@ + " ("@ + e.start@ + " \u{2192} "@ + e.end@ + ")"@ + match e.location {
        Some(l) => "\n   \u{1f4cd} "@ + l@,
        None => Seq::empty(),
    }
}

/// What the calendar tool answers for the events found.
pub open spec fn spec_events_text(events: Seq<crate::google::CalendarEvent>) -> Seq<char> {
    if events.len() == 0 {
        "No events in this period."@
    } else {
        join_with(Seq::new(events.len(), |i: int| event_entry(i, events[i])), "\n"@)
    }
}

/// What the calendar tool answers.
pub fn events_text(events: &Vec<crate::google::CalendarEvent>) -> (r: String)
    ensures
        r@ == spec_events_text(events@),
{
    if events.len() == 0 {
        return "No events in this period.".to_string();
    }
    let mut entries: Vec<String> = Vec::new();
    let mut i: usize = 0;
    while i < events.len()
        invariant
            i <= events@.len(),
            entries@.len() == i,
            forall|j: int| 0 <= j < i ==> (#[trigger] entries@[j])@ == event_entry(j, events@[j]),
        decreases events@.len() - i,
    {
        let e = &events[i];
        let mut t = concat(decimal_string((i + 1) as u64).as_str(), ". ");
        t = concat(t.as_str(), e.summary.as_str());
        t = concat(t.as_str(), " (");
        t = concat(t.as_str(), e.start.as_str());
        t = concat(t.as_str(), " \u{2192} ");
        t = concat(t.as_str(), e.end.as_str());
        t = concat(t.as_str(), ")");
        match &e.location {
            Some(l) => {
                t = concat(t.as_str(), "\n   \u{1f4cd} ");
                t = concat(t.as_str(), l.as_str());
            },
            None => {
                proof {
                    reveal_strlit("");
                }
                t = concat(t.as_str(), "");
            },
        }
        entries.push(t);
        i = i + 1;
    }
    assert(entries.deep_view() =~= Seq::new(events@.len(), |i: int| event_entry(i, events@[i])));
    crate::cli::join_strings(&entries, "\n")
}

/// The values of labelled entries, joined with commas.
pub open spec fn values_joined(vs: Seq<crate::google::LabeledValue>) -> Seq<char> {
    join_with(vs.map_values(|v: crate::google::LabeledValue| v.value@), ", "@)
}

fn values_text(vs: &Vec<crate::google::LabeledValue>) -> (r: String)
    ensures
        r@ == values_joined(vs@),
{
    let mut parts: Vec<String> = Vec::new();
    let mut i: usize = 0;
    while i < vs.len()
        invariant
            i <= vs@.len(),
            parts@.len() == i,
            forall|j: int| 0 <= j < i ==> (#[trigger] parts@[j])@ == vs@[j].value@,
        decreases vs@.len() - i,
    {
        parts.push(vs[i].value.clone());
        i = i + 1;
    }
    assert(parts.deep_view() =~= vs@.map_values(|v: crate::google::LabeledValue| v.value@));
    crate::cli::join_strings(&parts, ", ")
}

/// A contact's details as the contact tools give them: a first line, then its emails, phones and
/// birthday on lines of their own where it has any, each line after a prefix.
pub open spec fn contact_lines(first: Seq<char>, prefix: Seq<char>, c: crate::google::Contact) -> Seq<Seq<char>> {
    let emails = values_joined(c.emails@);
    let phones = values_joined(c.phones@);
    seq![first] + (if emails.len() > 0 {
        seq![prefix + "Email: "@ + emails]
    } else {
        Seq::empty()
    }) + (if phones.len() > 0 {
        seq![prefix + "Phone: "@ + phones]
    } else {
        Seq::empty()
    }) + match c.birthday {
        Some(b) => seq![prefix + "Birthday: "@ + b@],
        None => Seq::empty(),
    }
}

/// The lines describing a contact.
fn contact_text(first: String, prefix: &str, c: &crate::google::Contact) -> (r: String)
    ensures
        r@ == join_with(contact_lines(first@, prefix@, *c), "\n"@),
{
    let emails = values_text(&c.emails);
    let phones = values_text(&c.phones);
    let mut parts: Vec<String> = Vec::new();
    let ghost fv = first@;
    parts.push(first);
    if emails.as_str().unicode_len() > 0 {
        parts.push(concat(concat(prefix, "Email: ").as_str(), emails.as_str()));
    }
    if phones.as_str().unicode_len() > 0 {
        parts.push(concat(concat(prefix, "Phone: ").as_str(), phones.as_str()));
    }
    if let Some(b) = &c.birthday {
        parts.push(concat(concat(prefix, "Birthday: ").as_str(), b.as_str()));
    }
    assert(parts.deep_view() =~= contact_lines(fv, prefix@, *c));
    crate::cli::join_strings(&parts, "\n")
}

/// What `read_contact` answers.
pub fn contact_details(c: &crate::google::Contact) -> (r: String)
    ensures
        r@ == join_with(contact_lines("Name: "@ + c.display_name@, Seq::empty(), *c), "\n"@),
{
    proof {
        reveal_strlit("");
    }
    contact_text(concat("Name: ", c.display_name.as_str()), "", c)
}

/// One contact in the contacts tool's list.
pub open spec fn contact_entry(i: int, c: crate::google::Contact) -> Seq<char> {
    join_with(
        contact_lines(decimal((i + 1) as nat) + ". "@ + c.display_name@ + " (id: "@ + c.id@ + ")"@, "   "@, c),
        "\n"@,
    )
}

/// What the contacts tool answers for the contacts found.
pub open spec fn spec_contacts_text(contacts: Seq<crate::google::Contact>) -> Seq<char> {
    if contacts.len() == 0 {
        "No contacts found."@
    } else {
        join_with(Seq::new(contacts.len(), |i: int| contact_entry(i, contacts[i])), "\n\n"@)
    }
}

/// What the contacts tool answers.
pub fn contacts_text(contacts: &Vec<crate::google::Contact>) -> (r: String)
    ensures
        r@ == spec_contacts_text(contacts@),
{
    if contacts.len() == 0 {
        return "No contacts found.".to_string();
    }
    let mut entries: Vec<String> = Vec::new();
    let mut i: usize = 0;
    while i < contacts.len()
        invariant
            i <= contacts@.len(),
            entries@.len() == i,
            forall|j: int| 0 <= j < i ==> (#[trigger] entries@[j])@ == contact_entry(j, contacts@[j]),
        decreases contacts@.len() - i,
    {
        let c = &contacts[i];
        let mut first = concat(decimal_string((i + 1) as u64).as_str(), ". ");
        first = concat(first.as_str(), c.display_name.as_str());
        first = concat(first.as_str(), " (id: ");
        first = concat(first.as_str(), c.id.as_str());
        first = concat(first.as_str(), ")");
        entries.push(contact_text(first, "   ", c));
        i = i + 1;
    }
    assert(entries.deep_view() =~= Seq::new(contacts@.len(), |i: int| contact_entry(i, contacts@[i])));
    crate::cli::join_strings(&entries, "\n\n")
}

} // verus!
