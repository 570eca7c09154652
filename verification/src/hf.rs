//! Hugging Face GGUF repositories: reading a repo name out of what the user pasted, the model
//! browser's entries, a repo's model card and advertised capabilities, and the quantizations a
//! repo's file list offers. The requests and downloads themselves belong to the shell.
use vstd::prelude::*;
use vstd::string::*;

use crate::caps::PartialCaps;
use crate::text::opt_string;
use crate::pattern::{capture_group, regex_group};
use crate::text::{
    chars_of, concat, contains, ends_with, eq_str, find, lower, split_char, split_chars,
    starts_with, starts_with_chars, str_contains, string_of, strip_suffix_all,
    strip_suffix_all_chars, tail_after_last, tail_after_last_chars, to_lower, to_upper, trim,
    trim_start, trim_str, upper, find_chars, slice_to_vec_range, lemma_find_range,
};

verus! {

broadcast use vstd::string::group_string_axioms;

// ------------------------------------------------------------------ the model browser

/// A Hugging Face model repo, as the trending and search lists show it.
#[derive(Debug, Clone)]
pub struct HfModel {
    pub id: String,
    pub downloads: i64,
    pub likes: i64,
    pub updated: String,
    pub pipeline_tag: Option<String>,
    pub gated: bool,
    /// The repo's tags, from which the UI derives capability chips.
    pub tags: Vec<String>,
}

/// The `gated` field of an API entry.
#[derive(Debug, Clone, Copy, PartialEq, Eq, Structural)]
pub enum GatedField {
    Absent,
    Flag(bool),
    /// Present but not a boolean (the API writes `"auto"` or `"manual"`).
    Other,
}

/// One entry of the models API, each field as found (`None` where absent or of another type).
#[derive(Debug, Clone)]
pub struct RawHfModel {
    pub id: Option<String>,
    pub downloads: Option<i64>,
    pub likes: Option<i64>,
    pub last_modified: Option<String>,
    pub pipeline_tag: Option<String>,
    pub gated: GatedField,
    /// The `tags` array, each element a string or not; `None` when there is no array.
    pub tags: Option<Vec<Option<String>>>,
}

/// A repo is gated unless the field is absent or exactly `false`.
pub open spec fn spec_gated(g: GatedField) -> bool {
    !(g == GatedField::Absent || g == GatedField::Flag(false))
}

/// The string elements of a tag array, in order.
pub open spec fn string_tags(tags: Seq<Option<String>>) -> Seq<Seq<char>>
    decreases tags.len(),
{
    if tags.len() == 0 {
        Seq::empty()
    } else {
        let before = string_tags(tags.drop_last());
        match tags.last() {
            Some(t) => before.push(t@),
            None => before,
        }
    }
}

/// The browser entry an API entry makes: missing text empty, missing counts zero, only the
/// string tags kept.
pub open spec fn entry_matches(raw: RawHfModel, m: HfModel) -> bool {
    &&& m.id@ == match raw.id { Some(s) => s@, None => Seq::empty() }
    &&& m.downloads == match raw.downloads { Some(n) => n, None => 0 }
    &&& m.likes == match raw.likes { Some(n) => n, None => 0 }
    &&& m.updated@ == match raw.last_modified { Some(s) => s@, None => Seq::empty() }
    &&& opt_string(m.pipeline_tag) == opt_string(raw.pipeline_tag)
    &&& m.gated == spec_gated(raw.gated)
    &&& m.tags.deep_view() == match raw.tags { Some(t) => string_tags(t@), None => Seq::empty() }
}

fn string_tags_of(tags: &Vec<Option<String>>) -> (r: Vec<String>)
    ensures
        r.deep_view() == string_tags(tags@),
{
    let mut r: Vec<String> = Vec::new();
    let mut i: usize = 0;
    while i < tags.len()
        invariant
            i <= tags@.len(),
            r.deep_view() == string_tags(tags@.take(i as int)),
        decreases tags@.len() - i,
    {
        assert(tags@.take(i + 1).drop_last() =~= tags@.take(i as int));
        match &tags[i] {
            Some(t) => {
                r.push(t.clone());
            },
            None => {},
        }
        i = i + 1;
    }
    assert(tags@.take(tags@.len() as int) =~= tags@);
    r
}

/// The browser entry for one API entry.
pub fn hf_model_from(raw: &RawHfModel) -> (m: HfModel)
    ensures
        entry_matches(*raw, m),
{
    let id = match &raw.id {
        Some(s) => s.clone(),
        None => String::new(),
    };
    let updated = match &raw.last_modified {
        Some(s) => s.clone(),
        None => String::new(),
    };
    let tags = match &raw.tags {
        Some(t) => string_tags_of(t),
        None => Vec::new(),
    };
    proof {
        if raw.tags is None {
            assert(tags.deep_view() =~= Seq::<Seq<char>>::empty());
        }
    }
    HfModel {
        id,
        downloads: match raw.downloads { Some(n) => n, None => 0 },
        likes: match raw.likes { Some(n) => n, None => 0 },
        updated,
        pipeline_tag: match &raw.pipeline_tag { Some(s) => Some(s.clone()), None => None },
        gated: !(raw.gated == GatedField::Absent || raw.gated == GatedField::Flag(false)),
        tags,
    }
}

/// The entries whose id is not empty, in order.
pub open spec fn kept_entries(raws: Seq<RawHfModel>) -> Seq<RawHfModel>
    decreases raws.len(),
{
    if raws.len() == 0 {
        Seq::empty()
    } else {
        let before = kept_entries(raws.drop_last());
        match raws.last().id {
            Some(s) => if s@.len() > 0 { before.push(raws.last()) } else { before },
            None => before,
        }
    }
}

/// The browser list from the API's reply: an entry per element with a non-empty id; nothing
/// when the reply is not a list.
pub fn parse_models(items: Option<Vec<RawHfModel>>) -> (r: Vec<HfModel>)
    ensures
        match items {
            Some(v) => {
                &&& r@.len() == kept_entries(v@).len()
                &&& forall|i: int| 0 <= i < r@.len() ==> entry_matches(kept_entries(v@)[i], #[trigger] r@[i])
            },
            None => r@.len() == 0,
        },
{
    let mut r: Vec<HfModel> = Vec::new();
    match items {
        None => r,
        Some(v) => {
            let mut i: usize = 0;
            while i < v.len()
                invariant
                    i <= v@.len(),
                    r@.len() == kept_entries(v@.take(i as int)).len(),
                    forall|j: int| 0 <= j < r@.len() ==> entry_matches(kept_entries(v@.take(i as int))[j], #[trigger] r@[j]),
                decreases v@.len() - i,
            {
                assert(v@.take(i + 1).drop_last() =~= v@.take(i as int));
                let m = hf_model_from(&v[i]);
                let ghost before = kept_entries(v@.take(i as int));
                if m.id.as_str().unicode_len() > 0 {
                    assert(v@[i as int].id is Some);
                    r.push(m);
                    assert(kept_entries(v@.take(i + 1)) == before.push(v@[i as int]));
                } else {
                    assert(kept_entries(v@.take(i + 1)) == before);
                }
                i = i + 1;
            }
            assert(v@.take(v@.len() as int) =~= v@);
            r
        },
    }
}

/// The models API query for a search: spaces become `+`, GGUF repos only, most downloaded first,
/// forty at most.
pub open spec fn spec_search_query(q: Seq<char>) -> Seq<char> {
    "search="@ + q.map_values(|c: char| if c == ' ' { '+' } else { c })
        + "&filter=gguf&sort=downloads&direction=-1&limit=40"@
}

/// The query string for a model search.
pub fn search_query(q: &str) -> (r: String)
    ensures
        r@ == spec_search_query(q@),
{
    let cs = chars_of(q);
    let mut enc: Vec<char> = Vec::new();
    let mut i: usize = 0;
    while i < cs.len()
        invariant
            i <= cs@.len(),
            cs@ == q@,
            enc@ == cs@.take(i as int).map_values(|c: char| if c == ' ' { '+' } else { c }),
        decreases cs@.len() - i,
    {
        let c = cs[i];
        enc.push(if c == ' ' { '+' } else { c });
        assert(cs@.take(i + 1) =~= cs@.take(i as int).push(c));
        assert(enc@ =~= cs@.take(i + 1).map_values(|c: char| if c == ' ' { '+' } else { c }));
        i = i + 1;
    }
    assert(cs@.take(cs@.len() as int) =~= cs@);
    let e = string_of(enc.as_slice());
    concat(concat("search=", e.as_str()).as_str(), "&filter=gguf&sort=downloads&direction=-1&limit=40")
}

/// The models API query for the default list: trending GGUF repos, forty at most.
pub const TRENDING_QUERY: &'static str = "filter=gguf&sort=trendingScore&direction=-1&limit=40";

// ------------------------------------------------------------------ repos and cards

/// The parts of a `/`-separated text that are not empty, in order.
pub open spec fn nonempty_parts(ps: Seq<Seq<char>>) -> Seq<Seq<char>>
    decreases ps.len(),
{
    if ps.len() == 0 {
        Seq::empty()
    } else if ps.last().len() > 0 {
        nonempty_parts(ps.drop_last()).push(ps.last())
    } else {
        nonempty_parts(ps.drop_last())
    }
}

fn nonempty_parts_of(s: &[char]) -> (r: Vec<Vec<char>>)
    ensures
        r.deep_view() == nonempty_parts(split_char(s@, '/')),
{
    let parts = split_chars(s, '/');
    let mut r: Vec<Vec<char>> = Vec::new();
    let mut i: usize = 0;
    while i < parts.len()
        invariant
            i <= parts@.len(),
            parts.deep_view() == split_char(s@, '/'),
            r.deep_view() == nonempty_parts(parts.deep_view().take(i as int)),
        decreases parts@.len() - i,
    {
        assert(parts.deep_view().take(i + 1).drop_last() =~= parts.deep_view().take(i as int));
        assert(parts.deep_view()[i as int] == parts@[i as int]@);
        if parts[i].len() > 0 {
            r.push(parts[i].clone());
            assert(r.deep_view() =~= nonempty_parts(parts.deep_view().take(i as int)).push(parts@[i as int]@));
        }
        i = i + 1;
    }
    assert(parts.deep_view().take(parts@.len() as int) =~= parts.deep_view());
    r
}

/// The marker of a full model URL.
pub open spec fn hub_marker() -> Seq<char> {
    "huggingface.co/"@
}

/// `owner/name` out of a model URL (the two path segments after `huggingface.co/`) or out of a
/// bare `owner/name`, after trimming whitespace and trailing slashes.
pub open spec fn spec_parse_repo(input: Seq<char>) -> Result<Seq<char>, Seq<char>> {
    let s = strip_suffix_all(trim(input), "/"@);
    let k = find(s, hub_marker());
    if k >= 0 {
        let parts = nonempty_parts(split_char(s.skip(k + hub_marker().len()), '/'));
        if parts.len() >= 2 {
            Ok(parts[0] + "/"@ + parts[1])
        } else {
            Err("URL missing owner/name"@)
        }
    } else {
        let parts = nonempty_parts(split_char(s, '/'));
        if parts.len() == 2 {
            Ok(parts[0] + "/"@ + parts[1])
        } else {
            Err("Expected a huggingface.co model URL or 'owner/name'"@)
        }
    }
}

/// Parse `owner/name` out of a Hugging Face model URL or a bare `owner/name`.
pub fn parse_repo(input: &str) -> (r: Result<String, String>)
    ensures
        match r {
            Ok(v) => spec_parse_repo(input@) == Ok::<Seq<char>, Seq<char>>(v@),
            Err(e) => spec_parse_repo(input@) == Err::<Seq<char>, Seq<char>>(e@),
        },
{
    let t = chars_of(trim_str(input));
    let slash = chars_of("/");
    proof {
        reveal_strlit("/");
        assert(slash@ =~= "/"@);
    }
    let s = strip_suffix_all_chars(t, slash.as_slice());
    let marker = chars_of("huggingface.co/");
    match find_chars(s.as_slice(), marker.as_slice()) {
        Some(k) => {
            proof {
                lemma_find_range(s@, marker@, 0);
            }
            let n = s.len();
            assert(k + marker@.len() <= n);
            let rest = slice_to_vec_range(s.as_slice(), k + marker.len(), n);
            assert(rest@ =~= s@.skip(k + marker@.len()));
            let parts = nonempty_parts_of(rest.as_slice());
            if parts.len() >= 2 {
                assert(parts.deep_view()[0] == parts@[0]@);
                assert(parts.deep_view()[1] == parts@[1]@);
                let mut out = string_of(parts[0].as_slice());
                out.append("/");
                out.append(string_of(parts[1].as_slice()).as_str());
                Ok(out)
            } else {
                Err("URL missing owner/name".to_owned())
            }
        },
        None => {
            let parts = nonempty_parts_of(s.as_slice());
            if parts.len() == 2 {
                assert(parts.deep_view()[0] == parts@[0]@);
                assert(parts.deep_view()[1] == parts@[1]@);
                let mut out = string_of(parts[0].as_slice());
                out.append("/");
                out.append(string_of(parts[1].as_slice()).as_str());
                Ok(out)
            } else {
                Err("Expected a huggingface.co model URL or 'owner/name'".to_owned())
            }
        },
    }
}

/// A model card without its leading YAML frontmatter: when the text, left-trimmed, starts with
/// `---` and a later line starts with `---`, what follows that line's dashes, left-trimmed;
/// otherwise the text as it came.
pub open spec fn spec_card_body(text: Seq<char>) -> Seq<char> {
    let t = trim_start(text);
    if starts_with(t, "---"@) {
        let rest = t.skip(3);
        let k = find(rest, "\n---"@);
        if k >= 0 {
            trim_start(rest.skip(k + 4))
        } else {
            text
        }
    } else {
        text
    }
}

/// The model card's markdown without its frontmatter.
pub fn card_body(text: &str) -> (r: String)
    ensures
        r@ == spec_card_body(text@),
{
    let cs = chars_of(text);
    let mut lo: usize = 0;
    assert(cs@.skip(0) =~= cs@);
    while lo < cs.len() && crate::text::is_whitespace(cs[lo])
        invariant
            lo <= cs@.len(),
            cs@ == text@,
            trim_start(text@) == trim_start(cs@.skip(lo as int)),
        decreases cs@.len() - lo,
    {
        proof {
            assert(cs@.skip(lo as int).skip(1) =~= cs@.skip(lo + 1));
        }
        lo = lo + 1;
    }
    let t = slice_to_vec_range(cs.as_slice(), lo, cs.len());
    assert(t@ =~= cs@.skip(lo as int));
    proof {
        if lo < cs@.len() {
            assert(t@[0] == cs@[lo as int]);
        }
        assert(trim_start(t@) == t@);
    }
    let dashes = chars_of("---");
    proof {
        reveal_strlit("---");
        reveal_strlit("\n---");
    }
    if !starts_with_chars(t.as_slice(), dashes.as_slice()) {
        return text.to_owned();
    }
    let rest = slice_to_vec_range(t.as_slice(), 3, t.len());
    let sep = chars_of("\n---");
    match find_chars(rest.as_slice(), sep.as_slice()) {
        None => text.to_owned(),
        Some(k) => {
            proof {
                lemma_find_range(rest@, sep@, 0);
                assert(rest@ =~= t@.skip(3));
            }
            assert(k + 4 <= rest@.len());
            let after = slice_to_vec_range(rest.as_slice(), k + 4, rest.len());
            assert(after@ =~= rest@.skip(k + 4));
            let a = string_of(after.as_slice());
            trim_start_string(a.as_str())
        },
    }
}

fn trim_start_string(s: &str) -> (r: String)
    ensures
        r@ == trim_start(s@),
{
    let cs = chars_of(s);
    let mut lo: usize = 0;
    assert(cs@.skip(0) =~= cs@);
    while lo < cs.len() && crate::text::is_whitespace(cs[lo])
        invariant
            lo <= cs@.len(),
            cs@ == s@,
            trim_start(s@) == trim_start(cs@.skip(lo as int)),
        decreases cs@.len() - lo,
    {
        proof {
            assert(cs@.skip(lo as int).skip(1) =~= cs@.skip(lo + 1));
        }
        lo = lo + 1;
    }
    let t = slice_to_vec_range(cs.as_slice(), lo, cs.len());
    assert(t@ =~= cs@.skip(lo as int));
    proof {
        if lo < cs@.len() {
            assert(t@[0] == cs@[lo as int]);
        }
        assert(trim_start(t@) == t@);
    }
    string_of(t.as_slice())
}

// ------------------------------------------------------------------ advertised capabilities

/// What a repo advertises, from its lowered tags, pipeline tag and GGUF chat template: vision
/// for an image-text-to-text pipeline or a vision / multimodal tag; tools for a
/// function-calling / tool-calling tag or a template that mentions `tool_call` or `.tools`;
/// reasoning for a reasoning tag or a template that mentions `enable_thinking`, `<think>` or
/// `reasoning_content`. Each is known, true or false.
pub open spec fn spec_repo_caps(tags: Seq<Seq<char>>, pipeline: Seq<char>, template: Option<Seq<char>>) -> PartialCaps {
    let vision = pipeline == "image-text-to-text"@ || tags.contains("vision"@) || tags.contains("multimodal"@);
    let tools = tags.contains("function-calling"@) || tags.contains("tool-calling"@)
        || match template { Some(t) => contains(t, "tool_call"@) || contains(t, ".tools"@), None => false };
    let reasoning = tags.contains("reasoning"@)
        || match template {
            Some(t) => contains(t, "enable_thinking"@) || contains(t, "<think>"@) || contains(t, "reasoning_content"@),
            None => false,
        };
    PartialCaps { vision: Some(vision), tools: Some(tools), reasoning: Some(reasoning) }
}

fn has_tag(tags: &Vec<String>, t: &str) -> (r: bool)
    ensures
        r == tags.deep_view().contains(t@),
{
    let mut i: usize = 0;
    while i < tags.len()
        invariant
            i <= tags@.len(),
            forall|j: int| 0 <= j < i ==> tags.deep_view()[j] != t@,
        decreases tags@.len() - i,
    {
        if eq_str(tags[i].as_str(), t) {
            assert(tags.deep_view()[i as int] == t@);
            return true;
        }
        i = i + 1;
    }
    false
}

/// The capabilities a repo advertises on Hugging Face (`tags` and `pipeline` already lowered),
/// used where the models.dev registry does not know the repo.
pub fn repo_caps(tags: &Vec<String>, pipeline: &str, template: Option<&str>) -> (r: PartialCaps)
    ensures
        r == spec_repo_caps(tags.deep_view(), pipeline@, crate::text::opt_str(template)),
{
    let vision = eq_str(pipeline, "image-text-to-text") || has_tag(tags, "vision") || has_tag(tags, "multimodal");
    let tools = has_tag(tags, "function-calling") || has_tag(tags, "tool-calling") || match template {
        Some(t) => str_contains(t, "tool_call") || str_contains(t, ".tools"),
        None => false,
    };
    let reasoning = has_tag(tags, "reasoning") || match template {
        Some(t) => str_contains(t, "enable_thinking") || str_contains(t, "<think>") || str_contains(t, "reasoning_content"),
        None => false,
    };
    PartialCaps { vision: Some(vision), tools: Some(tools), reasoning: Some(reasoning) }
}


// ------------------------------------------------------------------ quantizations

/// One selectable quantization of a repo, e.g. `Q4_K_M`, possibly split over several files.
#[derive(Debug, Clone)]
pub struct QuantOption {
    pub quant: String,
    /// The files' paths within the repo, in order.
    pub files: Vec<String>,
    /// The total size of the files, in bytes.
    pub size: i64,
}

/// A vision projector: its base name, lowered, starts with `mmproj`. It is fetched alongside a
/// model, never offered as one.
pub open spec fn spec_is_mmproj(filename: Seq<char>) -> bool {
    starts_with(lower(tail_after_last(filename, "/"@)), "mmproj"@)
}

/// Whether a file is a vision projector.
pub fn is_mmproj(filename: &str) -> (r: bool)
    ensures
        r == spec_is_mmproj(filename@),
{
    let cs = chars_of(filename);
    let slash = chars_of("/");
    let base = string_of(tail_after_last_chars(cs.as_slice(), slash.as_slice()).as_slice());
    let lowered = to_lower(base.as_str());
    let lc = chars_of(lowered.as_str());
    let prefix = chars_of("mmproj");
    starts_with_chars(lc.as_slice(), prefix.as_slice())
}

/// The quantization tag of a GGUF file name: `Q`/`IQ` and a digit and more, or `F16`, `F32`,
/// `BF16`, after a `.` or `-`, before an optional `-NNNNN-of-NNNNN` part suffix and `.gguf`, in
/// any case.
pub const QUANT_PATTERN: &'static str = r"(?i)[.-]((?:IQ|Q)\d[A-Z0-9_]*|F16|F32|BF16)(?:-\d+-of-\d+)?\.gguf$";

/// The tag the pattern captures, upper-cased.
pub open spec fn spec_quant_of(filename: Seq<char>) -> Option<Seq<char>> {
    match regex_group(QUANT_PATTERN@, filename, 1) {
        Some(g) => Some(upper(g)),
        None => None,
    }
}

/// The quantization tag of a file name, upper-cased; `None` for anything that is not one.
pub fn quant_of(filename: &str) -> (r: Option<String>)
    ensures
        opt_string(r) == spec_quant_of(filename@),
{
    match capture_group(QUANT_PATTERN, filename, 1) {
        Some(g) => Some(to_upper(g.as_str())),
        None => None,
    }
}

/// The quantization a repo file is offered under: none for a projector or a file with no tag.
pub open spec fn quant_key(path: Seq<char>) -> Option<Seq<char>> {
    if spec_is_mmproj(path) {
        None
    } else {
        spec_quant_of(path)
    }
}

/// The view of a repo file list: each path's text and its size.
pub open spec fn file_views(files: Seq<(String, i64)>) -> Seq<(Seq<char>, i64)> {
    files.map_values(|f: (String, i64)| (f.0@, f.1))
}

/// The files offered under quantization `k`, in order.
pub open spec fn members(fs: Seq<(Seq<char>, i64)>, k: Seq<char>) -> Seq<(Seq<char>, i64)>
    decreases fs.len(),
{
    if fs.len() == 0 {
        Seq::empty()
    } else if quant_key(fs.last().0) == Some(k) {
        members(fs.drop_last(), k).push(fs.last())
    } else {
        members(fs.drop_last(), k)
    }
}

/// The paths of the files offered under `k`, in order.
pub open spec fn member_paths(fs: Seq<(Seq<char>, i64)>, k: Seq<char>) -> Seq<Seq<char>> {
    members(fs, k).map_values(|f: (Seq<char>, i64)| f.0)
}

/// The total size of the files offered under `k`.
pub open spec fn group_size(fs: Seq<(Seq<char>, i64)>, k: Seq<char>) -> int
    decreases fs.len(),
{
    if fs.len() == 0 {
        0
    } else if quant_key(fs.last().0) == Some(k) {
        group_size(fs.drop_last(), k) + fs.last().1
    } else {
        group_size(fs.drop_last(), k)
    }
}

/// The sum of the sizes' magnitudes.
pub open spec fn abs_total(fs: Seq<(Seq<char>, i64)>) -> int
    decreases fs.len(),
{
    if fs.len() == 0 {
        0
    } else {
        abs_total(fs.drop_last()) + if fs.last().1 < 0 { -fs.last().1 } else { fs.last().1 as int }
    }
}

/// Texts in order (`str`'s order; equal texts keep their order).
pub open spec fn sorted_texts(ps: Seq<Seq<char>>) -> Seq<Seq<char>> {
    crate::order::stable_sorted(ps.map_values(|p: Seq<char>| (p, p))).map_values(
        |x: (Seq<char>, Seq<char>)| x.1,
    )
}

/// Some file is offered under `k`.
pub open spec fn offered(fs: Seq<(Seq<char>, i64)>, k: Seq<char>) -> bool {
    exists|j: int| 0 <= j < fs.len() && quant_key(#[trigger] fs[j].0) == Some(k)
}

/// One quantization as the list shows it: a tag some file is offered under, that tag's files
/// in order, and their total size.
pub open spec fn is_group_of(fs: Seq<(Seq<char>, i64)>, q: QuantOption) -> bool {
    &&& offered(fs, q.quant@)
    &&& q.files.deep_view() == sorted_texts(member_paths(fs, q.quant@))
    &&& q.size == group_size(fs, q.quant@)
}

/// `a` is listed before `b`: smaller first, and among equal sizes by tag.
pub open spec fn quant_before(a: QuantOption, b: QuantOption) -> bool {
    a.size < b.size || (a.size == b.size && crate::order::lex_lt(a.quant@, b.quant@))
}

/// The quantization list of a repo: one entry per tag that some file other than a projector is
/// offered under, each with its files sorted and their sizes summed, smallest total first and
/// equal totals by tag.
pub open spec fn is_quant_list(fs: Seq<(Seq<char>, i64)>, r: Seq<QuantOption>) -> bool {
    &&& forall|i: int| 0 <= i < r.len() ==> is_group_of(fs, #[trigger] r[i])
    &&& forall|j: int| 0 <= j < fs.len() && (#[trigger] quant_key(fs[j].0)) is Some ==>
            exists|i: int| 0 <= i < r.len() && Some(#[trigger] r[i].quant@) == quant_key(fs[j].0)
    &&& forall|i: int, j: int| 0 <= i < j < r.len() ==> quant_before(#[trigger] r[i], #[trigger] r[j])
}

proof fn lemma_group_size_bound(fs: Seq<(Seq<char>, i64)>, k: Seq<char>)
    ensures
        -abs_total(fs) <= group_size(fs, k) <= abs_total(fs),
        abs_total(fs) >= 0,
    decreases fs.len(),
{
    if fs.len() > 0 {
        lemma_group_size_bound(fs.drop_last(), k);
    }
}

proof fn lemma_abs_total_prefix(fs: Seq<(Seq<char>, i64)>, i: int)
    requires
        0 <= i <= fs.len(),
    ensures
        abs_total(fs.take(i)) <= abs_total(fs),
    decreases fs.len() - i,
{
    if i < fs.len() {
        lemma_abs_total_prefix(fs, i + 1);
        assert(fs.take(i + 1).drop_last() =~= fs.take(i));
        lemma_group_size_bound(fs.take(i), Seq::empty());
    } else {
        assert(fs.take(i) =~= fs);
    }
}

proof fn lemma_quant_before_transitive(a: QuantOption, b: QuantOption, c: QuantOption)
    requires
        quant_before(a, b),
        quant_before(b, c),
    ensures
        quant_before(a, c),
{
    if a.size == b.size && b.size == c.size {
        crate::order::lemma_lex_transitive(a.quant@, b.quant@, c.quant@);
    }
}

/// Where the tag `q` already has a group.
fn find_group(groups: &Vec<QuantOption>, q: &str) -> (r: Option<usize>)
    ensures
        match r {
            Some(g) => g < groups@.len() && groups@[g as int].quant@ == q@,
            None => forall|g: int| 0 <= g < groups@.len() ==> (#[trigger] groups@[g]).quant@ != q@,
        },
{
    let mut g: usize = 0;
    while g < groups.len()
        invariant
            g <= groups@.len(),
            forall|h: int| 0 <= h < g ==> (#[trigger] groups@[h]).quant@ != q@,
        decreases groups@.len() - g,
    {
        if eq_str(groups[g].quant.as_str(), q) {
            return Some(g);
        }
        g = g + 1;
    }
    None
}

/// Texts sorted the way `str` orders them.
fn sort_texts(v: Vec<String>) -> (r: Vec<String>)
    ensures
        r.deep_view() == sorted_texts(v.deep_view()),
{
    let mut keys: Vec<Vec<char>> = Vec::new();
    let mut i: usize = 0;
    while i < v.len()
        invariant
            i <= v@.len(),
            keys@.len() == i,
            forall|j: int| 0 <= j < i ==> (#[trigger] keys@[j])@ == v@[j]@,
        decreases v@.len() - i,
    {
        keys.push(chars_of(v[i].as_str()));
        i = i + 1;
    }
    let ghost kv = crate::order::keyed_view(keys@, v@);
    let r = crate::order::sort_by_keys(v, keys);
    proof {
        let f = |s: String| s@;
        crate::order::lemma_sorted_map(kv, f);
        assert(crate::order::map_items(kv, f) =~= v.deep_view().map_values(|p: Seq<char>| (p, p)));
        let sorted = crate::order::stable_sorted(kv);
        assert(r.deep_view() =~= crate::order::map_items(sorted, f).map_values(
            |x: (Seq<char>, Seq<char>)| x.1,
        ));
    }
    r
}

/// Group the files of a repo by quantization (projectors left out), summing sizes over the parts
/// of a split quantization; the list comes smallest first.
pub fn group_quants(files: &Vec<(String, i64)>) -> (r: Vec<QuantOption>)
    requires
        abs_total(file_views(files@)) <= i64::MAX,
    ensures
        is_quant_list(file_views(files@), r@),
{
    let ghost fs = file_views(files@);
    let mut groups: Vec<QuantOption> = Vec::new();
    let mut i: usize = 0;
    while i < files.len()
        invariant
            i <= files@.len(),
            fs == file_views(files@),
            abs_total(fs) <= i64::MAX,
            forall|g: int| 0 <= g < groups@.len() ==> offered(fs.take(i as int), (#[trigger] groups@[g]).quant@),
            forall|g: int| 0 <= g < groups@.len() ==> (#[trigger] groups@[g]).files.deep_view()
                == member_paths(fs.take(i as int), groups@[g].quant@),
            forall|g: int| 0 <= g < groups@.len() ==> (#[trigger] groups@[g]).size == group_size(fs.take(i as int), groups@[g].quant@),
            forall|j: int| 0 <= j < i && (#[trigger] quant_key(fs[j].0)) is Some ==>
                exists|g: int| 0 <= g < groups@.len() && Some(#[trigger] groups@[g].quant@) == quant_key(fs[j].0),
            forall|g: int, h: int| 0 <= g < h < groups@.len() ==> (#[trigger] groups@[g]).quant@ != (#[trigger] groups@[h]).quant@,
        decreases files@.len() - i,
    {
        let ghost pre = fs.take(i as int);
        let ghost next = fs.take(i + 1);
        proof {
            assert(next.drop_last() =~= pre);
            assert(next.last() == fs[i as int]);
            assert(fs[i as int] == (files@[i as int].0@, files@[i as int].1));
            lemma_abs_total_prefix(fs, i + 1);
            assert forall|k: Seq<char>| offered(pre, k) implies offered(next, k) by {
                let j = choose|j: int| 0 <= j < pre.len() && quant_key(#[trigger] pre[j].0) == Some(k);
                assert(next[j] == pre[j]);
            }
        }
        let path = &files[i].0;
        let size = files[i].1;
        let key = if is_mmproj(path.as_str()) { None } else { quant_of(path.as_str()) };
        assert(opt_string(key) == quant_key(fs[i as int].0));
        match key {
            None => {
                proof {
                    assert forall|g: int| 0 <= g < groups@.len() implies
                        (#[trigger] groups@[g]).files.deep_view() == member_paths(next, groups@[g].quant@)
                        && groups@[g].size == group_size(next, groups@[g].quant@) by {
                        assert(members(next, groups@[g].quant@) == members(pre, groups@[g].quant@));
                    }
                }
            },
            Some(q) => {
                let ghost kq = q@;
                proof {
                    assert(next[i as int] == fs[i as int]);
                    assert(offered(next, kq));
                }
                match find_group(&groups, q.as_str()) {
                    Some(g) => {
                        let ghost old_groups = groups@;
                        let mut e = groups.remove(g);
                        proof {
                            lemma_group_size_bound(next, kq);
                            assert(members(next, kq) == members(pre, kq).push(fs[i as int]));
                        }
                        let ghost before_files = e.files.deep_view();
                        assert(before_files == member_paths(pre, kq));
                        let pc = path.clone();
                        assert(pc@ == fs[i as int].0);
                        e.files.push(pc);
                        e.size = e.size + size;
                        assert(e.files.deep_view() =~= before_files.push(fs[i as int].0));
                        assert(member_paths(next, kq) =~= member_paths(pre, kq).push(fs[i as int].0));
                        groups.insert(g, e);
                        proof {
                            assert forall|h: int| 0 <= h < groups@.len() && h != g implies
                                (#[trigger] groups@[h]) == old_groups[h] by {}
                            assert forall|h: int| 0 <= h < groups@.len() implies
                                (#[trigger] groups@[h]).files.deep_view() == member_paths(next, groups@[h].quant@)
                                && groups@[h].size == group_size(next, groups@[h].quant@)
                                && offered(next, groups@[h].quant@) by {
                                if h != g {
                                    assert(groups@[h] == old_groups[h]);
                                    assert(members(next, groups@[h].quant@) == members(pre, groups@[h].quant@));
                                }
                            }
                            assert forall|j: int| 0 <= j < i + 1 && (#[trigger] quant_key(fs[j].0)) is Some implies
                                exists|h: int| 0 <= h < groups@.len() && Some(#[trigger] groups@[h].quant@) == quant_key(fs[j].0) by {
                                if j < i {
                                    let h = choose|h: int| 0 <= h < old_groups.len() && Some(#[trigger] old_groups[h].quant@) == quant_key(fs[j].0);
                                    assert(groups@[h].quant@ == old_groups[h].quant@);
                                } else {
                                    assert(groups@[g as int].quant@ == kq);
                                }
                            }
                            assert forall|a: int, b: int| 0 <= a < b < groups@.len() implies
                                (#[trigger] groups@[a]).quant@ != (#[trigger] groups@[b]).quant@ by {
                                assert(groups@[a].quant@ == old_groups[a].quant@);
                                assert(groups@[b].quant@ == old_groups[b].quant@);
                            }
                        }
                    },
                    None => {
                        let ghost old_groups = groups@;
                        let mut fl: Vec<String> = Vec::new();
                        fl.push(path.clone());
                        proof {
                            assert(members(pre, kq) =~= Seq::<(Seq<char>, i64)>::empty()) by {
                                lemma_no_members(pre, kq, old_groups);
                            }
                            lemma_group_size_zero(pre, kq);
                            assert(members(next, kq) == members(pre, kq).push(fs[i as int]));
                            assert(fl.deep_view() =~= member_paths(next, kq));
                        }
                        groups.push(QuantOption { quant: q, files: fl, size });
                        proof {
                            assert forall|h: int| 0 <= h < groups@.len() implies
                                (#[trigger] groups@[h]).files.deep_view() == member_paths(next, groups@[h].quant@)
                                && groups@[h].size == group_size(next, groups@[h].quant@)
                                && offered(next, groups@[h].quant@) by {
                                if h < old_groups.len() {
                                    assert(groups@[h] == old_groups[h]);
                                    assert(members(next, groups@[h].quant@) == members(pre, groups@[h].quant@));
                                }
                            }
                            assert forall|j: int| 0 <= j < i + 1 && (#[trigger] quant_key(fs[j].0)) is Some implies
                                exists|h: int| 0 <= h < groups@.len() && Some(#[trigger] groups@[h].quant@) == quant_key(fs[j].0) by {
                                if j < i {
                                    let h = choose|h: int| 0 <= h < old_groups.len() && Some(#[trigger] old_groups[h].quant@) == quant_key(fs[j].0);
                                    assert(groups@[h] == old_groups[h]);
                                } else {
                                    assert(groups@[old_groups.len() as int].quant@ == kq);
                                }
                            }
                        }
                    },
                }
            },
        }
        i = i + 1;
    }
    proof {
        assert(fs.take(files@.len() as int) =~= fs);
        reveal(gathered);
    }
    order_groups(groups, Ghost(fs))
}

proof fn lemma_no_members(fs: Seq<(Seq<char>, i64)>, k: Seq<char>, groups: Seq<QuantOption>)
    requires
        forall|g: int| 0 <= g < groups.len() ==> (#[trigger] groups[g]).quant@ != k,
        forall|j: int| 0 <= j < fs.len() && (#[trigger] quant_key(fs[j].0)) is Some ==>
            exists|g: int| 0 <= g < groups.len() && Some(#[trigger] groups[g].quant@) == quant_key(fs[j].0),
    ensures
        members(fs, k) =~= Seq::<(Seq<char>, i64)>::empty(),
    decreases fs.len(),
{
    if fs.len() > 0 {
        let last = fs.len() - 1;
        assert(fs.last() == fs[last]);
        if quant_key(fs[last].0) == Some(k) {
            let g = choose|g: int| 0 <= g < groups.len() && Some(#[trigger] groups[g].quant@) == quant_key(fs[last].0);
            assert(false);
        }
        assert forall|j: int| 0 <= j < fs.drop_last().len() && (#[trigger] quant_key(fs.drop_last()[j].0)) is Some implies
            exists|g: int| 0 <= g < groups.len() && Some(#[trigger] groups[g].quant@) == quant_key(fs.drop_last()[j].0) by {
            assert(fs.drop_last()[j] == fs[j]);
        }
        lemma_no_members(fs.drop_last(), k, groups);
    }
}

proof fn lemma_group_size_zero(fs: Seq<(Seq<char>, i64)>, k: Seq<char>)
    requires
        members(fs, k).len() == 0,
    ensures
        group_size(fs, k) == 0,
    decreases fs.len(),
{
    if fs.len() > 0 {
        lemma_group_size_zero(fs.drop_last(), k);
    }
}

/// The gathered groups: each a tag some file is offered under, with that tag's files in file
/// order and their total, no tag twice.
#[verifier::opaque]
pub open spec fn gathered(fs: Seq<(Seq<char>, i64)>, orig: Seq<QuantOption>) -> bool {
    &&& forall|g: int| 0 <= g < orig.len() ==> offered(fs, (#[trigger] orig[g]).quant@)
    &&& forall|g: int| 0 <= g < orig.len() ==> (#[trigger] orig[g]).files.deep_view() == member_paths(fs, orig[g].quant@)
    &&& forall|g: int| 0 <= g < orig.len() ==> (#[trigger] orig[g]).size == group_size(fs, orig[g].quant@)
    &&& forall|g: int, h: int| 0 <= g < h < orig.len() ==> (#[trigger] orig[g]).quant@ != (#[trigger] orig[h]).quant@
}

/// `out` holds, as list entries, exactly the tags of `orig` from `m` on.
#[verifier::opaque]
pub open spec fn placed(fs: Seq<(Seq<char>, i64)>, orig: Seq<QuantOption>, m: int, out: Seq<QuantOption>) -> bool {
    &&& forall|i: int| 0 <= i < out.len() ==> is_group_of(fs, #[trigger] out[i])
    &&& forall|i: int| 0 <= i < out.len() ==> exists|g: int| m <= g < orig.len() && (#[trigger] out[i]).quant@ == orig[g].quant@
    &&& forall|g: int| m <= g < orig.len() ==> exists|i: int| 0 <= i < out.len() && (#[trigger] out[i]).quant@ == (#[trigger] orig[g]).quant@
}

proof fn lemma_next_group(fs: Seq<(Seq<char>, i64)>, orig: Seq<QuantOption>, m: int, out: Seq<QuantOption>, e: QuantOption)
    requires
        gathered(fs, orig),
        placed(fs, orig, m + 1, out),
        0 <= m < orig.len(),
        e.quant == orig[m].quant,
        e.size == orig[m].size,
        e.files.deep_view() == sorted_texts(orig[m].files.deep_view()),
    ensures
        is_group_of(fs, e),
        forall|i: int| 0 <= i < out.len() ==> (#[trigger] out[i]).quant@ != e.quant@,
{
    reveal(gathered);
    reveal(placed);
    assert forall|i: int| 0 <= i < out.len() implies (#[trigger] out[i]).quant@ != e.quant@ by {
        let g = choose|g: int| m + 1 <= g < orig.len() && out[i].quant@ == orig[g].quant@;
        assert(orig[m].quant@ != orig[g].quant@);
    }
}

#[verifier::rlimit(40)]
#[verifier::spinoff_prover]
proof fn lemma_placed_insert(fs: Seq<(Seq<char>, i64)>, orig: Seq<QuantOption>, m: int, out: Seq<QuantOption>, e: QuantOption, p: int)
    requires
        placed(fs, orig, m + 1, out),
        0 <= m < orig.len(),
        0 <= p <= out.len(),
        e.quant == orig[m].quant,
        is_group_of(fs, e),
    ensures
        placed(fs, orig, m, out.insert(p, e)),
{
    reveal(placed);
    let u = out.insert(p, e);
    assert forall|i: int| 0 <= i < u.len() implies is_group_of(fs, #[trigger] u[i])
        && exists|g: int| m <= g < orig.len() && (#[trigger] u[i]).quant@ == orig[g].quant@ by {
        if i < p {
            assert(u[i] == out[i]);
        } else if i == p {
            assert(u[i].quant@ == orig[m].quant@);
        } else {
            assert(u[i] == out[i - 1]);
        }
    }
    assert forall|g: int| m <= g < orig.len() implies exists|i: int| 0 <= i < u.len() && (#[trigger] u[i]).quant@ == (#[trigger] orig[g]).quant@ by {
        if g == m {
            assert(u[p].quant@ == orig[g].quant@);
        } else {
            let i = choose|i: int| 0 <= i < out.len() && (#[trigger] out[i]).quant@ == orig[g].quant@;
            if i < p {
                assert(u[i] == out[i]);
            } else {
                assert(u[i + 1] == out[i]);
            }
        }
    }
}

proof fn lemma_placed_all(fs: Seq<(Seq<char>, i64)>, orig: Seq<QuantOption>, out: Seq<QuantOption>)
    requires
        placed(fs, orig, 0, out),
        in_order(out),
        forall|j: int| 0 <= j < fs.len() && (#[trigger] quant_key(fs[j].0)) is Some ==>
            exists|g: int| 0 <= g < orig.len() && Some(#[trigger] orig[g].quant@) == quant_key(fs[j].0),
    ensures
        is_quant_list(fs, out),
{
    reveal(placed);
    assert forall|j: int| 0 <= j < fs.len() && (#[trigger] quant_key(fs[j].0)) is Some implies
        exists|i: int| 0 <= i < out.len() && Some(#[trigger] out[i].quant@) == quant_key(fs[j].0) by {
        let g = choose|g: int| 0 <= g < orig.len() && Some(#[trigger] orig[g].quant@) == quant_key(fs[j].0);
        let i = choose|i: int| 0 <= i < out.len() && (#[trigger] out[i]).quant@ == (#[trigger] orig[g]).quant@;
        assert(Some(out[i].quant@) == quant_key(fs[j].0));
    }
}

/// The groups put in list order, each one's files sorted.
fn order_groups(groups: Vec<QuantOption>, Ghost(fs): Ghost<Seq<(Seq<char>, i64)>>) -> (r: Vec<QuantOption>)
    requires
        gathered(fs, groups@),
        forall|j: int| 0 <= j < fs.len() && (#[trigger] quant_key(fs[j].0)) is Some ==>
            exists|g: int| 0 <= g < groups@.len() && Some(#[trigger] groups@[g].quant@) == quant_key(fs[j].0),
    ensures
        is_quant_list(fs, r@),
{
    let ghost orig = groups@;
    let mut groups = groups;
    let mut out: Vec<QuantOption> = Vec::new();
    proof {
        reveal(placed);
    }
    while groups.len() > 0
        invariant
            groups@ == orig.take(groups@.len() as int),
            groups@.len() <= orig.len(),
            gathered(fs, orig),
            placed(fs, orig, groups@.len() as int, out@),
            in_order(out@),
        decreases groups@.len(),
    {
        let ghost m = groups@.len() - 1;
        let e = match groups.pop() {
            Some(e) => e,
            None => {
                return out;
            },
        };
        assert(e == orig[m]);
        let QuantOption { quant, files, size } = e;
        let sorted = sort_texts(files);
        let e = QuantOption { quant, files: sorted, size };
        proof {
            lemma_next_group(fs, orig, m, out@, e);
        }
        let ek = chars_of(e.quant.as_str());
        let mut p: usize = 0;
        while p < out.len() && !before_exec(&e, ek.as_slice(), &out[p])
            invariant
                p <= out@.len(),
                ek@ == e.quant@,
                forall|i: int| 0 <= i < p ==> !quant_before(e, #[trigger] out@[i]),
            decreases out@.len() - p,
        {
            p = p + 1;
        }
        let ghost old_out = out@;
        out.insert(p, e);
        proof {
            lemma_insert_in_order(old_out, e, p as int);
            lemma_placed_insert(fs, orig, m, old_out, e, p as int);
            assert(groups@ =~= orig.take(m));
        }
    }
    proof {
        lemma_placed_all(fs, orig, out@);
    }
    out
}

/// Listed in order, no tag twice.
pub open spec fn in_order(s: Seq<QuantOption>) -> bool {
    &&& forall|i: int, j: int| 0 <= i < j < s.len() ==> quant_before(#[trigger] s[i], #[trigger] s[j])
    &&& forall|i: int, j: int| 0 <= i < j < s.len() ==> (#[trigger] s[i]).quant@ != (#[trigger] s[j]).quant@
}

/// Inserting a new tag where the list first goes after it keeps the list in order.
proof fn lemma_insert_in_order(s: Seq<QuantOption>, e: QuantOption, p: int)
    requires
        in_order(s),
        0 <= p <= s.len(),
        forall|i: int| 0 <= i < p ==> !quant_before(e, #[trigger] s[i]),
        p < s.len() ==> quant_before(e, s[p]),
        forall|i: int| 0 <= i < s.len() ==> (#[trigger] s[i]).quant@ != e.quant@,
    ensures
        in_order(s.insert(p, e)),
{
    let u = s.insert(p, e);
    assert forall|i: int| 0 <= i < p implies quant_before(#[trigger] s[i], e) by {
        crate::order::lemma_lex_total(s[i].quant@, e.quant@);
    }
    assert forall|i: int, j: int| 0 <= i < j < u.len() implies quant_before(#[trigger] u[i], #[trigger] u[j])
        && u[i].quant@ != u[j].quant@ by {
        if j < p {
            assert(u[i] == s[i] && u[j] == s[j]);
        } else if j == p {
            assert(u[i] == s[i]);
        } else if i == p {
            assert(u[j] == s[j - 1]);
            if j - 1 > p {
                lemma_quant_before_transitive(e, s[p], s[j - 1]);
            }
        } else if i < p {
            assert(u[i] == s[i] && u[j] == s[j - 1]);
            if j - 1 > p {
                lemma_quant_before_transitive(e, s[p], s[j - 1]);
            }
            lemma_quant_before_transitive(s[i], e, s[j - 1]);
        } else {
            assert(u[i] == s[i - 1] && u[j] == s[j - 1]);
        }
    }
}

/// Whether `a` (whose tag's characters are `ak`) is listed before `b`.
fn before_exec(a: &QuantOption, ak: &[char], b: &QuantOption) -> (r: bool)
    requires
        ak@ == a.quant@,
    ensures
        r == quant_before(*a, *b),
{
    if a.size < b.size {
        true
    } else if a.size == b.size {
        let bk = chars_of(b.quant.as_str());
        crate::order::text_lt(ak, bk.as_slice())
    } else {
        false
    }
}


// ------------------------------------------------------------------ projectors, trees, models

/// A projector file, lowered path mentioning `f16` or not as asked.
pub open spec fn is_proj(f: (Seq<char>, i64), want_f16: bool) -> bool {
    spec_is_mmproj(f.0) && (!want_f16 || contains(lower(f.0), "f16"@))
}

/// `x` is the first file of `fs` that `is_proj(_, want_f16)` holds of.
pub open spec fn first_proj(fs: Seq<(Seq<char>, i64)>, want_f16: bool, x: (Seq<char>, i64)) -> bool {
    exists|j: int| 0 <= j < fs.len() && fs[j] == x && is_proj(#[trigger] fs[j], want_f16)
        && forall|k: int| 0 <= k < j ==> !is_proj(#[trigger] fs[k], want_f16)
}

/// The repo's vision projector: the first projector whose path mentions `f16`, else the first
/// projector, else none.
pub open spec fn is_mmproj_choice(fs: Seq<(Seq<char>, i64)>, r: Option<(Seq<char>, i64)>) -> bool {
    if exists|j: int| 0 <= j < fs.len() && is_proj(#[trigger] fs[j], true) {
        r matches Some(x) && first_proj(fs, true, x)
    } else if exists|j: int| 0 <= j < fs.len() && is_proj(#[trigger] fs[j], false) {
        r matches Some(x) && first_proj(fs, false, x)
    } else {
        r is None
    }
}

fn first_proj_index(files: &Vec<(String, i64)>, want_f16: bool) -> (r: Option<usize>)
    ensures
        match r {
            Some(j) => j < files@.len() && is_proj(file_views(files@)[j as int], want_f16)
                && forall|k: int| 0 <= k < j ==> !is_proj(#[trigger] file_views(files@)[k], want_f16),
            None => forall|k: int| 0 <= k < files@.len() ==> !is_proj(#[trigger] file_views(files@)[k], want_f16),
        },
{
    let ghost fs = file_views(files@);
    let mut j: usize = 0;
    while j < files.len()
        invariant
            j <= files@.len(),
            fs == file_views(files@),
            forall|k: int| 0 <= k < j ==> !is_proj(#[trigger] fs[k], want_f16),
        decreases files@.len() - j,
    {
        let path = files[j].0.as_str();
        assert(fs[j as int].0 == path@);
        let hit = is_mmproj(path) && (!want_f16 || {
            let l = to_lower(path);
            str_contains(l.as_str(), "f16")
        });
        if hit {
            return Some(j);
        }
        j = j + 1;
    }
    None
}

/// The repo's vision projector (path and size), if it ships one; an `f16` one is preferred.
pub fn find_mmproj(files: &Vec<(String, i64)>) -> (r: Option<(String, i64)>)
    ensures
        is_mmproj_choice(file_views(files@), match r { Some(x) => Some((x.0@, x.1)), None => None }),
{
    let ghost fs = file_views(files@);
    match first_proj_index(files, true) {
        Some(j) => {
            let r = (files[j].0.clone(), files[j].1);
            assert(first_proj(fs, true, fs[j as int]));
            Some(r)
        },
        None => match first_proj_index(files, false) {
            Some(j) => {
                let r = (files[j].0.clone(), files[j].1);
                assert(first_proj(fs, false, fs[j as int]));
                Some(r)
            },
            None => None,
        },
    }
}

/// The message when a repo offers no model file.
pub open spec fn no_quants_message() -> Seq<char> {
    "No .gguf model files found in that repo"@
}

/// A repo's quantization list, or an error when it offers none.
pub fn quant_list(files: &Vec<(String, i64)>) -> (r: Result<Vec<QuantOption>, String>)
    requires
        abs_total(file_views(files@)) <= i64::MAX,
    ensures
        match r {
            Ok(q) => is_quant_list(file_views(files@), q@) && q@.len() > 0,
            Err(e) => e@ == no_quants_message()
                && forall|q: Seq<QuantOption>| is_quant_list(file_views(files@), q) ==> q.len() == 0,
        },
{
    let q = group_quants(files);
    if q.len() == 0 {
        proof {
            lemma_quant_list_size(file_views(files@), q@);
        }
        Err("No .gguf model files found in that repo".to_owned())
    } else {
        Ok(q)
    }
}

/// Whether two quantization lists of one file list are empty together.
proof fn lemma_quant_list_size(fs: Seq<(Seq<char>, i64)>, q: Seq<QuantOption>)
    requires
        is_quant_list(fs, q),
        q.len() == 0,
    ensures
        forall|r: Seq<QuantOption>| is_quant_list(fs, r) ==> r.len() == 0,
{
    assert forall|r: Seq<QuantOption>| is_quant_list(fs, r) implies r.len() == 0 by {
        if r.len() > 0 {
            assert(is_group_of(fs, r[0]));
            let j = choose|j: int| 0 <= j < fs.len() && quant_key(#[trigger] fs[j].0) == Some(r[0].quant@);
            assert(quant_key(fs[j].0) is Some);
        }
    }
}

/// One entry of a repo's file tree, as the tree API gives it.
#[derive(Debug, Clone)]
pub struct TreeEntry {
    pub path: Option<String>,
    /// `lfs.size`, where the file is stored in LFS.
    pub lfs_size: Option<i64>,
    pub size: Option<i64>,
}

/// The GGUF files of a tree: entries with a path ending, lowered, in `.gguf`, each with its LFS
/// size, else its plain size, else zero.
pub open spec fn tree_gguf(es: Seq<TreeEntry>) -> Seq<(Seq<char>, i64)>
    decreases es.len(),
{
    if es.len() == 0 {
        Seq::empty()
    } else {
        let before = tree_gguf(es.drop_last());
        let e = es.last();
        match e.path {
            Some(p) => if ends_with(lower(p@), ".gguf"@) {
                before.push((p@, match e.lfs_size { Some(n) => n, None => match e.size { Some(n) => n, None => 0 } }))
            } else {
                before
            },
            None => before,
        }
    }
}

/// The `(path, size)` of every GGUF file in a repo's tree.
pub fn tree_files(entries: &Vec<TreeEntry>) -> (r: Vec<(String, i64)>)
    ensures
        file_views(r@) == tree_gguf(entries@),
{
    let mut r: Vec<(String, i64)> = Vec::new();
    let mut i: usize = 0;
    while i < entries.len()
        invariant
            i <= entries@.len(),
            file_views(r@) == tree_gguf(entries@.take(i as int)),
        decreases entries@.len() - i,
    {
        assert(entries@.take(i + 1).drop_last() =~= entries@.take(i as int));
        let e = &entries[i];
        match &e.path {
            Some(p) => {
                let l = to_lower(p.as_str());
                if crate::text::str_ends_with(l.as_str(), ".gguf") {
                    let size = match e.lfs_size {
                        Some(n) => n,
                        None => match e.size { Some(n) => n, None => 0 },
                    };
                    r.push((p.clone(), size));
                    assert(file_views(r@) =~= tree_gguf(entries@.take(i as int)).push((p@, size)));
                }
            },
            None => {},
        }
        i = i + 1;
    }
    assert(entries@.take(entries@.len() as int) =~= entries@);
    r
}

/// The id of a local model: `<repo>::<quant>`.
pub open spec fn spec_model_id(repo: Seq<char>, quant: Seq<char>) -> Seq<char> {
    repo + "::"@ + quant
}

/// The local model id for a repo's quantization.
pub fn model_id(repo: &str, quant: &str) -> (r: String)
    ensures
        r@ == spec_model_id(repo@, quant@),
{
    concat(concat(repo, "::").as_str(), quant)
}

/// The quantization the user picked, matched without regard to ASCII case.
pub fn find_quant(quants: &Vec<QuantOption>, quant: &str) -> (r: Option<usize>)
    ensures
        match r {
            Some(i) => i < quants@.len() && crate::text::ascii_lower(quants@[i as int].quant@) == crate::text::ascii_lower(quant@)
                && forall|k: int| 0 <= k < i ==> crate::text::ascii_lower((#[trigger] quants@[k]).quant@) != crate::text::ascii_lower(quant@),
            None => forall|k: int| 0 <= k < quants@.len() ==> crate::text::ascii_lower((#[trigger] quants@[k]).quant@) != crate::text::ascii_lower(quant@),
        },
{
    let want = crate::text::to_ascii_lower(chars_of(quant).as_slice());
    let mut i: usize = 0;
    while i < quants.len()
        invariant
            i <= quants@.len(),
            want@ == crate::text::ascii_lower(quant@),
            forall|k: int| 0 <= k < i ==> crate::text::ascii_lower((#[trigger] quants@[k]).quant@) != crate::text::ascii_lower(quant@),
        decreases quants@.len() - i,
    {
        let have = crate::text::to_ascii_lower(chars_of(quants[i].quant.as_str()).as_slice());
        if crate::text::chars_eq(have.as_slice(), want.as_slice()) {
            return Some(i);
        }
        i = i + 1;
    }
    None
}

/// A repo's owner and name: around its first `/`, or the whole repo and nothing.
pub open spec fn spec_owner_name(repo: Seq<char>) -> (Seq<char>, Seq<char>) {
    let k = find(repo, "/"@);
    if k >= 0 {
        (repo.take(k), repo.skip(k + 1))
    } else {
        (repo, Seq::empty())
    }
}

/// Where a downloaded repo goes under the models folder: `<owner>/<name>`.
pub fn owner_name(repo: &str) -> (r: (String, String))
    ensures
        (r.0@, r.1@) == spec_owner_name(repo@),
{
    let cs = chars_of(repo);
    let slash = chars_of("/");
    proof {
        reveal_strlit("/");
        assert(slash@ =~= "/"@);
    }
    match find_chars(cs.as_slice(), slash.as_slice()) {
        Some(k) => {
            proof {
                lemma_find_range(cs@, slash@, 0);
            }
            let n = cs.len();
            assert(k + 1 <= n);
            let a = slice_to_vec_range(cs.as_slice(), 0, k);
            let b = slice_to_vec_range(cs.as_slice(), k + 1, n);
            assert(a@ =~= repo@.take(k as int));
            assert(b@ =~= repo@.skip(k + 1));
            (string_of(a.as_slice()), string_of(b.as_slice()))
        },
        None => (repo.to_owned(), String::new()),
    }
}

/// The local models a scanned repo folder holds: one per quantization of its GGUF files, each
/// with the repo's projector when it ships one.
pub open spec fn is_repo_models(repo: Seq<char>, fs: Seq<(Seq<char>, i64)>, r: Seq<crate::db::LocalModel>) -> bool {
    exists|q: Seq<QuantOption>| #![trigger is_quant_list(fs, q)]
        is_quant_list(fs, q) && r.len() == q.len() && forall|i: int| 0 <= i < r.len() ==> {
            &&& (#[trigger] r[i]).id@ == spec_model_id(repo, q[i].quant@)
            &&& r[i].repo@ == repo
            &&& r[i].quant@ == q[i].quant@
            &&& r[i].size == q[i].size
            &&& r[i].mmproj_path is Some <==> exists|j: int| 0 <= j < fs.len() && spec_is_mmproj(#[trigger] fs[j].0)
            &&& r[i].caps_vision is None && r[i].caps_tools is None && r[i].caps_reasoning is None
        }
}

/// The local models found in one `<owner>/<name>` folder of a models directory, given its GGUF
/// files (name and size).
pub fn repo_models(repo: &str, repo_dir: &std::path::PathBuf, files: &Vec<(String, i64)>) -> (r: Vec<crate::db::LocalModel>)
    requires
        abs_total(file_views(files@)) <= i64::MAX,
    ensures
        is_repo_models(repo@, file_views(files@), r@),
{
    let ghost fs = file_views(files@);
    let proj = find_mmproj(files);
    let mmproj: Option<String> = match &proj {
        Some(x) => Some(crate::tools::path_text(&crate::tools::join_path(repo_dir, x.0.as_str()))),
        None => None,
    };
    proof {
        if exists|j: int| 0 <= j < fs.len() && spec_is_mmproj(#[trigger] fs[j].0) {
            let j = choose|j: int| 0 <= j < fs.len() && spec_is_mmproj(#[trigger] fs[j].0);
            assert(is_proj(fs[j], false));
        } else {
            assert forall|j: int| 0 <= j < fs.len() implies !is_proj(#[trigger] fs[j], false) by {}
            assert forall|j: int| 0 <= j < fs.len() implies !is_proj(#[trigger] fs[j], true) by {}
        }
    }
    let quants = group_quants(files);
    let mut r: Vec<crate::db::LocalModel> = Vec::new();
    let mut i: usize = 0;
    while i < quants.len()
        invariant
            i <= quants@.len(),
            r@.len() == i,
            mmproj is Some <==> exists|j: int| 0 <= j < fs.len() && spec_is_mmproj(#[trigger] fs[j].0),
            forall|k: int| 0 <= k < i ==> {
                &&& (#[trigger] r@[k]).id@ == spec_model_id(repo@, quants@[k].quant@)
                &&& r@[k].repo@ == repo@
                &&& r@[k].quant@ == quants@[k].quant@
                &&& r@[k].size == quants@[k].size
                &&& r@[k].mmproj_path is Some <==> exists|j: int| 0 <= j < fs.len() && spec_is_mmproj(#[trigger] fs[j].0)
                &&& r@[k].caps_vision is None && r@[k].caps_tools is None && r@[k].caps_reasoning is None
            },
        decreases quants@.len() - i,
    {
        let q = &quants[i];
        let first = if q.files.len() > 0 { q.files[0].as_str() } else { "" };
        let m = crate::db::LocalModel {
            id: model_id(repo, q.quant.as_str()),
            repo: repo.to_owned(),
            quant: q.quant.clone(),
            file_path: crate::tools::path_text(&crate::tools::join_path(repo_dir, first)),
            size: q.size,
            mmproj_path: match &mmproj { Some(p) => Some(p.clone()), None => None },
            caps_vision: None,
            caps_tools: None,
            caps_reasoning: None,
        };
        r.push(m);
        i = i + 1;
    }
    r
}

} // verus!
