//! The local model library's bookkeeping: which folders are scanned, when first-run setup is
//! still owed, which files deleting a model removes, what a reset wipes, and the status records
//! the engine tabs show. The folders, the database and the processes belong to the shell.
use vstd::prelude::*;
use vstd::string::*;

use crate::google::or_text;
use crate::text::{
    chars_of, concat, contains_text, contains, ends_with, eq_str, str_contains, str_ends_with, to_upper, trim, trim_str,
    upper,
};

verus! {

broadcast use vstd::string::group_string_axioms;

// ------------------------------------------------------------------ model folders

/// The settings key of the scanned folder list.
pub const MODELS_DIRS_KEY: &'static str = "local_models_dirs";

/// The settings key of the single folder an earlier version kept.
pub const MODELS_DIR_KEY: &'static str = "local_models_dir";

/// The folder list as the user wrote it: each path trimmed, blanks dropped, each kept once, at
/// its first place.
pub open spec fn spec_clean_dirs(paths: Seq<Seq<char>>) -> Seq<Seq<char>>
    decreases paths.len(),
{
    if paths.len() == 0 {
        Seq::empty()
    } else {
        let before = spec_clean_dirs(paths.drop_last());
        let p = trim(paths.last());
        if p.len() > 0 && !before.contains(p) {
            before.push(p)
        } else {
            before
        }
    }
}

/// The folder list to store when the user sets it.
pub fn clean_dirs(paths: &Vec<String>) -> (r: Vec<String>)
    ensures
        r.deep_view() == spec_clean_dirs(paths.deep_view()),
{
    let mut r: Vec<String> = Vec::new();
    let mut i: usize = 0;
    while i < paths.len()
        invariant
            i <= paths@.len(),
            r.deep_view() == spec_clean_dirs(paths.deep_view().take(i as int)),
        decreases paths@.len() - i,
    {
        assert(paths.deep_view().take(i + 1).drop_last() =~= paths.deep_view().take(i as int));
        assert(paths.deep_view()[i as int] == paths@[i as int]@);
        let p = trim_str(paths[i].as_str());
        if p.unicode_len() > 0 && !contains_text(&r, p) {
            let ghost before = r.deep_view();
            r.push(p.to_owned());
            assert(r.deep_view() =~= before.push(p@));
        }
        i = i + 1;
    }
    assert(paths.deep_view().take(paths@.len() as int) =~= paths.deep_view());
    r
}

/// The entries of a folder list that are not blank, as written.
pub open spec fn not_blank(paths: Seq<Seq<char>>) -> Seq<Seq<char>>
    decreases paths.len(),
{
    if paths.len() == 0 {
        Seq::empty()
    } else if trim(paths.last()).len() > 0 {
        not_blank(paths.drop_last()).push(paths.last())
    } else {
        not_blank(paths.drop_last())
    }
}

/// The folders scanned for models: the stored list where there is one, else the earlier single
/// folder; blank entries dropped. Empty means the app-data default.
pub open spec fn spec_scan_dirs(list: Option<Seq<Seq<char>>>, legacy: Option<Seq<char>>) -> Seq<Seq<char>> {
    let dirs = match list {
        Some(l) => l,
        None => match legacy {
            Some(d) => seq![d],
            None => Seq::empty(),
        },
    };
    not_blank(dirs)
}

/// The configured model folders (`list`: the stored list, parsed; `legacy`: the earlier single
/// folder).
pub fn scan_dirs(list: Option<Vec<String>>, legacy: Option<String>) -> (r: Vec<String>)
    ensures
        r.deep_view() == spec_scan_dirs(crate::cli::opt_strings(list), crate::text::opt_string(legacy)),
{
    let dirs: Vec<String> = match list {
        Some(l) => l,
        None => match legacy {
            Some(d) => {
                let mut v: Vec<String> = Vec::new();
                v.push(d);
                v
            },
            None => Vec::new(),
        },
    };
    assert(dirs.deep_view() =~= match crate::cli::opt_strings(list) {
        Some(l) => l,
        None => match crate::text::opt_string(legacy) {
            Some(d) => seq![d],
            None => Seq::<Seq<char>>::empty(),
        },
    });
    let mut r: Vec<String> = Vec::new();
    let mut dirs = dirs;
    let ghost all = dirs.deep_view();
    let mut rev: Vec<String> = Vec::new();
    while dirs.len() > 0
        invariant
            dirs@.len() <= all.len(),
            dirs.deep_view() == all.take(dirs@.len() as int),
            not_blank(all) == not_blank(dirs.deep_view()) + rev.deep_view().reverse(),
        decreases dirs@.len(),
    {
        let ghost n = dirs@.len();
        let d = match dirs.pop() {
            Some(d) => d,
            None => {
                return r;
            },
        };
        assert(all.take(n as int).drop_last() =~= all.take(n - 1));
        assert(all.take(n as int).last() == d@);
        assert(dirs.deep_view() =~= all.take(n - 1));
        if trim_str(d.as_str()).unicode_len() > 0 {
            let ghost before = rev.deep_view();
            rev.push(d);
            assert(rev.deep_view().reverse() =~= seq![d@] + before.reverse());
        }
    }
    assert(not_blank(dirs.deep_view()) =~= Seq::<Seq<char>>::empty());
    while rev.len() > 0
        invariant
            not_blank(all) == r.deep_view() + rev.deep_view().reverse(),
        decreases rev@.len(),
    {
        let ghost before = rev.deep_view();
        let d = match rev.pop() {
            Some(d) => d,
            None => {
                return r;
            },
        };
        assert(before.reverse() =~= seq![d@] + rev.deep_view().reverse());
        let ghost rb = r.deep_view();
        r.push(d);
        assert(r.deep_view() =~= rb.push(d@));
    }
    assert(r.deep_view() =~= not_blank(all));
    r
}

// ------------------------------------------------------------------ setup and deletion

/// The settings key that records the setup wizard as done.
pub const SETUP_DONE_KEY: &'static str = "setup_complete";

/// The setup wizard is owed until its key holds exactly `true`.
pub fn setup_needed(value: Option<&str>) -> (r: bool)
    ensures
        r == !(value matches Some(v) && v@ == "true"@),
{
    match value {
        Some(v) => !eq_str(v, "true"),
        None => true,
    }
}

/// A file deleting a model removes: its upper-cased name contains the model's quantization tag
/// (upper-cased) and ends in `.GGUF`.
pub open spec fn spec_is_quant_file(name: Seq<char>, quant: Seq<char>) -> bool {
    contains(upper(name), upper(quant)) && ends_with(upper(name), ".GGUF"@)
}

/// Whether a file beside a deleted model's first file is one of its parts.
pub fn is_quant_file(name: &str, quant: &str) -> (r: bool)
    ensures
        r == spec_is_quant_file(name@, quant@),
{
    let n = to_upper(name);
    let q = to_upper(quant);
    str_contains(n.as_str(), q.as_str()) && str_ends_with(n.as_str(), ".GGUF")
}

// ------------------------------------------------------------------ status records

/// Everything the Python tab shows.
#[derive(Debug, Clone)]
pub struct PythonStatus {
    pub ready: bool,
    pub version: Option<String>,
    pub searxng_installed: bool,
    pub searxng_running: bool,
}

/// The bundled Python and SearXNG stack, for the web-browsing settings.
#[derive(Debug, Clone, Copy, PartialEq, Eq, Structural)]
pub struct SearxngStatus {
    pub python_ready: bool,
    pub source_ready: bool,
    pub running: bool,
}

// ------------------------------------------------------------------ reset

/// The marker file a requested reset leaves for the next start.
pub const RESET_MARKER: &'static str = "reset-pending.json";

/// What the user chose to wipe; every scope is opt-in. A models folder the user chose outside
/// the app's data is never touched.
#[derive(Debug, Clone, Copy, PartialEq, Eq, Structural)]
pub struct ResetRequest {
    /// Conversations and their messages.
    pub conversations: bool,
    /// App settings, the global system prompt among them.
    pub settings: bool,
    /// Cloud providers, model overrides and the stored API keys.
    pub providers: bool,
    /// Configured MCP servers.
    pub mcp_servers: bool,
    /// Connected Google accounts and their tokens.
    pub google_accounts: bool,
    /// Installed skills.
    pub skills: bool,
    /// The one-shot first-run dialogs.
    pub first_run_dialogs: bool,
    /// The downloaded inference runtime.
    pub inference_runtime: bool,
    /// The portable Python runtime.
    pub python_runtime: bool,
    /// Python-based tools.
    pub python_tools: bool,
    /// Downloaded models inside the app's data.
    pub models: bool,
}

impl Default for ResetRequest {
    /// Nothing wiped.
    fn default() -> (r: Self)
        ensures
            r == (ResetRequest {
                conversations: false,
                settings: false,
                providers: false,
                mcp_servers: false,
                google_accounts: false,
                skills: false,
                first_run_dialogs: false,
                inference_runtime: false,
                python_runtime: false,
                python_tools: false,
                models: false,
            }),
    {
        ResetRequest {
            conversations: false,
            settings: false,
            providers: false,
            mcp_servers: false,
            google_accounts: false,
            skills: false,
            first_run_dialogs: false,
            inference_runtime: false,
            python_runtime: false,
            python_tools: false,
            models: false,
        }
    }
}

/// The statements that delete the chosen tables' rows (the database file and its schema stay):
/// conversations; all settings, or only the setup flag when just the first-run dialogs are
/// chosen; providers with their overrides; MCP servers; accounts; local model rows.
pub open spec fn spec_wipe_sql(req: ResetRequest) -> Seq<char> {
    (if req.conversations { "DELETE FROM conversations;"@ } else { Seq::empty() })
        + (if req.settings {
            "DELETE FROM settings;"@
        } else if req.first_run_dialogs {
            "DELETE FROM settings WHERE key = 'setup_complete';"@
        } else {
            Seq::empty()
        })
        + (if req.providers { "DELETE FROM providers; DELETE FROM model_overrides;"@ } else { Seq::empty() })
        + (if req.mcp_servers { "DELETE FROM mcp_servers;"@ } else { Seq::empty() })
        + (if req.google_accounts { "DELETE FROM accounts;"@ } else { Seq::empty() })
        + (if req.models { "DELETE FROM local_models;"@ } else { Seq::empty() })
}

/// The SQL a pending reset runs against the database; empty when no table is chosen.
pub fn wipe_sql(req: &ResetRequest) -> (r: String)
    ensures
        r@ == spec_wipe_sql(*req),
{
    let mut sql = String::new();
    if req.conversations {
        sql.append("DELETE FROM conversations;");
    }
    if req.settings {
        sql.append("DELETE FROM settings;");
    } else if req.first_run_dialogs {
        sql.append("DELETE FROM settings WHERE key = 'setup_complete';");
    }
    if req.providers {
        sql.append("DELETE FROM providers; DELETE FROM model_overrides;");
    }
    if req.mcp_servers {
        sql.append("DELETE FROM mcp_servers;");
    }
    if req.google_accounts {
        sql.append("DELETE FROM accounts;");
    }
    if req.models {
        sql.append("DELETE FROM local_models;");
    }
    assert(sql@ =~= spec_wipe_sql(*req));
    sql
}

/// The app-data folders a reset removes: skills, the runtime, Python, SearXNG, models, each
/// when chosen, in that order.
pub open spec fn spec_wiped_dirs(req: ResetRequest) -> Seq<Seq<char>> {
    (if req.skills { seq!["skills"@] } else { Seq::empty() })
        + (if req.inference_runtime { seq!["runtime"@] } else { Seq::empty() })
        + (if req.python_runtime { seq!["python"@] } else { Seq::empty() })
        + (if req.python_tools { seq!["searxng"@] } else { Seq::empty() })
        + (if req.models { seq!["models"@] } else { Seq::empty() })
}

/// The folders under the app's data that a pending reset removes.
pub fn wiped_dirs(req: &ResetRequest) -> (r: Vec<&'static str>)
    ensures
        r@.map_values(|s: &str| s@) == spec_wiped_dirs(*req),
{
    let mut r: Vec<&'static str> = Vec::new();
    if req.skills {
        r.push("skills");
    }
    if req.inference_runtime {
        r.push("runtime");
    }
    if req.python_runtime {
        r.push("python");
    }
    if req.python_tools {
        r.push("searxng");
    }
    if req.models {
        r.push("models");
    }
    assert(r@.map_values(|s: &str| s@) =~= spec_wiped_dirs(*req));
    r
}

// ------------------------------------------------------------------ web search

/// At most this many search results are shown to the model.
pub const MAX_SEARCH_HITS: usize = 15;

/// A search result as the SearXNG worker answers it: its title, address and excerpt, where they
/// are strings.
#[derive(Debug)]
pub struct SearchHit {
    pub title: Option<String>,
    pub url: Option<String>,
    pub content: Option<String>,
}

/// A search result as the model reads it: its number, title, address and excerpt.
pub open spec fn hit_text(number: nat, h: SearchHit) -> Seq<char> {
    crate::text::decimal(number) + ". "@ + or_text(h.title, Seq::empty()) + "\n   "@ + or_text(h.url, Seq::empty())
        + "\n   "@ + or_text(h.content, Seq::empty())
}

/// The first `n` results, numbered from one, a blank line between each two.
pub open spec fn hits_text(hits: Seq<SearchHit>, n: int) -> Seq<char>
    decreases n,
{
    if n <= 0 {
        Seq::empty()
    } else if n == 1 {
        hit_text(1, hits[0])
    } else {
        hits_text(hits, n - 1) + "\n\n"@ + hit_text(n as nat, hits[n - 1])
    }
}

fn opt_text(o: &Option<String>) -> (r: &str)
    ensures
        r@ == or_text(*o, Seq::empty()),
{
    proof {
        reveal_strlit("");
    }
    match o {
        Some(s) => s.as_str(),
        None => "",
    }
}

/// What a web search tells the model: the first fifteen results, numbered, or nothing where
/// there are none.
pub fn search_text(hits: &Vec<SearchHit>) -> (r: String)
    ensures
        r@ == hits_text(hits@, if hits@.len() < MAX_SEARCH_HITS { hits@.len() as int } else { MAX_SEARCH_HITS as int }),
{
    let n = if hits.len() < MAX_SEARCH_HITS { hits.len() } else { MAX_SEARCH_HITS };
    let mut out = String::new();
    let mut i: usize = 0;
    while i < n
        invariant
            i <= n <= hits@.len(),
            out@ == hits_text(hits@, i as int),
        decreases n - i,
    {
        let h = &hits[i];
        if i > 0 {
            out = concat(out.as_str(), "\n\n");
        }
        let mut line = concat(crate::text::decimal_string((i + 1) as u64).as_str(), ". ");
        line = concat(line.as_str(), opt_text(&h.title));
        line = concat(line.as_str(), "\n   ");
        line = concat(line.as_str(), opt_text(&h.url));
        line = concat(line.as_str(), "\n   ");
        line = concat(line.as_str(), opt_text(&h.content));
        out = concat(out.as_str(), line.as_str());
        i = i + 1;
        proof {
            assert(line@ == hit_text(i as nat, hits@[i - 1]));
            if i == 1 {
                assert(out@ =~= hits_text(hits@, 1));
            }
        }
    }
    out
}

/// The worker's answer to a query: its error (as `SearXNG error: ...`), else its results.
pub fn worker_outcome(error: Option<String>, results: Vec<SearchHit>) -> (r: Result<Vec<SearchHit>, String>)
    ensures
        match error {
            Some(e) => r matches Err(m) && m@ == "SearXNG error: "@ + e@,
            None => r matches Ok(v) && v@ == results@,
        },
{
    match error {
        Some(e) => Err(concat("SearXNG error: ", e.as_str())),
        None => Ok(results),
    }
}

/// The end of the worker's startup log shown beside a failure: its last 2000 bytes (read as
/// UTF-8, a cut character becoming the replacement character), after a heading line.
pub open spec fn spec_log_tail(content: Seq<u8>) -> Seq<char> {
    let start = if content.len() > 2000 { content.len() - 2000 } else { 0 };
    "--- last output ---\n"@ + crate::oauth::lossy_text(content.skip(start))
}

/// The end of the worker's startup log.
pub fn log_tail(content: &str) -> (r: String)
    ensures
        r@ == spec_log_tail(content.spec_bytes()),
{
    let bytes = content.as_bytes();
    let start: usize = if bytes.len() > 2000 { bytes.len() - 2000 } else { 0 };
    let mut tail: Vec<u8> = Vec::new();
    let mut i = start;
    while i < bytes.len()
        invariant
            start <= i <= bytes@.len(),
            bytes@ == content.spec_bytes(),
            tail@ == bytes@.subrange(start as int, i as int),
        decreases bytes@.len() - i,
    {
        tail.push(bytes[i]);
        assert(bytes@.subrange(start as int, i + 1) =~= bytes@.subrange(start as int, i as int).push(bytes@[i as int]));
        i = i + 1;
    }
    assert(tail@ =~= bytes@.skip(start as int));
    concat("--- last output ---\n", crate::oauth::utf8_lossy(tail.as_slice()).as_str())
}

} // verus!
