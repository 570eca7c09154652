//! The code knowledge graph (graphify) around a working folder: where its output lives, which
//! files count toward staleness, the guidance the model gets, and the HTML handed to the webview.
//! Running graphify itself, and walking the folder, belong to the shell.
use vstd::prelude::*;
use vstd::string::*;

use crate::text::opt_str;
use crate::pattern::{regex_replaced, replace_first_match};
use crate::text::{
    ascii_lower, chars_of, concat, contains_str, eq_str, replace_once, replace_once_str,
    string_of, to_ascii_lower,
};
use crate::tools::{join_path, joined_path, path_from_text, path_of};

verus! {

broadcast use vstd::string::group_string_axioms;

/// The note for a folder whose graph is built: navigate through it.
pub const NAVIGATE_NOTE: &'static str = "A code knowledge graph is available for the working folder. To learn the codebase's \
             structure, relationships, or where something lives, prefer the graphify_query tool \
             (kinds: query / path / explain) over reading files one at a time. After large \
             changes, refresh it by calling graphify_build with update=true.";

/// The note for a folder with no graph yet and auto-build on: build it first.
pub const BUILD_FIRST_NOTE: &'static str = "This working folder has no code knowledge graph yet, and automatic graph building is \
             enabled for it. Before exploring the code, build the graph once with the \
             graphify_build tool so you can navigate it with graphify_query. Exception: if the \
             folder is empty or nearly empty (a brand-new project with no real source yet), do the \
             requested initial work first, then call graphify_build once actual files exist.";

/// The style override that skins the graph page's chrome to the app's theme; it ends with the
/// `</head>` it is put in front of.
pub const THEME_CSS: &'static str = "<style>\
:root{--d-bg:oklch(0.14 0 0);--d-fg:oklch(0.91 0 0);--d-primary:oklch(0.77 0.12 152);\
--d-primary-fg:oklch(0.14 0 0);--d-muted-fg:oklch(0.65 0.008 230);--d-accent:oklch(0.27 0 0);\
--d-border:oklch(0.28 0 0);--d-sidebar:oklch(0.16 0 0);}\
body{background:var(--d-bg);color:var(--d-fg);\
font-family:Inter,-apple-system,BlinkMacSystemFont,'Segoe UI',sans-serif;}\
#graph{background:var(--d-bg);}\
#sidebar{background:var(--d-sidebar);border-left:1px solid var(--d-border);}\
#search-wrap,#search-results,#info-panel,#stats{border-color:var(--d-border);}\
#search{background:var(--d-bg);border:1px solid var(--d-border);color:var(--d-fg);}\
#search:focus{border-color:var(--d-primary);}\
.search-item:hover,.neighbor-link:hover,.legend-item:hover{background:var(--d-accent);}\
#info-panel h3,#legend-wrap h3{color:var(--d-muted-fg);}\
#info-content{color:var(--d-fg);}#info-content .field b{color:var(--d-fg);}\
#stats{color:var(--d-muted-fg);}\
#legend-controls label{color:var(--d-muted-fg);}#legend-controls label:hover{color:var(--d-fg);}\
.legend-count{color:var(--d-muted-fg);}\
.legend-cb,#select-all-cb{border:1.5px solid var(--d-border);background:var(--d-bg);}\
.legend-cb:checked,#select-all-cb:checked,#select-all-cb:indeterminate\
{background:var(--d-primary);border-color:var(--d-primary);}\
.legend-cb:checked::after,#select-all-cb:checked::after{border-color:var(--d-primary-fg);}\
#select-all-cb:indeterminate::after{background:var(--d-primary-fg);}\
::-webkit-scrollbar{width:8px;height:8px;}::-webkit-scrollbar-track{background:transparent;}\
::-webkit-scrollbar-thumb{background-color:var(--d-border);border-radius:4px;}\
::-webkit-scrollbar-thumb:hover{background-color:var(--d-muted-fg);}\
</style></head>";

/// Placeholder before the position-cache hook; the frontend swaps it for cached positions.
pub const POS_MARKER: &'static str = "<!--GRAPHIFY_POS-->";

/// The script that restores cached node positions and reports settled ones to the host.
pub const POSITION_HOOK: &'static str = "<script>\
(function(){\
  if(typeof network==='undefined'||typeof nodesDS==='undefined')return;\
  var cached=window.__GRAPHIFY_POS__;\
  var sent=false;\
  var report=function(){try{parent.postMessage({__graphify:'positions',positions:network.getPositions()},'*');sent=true;}catch(e){}};\
  if(cached){\
    try{\
      network.setOptions({physics:{enabled:false}});\
      var ups=[];var ids=nodesDS.getIds();\
      for(var i=0;i<ids.length;i++){var p=cached[String(ids[i])];if(p)ups.push({id:ids[i],x:p.x,y:p.y});}\
      nodesDS.update(ups);network.fit();\
    }catch(e){}\
    report();\
  }else{\
    network.once('stabilizationIterationsDone',report);\
    setTimeout(function(){if(!sent)report();},4000);\
  }\
  network.on('dragEnd',report);\
})();\
</script>";

/// The page's CDN `vis-network` script tag, however it is spread over lines.
pub const VIS_SCRIPT_PATTERN: &'static str = r"(?s)<script\b[^>]*vis-network[^>]*></script>";

/// Past this many source files a folder is too big to judge cheaply, and is not called stale.
pub const MAX_STALE_FILES: usize = 50000;

// ------------------------------------------------------------------ the output folder

/// `Path::exists`. Nothing is stated: the answer is the disk's.
#[verifier::external_body]
fn path_exists(p: &std::path::PathBuf) -> (r: bool) {
    p.exists()
}

/// The `graphify-out` directory under a working folder.
pub open spec fn spec_out_dir(folder: Seq<char>) -> std::path::PathBuf {
    joined_path(path_from_text(folder), "graphify-out"@)
}

/// The `graphify-out` directory graphify writes into, under a working folder.
pub fn out_dir(folder: &str) -> (r: std::path::PathBuf)
    ensures
        r == spec_out_dir(folder@),
{
    proof {
        reveal_strlit("graphify-out");
    }
    join_path(&path_of(folder), "graphify-out")
}

/// The page a build writes: `graph.html` in the output directory.
pub fn graph_page(folder: &str) -> (r: std::path::PathBuf)
    ensures
        r == joined_path(spec_out_dir(folder@), "graph.html"@),
{
    join_path(&out_dir(folder), "graph.html")
}

/// Whether a built graph exists for `folder`: its [`graph_page`] is on disk. Nothing is stated of
/// the answer, which is the disk's.
pub fn graph_built(folder: &str) -> (r: bool) {
    path_exists(&graph_page(folder))
}

// ------------------------------------------------------------------ what counts as source

/// The extensions of source files whose changes alter graphify's code-only graph, lower-case.
pub open spec fn source_exts() -> Seq<Seq<char>> {
    seq![
        "rs"@, "go"@, "c"@, "h"@, "cc"@, "cpp"@, "cxx"@, "hpp"@, "hh"@, "cs"@, "swift"@, "kt"@,
        "kts"@, "java"@, "scala"@, "m"@, "mm"@, "zig"@, "py"@, "rb"@, "php"@, "lua"@, "pl"@,
        "pm"@, "sh"@, "bash"@, "zsh"@, "r"@, "js"@, "jsx"@, "mjs"@, "cjs"@, "ts"@, "tsx"@,
        "mts"@, "cts"@, "vue"@, "svelte"@, "astro"@, "dart"@, "ex"@, "exs"@, "erl"@, "clj"@,
        "cljs"@, "hs"@, "ml"@, "mli"@, "fs"@, "fsx"@, "sql"@, "gd"@,
    ]
}

/// Generated or vendored directory names, skipped whatever `.gitignore` says.
pub open spec fn junk_dirs() -> Seq<Seq<char>> {
    seq![
        "node_modules"@, "target"@, "dist"@, "build"@, "out"@, ".venv"@, "venv"@,
        "__pycache__"@, "graphify-out"@, "vendor"@, ".next"@, ".nuxt"@, ".svelte-kit"@,
    ]
}

/// The views of a list of strings.
pub open spec fn views(v: Seq<&str>) -> Seq<Seq<char>> {
    v.map_values(|s: &str| s@)
}

fn source_ext_list() -> (v: Vec<&'static str>)
    ensures
        views(v@) == source_exts(),
{
    let v = vec![
        "rs", "go", "c", "h", "cc", "cpp", "cxx", "hpp", "hh", "cs", "swift", "kt", "kts",
        "java", "scala", "m", "mm", "zig", "py", "rb", "php", "lua", "pl", "pm", "sh", "bash",
        "zsh", "r", "js", "jsx", "mjs", "cjs", "ts", "tsx", "mts", "cts", "vue", "svelte",
        "astro", "dart", "ex", "exs", "erl", "clj", "cljs", "hs", "ml", "mli", "fs", "fsx",
        "sql", "gd",
    ];
    assert(views(v@) =~= source_exts());
    v
}

fn junk_dir_list() -> (v: Vec<&'static str>)
    ensures
        views(v@) == junk_dirs(),
{
    let v = vec![
        "node_modules", "target", "dist", "build", "out", ".venv", "venv", "__pycache__",
        "graphify-out", "vendor", ".next", ".nuxt", ".svelte-kit",
    ];
    assert(views(v@) =~= junk_dirs());
    v
}

/// A directory the staleness walk prunes, by its name.
pub fn is_junk_dir(name: &str) -> (r: bool)
    ensures
        r == junk_dirs().contains(name@),
{
    let list = junk_dir_list();
    let r = contains_str(&list, name);
    proof {
        if r {
            let i = choose|i: int| 0 <= i < list@.len() && (#[trigger] list@[i])@ == name@;
            assert(junk_dirs()[i] == name@);
        }
        if junk_dirs().contains(name@) {
            let i = choose|i: int| 0 <= i < junk_dirs().len() && junk_dirs()[i] == name@;
            assert(list@[i]@ == name@);
        }
    }
    r
}

/// What `Path::extension` gives for a path: the part of its file name after the last `.`, if
/// the name has a `.` other than a leading one.
pub uninterp spec fn path_extension(p: Seq<char>) -> Option<Seq<char>>;

/// `Path::extension`, as a string.
#[verifier::external_body]
fn extension_of(p: &str) -> (r: Option<String>)
    ensures
        match r {
            Some(e) => path_extension(p@) == Some(e@),
            None => path_extension(p@) is None,
        },
{
    std::path::Path::new(p).extension().and_then(|e| e.to_str()).map(|e| e.to_string())
}

/// A path is source code when its extension, ASCII-lowered, is one of [`source_exts`]; a path
/// with no extension never is.
pub open spec fn spec_ext_is_source(path: Seq<char>) -> bool {
    match path_extension(path) {
        Some(e) => source_exts().contains(ascii_lower(e)),
        None => false,
    }
}

/// Whether a file counts toward staleness.
pub fn ext_is_source(path: &str) -> (r: bool)
    ensures
        r == spec_ext_is_source(path@),
{
    match extension_of(path) {
        None => false,
        Some(e) => {
            let cs = chars_of(e.as_str());
            let lowered = string_of(to_ascii_lower(cs.as_slice()).as_slice());
            let list = source_ext_list();
            let r = contains_str(&list, lowered.as_str());
            proof {
                if r {
                    let i = choose|i: int| 0 <= i < list@.len() && (#[trigger] list@[i])@ == lowered@;
                    assert(source_exts()[i] == lowered@);
                }
                if source_exts().contains(lowered@) {
                    let i = choose|i: int| 0 <= i < source_exts().len() && source_exts()[i] == lowered@;
                    assert(list@[i]@ == lowered@);
                }
            }
            r
        },
    }
}

/// Where the staleness walk stands after one more entry.
#[derive(Debug, Clone, Copy, PartialEq, Eq, Structural)]
pub enum StaleStep {
    /// Keep walking, with this many source files seen.
    Walk(usize),
    /// A source file is newer than the graph: it is stale.
    Stale,
    /// Too many source files to judge: call it not stale.
    TooMany,
}

/// One entry of the walk: a non-file or non-source entry is passed over; a source file counts,
/// ends the walk as not stale once past [`MAX_STALE_FILES`], and as stale when it is newer than
/// the graph.
pub open spec fn spec_stale_step(seen: usize, is_file: bool, is_source: bool, newer: bool) -> StaleStep {
    if !is_file || !is_source {
        StaleStep::Walk(seen)
    } else if seen + 1 > MAX_STALE_FILES {
        StaleStep::TooMany
    } else if newer {
        StaleStep::Stale
    } else {
        StaleStep::Walk((seen + 1) as usize)
    }
}

/// The staleness decision for one walked entry (`newer`: its modification time is after the
/// graph's).
pub fn stale_step(seen: usize, is_file: bool, is_source: bool, newer: bool) -> (r: StaleStep)
    requires
        seen <= MAX_STALE_FILES,
    ensures
        r == spec_stale_step(seen, is_file, is_source, newer),
        r matches StaleStep::Walk(n) ==> n <= MAX_STALE_FILES,
{
    if !is_file || !is_source {
        StaleStep::Walk(seen)
    } else if seen + 1 > MAX_STALE_FILES {
        StaleStep::TooMany
    } else if newer {
        StaleStep::Stale
    } else {
        StaleStep::Walk(seen + 1)
    }
}

// ------------------------------------------------------------------ guidance

/// Which guidance applies: navigation when a graph exists, build-first when there is none and
/// auto-build is on, nothing otherwise.
pub open spec fn spec_note_for(graph_built: bool, auto_build: bool) -> Option<Seq<char>> {
    if graph_built {
        Some(NAVIGATE_NOTE@)
    } else if auto_build {
        Some(BUILD_FIRST_NOTE@)
    } else {
        None
    }
}

/// The guidance note for the system prompt, given whether a graph exists and whether auto-build
/// is on for the folder.
pub fn note_for(graph_built: bool, auto_build: bool) -> (r: Option<&'static str>)
    ensures
        opt_str(r) == spec_note_for(graph_built, auto_build),
{
    if graph_built {
        Some(NAVIGATE_NOTE)
    } else if auto_build {
        Some(BUILD_FIRST_NOTE)
    } else {
        None
    }
}

// ------------------------------------------------------------------ the rendered page

/// The page handed to the webview: the CDN script tag replaced by the bundle inline (where the
/// tag pattern compiles), the theme inserted before the first `</head>`, and the marker and
/// position hook before the first `</body>`.
pub open spec fn spec_themed_graph_html(html: Seq<char>, js: Seq<char>) -> Seq<char> {
    let inline = "<script>"@ + js + "</script>"@;
    let replaced = match regex_replaced(VIS_SCRIPT_PATTERN@, html, inline) {
        Some(t) => t,
        None => html,
    };
    let themed = replace_once(replaced, "</head>"@, THEME_CSS@);
    replace_once(themed, "</body>"@, POS_MARKER@ + POSITION_HOOK@ + "</body>"@)
}

/// Inline the cached `vis-network` bundle `js` into the graph page `html`, skin it, and add the
/// position-cache hook.
pub fn themed_graph_html(html: &str, js: &str) -> (r: String)
    ensures
        r@ == spec_themed_graph_html(html@, js@),
{
    let inline = concat(concat("<script>", js).as_str(), "</script>");
    let replaced = match replace_first_match(VIS_SCRIPT_PATTERN, html, inline.as_str()) {
        Some(t) => t,
        None => html.to_owned(),
    };
    let themed = replace_once_str(replaced.as_str(), "</head>", THEME_CSS);
    let tail = concat(concat(POS_MARKER, POSITION_HOOK).as_str(), "</body>");
    replace_once_str(themed.as_str(), "</body>", tail.as_str())
}

// ------------------------------------------------------------------ running graphify

/// The read queries graphify answers.
pub open spec fn is_query_kind(kind: Seq<char>) -> bool {
    kind == "query"@ || kind == "path"@ || kind == "explain"@
}

/// A query kind other than `query`, `path` or `explain` is refused before anything runs.
pub fn check_query_kind(kind: &str) -> (r: Result<(), String>)
    ensures
        r is Ok <==> is_query_kind(kind@),
        r matches Err(e) ==> e@ == "unknown graphify query kind: "@ + kind@,
{
    if eq_str(kind, "query") || eq_str(kind, "path") || eq_str(kind, "explain") {
        Ok(())
    } else {
        Err(concat("unknown graphify query kind: ", kind))
    }
}

/// The arguments of a build: the module, the folder, `--update` when refreshing, and
/// `--code-only` always (the graph is structural; no model key is wired in).
pub open spec fn spec_build_args(folder: Seq<char>, update: bool) -> Seq<Seq<char>> {
    let head = seq!["-m"@, "graphify"@, folder];
    if update {
        head + seq!["--update"@, "--code-only"@]
    } else {
        head + seq!["--code-only"@]
    }
}

/// The arguments handed to the Python runtime to build the graph for `folder`.
pub fn build_args(folder: &str, update: bool) -> (r: Vec<String>)
    ensures
        r@.map_values(|s: String| s@) == spec_build_args(folder@, update),
{
    let mut r: Vec<String> = Vec::new();
    r.push("-m".to_owned());
    r.push("graphify".to_owned());
    r.push(folder.to_owned());
    if update {
        r.push("--update".to_owned());
    }
    r.push("--code-only".to_owned());
    assert(r@.map_values(|s: String| s@) =~= spec_build_args(folder@, update));
    r
}

/// What the sidebar's graph affordance needs: whether Python and graphify are installed,
/// whether the folder has a graph, and whether auto-build is on for it.
#[derive(Debug, Clone, Copy, PartialEq, Eq, Structural)]
pub struct GraphifyStatus {
    pub python_ready: bool,
    pub installed: bool,
    pub graph_built: bool,
    pub auto_build: bool,
}

} // verus!
