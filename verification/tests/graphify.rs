use demido_studio::graphify::{
    build_args, check_query_kind, ext_is_source, graph_built, is_junk_dir, note_for, out_dir,
    stale_step, themed_graph_html, StaleStep, MAX_STALE_FILES, POSITION_HOOK, POS_MARKER, THEME_CSS,
};

#[test]
fn note_prefers_navigation_when_a_graph_exists() {
    for auto in [true, false] {
        let n = note_for(true, auto).expect("graph present should always yield a note");
        assert!(n.contains("graphify_query"));
        assert!(n.contains("prefer"));
    }
}

#[test]
fn note_tells_the_model_to_build_first_when_auto_build_on_and_no_graph() {
    let n = note_for(false, true).expect("auto-build on with no graph should yield a note");
    assert!(n.contains("graphify_build"));
    assert!(n.contains("empty or nearly empty"));
}

#[test]
fn note_is_silent_when_auto_build_off_and_no_graph() {
    assert!(note_for(false, false).is_none());
}

#[test]
fn source_files_are_told_by_extension_in_any_case() {
    assert!(ext_is_source("src/main.rs"));
    assert!(ext_is_source("web/App.TSX"));
    assert!(ext_is_source("a/b/c.py"));
    assert!(!ext_is_source("README.md"));
    assert!(!ext_is_source("pnpm-lock.yaml"));
    assert!(!ext_is_source("Makefile"));
    assert!(!ext_is_source(".gitignore"));
}

#[test]
fn generated_and_vendored_folders_are_pruned() {
    for d in ["node_modules", "target", "dist", ".venv", "graphify-out", ".svelte-kit"] {
        assert!(is_junk_dir(d), "{d}");
    }
    assert!(!is_junk_dir("src"));
    assert!(!is_junk_dir("Node_Modules"));
}

#[test]
fn the_walk_stops_at_the_first_newer_source_file() {
    assert_eq!(stale_step(0, false, true, true), StaleStep::Walk(0));
    assert_eq!(stale_step(0, true, false, true), StaleStep::Walk(0));
    assert_eq!(stale_step(3, true, true, false), StaleStep::Walk(4));
    assert_eq!(stale_step(3, true, true, true), StaleStep::Stale);
    assert_eq!(stale_step(MAX_STALE_FILES, true, true, true), StaleStep::TooMany);
}

#[test]
fn the_page_gets_the_bundle_the_theme_and_the_hook() {
    let html = "<html><head><script\n src=\"https://unpkg.com/vis-network@9.1.6/x.js\"></script></head><body><p>$1</p></body></html>";
    let out = themed_graph_html(html, "var $g = 1;");
    assert!(out.contains("<script>var $g = 1;</script>"));
    assert!(!out.contains("unpkg.com"));
    assert!(out.contains(THEME_CSS));
    assert!(out.ends_with(&format!("<p>$1</p>{}{}</body></html>", POS_MARKER, POSITION_HOOK)));
}

#[test]
fn a_page_without_the_cdn_tag_is_only_skinned() {
    let out = themed_graph_html("<head></head><body></body>", "js");
    assert_eq!(out, format!("<head>{}<body>{}{}</body>", THEME_CSS, POS_MARKER, POSITION_HOOK));
}

#[test]
fn only_read_queries_run() {
    assert!(check_query_kind("query").is_ok());
    assert!(check_query_kind("path").is_ok());
    assert!(check_query_kind("explain").is_ok());
    assert_eq!(check_query_kind("build").unwrap_err(), "unknown graphify query kind: build");
}

#[test]
fn a_build_is_always_code_only() {
    assert_eq!(build_args("/w", false), vec!["-m", "graphify", "/w", "--code-only"]);
    assert_eq!(build_args("/w", true), vec!["-m", "graphify", "/w", "--update", "--code-only"]);
}

#[test]
fn a_folder_with_no_output_has_no_graph() {
    assert!(!graph_built("/definitely/not/a/folder/here"));
    assert!(out_dir("/w").ends_with("graphify-out"));
}
