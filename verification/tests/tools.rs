use demido_studio::tools::{
    capped_count, command_result, contact_resource, days_ahead, edit_not_found, edit_text,
    glob_match, graph_query_args, graph_query_result, listing, match_line, record_match,
    resolve_path, search_result, searchable_size, written_message, DirEntry, MAX_MATCHES,
    MAX_OUTPUT, MORE_MATCHES, STALE_NOTE,
};

#[test]
fn globs_match_whole_names() {
    assert!(glob_match("*.rs", "main.rs"));
    assert!(!glob_match("*.rs", "main.rsx"));
    assert!(glob_match("a*b*c", "aXXbYYc"));
    assert!(!glob_match("a*b*c", "aXXcYYb"));
    assert!(glob_match("exact", "exact"));
    assert!(glob_match("*", ""));
}

#[test]
fn edits_replace_the_first_occurrence_or_are_refused() {
    assert_eq!(edit_text("a b a", "a", "c").as_deref(), Some("c b a"));
    assert_eq!(edit_text("abc", "x", "y"), None);
    assert_eq!(edit_not_found("f.rs"), "Error: old_str not found in f.rs");
    assert_eq!(written_message(12, "f.rs"), "Written 12 bytes to f.rs");
}

#[test]
fn a_listing_marks_folders_and_sizes_files() {
    let entries = vec![
        DirEntry { name: "src".into(), is_dir: true, size: 0 },
        DirEntry { name: "a.txt".into(), is_dir: false, size: 5 },
    ];
    let out = listing(&entries);
    assert!(out.contains("src/"));
    assert!(out.contains("a.txt"));
    assert!(out.contains('5'));
}

#[test]
fn command_output_is_combined_and_cut() {
    assert_eq!(command_result("out", "", Some(0)), "out");
    assert_eq!(command_result("out", "err", Some(1)), "out\nSTDERR:\nerr");
    assert_eq!(command_result("", "err", Some(1)), "STDERR:\nerr");
    assert_eq!(command_result("", "", Some(3)), "[exit code: 3]");
    assert_eq!(command_result("", "", None), "[exit code: -1]");
    let long = "é".repeat(MAX_OUTPUT);
    let cut = command_result(&long, "", Some(0));
    assert!(cut.ends_with("\n[output truncated]"));
    assert_eq!(cut.len(), MAX_OUTPUT + "\n[output truncated]".len());
}

#[test]
fn searches_stop_after_enough_matches() {
    assert!(searchable_size(1_048_576));
    assert!(!searchable_size(1_048_577));
    assert_eq!(match_line("src/a.rs", 0, "  fn main() {} "), "src/a.rs:1: fn main() {}");
    let mut matches: Vec<String> = Vec::new();
    let mut went_on = true;
    let mut n = 0;
    while went_on {
        went_on = record_match(&mut matches, format!("line {n}"));
        n += 1;
    }
    assert_eq!(n, MAX_MATCHES);
    assert_eq!(matches.len(), MAX_MATCHES + 1);
    assert_eq!(matches.last().unwrap(), MORE_MATCHES);
    assert_eq!(search_result(&vec![]), "No matches found");
    assert_eq!(search_result(&vec!["a".into(), "b".into()]), "a\nb");
}

#[test]
fn graph_queries_need_a_target_for_a_path() {
    assert_eq!(graph_query_args("query", "q", None).unwrap(), vec!["q"]);
    assert_eq!(graph_query_args("path", "a", Some("b")).unwrap(), vec!["a", "b"]);
    assert!(graph_query_args("path", "a", Some("")).is_err());
    assert_eq!(graph_query_result(false, Ok("  ".into())), "(no results)");
    assert_eq!(graph_query_result(true, Ok("x".into())), format!("{STALE_NOTE}x"));
    assert_eq!(
        graph_query_result(false, Err("boom".into())),
        "boom\n(If no graph exists yet, build one with graphify_build.)"
    );
}

#[test]
fn counts_and_ranges_are_kept_in_bounds() {
    assert_eq!(capped_count(None, 10, 50), 10);
    assert_eq!(capped_count(Some(500), 10, 50), 50);
    assert_eq!(days_ahead(None), 7);
    assert_eq!(days_ahead(Some(0)), 1);
    assert_eq!(days_ahead(Some(9999)), 365);
    assert_eq!(contact_resource("people/c1"), "people/c1");
    assert_eq!(contact_resource("c1"), "people/c1");
}

#[test]
fn relative_paths_live_in_the_working_folder() {
    let p = resolve_path("a.txt", Some("/work"));
    assert!(p.ends_with("a.txt"));
    assert!(p.starts_with("/work"));
    assert_eq!(resolve_path("a.txt", None), std::path::PathBuf::from("a.txt"));
}
