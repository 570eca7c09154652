use demido_studio::library::{
    clean_dirs, is_quant_file, log_tail, scan_dirs, search_text, setup_needed, wipe_sql, wiped_dirs, worker_outcome,
    ResetRequest, SearchHit,
};

fn strings(v: &[&str]) -> Vec<String> {
    v.iter().map(|s| s.to_string()).collect()
}

#[test]
fn a_folder_list_is_trimmed_and_each_folder_kept_once() {
    assert_eq!(clean_dirs(&strings(&[" D:/a ", "", "D:/a", "  ", "E:/b"])), strings(&["D:/a", "E:/b"]));
}

#[test]
fn the_scanned_folders_fall_back_to_the_earlier_setting() {
    assert_eq!(scan_dirs(Some(strings(&["D:/a", " "])), Some("old".into())), strings(&["D:/a"]));
    assert_eq!(scan_dirs(None, Some("old".into())), strings(&["old"]));
    assert!(scan_dirs(None, None).is_empty());
    assert!(scan_dirs(None, Some("  ".into())).is_empty());
}

#[test]
fn setup_is_owed_until_it_says_true() {
    assert!(setup_needed(None));
    assert!(setup_needed(Some("false")));
    assert!(!setup_needed(Some("true")));
}

#[test]
fn deleting_a_model_removes_its_parts_only() {
    assert!(is_quant_file("m-q4_k_m-00001-of-00002.gguf", "Q4_K_M"));
    assert!(!is_quant_file("m-Q8_0.gguf", "Q4_K_M"));
    assert!(!is_quant_file("m-Q4_K_M.txt", "Q4_K_M"));
}

#[test]
fn a_reset_wipes_only_what_was_chosen() {
    let none = ResetRequest::default();
    assert_eq!(wipe_sql(&none), "");
    assert!(wiped_dirs(&none).is_empty());

    let req = ResetRequest { conversations: true, first_run_dialogs: true, models: true, skills: true, ..ResetRequest::default() };
    assert_eq!(
        wipe_sql(&req),
        "DELETE FROM conversations;DELETE FROM settings WHERE key = 'setup_complete';DELETE FROM local_models;"
    );
    assert_eq!(wiped_dirs(&req), vec!["skills", "models"]);

    let all = ResetRequest { settings: true, first_run_dialogs: true, providers: true, ..ResetRequest::default() };
    assert_eq!(wipe_sql(&all), "DELETE FROM settings;DELETE FROM providers; DELETE FROM model_overrides;");
}

fn hit(n: usize) -> SearchHit {
    SearchHit { title: Some(format!("T{}", n)), url: Some(format!("https://e/{}", n)), content: None }
}

#[test]
fn search_results_are_numbered_and_cut_at_fifteen() {
    assert_eq!(search_text(&vec![]), "");
    assert_eq!(search_text(&vec![hit(1)]), "1. T1\n   https://e/1\n   ");
    let many: Vec<SearchHit> = (1..=20).map(hit).collect();
    let text = search_text(&many);
    assert!(text.starts_with("1. T1\n   https://e/1\n   \n\n2. T2"));
    assert!(text.ends_with("15. T15\n   https://e/15\n   "));
    assert!(!text.contains("T16"));
}

#[test]
fn a_worker_error_is_named_as_such() {
    assert_eq!(worker_outcome(Some("boom".to_string()), vec![hit(1)]).unwrap_err(), "SearXNG error: boom");
    assert_eq!(worker_outcome(None, vec![hit(1), hit(2)]).unwrap().len(), 2);
}

#[test]
fn the_log_tail_keeps_the_last_two_thousand_bytes() {
    assert_eq!(log_tail("boot ok"), "--- last output ---\nboot ok");
    let long = format!("{}{}", "a".repeat(100), "b".repeat(2000));
    assert_eq!(log_tail(&long), format!("--- last output ---\n{}", "b".repeat(2000)));
    let cut = format!("é{}", "c".repeat(1999));
    assert_eq!(log_tail(&cut), format!("--- last output ---\n\u{FFFD}{}", "c".repeat(1999)));
}
