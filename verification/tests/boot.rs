use demido_studio::boot::{is_forced, stage_at, stages, BootReport, Failure, Failures, Progress, State, STAGE_COUNT};

#[test]
fn every_stage_has_an_id_and_a_name() {
    let all = stages();
    assert!(!all.is_empty());
    for stage in &all {
        assert!(!stage.id.is_empty());
        assert!(!stage.name.is_empty());
    }
}

#[test]
fn stage_ids_are_unique() {
    let mut seen = std::collections::BTreeSet::new();
    for stage in stages() {
        assert!(seen.insert(stage.id), "two stages answer to {}", stage.id);
    }
}

#[test]
fn a_failure_is_kept_after_it_is_skipped() {
    let mut failures = Failures::default();
    assert!(failures.read().is_empty());
    failures.record(Failure {
        id: "settings",
        name: "the settings",
        detail: "the document would not parse".into(),
    });
    let kept = failures.read();
    assert_eq!(kept.len(), 1);
    assert_eq!(kept[0].id, "settings");
}

#[test]
fn a_forced_failure_names_one_stage() {
    assert!(is_forced("settings", "settings"));
    assert!(!is_forced("settings", "desk"));
}

#[test]
fn a_forced_list_is_split_on_commas_and_trimmed() {
    assert!(is_forced("desk, settings", "settings"));
    assert!(is_forced(" desk ,models", "desk"));
    assert!(!is_forced("", "desk"));
    assert!(!is_forced("settingsx", "settings"));
}

#[test]
fn the_stage_list_is_the_one_the_splash_counts() {
    assert_eq!(stages().len(), STAGE_COUNT);
    for i in 0..STAGE_COUNT {
        assert_eq!(stage_at(i).id, stages()[i].id);
    }
}

#[test]
fn settling_a_stage_records_only_failures() {
    let mut failures = Failures::new();
    let ok = failures.settle(0, Ok(()));
    assert_eq!(ok.state, State::Done);
    assert_eq!(ok.index, 0);
    assert_eq!(ok.total, STAGE_COUNT);
    assert!(ok.detail.is_none());
    assert!(failures.read().is_empty());

    let bad = failures.settle(1, Err("broken".to_string()));
    assert_eq!(bad.state, State::Failed);
    assert_eq!(bad.detail.as_deref(), Some("broken"));
    let kept = failures.read();
    assert_eq!(kept.len(), 1);
    assert_eq!(kept[0].id, stage_at(1).id);
    assert_eq!(kept[0].detail, "broken");
}

#[test]
fn a_running_stage_says_so() {
    let p: Progress = Progress::running(2);
    assert_eq!(p.state, State::Running);
    assert_eq!(p.index, 2);
    assert_eq!(p.stage.id, stage_at(2).id);
}

#[test]
fn the_boot_report_carries_what_it_was_given() {
    let r = BootReport::new("0.4.1", true);
    assert_eq!(r.version(), "0.4.1");
    assert!(r.driven());
}
