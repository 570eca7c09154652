use demido_studio::caveman::{
    append_to_prompt, is_valid_level, levels, prompt_for, thinking_rider, FULL, ULTRA, ULTRA_THINKING,
};

#[test]
fn off_and_unknown_levels_inject_nothing() {
    assert!(prompt_for("off").is_none());
    assert!(prompt_for("wenyan-galaxy").is_none());
    assert!(prompt_for("").is_none());
}

#[test]
fn every_non_off_level_has_a_standalone_prompt() {
    for level in levels().iter().filter(|l| **l != "off") {
        let p = prompt_for(level).unwrap_or_else(|| panic!("{level} has no prompt"));
        assert!(!p.trim().is_empty(), "{level} prompt is blank");
    }
}

#[test]
fn append_is_a_no_op_when_off() {
    assert_eq!(append_to_prompt("base".into(), "off", false), "base");
    assert_eq!(append_to_prompt(String::new(), "off", false), "");
    assert_eq!(append_to_prompt("base".into(), "off", true), "base");
}

#[test]
fn append_puts_the_style_last_and_survives_an_empty_base() {
    let out = append_to_prompt("base prompt".into(), "full", false);
    assert!(out.starts_with("base prompt\n\n"));
    assert!(out.ends_with(FULL));
    assert_eq!(append_to_prompt(String::new(), "full", false), FULL);
}

#[test]
fn every_non_off_level_has_a_thinking_rider() {
    for level in levels().iter().filter(|l| **l != "off") {
        let r = thinking_rider(level).unwrap_or_else(|| panic!("{level} has no rider"));
        assert!(r.contains("</think>"), "{level} rider lost the closing-tag guard");
        for opener in ["The user is asking", "I should", "Let me"] {
            assert!(
                r.contains(opener),
                "{level} rider no longer forbids the {opener:?} opener"
            );
        }
    }
    assert!(thinking_rider("off").is_none());
    assert!(thinking_rider("wenyan-galaxy").is_none());
}

#[test]
fn the_rider_rides_only_when_asked_and_lands_after_the_style() {
    let out = append_to_prompt("base".into(), "ultra", true);
    assert!(out.starts_with("base\n\n"));
    assert!(out.contains(ULTRA));
    assert!(out.ends_with(ULTRA_THINKING));

    let hosted = append_to_prompt("base".into(), "ultra", false);
    assert!(hosted.ends_with(ULTRA));
    assert!(!hosted.contains(ULTRA_THINKING));
}

#[test]
fn validity_matches_the_level_list() {
    assert!(is_valid_level("ultra"));
    assert!(is_valid_level("wenyan-ultra"));
    assert!(!is_valid_level("Ultra"));
    assert!(!is_valid_level("caveman"));
}

#[test]
fn every_listed_level_is_valid() {
    for level in levels() {
        assert!(is_valid_level(level));
    }
    assert!(levels().contains(&"off"));
}

#[test]
fn appending_is_the_base_then_the_style_then_the_rider() {
    let out = append_to_prompt("base".into(), "ultra", true);
    assert_eq!(out, format!("base\n\n{}\n\n{}", ULTRA, ULTRA_THINKING));
}
