use demido_studio::permissions::{graphify_permission, is_permitted, is_sensitive_path, PermissionResult};

const MODES: &[&str] = &["cautious", "balanced", "autonomous", "off"];

/// `bundles_mcp`: what reading the payload's files concluded (an unreadable payload counts as
/// bundling a server); `skill_tool`: whether the name is a skill-declared tool.
fn allowed(mode: &str, tool: &str, path: &str, bundles_mcp: bool, skill_tool: bool) -> bool {
    matches!(is_permitted(mode, tool, path, bundles_mcp, skill_tool), PermissionResult::Allow)
}

#[test]
fn install_skill_never_prompts_in_any_mode() {
    for mode in MODES {
        assert!(
            allowed(mode, "install_skill", "", false, false),
            "install_skill should be allowed in {mode} mode"
        );
    }
}

#[test]
fn install_skill_always_prompts_when_the_payload_bundles_an_mcp_server() {
    for mode in MODES {
        assert!(
            !allowed(mode, "install_skill", "", true, false),
            "install_skill with an mcp.json must ask in {mode} mode"
        );
    }
}

#[test]
fn install_skill_still_allows_a_payload_with_no_mcp_server() {
    for mode in MODES {
        assert!(allowed(mode, "install_skill", "", false, false));
    }
}

#[test]
fn install_skill_asks_when_the_payload_cannot_be_parsed() {
    for mode in MODES {
        assert!(!allowed(mode, "install_skill", "", true, false));
    }
}

#[test]
fn skill_prompt_tools_never_prompt() {
    for mode in MODES {
        assert!(allowed(mode, "skill_my-skill_review", "a.ts", false, true));
    }
}

#[test]
fn delete_skill_always_prompts_even_in_autonomous_mode() {
    for mode in MODES {
        assert!(
            !allowed(mode, "delete_skill", "", false, false),
            "delete_skill should ask in {mode} mode"
        );
    }
}

#[test]
fn the_skills_exemptions_do_not_leak_into_other_tools() {
    for mode in ["cautious", "balanced"] {
        assert!(!allowed(mode, "write_file", "a.txt", false, false));
        assert!(!allowed(mode, "run_command", "", false, false));
    }
}

#[test]
fn graphify_query_is_always_allowed_read_only() {
    for consent in [true, false] {
        assert!(matches!(
            graphify_permission("graphify_query", consent),
            PermissionResult::Allow
        ));
    }
}

#[test]
fn graphify_build_follows_the_auto_build_toggle_consent() {
    assert!(matches!(
        graphify_permission("graphify_build", true),
        PermissionResult::Allow
    ));
    assert!(matches!(
        graphify_permission("graphify_build", false),
        PermissionResult::Ask
    ));
}

#[test]
fn balanced_still_guards_sensitive_reads() {
    assert!(allowed("balanced", "read_file", "src/main.rs", false, false));
    assert!(!allowed("balanced", "read_file", "app/.env", false, false));
}

#[test]
fn autonomous_runs_everything_and_unknown_modes_ask() {
    assert!(allowed("autonomous", "run_command", "", false, false));
    assert!(!allowed("sometimes", "read_file", "src/main.rs", false, false));
    assert!(allowed("balanced", "list_dir", "", false, false));
    assert!(allowed("balanced", "search_files", "", false, false));
    assert!(!allowed("balanced", "edit_file", "a.rs", false, false));
}

#[test]
fn sensitive_paths_by_name_and_by_folder() {
    assert!(is_sensitive_path("config/.env.local"));
    assert!(is_sensitive_path("secrets/database.toml"));
    assert!(is_sensitive_path("certs/server.PEM"));
    assert!(is_sensitive_path("Password.txt"));
    assert!(!is_sensitive_path("src/environment.rs"));
    assert!(!is_sensitive_path("README.md"));
}

#[test]
fn other_graphify_tools_ask() {
    assert!(matches!(graphify_permission("graphify_delete", true), PermissionResult::Ask));
}
