use demido_studio::agent::{google_service_for, is_builtin};
use demido_studio::tooldefs::{
    builtin_tool_defs, exposable_builtin, exposable_builtin_defs, google_tool_defs, optional_builtin_tools,
    skills_tool_defs, web_tool_defs, ToolDef,
};

fn names(defs: &[ToolDef]) -> Vec<&str> {
    defs.iter().map(|d| d.name.as_str()).collect()
}

fn strings(v: &[&str]) -> Vec<String> {
    v.iter().map(|s| s.to_string()).collect()
}

#[test]
fn every_schema_is_a_json_object_with_properties() {
    let all: Vec<ToolDef> = builtin_tool_defs()
        .into_iter()
        .chain(skills_tool_defs())
        .chain(web_tool_defs())
        .chain(google_tool_defs())
        .collect();
    assert_eq!(all.len(), 15);
    for d in &all {
        let v: serde_json::Value = serde_json::from_str(&d.input_schema).unwrap();
        assert_eq!(v["type"], "object", "{}", d.name);
        assert!(v["properties"].is_object(), "{}", d.name);
        assert!(!d.description.is_empty());
        assert!(is_builtin(&d.name, false), "{}", d.name);
    }
    let web: serde_json::Value = serde_json::from_str(&web_tool_defs()[1].input_schema).unwrap();
    assert_eq!(web["properties"]["format"]["enum"][2], "html");
}

#[test]
fn the_tool_lists_name_what_the_executor_runs() {
    assert_eq!(
        names(&builtin_tool_defs()),
        vec!["read_file", "write_file", "edit_file", "list_dir", "run_command", "search_files"]
    );
    assert_eq!(names(&skills_tool_defs()), vec!["install_skill", "delete_skill"]);
    assert_eq!(names(&exposable_builtin_defs()), vec!["install_skill", "delete_skill"]);
    assert_eq!(names(&web_tool_defs()), vec!["web_search", "web_fetch"]);
    let google = google_tool_defs();
    assert_eq!(
        names(&google),
        vec!["list_emails", "read_email", "list_calendar_events", "list_contacts", "read_contact"]
    );
    assert!(google.iter().all(|d| google_service_for(&d.name).is_some()));
    assert!(web_tool_defs().iter().all(|d| google_service_for(&d.name).is_none()));
}

#[test]
fn a_skill_may_claim_only_the_skills_tools() {
    assert_eq!(exposable_builtin("install_skill").unwrap().name, "install_skill");
    assert_eq!(exposable_builtin("delete_skill").unwrap().name, "delete_skill");
    assert!(exposable_builtin("run_command").is_none());
    assert!(exposable_builtin("write_file").is_none());
    assert!(exposable_builtin("").is_none());
}

#[test]
fn optional_tools_follow_the_switches_and_the_connected_services() {
    let none = optional_builtin_tools(&vec![], &vec![]);
    assert_eq!(names(&none), vec!["web_search", "web_fetch"]);
    let mail = optional_builtin_tools(&strings(&["builtin:web_fetch"]), &strings(&["email"]));
    assert_eq!(names(&mail), vec!["web_search", "list_emails", "read_email"]);
    let all = optional_builtin_tools(&vec![], &strings(&["calendar", "contacts", "email"]));
    assert_eq!(all.len(), 7);
    let off = optional_builtin_tools(&strings(&["builtin:read_contact", "builtin:web_search"]), &strings(&["contacts"]));
    assert_eq!(names(&off), vec!["web_fetch", "list_contacts"]);
}
