use demido_studio::agent::{
    build_is_update, builtin_call_step, format_tool_description, google_service_for, is_builtin,
    needs_working_folder, query_plan, CallStep, QueryPlan, ToolCallArgs,
};
use demido_studio::permissions::PermissionResult;

fn args(path: Option<&str>, command: Option<&str>, id: Option<&str>, pattern: Option<&str>, detail: Option<&str>) -> ToolCallArgs {
    ToolCallArgs {
        path: path.map(String::from),
        command: command.map(String::from),
        id: id.map(String::from),
        pattern: pattern.map(String::from),
        install_detail: detail.map(String::from),
    }
}

#[test]
fn google_tools_name_their_service() {
    assert_eq!(google_service_for("read_email"), Some("email"));
    assert_eq!(google_service_for("list_calendar_events"), Some("calendar"));
    assert_eq!(google_service_for("read_contact"), Some("contacts"));
    assert_eq!(google_service_for("read_file"), None);
}

#[test]
fn builtin_names_and_skill_tools_are_ours() {
    assert!(is_builtin("read_file", false));
    assert!(is_builtin("list_emails", false));
    assert!(is_builtin("skill_x_y", true));
    assert!(is_builtin("graphify_query", false));
    assert!(is_builtin("graphify_build", false));
    assert!(!is_builtin("github_search", false));
}

#[test]
fn prompts_describe_the_call() {
    assert_eq!(format_tool_description("read_file", &args(Some("a.rs"), None, None, None, None)), "Read file: a.rs");
    assert_eq!(format_tool_description("list_dir", &args(None, None, None, None, None)), "List directory: .");
    assert_eq!(format_tool_description("run_command", &args(None, Some("ls"), None, None, None)), "Run command: ls");
    assert_eq!(
        format_tool_description("search_files", &args(None, None, None, Some("fn main"), None)),
        "Search files: fn main in ."
    );
    assert_eq!(
        format_tool_description("install_skill", &args(None, None, Some("s"), None, None)),
        "Install skill 's', which bundles an MCP server"
    );
    assert_eq!(format_tool_description("mystery", &args(None, None, None, None, None)), "mystery");
}

#[test]
fn writing_needs_a_folder_and_a_stop_wins() {
    assert!(needs_working_folder("edit_file"));
    assert!(!needs_working_folder("read_file"));
    assert_eq!(builtin_call_step(true, false, "write_file", PermissionResult::Allow), CallStep::Stopped);
    assert_eq!(builtin_call_step(false, false, "write_file", PermissionResult::Allow), CallStep::NoFolder);
    assert_eq!(builtin_call_step(false, false, "read_file", PermissionResult::Allow), CallStep::Run);
    assert_eq!(builtin_call_step(false, true, "write_file", PermissionResult::Ask), CallStep::Ask);
}

#[test]
fn a_stale_graph_is_refreshed_only_with_consent() {
    assert_eq!(query_plan(false, false), QueryPlan::Query);
    assert_eq!(query_plan(true, true), QueryPlan::RefreshThenQuery);
    assert_eq!(query_plan(true, false), QueryPlan::QueryWithWarning);
    assert!(build_is_update(false, true));
    assert!(!build_is_update(false, false));
}
