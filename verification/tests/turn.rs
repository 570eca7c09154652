use demido_studio::turn::{
    append_continuation, artifacts_prompt, attachment_text, builtin_tool_offered, clean_title,
    compose_prompt, has_pending_tool_results, is_image_attachment, mcp_tool_offered,
    native_models_url, no_server_result, not_connected_result, reasoning_options, skill_gate,
    skill_tool_prompt, title_due, title_model, turn_outcome, xml_escape, TurnOutcome,
};

fn strings(v: &[&str]) -> Vec<String> {
    v.iter().map(|s| s.to_string()).collect()
}

#[test]
fn gemini_grades_its_thinking_and_everyone_else_is_on_or_off() {
    let g = reasoning_options("gemini");
    assert_eq!(g.allowed_options, strings(&["off", "low", "medium", "high"]));
    assert_eq!(g.default, "off");
    let o = reasoning_options("openai_compat");
    assert_eq!(o.allowed_options, strings(&["on", "off"]));
    assert_eq!(o.default, "off");
}

#[test]
fn the_native_model_list_lives_beside_the_v1_api() {
    assert_eq!(native_models_url("http://localhost:1234/v1/"), "http://localhost:1234/api/v1/models");
    assert_eq!(native_models_url("http://localhost:1234"), "http://localhost:1234/api/v1/models");
}

#[test]
fn skills_context_follows_the_system_prompt() {
    assert_eq!(compose_prompt("sys", Some("skills")), "sys\n\nskills");
    assert_eq!(compose_prompt("", Some("skills")), "skills");
    assert_eq!(compose_prompt("sys", Some("")), "sys");
    assert_eq!(compose_prompt("sys", None), "sys");
}

#[test]
fn attachments_are_quoted_so_they_cannot_close_their_tag() {
    assert_eq!(xml_escape("a<b>&\"c\""), "a&lt;b&gt;&amp;&quot;c&quot;");
    assert_eq!(attachment_text("foo.txt", "hello"), "<file name=\"foo.txt\">\nhello\n</file>");
    assert_eq!(attachment_text("x\".txt", "</file>"), "<file name=\"x&quot;.txt\">\n&lt;/file&gt;\n</file>");
    assert!(is_image_attachment(Some("image/png")));
    assert!(!is_image_attachment(Some("text/plain")));
    assert!(!is_image_attachment(None));
}

#[test]
fn switched_off_tools_are_not_offered() {
    let disabled = strings(&["srv:search", "builtin:web_search"]);
    assert!(!mcp_tool_offered("srv", "search", &disabled));
    assert!(mcp_tool_offered("srv", "fetch", &disabled));
    assert!(!builtin_tool_offered("web_search", &disabled, &vec![]));
    assert!(builtin_tool_offered("fetch_url", &disabled, &vec![]));
    assert!(!builtin_tool_offered("list_emails", &vec![], &vec![]));
    assert!(builtin_tool_offered("list_emails", &vec![], &strings(&["email"])));
}

#[test]
fn what_happens_when_a_stream_ends() {
    assert_eq!(turn_outcome(true, "  ", false, 2, false), TurnOutcome::Discard);
    assert_eq!(turn_outcome(true, "partial", false, 2, false), TurnOutcome::Save);
    assert_eq!(turn_outcome(true, "", true, 0, true), TurnOutcome::Append);
    assert_eq!(turn_outcome(false, "", false, 1, false), TurnOutcome::RunTools);
    assert_eq!(turn_outcome(false, "done", false, 0, false), TurnOutcome::Save);
}

#[test]
fn a_blank_continuation_leaves_the_answer_alone() {
    assert_eq!(append_continuation("abc", "def").unwrap(), "abcdef");
    assert!(append_continuation("abc", " \n").is_none());
}

#[test]
fn tool_results_after_the_last_user_message_are_pending() {
    assert!(has_pending_tool_results(&strings(&["user", "assistant", "tool"])));
    assert!(!has_pending_tool_results(&strings(&["user", "assistant", "tool", "user"])));
    assert!(!has_pending_tool_results(&strings(&["tool", "assistant"])));
}

#[test]
fn mcp_messages_name_the_server_and_skill() {
    assert_eq!(skill_gate(Some("s"), false).as_deref(), Some("s"));
    assert_eq!(skill_gate(Some("s"), true), None);
    assert_eq!(skill_gate(None, false), None);
    assert_eq!(skill_tool_prompt("t", "s"), "Run 't' from the \"s\" skill's MCP server");
    assert_eq!(no_server_result("t"), "Error: no MCP server found for tool 't'");
    assert_eq!(not_connected_result("srv"), "Error: MCP server 'srv' not connected");
}

#[test]
fn titles_are_due_first_and_then_periodically() {
    assert!(title_due(1, 0));
    assert!(!title_due(2, 0));
    assert!(title_due(6, 3));
    assert!(!title_due(7, 3));
    assert!(!title_due(4, -2));
    assert_eq!(title_model("p", "m", "cp", "cm"), ("p".to_string(), "m".to_string()));
    assert_eq!(title_model("p", "", "cp", "cm"), ("cp".to_string(), "cm".to_string()));
}

#[test]
fn a_title_loses_its_markdown_and_extra_lines() {
    assert_eq!(clean_title("\n\n## **Rust Borrow Checker** \nmore"), "Rust Borrow Checker");
    assert_eq!(clean_title("  \n "), "");
    assert_eq!(clean_title("`plain`"), "plain");
}

#[test]
fn artifacts_are_listed_after_the_system_prompt() {
    assert_eq!(artifacts_prompt("sys", &vec![]), "sys");
    let list = vec![("Doc".to_string(), "doc-1".to_string()), ("App".to_string(), "app".to_string())];
    assert_eq!(
        artifacts_prompt("sys", &list),
        "sys\n\nACTIVE ARTIFACTS IN THIS CONVERSATION \u{2014} when modifying any of these, use the EXACT same identifier and title:\n  - title=\"Doc\" identifier=\"doc-1\"\n  - title=\"App\" identifier=\"app\""
    );
}
