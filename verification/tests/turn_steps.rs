use demido_studio::db::Message;
use demido_studio::permissions::is_valid_agent_mode;
use demido_studio::providers::CallList;
use demido_studio::turn::{
    build_api_messages, continuation_hint, continuation_tail, reasoning_step, ApiMessage, NativeReasoning,
    ReasoningStep,
};

fn msg(role: &str, content: &str, tool_call_id: Option<&str>) -> Message {
    Message {
        id: "id".to_string(),
        conversation_id: "c".to_string(),
        role: role.to_string(),
        content: content.to_string(),
        tool_call_id: tool_call_id.map(String::from),
        created_at: 0,
        token_count: None,
        thinking: None,
    }
}

fn decided(step: ReasoningStep) -> Option<(Vec<String>, String)> {
    match step {
        ReasoningStep::Decided(Some(info)) => Some((info.allowed_options, info.default)),
        ReasoningStep::Decided(None) => None,
        other => panic!("not decided: {:?}", other),
    }
}

fn owned(v: &[&str]) -> Vec<String> {
    v.iter().map(|s| s.to_string()).collect()
}

#[test]
fn a_manual_override_settles_the_knob() {
    assert_eq!(decided(reasoning_step("openai_compat", true, Some(false), Some(true), None, None)), None);
    assert_eq!(
        decided(reasoning_step("gemini", false, Some(true), None, None, None)),
        Some((owned(&["off", "low", "medium", "high"]), "off".to_string()))
    );
    assert_eq!(
        decided(reasoning_step("openai_compat", false, Some(true), None, None, None)),
        Some((owned(&["on", "off"]), "off".to_string()))
    );
}

#[test]
fn anthropic_always_offers_on_and_off() {
    assert_eq!(
        decided(reasoning_step("anthropic", false, None, None, None, None)),
        Some((owned(&["off", "on"]), "off".to_string()))
    );
}

#[test]
fn gemini_asks_the_registry_first() {
    assert!(matches!(reasoning_step("gemini", false, None, None, None, None), ReasoningStep::FetchRegistry));
    assert_eq!(decided(reasoning_step("gemini", false, None, None, None, Some(Some(false)))), None);
    assert_eq!(
        decided(reasoning_step("gemini", false, None, None, None, Some(None))),
        Some((owned(&["off", "low", "medium", "high"]), "off".to_string()))
    );
}

#[test]
fn a_local_model_follows_its_probe() {
    assert_eq!(decided(reasoning_step("openai_compat", true, None, Some(false), None, None)), None);
    assert_eq!(
        decided(reasoning_step("openai_compat", true, None, Some(true), None, None)),
        Some((owned(&["on", "off"]), "off".to_string()))
    );
}

#[test]
fn lm_studio_is_asked_before_the_registry() {
    assert!(matches!(reasoning_step("openai_compat", false, None, None, None, None), ReasoningStep::FetchNative));
    let native = NativeReasoning { allowed_options: owned(&["low", "high"]), default: None };
    assert_eq!(
        decided(reasoning_step("openai_compat", false, None, None, Some(Some(native)), None)),
        Some((owned(&["low", "high"]), "off".to_string()))
    );
    let empty = NativeReasoning { allowed_options: Vec::new(), default: Some("on".to_string()) };
    assert!(matches!(
        reasoning_step("openai_compat", false, None, None, Some(Some(empty)), None),
        ReasoningStep::FetchRegistry
    ));
    assert_eq!(
        decided(reasoning_step("openai_compat", false, None, None, Some(None), Some(Some(true)))),
        Some((owned(&["on", "off"]), "off".to_string()))
    );
    assert_eq!(decided(reasoning_step("openai_compat", false, None, None, Some(None), Some(Some(false)))), None);
}

#[test]
fn other_providers_have_no_knob() {
    assert_eq!(decided(reasoning_step("ollama", false, None, None, None, None)), None);
}

#[test]
fn a_continuation_quotes_the_last_words() {
    assert_eq!(continuation_tail("  hello world \n"), "hello world");
    let long: String = "a".repeat(150) + " " + &"b".repeat(150);
    let tail = continuation_tail(&long);
    assert_eq!(tail.chars().count(), 200);
    assert!(tail.ends_with('b'));
    assert_eq!(continuation_tail(&("x".repeat(199) + " " + &"y".repeat(200))), "y".repeat(200));
    assert_eq!(continuation_tail("   "), "");
}

#[test]
fn a_continuation_hint_names_the_stopping_point() {
    assert_eq!(continuation_hint(""), "Please continue your previous response.");
    assert_eq!(
        continuation_hint("the end"),
        "Please continue your previous response. Your last words were: \"the end\". Output only new content that naturally follows, without repeating anything already written."
    );
}

#[test]
fn stored_messages_are_sent_by_role() {
    let msgs = vec![
        msg("system", "ignored", None),
        msg("user", "hi", None),
        msg("assistant", "{\"__tool_calls__\":[{\"id\":\"c1\",\"type\":\"function\",\"function\":{\"name\":\"read_file\",\"arguments\":\"{}\"},\"thought_signature\":\"sig\"}]}", None),
        msg("tool", "result", Some("c1")),
        msg("assistant", "  answer  ", None),
        msg("assistant", "   ", None),
    ];
    let out = build_api_messages(&msgs);
    assert_eq!(out.len(), 4);
    assert!(matches!(&out[0], ApiMessage::Text { role, text } if role == "user" && text == "hi"));
    match &out[1] {
        ApiMessage::ToolCalls { calls: CallList::List(v) } => {
            assert_eq!(v.len(), 1);
            assert_eq!(v[0].id.as_deref(), Some("c1"));
            assert_eq!(v[0].name.as_deref(), Some("read_file"));
            assert_eq!(v[0].arguments.as_deref(), Some("{}"));
            assert_eq!(v[0].thought_signature.as_deref(), Some("sig"));
        },
        other => panic!("expected calls, got {:?}", other),
    }
    assert!(matches!(&out[2], ApiMessage::ToolResult { content, tool_call_id } if content == "result" && tool_call_id.as_deref() == Some("c1")));
    assert!(matches!(&out[3], ApiMessage::Text { role, text } if role == "assistant" && text == "answer"));
}

#[test]
fn superseded_artifacts_are_dropped_from_older_answers() {
    let msgs = vec![
        msg("assistant", "Draft <artifact identifier=\"doc\" type=\"text\">v1</artifact> done", None),
        msg("user", "again", None),
        msg("assistant", "<artifact identifier=\"doc\" type=\"text\">v2</artifact>", None),
    ];
    let out = build_api_messages(&msgs);
    assert_eq!(out.len(), 3);
    assert!(matches!(&out[0], ApiMessage::Text { text, .. } if text == "Draft  done"));
    assert!(matches!(&out[2], ApiMessage::Text { text, .. } if text == "<artifact identifier=\"doc\" type=\"text\">v2</artifact>"));
}

#[test]
fn agent_modes_are_the_four_named_ones() {
    for m in ["off", "cautious", "balanced", "autonomous"] {
        assert!(is_valid_agent_mode(m));
    }
    assert!(!is_valid_agent_mode("reckless"));
    assert!(!is_valid_agent_mode(""));
}

#[test]
fn a_record_that_is_not_a_list_is_sent_as_one() {
    let msgs = vec![msg("assistant", "{\"__tool_calls__\":{\"id\":\"c1\"}}", None)];
    let out = build_api_messages(&msgs);
    assert_eq!(out.len(), 1);
    assert!(matches!(&out[0], ApiMessage::ToolCalls { calls: CallList::NotAList }));
}
