use demido_studio::caps::{registry_from_text, PartialCaps};
use demido_studio::compat::CompatStream;
use demido_studio::db::stored_setting;
use demido_studio::mcp::{args_column, args_from_column, env_column, env_from_column};
use demido_studio::references::existing_referenced;
use demido_studio::replies::{anthropic_event, gemini_parts, AnthropicEvent};
use demido_studio::stream::StreamPiece;
use demido_studio::textmap::TextMap;
use demido_studio::tools::{edit_step, search_file_lines, search_pattern, EditStep, EDIT_APPLIED};

fn texts(v: &[&str]) -> Vec<String> {
    v.iter().map(|s| s.to_string()).collect()
}

#[test]
fn settings_arrive_json_encoded() {
    assert_eq!(stored_setting("\"hello\""), "hello");
    assert_eq!(stored_setting("42"), "42");
    assert_eq!(stored_setting("not json"), "not json");
    assert_eq!(stored_setting("\"a\\nb\""), "a\nb");
}

#[test]
fn a_models_dev_body_becomes_a_registry() {
    let body = r#"{"openai":{"models":{"gpt-4o":{"modalities":{"input":["text","image"]},"tool_call":true,"reasoning":false}}},"empty":{"models":5}}"#;
    let reg = registry_from_text(body).expect("registry");
    let caps = reg.lookup(Some("openai"), "gpt-4o");
    assert_eq!(caps, PartialCaps { vision: Some(true), tools: Some(true), reasoning: Some(false) });
    assert!(registry_from_text("[]").is_none());
    assert!(registry_from_text("not json").is_none());
    assert!(registry_from_text(r#"{"x":{"models":{"m":{}}}}"#).is_none());
}

#[test]
fn server_columns_read_back() {
    let args = Some(texts(&["-y", "pkg"]));
    let col = args_column(&args).unwrap();
    assert_eq!(args_from_column(Some(&col)), args);
    assert_eq!(args_from_column(Some("{}")), None);
    assert_eq!(args_from_column(None), None);
    let mut env = TextMap::new();
    env.insert("K".to_string(), "V".to_string());
    let col = env_column(&Some(env)).unwrap();
    assert_eq!(col, "{\"K\":\"V\"}");
    let back = env_from_column(Some(&col)).unwrap();
    assert_eq!(back.get("K").as_deref(), Some("V"));
    assert!(env_from_column(Some("[1]")).is_none());
    assert_eq!(env_column(&None), None);
}

#[test]
fn only_existing_candidates_are_kept() {
    let cands = texts(&["a.md", "b.md", "c.md"]);
    assert_eq!(existing_referenced(&cands, &vec![true, false, true]), texts(&["a.md", "c.md"]));
}

#[test]
fn a_search_records_matching_lines() {
    let re = search_pattern("fo+").unwrap();
    let mut found = Vec::new();
    assert!(search_file_lines(&re, "src/a.rs", "foo here\r\nnothing\n  fooo  \n", &mut found));
    assert_eq!(found, texts(&["src/a.rs:1: foo here", "src/a.rs:3: fooo"]));
    let err = search_pattern("(").unwrap_err();
    assert!(err.starts_with("Invalid regex pattern: "));
}

#[test]
fn an_edit_is_written_or_refused() {
    assert_eq!(edit_step("x x", "x", "y", "/w/a.txt"), EditStep::Write("y x".to_string()));
    assert_eq!(edit_step("x x", "z", "y", "/w/a.txt"), EditStep::Answer("Error: old_str not found in /w/a.txt".to_string()));
    assert_eq!(EDIT_APPLIED, "Edit applied successfully");
}

#[test]
fn anthropic_events_are_read_from_their_data() {
    assert!(matches!(
        anthropic_event(r#"{"type":"content_block_start","content_block":{"type":"tool_use","id":"t1","name":"read_file"}}"#),
        AnthropicEvent::BlockStart { kind: Some(k), id: Some(i), name: Some(n) } if k == "tool_use" && i == "t1" && n == "read_file"
    ));
    assert!(matches!(
        anthropic_event(r#"{"type":"content_block_delta","delta":{"type":"text_delta","text":"hi"}}"#),
        AnthropicEvent::Text(t) if t == "hi"
    ));
    assert!(matches!(anthropic_event(r#"{"type":"content_block_stop"}"#), AnthropicEvent::BlockStop));
    assert!(matches!(anthropic_event("garbage"), AnthropicEvent::Other));
}

#[test]
fn gemini_chunks_give_parts_or_an_error() {
    let parts = gemini_parts(r#"{"candidates":[{"content":{"parts":[{"text":"hm","thought":true},{"text":"hi"},{"functionCall":{"name":"f","args":{"a":1}},"thoughtSignature":"s"}]}}]}"#).unwrap();
    assert_eq!(parts.len(), 3);
    assert!(parts[0].thought);
    assert!(!parts[1].thought);
    assert_eq!(parts[2].function_call, Some((Some("f".to_string()), "{\"a\":1}".to_string())));
    assert_eq!(parts[2].thought_signature.as_deref(), Some("s"));
    assert_eq!(gemini_parts(r#"{"error":{"message":"quota"}}"#).unwrap_err(), "Gemini stream error: quota");
    assert!(gemini_parts("nope").unwrap().is_empty());
}

#[test]
fn an_openai_compatible_stream_folds_into_an_answer() {
    let mut s = CompatStream::new();
    let shown = s.step(r#"{"choices":[{"delta":{"content":"Hi <thi"}}]}"#);
    assert!(shown.is_empty() || matches!(&shown[0], StreamPiece::Visible(_)));
    s.step(r#"{"choices":[{"delta":{"content":"nk>plan</think> there"}}]}"#);
    s.step(r#"{"choices":[{"delta":{"reasoning_content":"more"}}]}"#);
    s.step(r#"{"choices":[{"delta":{"tool_calls":[{"index":0,"id":"c1","function":{"name":"f","arguments":"{\"a\""}}]}}]}"#);
    s.step(r#"{"choices":[{"delta":{"tool_calls":[{"index":0,"function":{"arguments":":1}"}}]},"finish_reason":"tool_calls"}]}"#);
    s.step("[DONE]");
    let (out, _) = s.finish(true);
    assert_eq!(out.content, "Hi  there");
    assert_eq!(out.thinking.as_deref(), Some("planmore"));
    assert_eq!(out.finish_reason, "tool_calls");
    assert_eq!(out.calls, vec![(0, "c1".to_string(), "f".to_string(), "{\"a\":1}".to_string())]);
    let (hidden, _) = CompatStream::new().finish(false);
    assert_eq!(hidden.thinking, None);
}
