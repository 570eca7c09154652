use demido_studio::replies::{
    anthropic_budgets, anthropic_thinking, finish_anthropic, finish_gemini, gemini_stream_error, gemini_thinking,
    AnthropicEvent, AnthropicReply, GeminiReply, GeminiReplyPart, Shown,
};

fn start(kind: &str, id: Option<&str>, name: Option<&str>) -> AnthropicEvent {
    AnthropicEvent::BlockStart { kind: Some(kind.to_string()), id: id.map(String::from), name: name.map(String::from) }
}

fn part(thought: bool, text: Option<&str>, call: Option<(Option<&str>, &str)>, sig: Option<&str>) -> GeminiReplyPart {
    GeminiReplyPart {
        thought,
        text: text.map(String::from),
        function_call: call.map(|(n, a)| (n.map(String::from), a.to_string())),
        thought_signature: sig.map(String::from),
    }
}

#[test]
fn anthropic_thinks_unless_effort_is_off_or_absent() {
    assert!(anthropic_thinking(Some("high")));
    assert!(anthropic_thinking(Some("low")));
    assert!(!anthropic_thinking(Some("off")));
    assert!(!anthropic_thinking(None));
}

#[test]
fn anthropic_budget_grows_with_thinking() {
    assert_eq!(anthropic_budgets(true), (16000, Some(10000)));
    assert_eq!(anthropic_budgets(false), (8192, None));
}

#[test]
fn anthropic_text_deltas_make_the_answer() {
    let mut r = AnthropicReply::new();
    assert_eq!(r.feed(start("text", None, None)), None);
    assert_eq!(r.feed(AnthropicEvent::Text("Hel".to_string())), Some(Shown::Token("Hel".to_string())));
    assert_eq!(r.feed(AnthropicEvent::Text("lo".to_string())), Some(Shown::Token("lo".to_string())));
    assert_eq!(r.feed(AnthropicEvent::BlockStop), None);
    assert_eq!(r.feed(AnthropicEvent::Other), None);
    let a = finish_anthropic(r);
    assert_eq!(a.content, "Hello");
    assert!(a.calls.is_empty());
    assert_eq!(a.thinking, None);
}

#[test]
fn anthropic_tool_block_becomes_a_call() {
    let mut r = AnthropicReply::new();
    r.feed(start("tool_use", Some("toolu_1"), Some("read_file")));
    assert_eq!(r.feed(AnthropicEvent::InputJson("{\"path\":".to_string())), None);
    r.feed(AnthropicEvent::InputJson("\"a.txt\"}".to_string()));
    r.feed(AnthropicEvent::BlockStop);
    let a = finish_anthropic(r);
    assert_eq!(a.content, "");
    assert_eq!(a.calls.len(), 1);
    assert_eq!(a.calls[0].id, "toolu_1");
    assert_eq!(a.calls[0].name, "read_file");
    assert_eq!(a.calls[0].arguments, "{\"path\":\"a.txt\"}");
    assert_eq!(a.calls[0].thought_signature, None);
}

#[test]
fn anthropic_broken_arguments_become_an_empty_object() {
    let mut r = AnthropicReply::new();
    r.feed(start("tool_use", Some("t"), Some("list_dir")));
    r.feed(AnthropicEvent::InputJson("{\"path\": ".to_string()));
    r.feed(AnthropicEvent::BlockStop);
    let a = finish_anthropic(r);
    assert_eq!(a.calls[0].arguments, "{}");
}

#[test]
fn anthropic_tool_without_arguments_gets_an_empty_object() {
    let mut r = AnthropicReply::new();
    r.feed(start("tool_use", None, None));
    r.feed(AnthropicEvent::BlockStop);
    let a = finish_anthropic(r);
    assert_eq!(a.calls[0].id, "");
    assert_eq!(a.calls[0].name, "");
    assert_eq!(a.calls[0].arguments, "{}");
}

#[test]
fn anthropic_reasoning_is_shown_and_kept_apart() {
    let mut r = AnthropicReply::new();
    r.feed(start("thinking", None, None));
    assert_eq!(r.feed(AnthropicEvent::Thinking("hmm".to_string())), Some(Shown::Thinking("hmm".to_string())));
    r.feed(AnthropicEvent::Thinking(" ok".to_string()));
    assert_eq!(r.feed(AnthropicEvent::BlockStop), Some(Shown::ThinkingEnd));
    r.feed(start("text", None, None));
    r.feed(AnthropicEvent::Text("Answer".to_string()));
    r.feed(AnthropicEvent::BlockStop);
    let a = finish_anthropic(r);
    assert_eq!(a.content, "Answer");
    assert_eq!(a.thinking.as_deref(), Some("hmm ok"));
}

#[test]
fn gemini_budget_follows_effort() {
    assert_eq!(gemini_thinking(Some("low")), Some((1024, true)));
    assert_eq!(gemini_thinking(Some("medium")), Some((8192, true)));
    assert_eq!(gemini_thinking(Some("high")), Some((24576, true)));
    assert_eq!(gemini_thinking(Some("off")), Some((0, false)));
    assert_eq!(gemini_thinking(None), None);
}

#[test]
fn gemini_parts_fold_into_an_answer() {
    let mut r = GeminiReply::new();
    assert_eq!(r.feed(part(true, Some("thinking..."), None, None)), Some(Shown::Thinking("thinking...".to_string())));
    assert_eq!(r.feed(part(true, None, None, None)), None);
    assert_eq!(r.feed(part(false, Some("Hi"), None, None)), Some(Shown::Token("Hi".to_string())));
    assert_eq!(r.feed(part(false, None, Some((Some("search"), "{\"q\":1}")), Some("sig"))), None);
    assert_eq!(r.feed(part(false, None, Some((None, "{}")), None)), None);
    assert_eq!(r.feed(part(false, None, None, None)), None);
    let a = finish_gemini(r);
    assert_eq!(a.content, "Hi");
    assert_eq!(a.thinking.as_deref(), Some("thinking..."));
    assert_eq!(a.calls.len(), 2);
    assert_eq!(a.calls[0].id, "gemini-search-0");
    assert_eq!(a.calls[0].name, "search");
    assert_eq!(a.calls[0].arguments, "{\"q\":1}");
    assert_eq!(a.calls[0].thought_signature.as_deref(), Some("sig"));
    assert_eq!(a.calls[1].id, "gemini--1");
    assert_eq!(a.calls[1].name, "");
}

#[test]
fn gemini_answer_without_reasoning_has_none() {
    let mut r = GeminiReply::new();
    r.feed(part(false, Some("x"), None, None));
    assert_eq!(finish_gemini(r).thinking, None);
}

#[test]
fn gemini_stream_error_names_the_message() {
    assert_eq!(gemini_stream_error(Some("quota")), "Gemini stream error: quota");
    assert_eq!(gemini_stream_error(None), "Gemini stream error: unknown error");
}
