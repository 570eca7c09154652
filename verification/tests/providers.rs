use demido_studio::providers::{
    data_url, prepare_messages, to_anthropic_messages, to_gemini_contents, AnthropicBlock, AnthropicContent, CallList,
    CallRecord, ChatMessage, Content, ContentBlock, GeminiPart,
};

fn text_block(text: &str) -> ContentBlock {
    ContentBlock {
        kind: Some("text".to_string()),
        text: Some(text.to_string()),
        image_url: None,
        json: format!("{{\"type\":\"text\",\"text\":{:?}}}", text),
    }
}

fn image_block(url: &str) -> ContentBlock {
    ContentBlock {
        kind: Some("image_url".to_string()),
        text: None,
        image_url: Some(url.to_string()),
        json: format!("{{\"type\":\"image_url\",\"image_url\":{{\"url\":{:?}}}}}", url),
    }
}

fn call(id: &str, name: &str, arguments: Option<&str>, signature: Option<&str>) -> CallRecord {
    CallRecord {
        id: Some(id.to_string()),
        name: Some(name.to_string()),
        arguments: arguments.map(|a| a.to_string()),
        thought_signature: signature.map(|s| s.to_string()),
    }
}

fn calls(role: &str, list: Vec<CallRecord>) -> ChatMessage {
    ChatMessage {
        role: role.to_string(),
        content: Content::Text(String::new()),
        tool_call_id: None,
        tool_calls: Some(CallList::List(list)),
    }
}

fn result(id: &str, text: &str) -> ChatMessage {
    ChatMessage {
        role: "tool".to_string(),
        content: Content::Text(text.to_string()),
        tool_call_id: Some(id.to_string()),
        tool_calls: None,
    }
}

fn part_text(p: &GeminiPart) -> &str {
    match p {
        GeminiPart::Text(t) => t.as_str(),
        other => panic!("not a text part: {:?}", other),
    }
}

#[test]
fn to_gemini_contents_handles_array_user_content() {
    let msgs = vec![ChatMessage {
        role: "user".into(),
        content: Content::Blocks(vec![
            text_block("<file name=\"foo.txt\">\nhello\n</file>"),
            text_block("summarise this"),
        ]),
        tool_call_id: None,
        tool_calls: None,
    }];
    let result = to_gemini_contents(msgs);
    assert_eq!(result.len(), 1);
    let parts = &result[0].parts;
    assert_eq!(parts.len(), 2);
    assert!(part_text(&parts[0]).contains("foo.txt"));
    assert_eq!(part_text(&parts[1]), "summarise this");
}

#[test]
fn data_urls_split_into_type_and_data() {
    assert_eq!(data_url("data:image/png;base64,AAAA"), Some(("image/png".to_string(), "AAAA".to_string())));
    assert_eq!(data_url("data:image/png,AAAA"), None);
    assert_eq!(data_url("https://x/y.png"), None);
    assert_eq!(data_url("data:;base64,"), Some((String::new(), String::new())));
}

#[test]
fn consecutive_tool_results_ride_in_one_user_message() {
    let msgs = vec![
        ChatMessage::text("user", "hi"),
        calls("assistant", vec![call("c1", "read_file", Some("{\"path\":\"a\"}"), None), call("c2", "ls", Some("not json"), None)]),
        result("c1", "A"),
        result("c2", "B"),
        ChatMessage::text("assistant", "done"),
        result("c3", "C"),
    ];
    let out = to_anthropic_messages(msgs);
    assert_eq!(out.len(), 5);
    assert_eq!(out[0].role, "user");
    assert!(matches!(&out[0].content, AnthropicContent::Text(t) if t == "hi"));
    assert_eq!(out[1].role, "assistant");
    match &out[1].content {
        AnthropicContent::Blocks(bs) => {
            assert_eq!(bs.len(), 2);
            assert!(matches!(&bs[0], AnthropicBlock::ToolUse { id: Some(i), name: Some(n), input } if i == "c1" && n == "read_file" && input == "{\"path\":\"a\"}"));
            assert!(matches!(&bs[1], AnthropicBlock::ToolUse { input, .. } if input == "{}"));
        }
        other => panic!("{:?}", other),
    }
    assert_eq!(out[2].role, "user");
    match &out[2].content {
        AnthropicContent::Blocks(bs) => {
            assert_eq!(bs.len(), 2);
            assert!(matches!(&bs[0], AnthropicBlock::ToolResult { tool_use_id: Some(i), content: Content::Text(t) } if i == "c1" && t == "A"));
            assert!(matches!(&bs[1], AnthropicBlock::ToolResult { tool_use_id: Some(i), .. } if i == "c2"));
        }
        other => panic!("{:?}", other),
    }
    assert!(matches!(&out[3].content, AnthropicContent::Text(t) if t == "done"));
    match &out[4].content {
        AnthropicContent::Blocks(bs) => assert_eq!(bs.len(), 1),
        other => panic!("{:?}", other),
    }
    assert!(out.iter().all(|m| m.role != "tool"));
    let results: usize = out
        .iter()
        .map(|m| match &m.content {
            AnthropicContent::Blocks(bs) => bs.iter().filter(|b| matches!(b, AnthropicBlock::ToolResult { .. })).count(),
            AnthropicContent::Text(_) => 0,
        })
        .sum();
    assert_eq!(results, 3);
}

#[test]
fn anthropic_gets_images_as_base64_sources_and_other_blocks_as_they_came() {
    let msgs = vec![ChatMessage {
        role: "user".to_string(),
        content: Content::Blocks(vec![text_block("look"), image_block("data:image/jpeg;base64,/9j/"), image_block("https://x/y.png")]),
        tool_call_id: None,
        tool_calls: None,
    }];
    let out = to_anthropic_messages(msgs);
    match &out[0].content {
        AnthropicContent::Blocks(bs) => {
            assert!(matches!(&bs[0], AnthropicBlock::Block { json } if json.contains("look")));
            assert!(matches!(&bs[1], AnthropicBlock::Image { media_type, data } if media_type == "image/jpeg" && data == "/9j/"));
            assert!(matches!(&bs[2], AnthropicBlock::Block { json } if json.contains("https://x/y.png")));
        }
        other => panic!("{:?}", other),
    }
    let unlisted = vec![ChatMessage {
        role: "assistant".to_string(),
        content: Content::Text("x".to_string()),
        tool_call_id: None,
        tool_calls: Some(CallList::NotAList),
    }];
    match &to_anthropic_messages(unlisted)[0].content {
        AnthropicContent::Blocks(bs) => assert!(bs.is_empty()),
        other => panic!("{:?}", other),
    }
}

#[test]
fn gemini_names_each_result_after_the_latest_call_with_its_id() {
    let msgs = vec![
        calls("assistant", vec![call("c1", "old_name", None, Some("sig")), call("", "anonymous", None, None)]),
        calls("assistant", vec![call("c1", "new_name", Some("{\"q\":1}"), None)]),
        result("c1", "out"),
        result("zz", "lost"),
        ChatMessage::text("system", "ignored"),
        ChatMessage {
            role: "assistant".to_string(),
            content: Content::Text("plain".to_string()),
            tool_call_id: None,
            tool_calls: Some(CallList::NotAList),
        },
    ];
    let out = to_gemini_contents(msgs);
    assert_eq!(out.len(), 5);
    assert_eq!(out[0].role, "model");
    assert!(matches!(&out[0].parts[0], GeminiPart::FunctionCall { name, args, thought_signature: Some(s) } if name == "old_name" && args == "{}" && s == "sig"));
    assert!(matches!(&out[1].parts[0], GeminiPart::FunctionCall { args, thought_signature: None, .. } if args == "{\"q\":1}"));
    assert_eq!(out[2].role, "user");
    assert!(matches!(&out[2].parts[0], GeminiPart::FunctionResponse { name, output } if name == "new_name" && output == "out"));
    assert!(matches!(&out[3].parts[0], GeminiPart::FunctionResponse { name, .. } if name == "zz"));
    assert_eq!(out[4].role, "model");
    assert_eq!(part_text(&out[4].parts[0]), "plain");
    assert!(out.iter().all(|c| c.role == "user" || c.role == "model"));
}

#[test]
fn gemini_user_blocks_keep_data_images_and_never_go_empty() {
    let msgs = vec![
        ChatMessage {
            role: "user".to_string(),
            content: Content::Blocks(vec![image_block("data:image/png;base64,QQ=="), image_block("https://x")]),
            tool_call_id: None,
            tool_calls: None,
        },
        ChatMessage {
            role: "user".to_string(),
            content: Content::Blocks(vec![image_block("https://only-remote")]),
            tool_call_id: None,
            tool_calls: None,
        },
    ];
    let out = to_gemini_contents(msgs);
    assert_eq!(out[0].parts.len(), 1);
    assert!(matches!(&out[0].parts[0], GeminiPart::InlineData { mime_type, data } if mime_type == "image/png" && data == "QQ=="));
    assert_eq!(out[1].parts.len(), 1);
    assert_eq!(part_text(&out[1].parts[0]), "");
}

#[test]
fn a_pass_puts_back_images_attachments_and_the_hint() {
    let msgs = vec![
        ChatMessage::text("user", "say \"hi\""),
        ChatMessage::text("assistant", "hi"),
        ChatMessage::text("user", "again"),
    ];
    let history = vec![image_block("data:image/png;base64,AA")];
    let attachments = Content::Blocks(vec![text_block("<file>x</file>"), text_block("again")]);
    let out = prepare_messages(msgs, Some(history), Some(attachments), Some("continue"));
    assert_eq!(out.len(), 4);
    match &out[0].content {
        Content::Blocks(bs) => {
            assert_eq!(bs.len(), 2);
            assert_eq!(bs[0].kind.as_deref(), Some("image_url"));
            assert_eq!(bs[1].kind.as_deref(), Some("text"));
            assert_eq!(bs[1].text.as_deref(), Some("say \"hi\""));
            assert_eq!(bs[1].json, "{\"type\":\"text\",\"text\":\"say \\\"hi\\\"\"}");
        }
        other => panic!("{:?}", other),
    }
    assert!(matches!(&out[1].content, Content::Text(t) if t == "hi"));
    assert!(matches!(&out[2].content, Content::Blocks(bs) if bs.len() == 2));
    assert_eq!(out[3].role, "user");
    assert!(matches!(&out[3].content, Content::Text(t) if t == "continue"));
    let untouched = prepare_messages(vec![ChatMessage::text("assistant", "a")], Some(vec![]), None, None);
    assert_eq!(untouched.len(), 1);
    assert!(matches!(&untouched[0].content, Content::Text(t) if t == "a"));
}
