use demido_studio::tooldefs::{builtin_tool_defs, google_tool_defs, skills_tool_defs, web_tool_defs};
use demido_studio::tools::{command_result, MAX_OUTPUT};

#[test]
fn every_schema_requires_only_keys_it_describes() {
    let all = builtin_tool_defs()
        .into_iter()
        .chain(skills_tool_defs())
        .chain(web_tool_defs())
        .chain(google_tool_defs());
    for d in all {
        let schema: serde_json::Value = serde_json::from_str(&d.input_schema).unwrap();
        let props = schema["properties"].as_object().expect("properties");
        if let Some(required) = schema["required"].as_array() {
            for key in required {
                assert!(props.contains_key(key.as_str().unwrap()), "{}: {}", d.name, key);
            }
        }
    }
}

#[test]
fn command_output_stays_within_its_byte_budget() {
    let note = "\n[output truncated]";
    let long = "é".repeat(MAX_OUTPUT);
    let r = command_result(&long, "oops", Some(1));
    assert!(r.len() <= MAX_OUTPUT + note.len());
    assert!(r.ends_with(note));
    assert_eq!(r.len(), MAX_OUTPUT + note.len());
    let exact = "a".repeat(MAX_OUTPUT);
    assert_eq!(command_result(&exact, "", None), exact);
    assert_eq!(command_result("", "", Some(-2147483648)), "[exit code: -2147483648]");
}

use demido_studio::agent::{CallAnswers, CallReport, CallStep, DENIED_RESULT, NO_FOLDER_RESULT, STOPPED_RESULT};
use demido_studio::permissions::PermissionResult;

#[test]
fn every_call_of_a_turn_gets_one_answer_in_order() {
    let ids: Vec<String> = ["a", "b", "c", "d"].iter().map(|s| s.to_string()).collect();
    let mut answers = CallAnswers::new(ids);
    assert_eq!(answers.step(false, true, "read_file", PermissionResult::Allow), CallStep::Run);
    answers.record(false, CallReport::Ran("file text".to_string()));
    answers.record(false, CallReport::Denied);
    assert_eq!(answers.step(false, false, "write_file", PermissionResult::Allow), CallStep::NoFolder);
    answers.record(false, CallReport::NoFolder);
    assert!(!answers.ends_turn());
    assert!(!answers.complete());
    assert_eq!(answers.step(true, true, "read_file", PermissionResult::Allow), CallStep::Stopped);
    answers.record(true, CallReport::Ran("should not count".to_string()));
    assert!(answers.complete());
    assert!(answers.ends_turn());
    let got = answers.into_answers();
    let expected: Vec<(String, String)> = vec![
        ("a".to_string(), "file text".to_string()),
        ("b".to_string(), DENIED_RESULT.to_string()),
        ("c".to_string(), NO_FOLDER_RESULT.to_string()),
        ("d".to_string(), STOPPED_RESULT.to_string()),
    ];
    assert_eq!(got, expected);
}

#[test]
fn a_stop_during_a_prompt_stops_the_rest_of_the_turn() {
    let ids: Vec<String> = ["x", "y"].iter().map(|s| s.to_string()).collect();
    let mut answers = CallAnswers::new(ids);
    answers.record(false, CallReport::Stopped);
    assert_eq!(answers.step(false, true, "read_file", PermissionResult::Allow), CallStep::Stopped);
    answers.record(false, CallReport::Ran("late".to_string()));
    let got = answers.into_answers();
    assert_eq!(got[0].1, STOPPED_RESULT);
    assert_eq!(got[1].1, STOPPED_RESULT);
}

use demido_studio::agent::{calls_record, turn_rows};
use demido_studio::boot::{launch, State, STAGE_COUNT};
use demido_studio::replies::ReplyCall;

fn reply_call(id: &str, name: &str, args: &str, sig: Option<&str>) -> ReplyCall {
    ReplyCall { id: id.to_string(), name: name.to_string(), arguments: args.to_string(), thought_signature: sig.map(String::from) }
}

#[test]
fn a_turn_records_its_calls_then_each_answer() {
    let calls = vec![reply_call("t1", "read_file", "{ \"path\" : \"a\" }", None), reply_call("t2", "f", "oops", Some("sig"))];
    let record = calls_record(&calls);
    assert_eq!(
        record,
        "{\"__tool_calls__\":[{\"function\":{\"arguments\":\"{\\\"path\\\":\\\"a\\\"}\",\"name\":\"read_file\"},\"id\":\"t1\",\"type\":\"function\"},{\"function\":{\"arguments\":\"{}\",\"name\":\"f\"},\"id\":\"t2\",\"thought_signature\":\"sig\",\"type\":\"function\"}]}"
    );
    let v: serde_json::Value = serde_json::from_str(&record).unwrap();
    assert_eq!(v["__tool_calls__"][1]["function"]["name"], "f");
    let answers = vec![("t1".to_string(), "text".to_string()), ("t2".to_string(), "done".to_string())];
    let rows = turn_rows(&calls, &answers);
    assert_eq!(rows.len(), 3);
    assert_eq!(rows[0], ("assistant".to_string(), record, None));
    assert_eq!(rows[1], ("tool".to_string(), "text".to_string(), Some("t1".to_string())));
    assert_eq!(rows[2], ("tool".to_string(), "done".to_string(), Some("t2".to_string())));
}

#[test]
fn a_launch_runs_every_stage_whatever_fails() {
    let mut outcomes: Vec<Result<(), String>> = vec![Ok(()); STAGE_COUNT];
    outcomes[1] = Err("disk full".to_string());
    let (reports, failures) = launch(outcomes);
    assert_eq!(reports.len(), 2 * STAGE_COUNT);
    for i in 0..STAGE_COUNT {
        assert_eq!(reports[2 * i].index, i);
        assert_eq!(reports[2 * i].state, State::Running);
        assert_eq!(reports[2 * i + 1].state, if i == 1 { State::Failed } else { State::Done });
    }
    assert_eq!(reports[3].detail.as_deref(), Some("disk full"));
    let kept = failures.read();
    assert_eq!(kept.len(), 1);
    assert_eq!(kept[0].detail, "disk full");
    assert_eq!(kept[0].id, reports[3].stage.id);
}

use demido_studio::db::Message;
use demido_studio::export::{export_messages, markdown};

fn stored(role: &str, content: &str, call: Option<&str>) -> Message {
    Message {
        id: "m".to_string(),
        conversation_id: "c".to_string(),
        role: role.to_string(),
        content: content.to_string(),
        tool_call_id: call.map(String::from),
        created_at: 0,
        token_count: None,
        thinking: None,
    }
}

#[test]
fn a_conversation_exports_to_markdown() {
    let msgs = vec![
        stored("user", "read it", None),
        stored("assistant", r#"{"__tool_calls__":[{"id":"t1","function":{"name":"read_file","arguments":"{}"}}]}"#, None),
        stored("tool", "r", Some("t1")),
        stored("assistant", "done", None),
    ];
    let md = markdown("Chat", &export_messages(&msgs));
    assert_eq!(
        md,
        "# Chat\n\n## User\n\nread it\n\n## Assistant\n\n**Tool call:** `read_file`\n\n```json\n{}\n```\n\n**Result:**\n\n```\nr\n```\n\n## Assistant\n\ndone\n\n"
    );
}

#[test]
fn json_strings_escape_quotes_and_control_characters() {
    let record = calls_record(&vec![reply_call("a\"b", "x\u{1}\ty", "{}", None)]);
    assert!(record.contains("\"id\":\"a\\\"b\""));
    assert!(record.contains("\"name\":\"x\\u0001\\ty\""));
}
