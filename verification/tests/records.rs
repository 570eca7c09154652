use demido_studio::artifacts::{collect_active_artifact_ids, extract_artifact_identifiers};
use demido_studio::db::{
    pending_migrations, provider_seed, AppSettings, LocalModel, Message, ModelOverride, MIGRATION_4, MIGRATION_5,
    SEED_PROVIDERS,
};
use demido_studio::export::export_messages;
use demido_studio::secrets::Secrets;
use demido_studio::textmap::TextMap;

fn msg(role: &str, content: &str, tool_call_id: Option<&str>) -> Message {
    Message {
        id: "m".into(),
        conversation_id: "c".into(),
        role: role.into(),
        content: content.into(),
        tool_call_id: tool_call_id.map(String::from),
        created_at: 7,
        token_count: None,
        thinking: None,
    }
}

#[test]
fn a_text_map_keeps_the_latest_value_per_key() {
    let mut m = TextMap::new();
    assert!(m.is_empty());
    m.insert("a".into(), "1".into());
    m.insert("b".into(), "2".into());
    m.insert("a".into(), "3".into());
    assert_eq!(m.get("a").as_deref(), Some("3"));
    m.remove("a");
    assert_eq!(m.get("a"), None);
    assert_eq!(m.get("b").as_deref(), Some("2"));
    assert!(!m.is_empty());
}

#[test]
fn secrets_round_trip_through_their_document() {
    let s = Secrets::new(std::path::PathBuf::from("data"));
    assert!(s.path().ends_with("secrets.json"));
    let text = s.set(None, "provider:openai", "sk-1").unwrap();
    assert_eq!(s.get(Some(&text), "provider:openai").as_deref(), Some("sk-1"));
    let text2 = s.set(Some(&text), "other", "x").unwrap();
    let text3 = s.delete(Some(&text2), "provider:openai").unwrap();
    assert_eq!(s.get(Some(&text3), "provider:openai"), None);
    assert_eq!(s.get(Some(&text3), "other").as_deref(), Some("x"));
    assert_eq!(s.get(Some("not json"), "other"), None);
    assert!(Secrets::load(Some("[1, 2]")).is_empty());
}

#[test]
fn settings_fall_back_to_their_defaults() {
    let s = AppSettings::from_stored(None, None, None, Some("true".into()), Some("abc".into()), None, None, Some("5".into()));
    assert!(s.auth_enabled);
    assert_eq!(s.title_every_n_messages, 5);
    assert_eq!(s.default_provider_id, "");
    let t = AppSettings::from_stored(None, None, None, None, Some("8192".into()), None, None, None);
    assert!(!t.auth_enabled);
    assert_eq!(t.context_window_limit, 8192);
}

#[test]
fn pinned_capabilities_are_read_back() {
    let o = ModelOverride {
        provider_id: "p".into(),
        model_id: "m".into(),
        custom_name: None,
        enabled: true,
        caps_vision: Some(true),
        caps_tools: None,
        caps_reasoning: Some(false),
    };
    let c = o.caps();
    assert_eq!((c.vision, c.tools, c.reasoning), (Some(true), None, Some(false)));
    let l = LocalModel {
        id: "i".into(),
        repo: "r".into(),
        quant: "Q".into(),
        file_path: "f".into(),
        size: 1,
        mmproj_path: None,
        caps_vision: None,
        caps_tools: Some(true),
        caps_reasoning: None,
    };
    assert_eq!(l.caps().tools, Some(true));
}

#[test]
fn artifacts_are_found_by_their_tags() {
    let content = "Here:\n<artifact identifier=\"todo-app\" type=\"text/html\" title=\"Todo\">\n<p>x</p>\n</artifact> done";
    let ids = extract_artifact_identifiers(content);
    assert_eq!(ids.len(), 1);
    assert_eq!(ids[0].0, "todo-app");
    assert!(ids[0].1.starts_with("<artifact identifier=\"todo-app\""));
    assert!(ids[0].1.ends_with("</artifact>"));

    let msgs = vec![
        msg("assistant", "<artifact identifier=\"a\" title=\"First\">x</artifact>", None),
        msg("user", "<artifact identifier=\"u\" title=\"User\">x</artifact>", None),
        msg("assistant", "<artifact identifier=\"a\" title=\"Renamed\">y</artifact>", None),
    ];
    assert_eq!(collect_active_artifact_ids(&msgs), vec![("Renamed".to_string(), "a".to_string())]);
}

#[test]
fn an_export_pairs_each_call_with_its_result() {
    let record = r#"{"__tool_calls__":[{"id":"c1","function":{"name":"read_file","arguments":"{\"path\":\"a\"}"}}]}"#;
    let msgs = vec![
        msg("user", "hi", None),
        msg("assistant", record, None),
        msg("tool", "file text", Some("c1")),
        msg("assistant", "done", None),
    ];
    let out = export_messages(&msgs);
    assert_eq!(out.len(), 3);
    assert_eq!(out[0].role, "user");
    assert_eq!(out[1].content, "");
    let calls = out[1].tool_calls.as_ref().unwrap();
    assert_eq!(calls[0].name, "read_file");
    assert_eq!(calls[0].arguments, "{\"path\":\"a\"}");
    assert_eq!(calls[0].result.as_deref(), Some("file text"));
    assert_eq!(out[2].content, "done");
    assert!(out[2].tool_calls.is_none());
}

#[test]
fn a_database_runs_only_the_migrations_after_its_version() {
    let all: Vec<u32> = pending_migrations(0).iter().map(|m| m.0).collect();
    assert_eq!(all, vec![1, 2, 3, 4, 5]);
    let late = pending_migrations(3);
    assert_eq!(late.len(), 2);
    assert_eq!(late[0], (4, MIGRATION_4));
    assert_eq!(late[1], (5, MIGRATION_5));
    assert!(pending_migrations(5).is_empty());
    assert!(pending_migrations(u32::MAX).is_empty());
    assert_eq!(provider_seed(0), Some(SEED_PROVIDERS));
    assert_eq!(provider_seed(1), None);
}
