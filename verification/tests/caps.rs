use demido_studio::caps::{
    caps_from_props, normalize_id, parse_registry, registry_provider_key, resolve, CapsSource,
    PartialCaps, PropsInfo, RegistryModel, RegistryProvider,
};

fn model(id: &str, inputs: &[&str], tool_call: bool, reasoning: bool) -> RegistryModel {
    RegistryModel {
        id: id.to_string(),
        input_modalities: Some(inputs.iter().map(|s| Some(s.to_string())).collect()),
        tool_call: Some(tool_call),
        reasoning: Some(reasoning),
    }
}

fn provider(id: &str, models: Vec<RegistryModel>) -> RegistryProvider {
    RegistryProvider { id: id.to_string(), models }
}

#[test]
fn normalize_strips_packaging_not_identity() {
    assert_eq!(
        normalize_id("unsloth/Qwen3-30B-A3B-Instruct-2507-GGUF::Q4_K_M"),
        normalize_id("Qwen/Qwen3-30B-A3B-Instruct-2507")
    );
    assert_eq!(normalize_id("bartowski/gpt-oss-20b-GGUF::Q8_0"), "gpt-oss-20b");
    assert_eq!(normalize_id("llama3.1:8b"), "llama3.1");
    assert_eq!(normalize_id("Qwen/Qwen3-32B"), "qwen3-32b");
    assert_ne!(normalize_id("Qwen/Qwen3-32B"), normalize_id("Qwen/Qwen3-14B"));
}

#[test]
fn props_reads_llama_cpp_ground_truth() {
    let props = PropsInfo {
        vision: Some(true),
        supports_tools: Some(true),
        supports_tool_calls: Some(true),
        chat_template: Some("{% if enable_thinking %}<think>{% endif %}".to_string()),
    };
    let c = caps_from_props(&props);
    assert_eq!(c.vision, Some(true));
    assert_eq!(c.tools, Some(true));
    assert_eq!(c.reasoning, Some(true));

    let no_tools = PropsInfo {
        vision: Some(false),
        supports_tools: Some(false),
        supports_tool_calls: Some(false),
        chat_template: Some("{{ messages }}".to_string()),
    };
    let c = caps_from_props(&no_tools);
    assert_eq!(c.tools, Some(false));
    assert_eq!(c.reasoning, Some(false));

    let nothing = PropsInfo { vision: None, supports_tools: None, supports_tool_calls: None, chat_template: None };
    assert!(caps_from_props(&nothing).is_empty());
}

#[test]
fn registry_parses_models_dev_shape() {
    let reg = parse_registry(&[
        provider("openai", vec![model("gpt-4o", &["text", "image"], true, false)]),
        provider("huggingface", vec![model("Qwen/Qwen3-32B", &["text"], true, true)]),
    ]);

    let c = reg.lookup(Some("openai"), "gpt-4o");
    assert_eq!((c.vision, c.tools, c.reasoning), (Some(true), Some(true), Some(false)));

    let c = reg.lookup(None, "unsloth/Qwen3-32B-GGUF::Q4_K_M");
    assert_eq!((c.vision, c.tools, c.reasoning), (Some(false), Some(true), Some(true)));

    assert!(reg.lookup(Some("openai"), "not-a-real-model").is_empty());
}

#[test]
fn name_index_outvotes_a_reseller_that_understates() {
    let reg = parse_registry(&[
        provider("302ai", vec![model("MiniMax-M2", &["text"], true, false)]),
        provider("huggingface", vec![model("MiniMaxAI/MiniMax-M2", &["text"], true, true)]),
        provider("openrouter", vec![model("minimax/minimax-m2", &["text"], true, true)]),
    ]);
    assert_eq!(reg.lookup(Some("302ai"), "MiniMax-M2").reasoning, Some(false));
    assert_eq!(reg.lookup(None, "MiniMax-M2-GGUF::Q4_K_M").reasoning, Some(true));
}

#[test]
fn resolve_prefers_authority_and_flags_guesses() {
    let none = PartialCaps::default();
    let provider = PartialCaps { vision: Some(true), tools: None, reasoning: None };
    let registry = PartialCaps { vision: Some(false), tools: Some(true), reasoning: Some(true) };

    let c = resolve(none, provider, CapsSource::Provider, registry);
    assert!(c.vision && c.tools && c.reasoning);
    assert_eq!(c.source, CapsSource::Provider);

    let c = resolve(none, none, CapsSource::Provider, none);
    assert_eq!((c.vision, c.tools, c.reasoning), (false, true, false));
    assert_eq!(c.source, CapsSource::Unknown);
}

#[test]
fn user_override_beats_every_detector() {
    let provider = PartialCaps { vision: Some(false), tools: Some(false), reasoning: Some(false) };
    let user = PartialCaps { vision: Some(true), tools: None, reasoning: None };

    let c = resolve(user, provider, CapsSource::Provider, PartialCaps::default());
    assert!(c.vision, "user override must win outright");
    assert!(c.overridden.vision);
    assert!(!c.tools);
    assert!(!c.overridden.tools);
    assert_eq!(c.source, CapsSource::Provider);

    let c = resolve(
        PartialCaps { vision: Some(false), tools: None, reasoning: None },
        PartialCaps { vision: Some(true), tools: None, reasoning: None },
        CapsSource::LlamaCpp,
        PartialCaps::default(),
    );
    assert!(!c.vision);
    assert!(c.overridden.vision);
}

#[test]
fn the_registry_knows_the_big_hosts_by_their_type() {
    assert_eq!(registry_provider_key("anthropic", ""), Some("anthropic"));
    assert_eq!(registry_provider_key("gemini", ""), Some("google"));
}

#[test]
fn unknown_partial_caps_fall_through_in_order() {
    let a = PartialCaps { vision: None, tools: Some(false), reasoning: None };
    let b = PartialCaps { vision: Some(true), tools: Some(true), reasoning: None };
    let m = a.or(b);
    assert_eq!((m.vision, m.tools, m.reasoning), (Some(true), Some(false), None));
    assert!(PartialCaps::default().is_empty());
    assert!(!a.is_empty());
}
