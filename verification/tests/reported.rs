use demido_studio::caps::{CapsSource, NameCaps, PartialCaps, ProviderCaps, Registry};
use demido_studio::db::LocalModel;
use demido_studio::reported::{
    anthropic_caps, gemini_caps, gemini_model_ids, lmstudio_caps, local_models, looked_up_caps, openai_caps,
    openai_model_ids, provider_models, AnthropicModel, GeminiModel, LmStudioModel, OpenAiModel,
};

fn known(v: bool, t: bool, r: bool) -> PartialCaps {
    PartialCaps { vision: Some(v), tools: Some(t), reasoning: Some(r) }
}

fn unknown() -> PartialCaps {
    PartialCaps { vision: None, tools: None, reasoning: None }
}

fn lm(key: Option<&str>, kind: &str, vision: Option<bool>, tools: Option<bool>, reasoning: bool) -> LmStudioModel {
    LmStudioModel {
        key: key.map(String::from),
        kind: Some(kind.to_string()),
        vision,
        trained_for_tool_use: tools,
        has_reasoning: reasoning,
    }
}

fn oa(id: &str) -> OpenAiModel {
    OpenAiModel {
        id: Some(id.to_string()),
        kind: None,
        modality: None,
        capability_names: vec![],
        vision: None,
        multimodal: None,
        tool_use: None,
        tools: None,
        function_calling: None,
    }
}

#[test]
fn lm_studio_flags_are_explicit_and_auxiliary_models_are_left_out() {
    let models = vec![
        lm(Some("qwen"), "llm", Some(true), None, true),
        lm(Some("nomic"), "embedding", Some(true), Some(true), false),
        lm(Some("rr"), "reranker", None, None, false),
        lm(None, "llm", Some(true), Some(true), true),
        lm(Some("gemma"), "vlm", None, Some(true), false),
    ];
    let caps = lmstudio_caps(&models);
    assert_eq!(caps, vec![("qwen".to_string(), known(true, false, true)), ("gemma".to_string(), known(false, true, false))]);
}

#[test]
fn openai_lists_say_vision_and_tools_in_many_ways() {
    let mut vlm = oa("llava");
    vlm.kind = Some("vlm".to_string());
    let mut routed = oa("openrouter/gpt");
    routed.modality = Some("text+image->text".to_string());
    routed.capability_names = vec!["function_calling".to_string()];
    let mut flagged = oa("DeepSeek-R1-Distill");
    flagged.multimodal = Some(true);
    flagged.tools = Some(true);
    let mut emb = oa("embed");
    emb.kind = Some("embeddings".to_string());
    let plain = oa("o3-mini");
    let thinker = oa("qwen3-THINKING");
    let caps = openai_caps(&vec![vlm, routed, flagged, emb, plain, thinker]);
    assert_eq!(
        caps,
        vec![
            ("llava".to_string(), known(true, false, false)),
            ("openrouter/gpt".to_string(), known(true, true, false)),
            ("DeepSeek-R1-Distill".to_string(), known(true, true, true)),
            ("o3-mini".to_string(), known(false, false, true)),
            ("qwen3-THINKING".to_string(), known(false, false, true)),
        ]
    );
    let mut rr = oa("rerank");
    rr.kind = Some("reranker".to_string());
    let nameless = OpenAiModel { id: None, ..oa("x") };
    assert_eq!(openai_model_ids(&vec![oa("a"), rr, nameless, oa("b")]), vec!["a", "b"]);
}

#[test]
fn gemini_lists_only_generating_models_without_their_prefix() {
    let g = |name: &str, methods: &[&str], thinking: Option<bool>| GeminiModel {
        name: Some(name.to_string()),
        methods: methods.iter().map(|s| s.to_string()).collect(),
        thinking,
    };
    let models = vec![
        g("models/gemini-2.5-pro", &["generateContent", "countTokens"], Some(true)),
        g("models/text-embedding-004", &["embedContent"], None),
        g("models/gemini-2.5-flash-preview-tts", &["generateContent"], None),
        g("models/gemini-embedding-exp", &["generateContent"], None),
    ];
    assert_eq!(
        gemini_model_ids(&models),
        vec!["gemini-2.5-pro", "gemini-2.5-flash-preview-tts", "gemini-embedding-exp"]
    );
    assert_eq!(
        gemini_caps(&models),
        vec![
            ("gemini-2.5-pro".to_string(), known(true, true, true)),
            ("gemini-2.5-flash-preview-tts".to_string(), known(false, false, false)),
            ("gemini-embedding-exp".to_string(), known(false, false, false)),
        ]
    );
}

#[test]
fn anthropic_says_only_what_its_beta_object_says() {
    let models = vec![
        AnthropicModel { id: Some("sonnet-x".to_string()), image_input: Some(true), tool_use: Some(true), extended_thinking: None },
        AnthropicModel { id: None, image_input: Some(true), tool_use: None, extended_thinking: None },
    ];
    assert_eq!(
        anthropic_caps(&models),
        vec![("sonnet-x".to_string(), PartialCaps { vision: Some(true), tools: Some(true), reasoning: None })]
    );
}

#[test]
fn each_provider_model_is_answered_once_with_pins_first() {
    let registry = Registry::from_indexes(
        vec![ProviderCaps { provider: "openai".to_string(), model: "gpt-x".to_string(), caps: known(true, true, true) }],
        vec![NameCaps { name: "llama-3".to_string(), caps: known(false, true, false) }],
    );
    let listed = vec!["gpt-x".to_string(), "llama-3".to_string(), "gpt-x".to_string()];
    let reported = vec![("extra".to_string(), known(true, false, false)), ("gpt-x".to_string(), PartialCaps { vision: Some(false), tools: None, reasoning: None })];
    let user = vec![("llama-3".to_string(), PartialCaps { vision: Some(true), tools: None, reasoning: None })];
    let out = provider_models(&listed, &reported, &user, &registry, Some("openai"));
    let ids: Vec<&str> = out.iter().map(|p| p.0.as_str()).collect();
    assert_eq!(ids, vec!["gpt-x", "llama-3", "extra"]);
    let gpt = out[0].1;
    assert!(!gpt.vision && gpt.tools && gpt.reasoning);
    assert_eq!(gpt.source, CapsSource::Provider);
    let llama = out[1].1;
    assert!(llama.vision && llama.tools && !llama.reasoning);
    assert!(llama.overridden.vision && !llama.overridden.tools);
    assert_eq!(llama.source, CapsSource::Registry);
    let extra = out[2].1;
    assert!(extra.vision && !extra.tools);
    let empty = provider_models(&vec!["nobody".to_string()], &vec![], &vec![], &Registry::empty(), None);
    assert_eq!(empty[0].1.source, CapsSource::Unknown);
}

#[test]
fn local_models_trust_the_probe_then_the_registry() {
    let registry = Registry::from_indexes(vec![], vec![NameCaps { name: "qwen3-8b".to_string(), caps: known(false, true, true) }]);
    let model = |id: &str, repo: &str, vision: Option<bool>| LocalModel {
        id: id.to_string(),
        repo: repo.to_string(),
        quant: "Q4_K_M".to_string(),
        file_path: "m.gguf".to_string(),
        size: 1,
        mmproj_path: None,
        caps_vision: vision,
        caps_tools: None,
        caps_reasoning: None,
    };
    let out = local_models(
        &vec![model("a::Q4", "unsloth/Qwen3-8B-GGUF", Some(true)), model("b::Q4", "nobody/unknown", None)],
        &vec![("b::Q4".to_string(), PartialCaps { vision: None, tools: Some(false), reasoning: None })],
        &registry,
    );
    assert_eq!(out[0].0, "a::Q4");
    assert!(out[0].1.vision && out[0].1.tools && out[0].1.reasoning);
    assert_eq!(out[0].1.source, CapsSource::LlamaCpp);
    assert!(!out[1].1.tools && out[1].1.overridden.tools);
    assert_eq!(out[1].1.source, CapsSource::Unknown);
}

#[test]
fn an_id_alone_is_looked_up_in_the_registry_then_on_the_hub() {
    let from_registry = looked_up_caps(known(true, false, false), known(false, true, true));
    assert!(from_registry.vision && !from_registry.tools);
    assert_eq!(from_registry.source, CapsSource::Registry);
    let from_hub = looked_up_caps(unknown(), PartialCaps { vision: None, tools: None, reasoning: Some(true) });
    assert!(!from_hub.vision && from_hub.tools && from_hub.reasoning);
    assert_eq!(from_hub.source, CapsSource::HuggingFace);
    let nothing = looked_up_caps(unknown(), unknown());
    assert_eq!(nothing.source, CapsSource::Unknown);
}
