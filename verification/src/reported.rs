//! What each provider's own API says about its models, and each model's capabilities once every
//! source is weighed: the user's pins first, then the provider's report (llama.cpp's probe for a
//! local model), then the models.dev registry. The requests belong to the shell, which hands over
//! each listed model's fields as plain values.
use vstd::prelude::*;
use vstd::string::*;

use crate::caps::{spec_resolve, resolve, CapsSource, ModelCaps, PartialCaps, Registry};
use crate::google::or_text;
use crate::text::{
    chars_of, contains, contains_text, eq_str, lower, opt_str, opt_string, starts_with, str_contains, str_starts_with,
    string_of, strip_prefix_all, strip_prefix_all_chars, to_lower,
};

verus! {

broadcast use vstd::string::group_string_axioms;

// ------------------------------------------------------------------ shared

/// The present values, in order.
pub open spec fn somes<A>(s: Seq<Option<A>>) -> Seq<A>
    decreases s.len(),
{
    if s.len() == 0 {
        Seq::empty()
    } else {
        somes(s.drop_last()) + match s.last() {
            Some(a) => seq![a],
            None => Seq::empty(),
        }
    }
}

/// The view of a list of (model id, capabilities).
pub open spec fn caps_pairs(v: Seq<(String, PartialCaps)>) -> Seq<(Seq<char>, PartialCaps)> {
    v.map_values(|p: (String, PartialCaps)| (p.0@, p.1))
}

/// Capabilities every one of which the source answered.
pub open spec fn known(vision: bool, tools: bool, reasoning: bool) -> PartialCaps {
    PartialCaps { vision: Some(vision), tools: Some(tools), reasoning: Some(reasoning) }
}

// ------------------------------------------------------------------ LM Studio's native list

/// A model of LM Studio's `/api/v1/models` list: its `key`, its `type`, and its capabilities
/// object's `vision` and `trained_for_tool_use` flags and whether it has a `reasoning` entry.
#[derive(Debug)]
pub struct LmStudioModel {
    pub key: Option<String>,
    pub kind: Option<String>,
    pub vision: Option<bool>,
    pub trained_for_tool_use: Option<bool>,
    pub has_reasoning: bool,
}

/// An embedding or reranking model, which is never offered for chat.
pub open spec fn is_auxiliary(kind: Seq<char>) -> bool {
    kind == "embedding"@ || kind == "embeddings"@ || kind == "reranker"@
}

/// What LM Studio's native list says of one model: its explicit flags (absent ones false); a
/// model without a key, or an embedding or reranking model, is left out.
pub open spec fn lmstudio_entry(m: LmStudioModel) -> Option<(Seq<char>, PartialCaps)> {
    match m.key {
        None => None,
        Some(k) => if is_auxiliary(or_text(m.kind, Seq::empty())) {
            None
        } else {
            Some((k@, known(m.vision == Some(true), m.trained_for_tool_use == Some(true), m.has_reasoning)))
        },
    }
}

/// What LM Studio's native list says of its models, in order. Where it says nothing, the
/// OpenAI-compatible list is asked instead.
pub fn lmstudio_caps(models: &Vec<LmStudioModel>) -> (r: Vec<(String, PartialCaps)>)
    ensures
        caps_pairs(r@) == somes(models@.map_values(|m: LmStudioModel| lmstudio_entry(m))),
{
    proof {
        reveal_strlit("");
    }
    let ghost es = models@.map_values(|m: LmStudioModel| lmstudio_entry(m));
    let mut out: Vec<(String, PartialCaps)> = Vec::new();
    let mut i: usize = 0;
    while i < models.len()
        invariant
            i <= models@.len(),
            es == models@.map_values(|m: LmStudioModel| lmstudio_entry(m)),
            caps_pairs(out@) == somes(es.take(i as int)),
        decreases models@.len() - i,
    {
        let m = &models[i];
        let ghost before = caps_pairs(out@);
        assert(es.take(i + 1).drop_last() =~= es.take(i as int));
        assert(es.take(i + 1).last() == lmstudio_entry(*m));
        if let Some(k) = &m.key {
            let kind: &str = match &m.kind {
                Some(t) => t.as_str(),
                None => "",
            };
            proof {
                reveal_strlit("");
            }
            assert(kind@ == or_text(m.kind, Seq::empty()));
            let aux = eq_str(kind, "embedding") || eq_str(kind, "embeddings") || eq_str(kind, "reranker");
            assert(aux == is_auxiliary(kind@));
            if !aux {
                let caps = PartialCaps {
                    vision: Some(m.vision == Some(true)),
                    tools: Some(m.trained_for_tool_use == Some(true)),
                    reasoning: Some(m.has_reasoning),
                };
                out.push((k.clone(), caps));
                assert(caps_pairs(out@) =~= before.push((k@, caps)));
            }
        }
        proof {
            if lmstudio_entry(*m) is None {
                assert(caps_pairs(out@) =~= before + Seq::<(Seq<char>, PartialCaps)>::empty());
            }
        }
        i = i + 1;
    }
    assert(es.take(models@.len() as int) =~= es);
    out
}

// ------------------------------------------------------------------ OpenAI-compatible lists

/// A model of an OpenAI-compatible `/models` list (LM Studio's `/api/v0` shape among them): its
/// `id`, its `type`, its `architecture.modality`, the names in its capabilities array, and its
/// capabilities object's flags.
#[derive(Debug)]
pub struct OpenAiModel {
    pub id: Option<String>,
    pub kind: Option<String>,
    pub modality: Option<String>,
    pub capability_names: Vec<String>,
    pub vision: Option<bool>,
    pub multimodal: Option<bool>,
    pub tool_use: Option<bool>,
    pub tools: Option<bool>,
    pub function_calling: Option<bool>,
}

/// An embedding or reranking model in an OpenAI-compatible list.
pub open spec fn is_listed_auxiliary(kind: Seq<char>) -> bool {
    kind == "embeddings"@ || kind == "reranker"@
}

/// Reasoning, where no field says: inferred from the model's lowered id.
pub open spec fn reasons_by_name(id: Seq<char>) -> bool {
    let l = lower(id);
    starts_with(l, "o1"@) || starts_with(l, "o3"@) || starts_with(l, "o4"@) || contains(l, "-r1"@) || starts_with(
        l,
        "r1"@,
    ) || contains(l, "thinking"@) || contains(l, "-reason"@)
}

/// What an OpenAI-compatible list says of one model: vision from a `vlm` type, an image
/// modality or a vision capability; tools from a tool capability; reasoning from its id. A model
/// without an id, or an embedding or reranking model, is left out.
pub open spec fn openai_entry(m: OpenAiModel) -> Option<(Seq<char>, PartialCaps)> {
    match m.id {
        None => None,
        Some(id) => {
            let kind = or_text(m.kind, Seq::empty());
            let names = m.capability_names.deep_view();
            if is_listed_auxiliary(kind) {
                None
            } else {
                let vision = kind == "vlm"@ || contains(or_text(m.modality, Seq::empty()), "image"@) || names.contains(
                    "vision"@,
                ) || m.vision == Some(true) || m.multimodal == Some(true);
                let tools = names.contains("tool_use"@) || names.contains("tools"@) || names.contains(
                    "function_calling"@,
                ) || m.tool_use == Some(true) || m.tools == Some(true) || m.function_calling == Some(true);
                Some((id@, known(vision, tools, reasons_by_name(id@))))
            }
        },
    }
}

fn reasons_by_name_of(id: &str) -> (r: bool)
    ensures
        r == reasons_by_name(id@),
{
    let l = to_lower(id);
    let s = l.as_str();
    str_starts_with(s, "o1") || str_starts_with(s, "o3") || str_starts_with(s, "o4") || str_contains(s, "-r1")
        || str_starts_with(s, "r1") || str_contains(s, "thinking") || str_contains(s, "-reason")
}

/// What an OpenAI-compatible list says of its models, in order.
pub fn openai_caps(models: &Vec<OpenAiModel>) -> (r: Vec<(String, PartialCaps)>)
    ensures
        caps_pairs(r@) == somes(models@.map_values(|m: OpenAiModel| openai_entry(m))),
{
    proof {
        reveal_strlit("");
    }
    let ghost es = models@.map_values(|m: OpenAiModel| openai_entry(m));
    let mut out: Vec<(String, PartialCaps)> = Vec::new();
    let mut i: usize = 0;
    while i < models.len()
        invariant
            i <= models@.len(),
            es == models@.map_values(|m: OpenAiModel| openai_entry(m)),
            caps_pairs(out@) == somes(es.take(i as int)),
        decreases models@.len() - i,
    {
        let m = &models[i];
        let ghost before = caps_pairs(out@);
        assert(es.take(i + 1).drop_last() =~= es.take(i as int));
        assert(es.take(i + 1).last() == openai_entry(*m));
        if let Some(id) = &m.id {
            let kind: &str = match &m.kind {
                Some(t) => t.as_str(),
                None => "",
            };
            proof {
                reveal_strlit("");
            }
            assert(kind@ == or_text(m.kind, Seq::empty()));
            let aux = eq_str(kind, "embeddings") || eq_str(kind, "reranker");
            assert(aux == is_listed_auxiliary(kind@));
            if !aux {
                let modality: &str = match &m.modality {
                    Some(t) => t.as_str(),
                    None => "",
                };
                let names = &m.capability_names;
                let vision = eq_str(kind, "vlm") || str_contains(modality, "image") || contains_text(names, "vision")
                    || m.vision == Some(true) || m.multimodal == Some(true);
                let tools = contains_text(names, "tool_use") || contains_text(names, "tools") || contains_text(
                    names,
                    "function_calling",
                ) || m.tool_use == Some(true) || m.tools == Some(true) || m.function_calling == Some(true);
                let caps = PartialCaps {
                    vision: Some(vision),
                    tools: Some(tools),
                    reasoning: Some(reasons_by_name_of(id.as_str())),
                };
                assert(modality@ == or_text(m.modality, Seq::empty()));
                assert(openai_entry(*m) == Some((id@, caps)));
                out.push((id.clone(), caps));
                assert(caps_pairs(out@) =~= before.push((id@, caps)));
            }
        }
        proof {
            if openai_entry(*m) is None {
                assert(caps_pairs(out@) =~= before + Seq::<(Seq<char>, PartialCaps)>::empty());
            }
        }
        i = i + 1;
    }
    assert(es.take(models@.len() as int) =~= es);
    out
}

/// A model an OpenAI-compatible list offers for chat: its id, unless it is an embedding or
/// reranking model.
pub open spec fn listed_id(m: OpenAiModel) -> Option<Seq<char>> {
    match m.id {
        Some(id) => if is_listed_auxiliary(or_text(m.kind, Seq::empty())) {
            None
        } else {
            Some(id@)
        },
        None => None,
    }
}

/// The models an OpenAI-compatible provider offers for chat, in order.
pub fn openai_model_ids(models: &Vec<OpenAiModel>) -> (r: Vec<String>)
    ensures
        r.deep_view() == somes(models@.map_values(|m: OpenAiModel| listed_id(m))),
{
    proof {
        reveal_strlit("");
    }
    let ghost es = models@.map_values(|m: OpenAiModel| listed_id(m));
    let mut out: Vec<String> = Vec::new();
    let mut i: usize = 0;
    while i < models.len()
        invariant
            i <= models@.len(),
            es == models@.map_values(|m: OpenAiModel| listed_id(m)),
            out.deep_view() == somes(es.take(i as int)),
        decreases models@.len() - i,
    {
        let m = &models[i];
        let ghost before = out.deep_view();
        assert(es.take(i + 1).drop_last() =~= es.take(i as int));
        assert(es.take(i + 1).last() == listed_id(*m));
        if let Some(id) = &m.id {
            let kind: &str = match &m.kind {
                Some(t) => t.as_str(),
                None => "",
            };
            proof {
                reveal_strlit("");
            }
            assert(kind@ == or_text(m.kind, Seq::empty()));
            let aux = eq_str(kind, "embeddings") || eq_str(kind, "reranker");
            assert(aux == is_listed_auxiliary(kind@));
            if !aux {
                out.push(id.clone());
                assert(out.deep_view() =~= before.push(id@));
            }
        }
        proof {
            if listed_id(*m) is None {
                assert(out.deep_view() =~= before + Seq::<Seq<char>>::empty());
            }
        }
        i = i + 1;
    }
    assert(es.take(models@.len() as int) =~= es);
    out
}

// ------------------------------------------------------------------ Gemini

/// A model of Gemini's `/models` list: its `name`, the names of its generation methods, and its
/// `thinking` flag.
#[derive(Debug)]
pub struct GeminiModel {
    pub name: Option<String>,
    pub methods: Vec<String>,
    pub thinking: Option<bool>,
}

/// A Gemini model's id: its name without the `models/` prefix.
pub open spec fn gemini_id(name: Seq<char>) -> Seq<char> {
    strip_prefix_all(name, "models/"@)
}

/// A Gemini model offered for chat: one that supports `generateContent` and has a name.
pub open spec fn gemini_listed(m: GeminiModel) -> Option<Seq<char>> {
    if m.methods.deep_view().contains("generateContent"@) {
        match m.name {
            Some(n) => Some(gemini_id(n@)),
            None => None,
        }
    } else {
        None
    }
}

/// What Gemini's list says of one model offered for chat: reasoning from its `thinking` flag;
/// vision and tools for every model but speech, music and embedding ones.
pub open spec fn gemini_entry(m: GeminiModel) -> Option<(Seq<char>, PartialCaps)> {
    match gemini_listed(m) {
        Some(id) => {
            let limited = contains(id, "tts"@) || contains(id, "lyria"@) || contains(id, "embedding"@);
            Some((id, known(!limited, !limited, m.thinking == Some(true))))
        },
        None => None,
    }
}

fn gemini_id_of(m: &GeminiModel) -> (r: Option<String>)
    ensures
        opt_string(r) == gemini_listed(*m),
{
    if !contains_text(&m.methods, "generateContent") {
        return None;
    }
    match &m.name {
        Some(n) => {
            let cs = chars_of(n.as_str());
            let pre = chars_of("models/");
            let id = strip_prefix_all_chars(cs.as_slice(), pre.as_slice());
            Some(string_of(id.as_slice()))
        },
        None => None,
    }
}

/// The models Gemini offers for chat, in order.
pub fn gemini_model_ids(models: &Vec<GeminiModel>) -> (r: Vec<String>)
    ensures
        r.deep_view() == somes(models@.map_values(|m: GeminiModel| gemini_listed(m))),
{
    let ghost es = models@.map_values(|m: GeminiModel| gemini_listed(m));
    let mut out: Vec<String> = Vec::new();
    let mut i: usize = 0;
    while i < models.len()
        invariant
            i <= models@.len(),
            es == models@.map_values(|m: GeminiModel| gemini_listed(m)),
            out.deep_view() == somes(es.take(i as int)),
        decreases models@.len() - i,
    {
        let ghost before = out.deep_view();
        assert(es.take(i + 1).drop_last() =~= es.take(i as int));
        assert(es.take(i + 1).last() == gemini_listed(models@[i as int]));
        if let Some(id) = gemini_id_of(&models[i]) {
            out.push(id);
            assert(out.deep_view() =~= before.push(out@.last()@));
        }
        i = i + 1;
    }
    assert(es.take(models@.len() as int) =~= es);
    out
}

/// What Gemini's list says of its models, in order.
pub fn gemini_caps(models: &Vec<GeminiModel>) -> (r: Vec<(String, PartialCaps)>)
    ensures
        caps_pairs(r@) == somes(models@.map_values(|m: GeminiModel| gemini_entry(m))),
{
    let ghost es = models@.map_values(|m: GeminiModel| gemini_entry(m));
    let mut out: Vec<(String, PartialCaps)> = Vec::new();
    let mut i: usize = 0;
    while i < models.len()
        invariant
            i <= models@.len(),
            es == models@.map_values(|m: GeminiModel| gemini_entry(m)),
            caps_pairs(out@) == somes(es.take(i as int)),
        decreases models@.len() - i,
    {
        let m = &models[i];
        let ghost before = caps_pairs(out@);
        assert(es.take(i + 1).drop_last() =~= es.take(i as int));
        assert(es.take(i + 1).last() == gemini_entry(*m));
        if let Some(id) = gemini_id_of(m) {
            let s = id.as_str();
            let limited = str_contains(s, "tts") || str_contains(s, "lyria") || str_contains(s, "embedding");
            let caps = PartialCaps {
                vision: Some(!limited),
                tools: Some(!limited),
                reasoning: Some(m.thinking == Some(true)),
            };
            let ghost idv = id@;
            out.push((id, caps));
            assert(caps_pairs(out@) =~= before.push((idv, caps)));
        }
        i = i + 1;
    }
    assert(es.take(models@.len() as int) =~= es);
    out
}

// ------------------------------------------------------------------ Anthropic

/// A model of Anthropic's `/v1/models` list: its `id`, and the `supported` flags of its
/// capabilities object (present only when the models beta is asked for).
#[derive(Debug)]
pub struct AnthropicModel {
    pub id: Option<String>,
    pub image_input: Option<bool>,
    pub tool_use: Option<bool>,
    pub extended_thinking: Option<bool>,
}

/// What Anthropic's list says of one model: each flag as given, nothing where it is absent.
pub open spec fn anthropic_entry(m: AnthropicModel) -> Option<(Seq<char>, PartialCaps)> {
    match m.id {
        Some(id) => Some(
            (id@, PartialCaps { vision: m.image_input, tools: m.tool_use, reasoning: m.extended_thinking }),
        ),
        None => None,
    }
}

/// What Anthropic's list says of its models, in order.
pub fn anthropic_caps(models: &Vec<AnthropicModel>) -> (r: Vec<(String, PartialCaps)>)
    ensures
        caps_pairs(r@) == somes(models@.map_values(|m: AnthropicModel| anthropic_entry(m))),
{
    let ghost es = models@.map_values(|m: AnthropicModel| anthropic_entry(m));
    let mut out: Vec<(String, PartialCaps)> = Vec::new();
    let mut i: usize = 0;
    while i < models.len()
        invariant
            i <= models@.len(),
            es == models@.map_values(|m: AnthropicModel| anthropic_entry(m)),
            caps_pairs(out@) == somes(es.take(i as int)),
        decreases models@.len() - i,
    {
        let m = &models[i];
        let ghost before = caps_pairs(out@);
        assert(es.take(i + 1).drop_last() =~= es.take(i as int));
        assert(es.take(i + 1).last() == anthropic_entry(*m));
        if let Some(id) = &m.id {
            let caps = PartialCaps { vision: m.image_input, tools: m.tool_use, reasoning: m.extended_thinking };
            out.push((id.clone(), caps));
            assert(caps_pairs(out@) =~= before.push((id@, caps)));
        }
        i = i + 1;
    }
    assert(es.take(models@.len() as int) =~= es);
    out
}

// ------------------------------------------------------------------ weighing the sources

/// What a list says of `id`: the last entry for it (a later report replaces an earlier one),
/// else nothing.
pub open spec fn said_of(pairs: Seq<(Seq<char>, PartialCaps)>, id: Seq<char>) -> PartialCaps
    decreases pairs.len(),
{
    if pairs.len() == 0 {
        PartialCaps::spec_unknown()
    } else if pairs.last().0 == id {
        pairs.last().1
    } else {
        said_of(pairs.drop_last(), id)
    }
}

/// Each id once, where it first occurs.
pub open spec fn first_occurrences(s: Seq<Seq<char>>) -> Seq<Seq<char>>
    decreases s.len(),
{
    if s.len() == 0 {
        Seq::empty()
    } else {
        let before = first_occurrences(s.drop_last());
        if s.drop_last().contains(s.last()) {
            before
        } else {
            before.push(s.last())
        }
    }
}

/// The view of a list of (model id, resolved capabilities).
pub open spec fn resolved_pairs(v: Seq<(String, ModelCaps)>) -> Seq<(Seq<char>, ModelCaps)> {
    v.map_values(|p: (String, ModelCaps)| (p.0@, p.1))
}

/// Each model a provider answers for (the ones it lists, then any it reported on without
/// listing), each once, with its capabilities weighed: the user's pins, then the provider's
/// report, then the registry under the provider's key.
pub open spec fn spec_provider_models(
    listed: Seq<Seq<char>>,
    reported: Seq<(Seq<char>, PartialCaps)>,
    user: Seq<(Seq<char>, PartialCaps)>,
    registry: Registry,
    registry_key: Option<Seq<char>>,
) -> Seq<(Seq<char>, ModelCaps)> {
    first_occurrences(listed + reported.map_values(|p: (Seq<char>, PartialCaps)| p.0)).map_values(
        |id: Seq<char>|
            (
                id,
                spec_resolve(
                    said_of(user, id),
                    said_of(reported, id),
                    CapsSource::Provider,
                    registry.spec_lookup(registry_key, id),
                ),
            ),
    )
}

fn said_of_exec(pairs: &Vec<(String, PartialCaps)>, id: &str) -> (r: PartialCaps)
    ensures
        r == said_of(caps_pairs(pairs@), id@),
{
    let ghost pv = caps_pairs(pairs@);
    let mut n: usize = pairs.len();
    assert(pv.take(n as int) =~= pv);
    while n > 0
        invariant
            n <= pairs@.len(),
            pv == caps_pairs(pairs@),
            said_of(pv, id@) == said_of(pv.take(n as int), id@),
        decreases n,
    {
        assert(pv.take(n as int).last() == (pairs@[n - 1].0@, pairs@[n - 1].1));
        assert(pv.take(n as int).drop_last() =~= pv.take(n - 1));
        if eq_str(pairs[n - 1].0.as_str(), id) {
            return pairs[n - 1].1;
        }
        n = n - 1;
    }
    PartialCaps::unknown()
}

/// Each model a provider answers for, once, with its capabilities weighed.
pub fn provider_models(
    listed: &Vec<String>,
    reported: &Vec<(String, PartialCaps)>,
    user: &Vec<(String, PartialCaps)>,
    registry: &Registry,
    registry_key: Option<&str>,
) -> (r: Vec<(String, ModelCaps)>)
    ensures
        resolved_pairs(r@) == spec_provider_models(
            listed.deep_view(),
            caps_pairs(reported@),
            caps_pairs(user@),
            *registry,
            opt_str(registry_key),
        ),
{
    let mut ids: Vec<String> = Vec::new();
    let mut i: usize = 0;
    while i < listed.len()
        invariant
            i <= listed@.len(),
            ids.deep_view() == listed.deep_view().take(i as int),
        decreases listed@.len() - i,
    {
        let ghost before = ids.deep_view();
        ids.push(listed[i].clone());
        assert(ids.deep_view() =~= before.push(listed@[i as int]@));
        assert(listed.deep_view()[i as int] == listed@[i as int]@);
        assert(listed.deep_view().take(i + 1) =~= listed.deep_view().take(i as int).push(listed.deep_view()[i as int]));
        i = i + 1;
    }
    let mut k: usize = 0;
    let ghost rk = caps_pairs(reported@).map_values(|p: (Seq<char>, PartialCaps)| p.0);
    assert(listed.deep_view().take(listed@.len() as int) =~= listed.deep_view());
    while k < reported.len()
        invariant
            k <= reported@.len(),
            rk == caps_pairs(reported@).map_values(|p: (Seq<char>, PartialCaps)| p.0),
            ids.deep_view() == listed.deep_view() + rk.take(k as int),
        decreases reported@.len() - k,
    {
        let ghost before = ids.deep_view();
        ids.push(reported[k].0.clone());
        assert(ids.deep_view() =~= before.push(reported@[k as int].0@));
        assert(rk[k as int] == reported@[k as int].0@);
        assert(rk.take(k + 1) =~= rk.take(k as int).push(rk[k as int]));
        assert(ids.deep_view() =~= listed.deep_view() + rk.take(k + 1));
        k = k + 1;
    }
    assert(rk.take(reported@.len() as int) =~= rk);
    let ghost all = ids.deep_view();
    let mut seen: Vec<String> = Vec::new();
    let mut out: Vec<(String, ModelCaps)> = Vec::new();
    let ghost f = |id: Seq<char>|
        (
            id,
            spec_resolve(
                said_of(caps_pairs(user@), id),
                said_of(caps_pairs(reported@), id),
                CapsSource::Provider,
                registry.spec_lookup(opt_str(registry_key), id),
            ),
        );
    let mut j: usize = 0;
    while j < ids.len()
        invariant
            j <= ids@.len(),
            all == ids.deep_view(),
            seen.deep_view() == first_occurrences(all.take(j as int)),
            resolved_pairs(out@) == first_occurrences(all.take(j as int)).map_values(f),
            f == (|id: Seq<char>|
                (
                    id,
                    spec_resolve(
                        said_of(caps_pairs(user@), id),
                        said_of(caps_pairs(reported@), id),
                        CapsSource::Provider,
                        registry.spec_lookup(opt_str(registry_key), id),
                    ),
                )),
        decreases ids@.len() - j,
    {
        let id = ids[j].as_str();
        let ghost pre = all.take(j as int);
        assert(all.take(j + 1).drop_last() =~= pre);
        assert(all.take(j + 1).last() == id@);
        proof {
            lemma_first_occurrences_cover(pre);
        }
        if !contains_text(&seen, id) {
            let from_user = said_of_exec(user, id);
            let from_provider = said_of_exec(reported, id);
            let from_registry = registry.lookup(registry_key, id);
            let caps = resolve(from_user, from_provider, CapsSource::Provider, from_registry);
            let ghost before = resolved_pairs(out@);
            let ghost seen_before = seen.deep_view();
            out.push((id.to_string(), caps));
            seen.push(id.to_string());
            assert(seen.deep_view() =~= seen_before.push(id@));
            assert(resolved_pairs(out@) =~= before.push(f(id@)));
            assert(first_occurrences(all.take(j + 1)) == first_occurrences(pre).push(id@));
            assert(first_occurrences(all.take(j + 1)).map_values(f) =~= first_occurrences(pre).map_values(f).push(
                f(id@),
            ));
        } else {
            assert(first_occurrences(all.take(j + 1)) == first_occurrences(pre));
        }
        j = j + 1;
    }
    assert(all.take(ids@.len() as int) =~= all);
    out
}

/// Each local model with its capabilities weighed: the user's pins, then what llama.cpp reported
/// when the model was last loaded, then the registry's vote for its repository's name.
pub open spec fn spec_local_models(
    models: Seq<crate::db::LocalModel>,
    user: Seq<(Seq<char>, PartialCaps)>,
    registry: Registry,
) -> Seq<(Seq<char>, ModelCaps)> {
    models.map_values(
        |m: crate::db::LocalModel|
            (
                m.id@,
                spec_resolve(
                    said_of(user, m.id@),
                    PartialCaps { vision: m.caps_vision, tools: m.caps_tools, reasoning: m.caps_reasoning },
                    CapsSource::LlamaCpp,
                    registry.spec_lookup(None, m.repo@),
                ),
            ),
    )
}

/// Each local model with its capabilities weighed.
pub fn local_models(
    models: &Vec<crate::db::LocalModel>,
    user: &Vec<(String, PartialCaps)>,
    registry: &Registry,
) -> (r: Vec<(String, ModelCaps)>)
    ensures
        resolved_pairs(r@) == spec_local_models(models@, caps_pairs(user@), *registry),
{
    let mut out: Vec<(String, ModelCaps)> = Vec::new();
    let mut i: usize = 0;
    while i < models.len()
        invariant
            i <= models@.len(),
            resolved_pairs(out@) == spec_local_models(models@, caps_pairs(user@), *registry).take(i as int),
        decreases models@.len() - i,
    {
        let m = &models[i];
        let from_user = said_of_exec(user, m.id.as_str());
        let probed = m.caps();
        let from_registry = registry.lookup(None, m.repo.as_str());
        assert(probed == PartialCaps { vision: m.caps_vision, tools: m.caps_tools, reasoning: m.caps_reasoning });
        let caps = resolve(from_user, probed, CapsSource::LlamaCpp, from_registry);
        let ghost before = resolved_pairs(out@);
        out.push((m.id.clone(), caps));
        assert(resolved_pairs(out@) =~= before.push((m.id@, caps)));
        assert(resolved_pairs(out@) =~= spec_local_models(models@, caps_pairs(user@), *registry).take(i + 1));
        i = i + 1;
    }
    assert(spec_local_models(models@, caps_pairs(user@), *registry).take(models@.len() as int) =~= spec_local_models(
        models@,
        caps_pairs(user@),
        *registry,
    ));
    out
}

/// A model's capabilities looked up by its id alone: the registry's vote where it has one, else
/// what its Hugging Face repository says (`hub`, which is asked only then).
pub fn looked_up_caps(registry_hit: PartialCaps, hub: PartialCaps) -> (r: ModelCaps)
    ensures
        r == if !registry_hit.spec_empty() {
            spec_resolve(PartialCaps::spec_unknown(), registry_hit, CapsSource::Registry, PartialCaps::spec_unknown())
        } else {
            spec_resolve(PartialCaps::spec_unknown(), hub, CapsSource::HuggingFace, PartialCaps::spec_unknown())
        },
{
    if !registry_hit.is_empty() {
        resolve(PartialCaps::unknown(), registry_hit, CapsSource::Registry, PartialCaps::unknown())
    } else {
        resolve(PartialCaps::unknown(), hub, CapsSource::HuggingFace, PartialCaps::unknown())
    }
}

/// An id occurs in a list exactly when it is among the list's first occurrences.
pub proof fn lemma_first_occurrences_cover(s: Seq<Seq<char>>)
    ensures
        forall|x: Seq<char>| #[trigger] first_occurrences(s).contains(x) <==> s.contains(x),
    decreases s.len(),
{
    if s.len() > 0 {
        let p = s.drop_last();
        let last = s.last();
        lemma_first_occurrences_cover(p);
        let fp = first_occurrences(p);
        assert forall|x: Seq<char>| #[trigger] first_occurrences(s).contains(x) <==> s.contains(x) by {
            assert(s[s.len() - 1] == last);
            if x == last {
                assert(s.contains(x));
                if p.contains(x) {
                    assert(fp.contains(x));
                } else {
                    assert(first_occurrences(s) == fp.push(x));
                    assert(fp.push(x)[fp.len() as int] == x);
                }
            } else {
                if s.contains(x) {
                    let i = choose|i: int| 0 <= i < s.len() && s[i] == x;
                    assert(i < s.len() - 1);
                    assert(p[i] == x);
                }
                if p.contains(x) {
                    let i = choose|i: int| 0 <= i < p.len() && p[i] == x;
                    assert(s[i] == x);
                }
                if !p.contains(last) {
                    assert(first_occurrences(s) == fp.push(last));
                    if fp.push(last).contains(x) {
                        let i = choose|i: int| 0 <= i < fp.push(last).len() && fp.push(last)[i] == x;
                        assert(i < fp.len());
                        assert(fp[i] == x);
                    }
                    if fp.contains(x) {
                        let i = choose|i: int| 0 <= i < fp.len() && fp[i] == x;
                        assert(fp.push(last)[i] == x);
                    }
                }
            }
        }
    }
}

/// Each id occurs once among the first occurrences.
pub proof fn lemma_first_occurrences_distinct(s: Seq<Seq<char>>)
    ensures
        first_occurrences(s).no_duplicates(),
    decreases s.len(),
{
    if s.len() > 0 {
        let p = s.drop_last();
        lemma_first_occurrences_distinct(p);
        lemma_first_occurrences_cover(p);
        let fp = first_occurrences(p);
        if !p.contains(s.last()) {
            assert(!fp.contains(s.last()));
            let f = fp.push(s.last());
            assert forall|i: int, j: int| 0 <= i < f.len() && 0 <= j < f.len() && i != j implies f[i] != f[j] by {
                if i < fp.len() && j < fp.len() {
                } else if i < fp.len() {
                    assert(fp.contains(f[i]));
                } else {
                    assert(fp.contains(f[j]));
                }
            }
        }
    }
}

/// A provider's models are answered for each once, and every model it lists or reports on is
/// answered for.
pub proof fn lemma_each_model_answered_once(
    listed: Seq<Seq<char>>,
    reported: Seq<(Seq<char>, PartialCaps)>,
    user: Seq<(Seq<char>, PartialCaps)>,
    registry: Registry,
    registry_key: Option<Seq<char>>,
)
    ensures
        ({
            let ids = spec_provider_models(listed, reported, user, registry, registry_key).map_values(
                |p: (Seq<char>, ModelCaps)| p.0,
            );
            &&& ids.no_duplicates()
            &&& forall|id: Seq<char>| #[trigger] ids.contains(id) <==> (listed.contains(id) || reported.map_values(
                |p: (Seq<char>, PartialCaps)| p.0,
            ).contains(id))
        }),
{
    let keys = reported.map_values(|p: (Seq<char>, PartialCaps)| p.0);
    let all = listed + keys;
    let ids = spec_provider_models(listed, reported, user, registry, registry_key).map_values(
        |p: (Seq<char>, ModelCaps)| p.0,
    );
    assert(ids =~= first_occurrences(all));
    lemma_first_occurrences_distinct(all);
    lemma_first_occurrences_cover(all);
    assert forall|id: Seq<char>| #[trigger] ids.contains(id) <==> (listed.contains(id) || keys.contains(id)) by {
        if all.contains(id) {
            let i = choose|i: int| 0 <= i < all.len() && all[i] == id;
            if i < listed.len() {
                assert(listed[i] == id);
            } else {
                assert(keys[i - listed.len()] == id);
            }
        }
        if listed.contains(id) {
            let i = choose|i: int| 0 <= i < listed.len() && listed[i] == id;
            assert(all[i] == id);
        }
        if keys.contains(id) {
            let i = choose|i: int| 0 <= i < keys.len() && keys[i] == id;
            assert(all[listed.len() + i] == id);
        }
    }
}

} // verus!
