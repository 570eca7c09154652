//! Model capability resolution: what a model can do (vision, tools, reasoning), from the
//! sources that know, in order of authority.
//!
//! 0. the user's manual override, per field;
//! 1. the higher-authority detector (the provider's capability API, or a llama.cpp probe);
//! 2. the models.dev registry;
//! 3. nothing: assume tools, nothing else.
//!
//! `None` in a [`PartialCaps`] means "this source did not say", which is different from
//! `Some(false)` ("this source says no").
use vstd::prelude::*;
use serde_json::Value;
use vstd::string::*;

use crate::text::{
    chars_of, contains, ends_with, eq_str, head_before, head_before_chars, lower, rfind, rfind_chars,
    lemma_rfind_range, occurs_at, slice_to_vec_range, starts_with, starts_with_chars, str_contains,
    string_of, strip_suffix_all, strip_suffix_all_chars, tail_after_last, tail_after_last_chars,
    to_lower,
};



use crate::text::opt_str;
use crate::text::opt_string;
verus! {

broadcast use vstd::string::group_string_axioms;

/// Where a model's detected capability flags came from.
#[derive(Debug, Clone, Copy, PartialEq, Eq, Structural)]
pub enum CapsSource {
    /// The provider's own capability API reported it.
    Provider,
    /// Probed from a running llama-server via `/props`.
    LlamaCpp,
    /// Looked up in the models.dev registry.
    Registry,
    /// Read from the repo's own metadata on Hugging Face.
    HuggingFace,
    /// Nothing knew this model: the flags are defaults, not facts.
    Unknown,
}

/// Which flags the user pinned by hand.
#[derive(Debug, Clone, Copy, PartialEq, Eq, Structural)]
pub struct Overridden {
    pub vision: bool,
    pub tools: bool,
    pub reasoning: bool,
}

/// Per-model capability flags, resolved.
#[derive(Debug, Clone, Copy, PartialEq, Eq, Structural)]
pub struct ModelCaps {
    pub vision: bool,
    pub tools: bool,
    pub reasoning: bool,
    /// Where the *detected* values came from; says nothing about overridden fields.
    pub source: CapsSource,
    pub overridden: Overridden,
}

/// What a single source knows about a model.
#[derive(Debug, Clone, Copy, PartialEq, Eq, Structural)]
pub struct PartialCaps {
    pub vision: Option<bool>,
    pub tools: Option<bool>,
    pub reasoning: Option<bool>,
}

/// The first of two answers that is known.
pub open spec fn first_known(a: Option<bool>, b: Option<bool>) -> Option<bool> {
    match a {
        Some(x) => Some(x),
        None => b,
    }
}

/// A known answer, or `default` when nothing is known.
pub open spec fn known_or(a: Option<bool>, default: bool) -> bool {
    match a {
        Some(x) => x,
        None => default,
    }
}

impl PartialCaps {
    /// Nothing known about any field.
    pub open spec fn spec_empty(self) -> bool {
        self.vision is None && self.tools is None && self.reasoning is None
    }

    /// Each field taken from `self` where it is known, else from `other`.
    pub open spec fn spec_or(self, other: PartialCaps) -> PartialCaps {
        PartialCaps {
            vision: first_known(self.vision, other.vision),
            tools: first_known(self.tools, other.tools),
            reasoning: first_known(self.reasoning, other.reasoning),
        }
    }

    /// A source that said nothing.
    pub open spec fn spec_unknown() -> PartialCaps {
        PartialCaps { vision: None, tools: None, reasoning: None }
    }

    /// A source that said nothing.
    pub fn unknown() -> (r: PartialCaps)
        ensures
            r == PartialCaps::spec_unknown(),
    {
        PartialCaps { vision: None, tools: None, reasoning: None }
    }

    /// This source said nothing about any field.
    pub fn is_empty(&self) -> (r: bool)
        ensures
            r == self.spec_empty(),
    {
        self.vision.is_none() && self.tools.is_none() && self.reasoning.is_none()
    }

    /// Fill fields this source did not know from `other`.
    pub fn or(self, other: PartialCaps) -> (r: PartialCaps)
        ensures
            r == self.spec_or(other),
    {
        PartialCaps {
            vision: match self.vision {
                Some(x) => Some(x),
                None => other.vision,
            },
            tools: match self.tools {
                Some(x) => Some(x),
                None => other.tools,
            },
            reasoning: match self.reasoning {
                Some(x) => Some(x),
                None => other.reasoning,
            },
        }
    }
}

impl Default for PartialCaps {
    fn default() -> (r: PartialCaps)
        ensures
            r == PartialCaps::spec_unknown(),
    {
        PartialCaps { vision: None, tools: None, reasoning: None }
    }
}

/// The detection source a resolution reports: the primary detector if it said anything, else the
/// registry if it did, else nobody.
pub open spec fn spec_source(
    primary: PartialCaps,
    primary_source: CapsSource,
    fallback: PartialCaps,
) -> CapsSource {
    if !primary.spec_empty() {
        primary_source
    } else if !fallback.spec_empty() {
        CapsSource::Registry
    } else {
        CapsSource::Unknown
    }
}

/// The final answer from what each source knew: the user wins outright, then the primary
/// detector, then the registry; unknown means no vision, tools, no reasoning.
pub open spec fn spec_resolve(
    user: PartialCaps,
    primary: PartialCaps,
    primary_source: CapsSource,
    fallback: PartialCaps,
) -> ModelCaps {
    let merged = user.spec_or(primary).spec_or(fallback);
    ModelCaps {
        vision: known_or(merged.vision, false),
        tools: known_or(merged.tools, true),
        reasoning: known_or(merged.reasoning, false),
        source: spec_source(primary, primary_source, fallback),
        overridden: Overridden {
            vision: user.vision is Some,
            tools: user.tools is Some,
            reasoning: user.reasoning is Some,
        },
    }
}

/// Combine what each source knew into a final answer. `user` is the manual override and wins
/// outright; `primary` is the higher-authority detector; `fallback` is the registry.
pub fn resolve(
    user: PartialCaps,
    primary: PartialCaps,
    primary_source: CapsSource,
    fallback: PartialCaps,
) -> (r: ModelCaps)
    ensures
        r == spec_resolve(user, primary, primary_source, fallback),
{
    let source = if !primary.is_empty() {
        primary_source
    } else if !fallback.is_empty() {
        CapsSource::Registry
    } else {
        CapsSource::Unknown
    };
    let merged = user.or(primary).or(fallback);
    ModelCaps {
        vision: match merged.vision {
            Some(x) => x,
            None => false,
        },
        tools: match merged.tools {
            Some(x) => x,
            None => true,
        },
        reasoning: match merged.reasoning {
            Some(x) => x,
            None => false,
        },
        source,
        overridden: Overridden {
            vision: user.vision.is_some(),
            tools: user.tools.is_some(),
            reasoning: user.reasoning.is_some(),
        },
    }
}

/// A field the user pinned is the field resolved, whatever every detector says; and it is the
/// overridden fields, and only they, that are flagged as the user's.
pub proof fn lemma_user_override_wins(
    user: PartialCaps,
    primary: PartialCaps,
    primary_source: CapsSource,
    fallback: PartialCaps,
)
    ensures
        user.vision matches Some(v) ==> spec_resolve(user, primary, primary_source, fallback).vision
            == v,
        user.tools matches Some(v) ==> spec_resolve(user, primary, primary_source, fallback).tools
            == v,
        user.reasoning matches Some(v) ==> spec_resolve(
            user,
            primary,
            primary_source,
            fallback,
        ).reasoning == v,
        spec_resolve(user, primary, primary_source, fallback).overridden.vision == (user.vision is Some),
        spec_resolve(user, primary, primary_source, fallback).overridden.tools == (user.tools is Some),
        spec_resolve(user, primary, primary_source, fallback).overridden.reasoning == (
        user.reasoning is Some),
{
}

/// The reported source describes detection only: what the user pinned never changes it.
pub proof fn lemma_source_ignores_user(
    user_a: PartialCaps,
    user_b: PartialCaps,
    primary: PartialCaps,
    primary_source: CapsSource,
    fallback: PartialCaps,
)
    ensures
        spec_resolve(user_a, primary, primary_source, fallback).source == spec_resolve(
            user_b,
            primary,
            primary_source,
            fallback,
        ).source,
{
}

/// A field no source knows resolves to the default guess: no vision, tools, no reasoning. When
/// no detector knows anything the source says so.
pub proof fn lemma_unknown_defaults(
    user: PartialCaps,
    primary: PartialCaps,
    primary_source: CapsSource,
    fallback: PartialCaps,
)
    ensures
        (user.vision is None && primary.vision is None && fallback.vision is None) ==> !spec_resolve(
            user,
            primary,
            primary_source,
            fallback,
        ).vision,
        (user.tools is None && primary.tools is None && fallback.tools is None) ==> spec_resolve(
            user,
            primary,
            primary_source,
            fallback,
        ).tools,
        (user.reasoning is None && primary.reasoning is None && fallback.reasoning is None)
            ==> !spec_resolve(user, primary, primary_source, fallback).reasoning,
        (primary.spec_empty() && fallback.spec_empty()) ==> spec_resolve(
            user,
            primary,
            primary_source,
            fallback,
        ).source == CapsSource::Unknown,
{
}

/// Where the primary detector spoke and the user did not, the primary detector's answer stands
/// over the registry's.
pub proof fn lemma_primary_beats_registry(
    user: PartialCaps,
    primary: PartialCaps,
    primary_source: CapsSource,
    fallback: PartialCaps,
)
    ensures
        user.vision is None ==> (primary.vision matches Some(v) ==> spec_resolve(
            user,
            primary,
            primary_source,
            fallback,
        ).vision == v),
        user.tools is None ==> (primary.tools matches Some(v) ==> spec_resolve(
            user,
            primary,
            primary_source,
            fallback,
        ).tools == v),
        user.reasoning is None ==> (primary.reasoning matches Some(v) ==> spec_resolve(
            user,
            primary,
            primary_source,
            fallback,
        ).reasoning == v),
{
}

/// Filling from another source is associative, and a source that said nothing changes nothing.
pub proof fn lemma_or_laws(a: PartialCaps, b: PartialCaps, c: PartialCaps)
    ensures
        a.spec_or(b).spec_or(c) == a.spec_or(b.spec_or(c)),
        a.spec_or(PartialCaps::spec_unknown()) == a,
        PartialCaps::spec_unknown().spec_or(a) == a,
        a.spec_or(a) == a,
{
}


// ------------------------------------------------------------------ llama.cpp /props

/// What a llama-server `GET /props` body says, as plain values: `modalities.vision`,
/// `chat_template_caps.supports_tools`, `chat_template_caps.supports_tool_calls` and
/// `chat_template`, each `None` where the body does not hold a value of that type.
#[derive(Debug, Clone, PartialEq, Eq)]
pub struct PropsInfo {
    pub vision: Option<bool>,
    pub supports_tools: Option<bool>,
    pub supports_tool_calls: Option<bool>,
    pub chat_template: Option<String>,
}

/// A chat template that switches thinking on: it references `enable_thinking`, emits a `<think>`
/// block or mentions `reasoning_content`.
pub open spec fn template_reasons(t: Seq<char>) -> bool {
    contains(t, "enable_thinking"@) || contains(t, "<think>"@) || contains(t, "reasoning_content"@)
}

/// What a `/props` body tells about a model.
pub open spec fn spec_caps_from_props(p: PropsInfo) -> PartialCaps {
    PartialCaps {
        vision: p.vision,
        tools: if p.supports_tools is None && p.supports_tool_calls is None {
            None
        } else {
            Some(known_or(p.supports_tools, true) && known_or(p.supports_tool_calls, true))
        },
        reasoning: match p.chat_template {
            Some(t) => Some(template_reasons(t@)),
            None => None,
        },
    }
}

/// The template switches thinking on.
pub fn template_mentions_thinking(t: &str) -> (r: bool)
    ensures
        r == template_reasons(t@),
{
    str_contains(t, "enable_thinking") || str_contains(t, "<think>") || str_contains(
        t,
        "reasoning_content",
    )
}

/// Read a llama-server `/props` body: vision from the loaded model and projector, tools from the
/// template capabilities llama.cpp computed by running the template, reasoning from whether the
/// template references the thinking switch.
pub fn caps_from_props(props: &PropsInfo) -> (r: PartialCaps)
    ensures
        r == spec_caps_from_props(*props),
{
    let tools = match (props.supports_tools, props.supports_tool_calls) {
        (None, None) => None,
        (a, b) => Some(
            match a {
                Some(x) => x,
                None => true,
            } && match b {
                Some(x) => x,
                None => true,
            },
        ),
    };
    let reasoning = match &props.chat_template {
        Some(t) => Some(template_mentions_thinking(t.as_str())),
        None => None,
    };
    PartialCaps { vision: props.vision, tools, reasoning }
}

// ------------------------------------------------------------------ models.dev registry

/// One model entry of a models.dev provider: its id, the strings listed under
/// `modalities.input` (`None` when that is not an array), `tool_call` and `reasoning`.
#[derive(Debug, Clone, PartialEq, Eq)]
pub struct RegistryModel {
    pub id: String,
    pub input_modalities: Option<Vec<Option<String>>>,
    pub tool_call: Option<bool>,
    pub reasoning: Option<bool>,
}

/// One models.dev provider and the models it lists.
#[derive(Debug, Clone, PartialEq, Eq)]
pub struct RegistryProvider {
    pub id: String,
    pub models: Vec<RegistryModel>,
}

/// A model's capabilities under one provider id.
#[derive(Debug, Clone, PartialEq, Eq)]
pub struct ProviderCaps {
    pub provider: String,
    pub model: String,
    pub caps: PartialCaps,
}

/// A normalized model name and the capabilities voted for it across providers.
#[derive(Debug, Clone, PartialEq, Eq)]
pub struct NameCaps {
    pub name: String,
    pub caps: PartialCaps,
}

/// `image` is among the listed input modalities (entries that are not strings count for nothing).
pub open spec fn lists_image(mods: Seq<Option<String>>) -> bool {
    exists|i: int| 0 <= i < mods.len() && opt_string(mods[i]) == Some("image"@)
}

/// What one registry entry says.
pub open spec fn spec_entry_caps(m: RegistryModel) -> PartialCaps {
    PartialCaps {
        vision: match m.input_modalities {
            Some(a) => Some(lists_image(a@)),
            None => None,
        },
        tools: m.tool_call,
        reasoning: m.reasoning,
    }
}

/// What one registry entry says about its model.
pub fn caps_from_registry_entry(m: &RegistryModel) -> (r: PartialCaps)
    ensures
        r == spec_entry_caps(*m),
{
    let vision = match &m.input_modalities {
        Some(a) => {
            let mut found = false;
            let mut i: usize = 0;
            while i < a.len()
                invariant
                    i <= a@.len(),
                    found == exists|j: int| 0 <= j < i && opt_string(a@[j]) == Some("image"@),
                decreases a@.len() - i,
            {
                if let Some(m) = &a[i] {
                    if eq_str(m.as_str(), "image") {
                        found = true;
                    }
                }
                i = i + 1;
            }
            Some(found)
        },
        None => None,
    };
    PartialCaps { vision, tools: m.tool_call, reasoning: m.reasoning }
}

/// The capabilities the entries say for `(provider, model)`, the later entry winning.
pub open spec fn provider_lookup(
    entries: Seq<ProviderCaps>,
    provider: Seq<char>,
    model: Seq<char>,
) -> Option<PartialCaps>
    decreases entries.len(),
{
    if entries.len() == 0 {
        None
    } else if entries.last().provider@ == provider && entries.last().model@ == model {
        Some(entries.last().caps)
    } else {
        provider_lookup(entries.drop_last(), provider, model)
    }
}

/// The capabilities voted for a normalized name, the later entry winning.
pub open spec fn name_lookup(entries: Seq<NameCaps>, name: Seq<char>) -> Option<PartialCaps>
    decreases entries.len(),
{
    if entries.len() == 0 {
        None
    } else if entries.last().name@ == name {
        Some(entries.last().caps)
    } else {
        name_lookup(entries.drop_last(), name)
    }
}

/// The capability indexes built from the models.dev registry: exact `(provider, model)` entries,
/// and a vote per normalized model name across every provider.
pub struct Registry {
    by_provider: Vec<ProviderCaps>,
    by_name: Vec<NameCaps>,
}

impl Registry {
    /// The exact per-provider index.
    pub closed spec fn provider_entries(&self) -> Seq<ProviderCaps> {
        self.by_provider@
    }

    /// The per-name index.
    pub closed spec fn name_entries(&self) -> Seq<NameCaps> {
        self.by_name@
    }

    /// What the registry says about `model_id`, asked as `provider_key` names it: the exact entry
    /// where there is one, else the vote for its normalized name, else nothing.
    pub open spec fn spec_lookup(&self, provider_key: Option<Seq<char>>, model_id: Seq<char>) -> PartialCaps {
        match provider_key {
            Some(pk) if provider_lookup(self.provider_entries(), pk, model_id) is Some => provider_lookup(
                self.provider_entries(),
                pk,
                model_id,
            )->0,
            _ => match name_lookup(self.name_entries(), normalize(model_id)) {
                Some(c) => c,
                None => PartialCaps::spec_unknown(),
            },
        }
    }

    /// An empty registry: every lookup answers "nothing known".
    pub fn empty() -> (r: Registry)
        ensures
            r.provider_entries().len() == 0,
            r.name_entries().len() == 0,
    {
        Registry { by_provider: Vec::new(), by_name: Vec::new() }
    }

    /// A registry holding these indexes.
    pub fn from_indexes(by_provider: Vec<ProviderCaps>, by_name: Vec<NameCaps>) -> (r: Registry)
        ensures
            r.provider_entries() == by_provider@,
            r.name_entries() == by_name@,
    {
        Registry { by_provider, by_name }
    }

    /// The exact entry for `(provider, model)`, the later one winning.
    fn provider_caps(&self, provider: &str, model: &str) -> (r: Option<PartialCaps>)
        ensures
            r == provider_lookup(self.provider_entries(), provider@, model@),
    {
        let mut i = self.by_provider.len();
        assert(self.by_provider@.take(i as int) =~= self.by_provider@);
        while i > 0
            invariant
                i <= self.by_provider@.len(),
                provider_lookup(self.by_provider@, provider@, model@) == provider_lookup(
                    self.by_provider@.take(i as int),
                    provider@,
                    model@,
                ),
            decreases i,
        {
            let e = &self.by_provider[i - 1];
            assert(self.by_provider@.take(i as int).last() == self.by_provider@[i - 1]);
            assert(self.by_provider@.take(i as int).drop_last() =~= self.by_provider@.take(i - 1));
            if eq_str(e.provider.as_str(), provider) && eq_str(e.model.as_str(), model) {
                return Some(e.caps);
            }
            i = i - 1;
        }
        assert(self.by_provider@.take(0) =~= Seq::<ProviderCaps>::empty());
        None
    }

    /// The vote for a normalized name, the later entry winning.
    fn name_caps(&self, name: &str) -> (r: Option<PartialCaps>)
        ensures
            r == name_lookup(self.name_entries(), name@),
    {
        let mut i = self.by_name.len();
        assert(self.by_name@.take(i as int) =~= self.by_name@);
        while i > 0
            invariant
                i <= self.by_name@.len(),
                name_lookup(self.by_name@, name@) == name_lookup(self.by_name@.take(i as int), name@),
            decreases i,
        {
            let e = &self.by_name[i - 1];
            assert(self.by_name@.take(i as int).last() == self.by_name@[i - 1]);
            assert(self.by_name@.take(i as int).drop_last() =~= self.by_name@.take(i - 1));
            if eq_str(e.name.as_str(), name) {
                return Some(e.caps);
            }
            i = i - 1;
        }
        assert(self.by_name@.take(0) =~= Seq::<NameCaps>::empty());
        None
    }

    /// What the registry says about `model_id` under `provider_key`.
    pub fn lookup(&self, provider_key: Option<&str>, model_id: &str) -> (r: PartialCaps)
        ensures
            r == self.spec_lookup(opt_str(provider_key), model_id@),
    {
        if let Some(pk) = provider_key {
            if let Some(c) = self.provider_caps(pk, model_id) {
                return c;
            }
        }
        let name = normalize_id(model_id);
        match self.name_caps(name.as_str()) {
            Some(c) => c,
            None => PartialCaps::unknown(),
        }
    }

    /// How many normalized model names the registry knows.
    pub fn len(&self) -> (r: usize)
        ensures
            r == self.name_entries().len(),
    {
        self.by_name.len()
    }
}

// ------------------------------------------------------------------ provider keys

/// Our provider `type` and endpoint to the models.dev provider id, where the mapping is exact.
pub open spec fn spec_registry_provider_key(provider_type: Seq<char>, base_url: Seq<char>) -> Option<
    Seq<char>,
> {
    if provider_type == "anthropic"@ {
        Some("anthropic"@)
    } else if provider_type == "gemini"@ {
        Some("google"@)
    } else if provider_type == "openai"@ {
        Some("openai"@)
    } else {
        host_key(lower(base_url))
    }
}

/// An OpenAI-compatible endpoint recognised by its host, first match in this order.
pub open spec fn host_key(u: Seq<char>) -> Option<Seq<char>> {
    if contains(u, "api.groq.com"@) {
        Some("groq"@)
    } else if contains(u, "openrouter.ai"@) {
        Some("openrouter"@)
    } else if contains(u, "api.mistral.ai"@) {
        Some("mistral"@)
    } else if contains(u, "api.deepseek.com"@) {
        Some("deepseek"@)
    } else if contains(u, "api.x.ai"@) {
        Some("xai"@)
    } else if contains(u, "api.together.xyz"@) {
        Some("togetherai"@)
    } else if contains(u, "api.cerebras.ai"@) {
        Some("cerebras"@)
    } else if contains(u, "api.fireworks.ai"@) {
        Some("fireworks-ai"@)
    } else if contains(u, "api.openai.com"@) {
        Some("openai"@)
    } else {
        None
    }
}

/// Our provider `type` to the models.dev provider id; `openai_compat` hosts are identified by
/// their endpoint. `None` falls through to the normalized-name index.
pub fn registry_provider_key(provider_type: &str, base_url: &str) -> (r: Option<&'static str>)
    ensures
        opt_str(r) == spec_registry_provider_key(provider_type@, base_url@),
{
    if eq_str(provider_type, "anthropic") {
        return Some("anthropic");
    }
    if eq_str(provider_type, "gemini") {
        return Some("google");
    }
    if eq_str(provider_type, "openai") {
        return Some("openai");
    }
    let lowered = to_lower(base_url);
    let u = lowered.as_str();
    if str_contains(u, "api.groq.com") {
        Some("groq")
    } else if str_contains(u, "openrouter.ai") {
        Some("openrouter")
    } else if str_contains(u, "api.mistral.ai") {
        Some("mistral")
    } else if str_contains(u, "api.deepseek.com") {
        Some("deepseek")
    } else if str_contains(u, "api.x.ai") {
        Some("xai")
    } else if str_contains(u, "api.together.xyz") {
        Some("togetherai")
    } else if str_contains(u, "api.cerebras.ai") {
        Some("cerebras")
    } else if str_contains(u, "api.fireworks.ai") {
        Some("fireworks-ai")
    } else if str_contains(u, "api.openai.com") {
        Some("openai")
    } else {
        None
    }
}

// ------------------------------------------------------------------ model id normalization

/// An ASCII digit.
pub open spec fn is_digit(c: char) -> bool {
    '0' <= c && c <= '9'
}

/// A trailing `-`-separated token that is quantization or precision packaging, not identity.
pub open spec fn is_quant_token(t: Seq<char>) -> bool {
    ||| t.len() >= 2 && t[0] == 'q' && is_digit(t[1])
    ||| starts_with(t, "iq"@) && t.len() >= 3
    ||| t == "f16"@
    ||| t == "f32"@
    ||| t == "bf16"@
    ||| t == "fp8"@
    ||| t == "fp16"@
    ||| t == "mxfp4"@
    ||| t == "int4"@
    ||| t == "int8"@
    ||| t == "k"@
    ||| t == "m"@
    ||| t == "s"@
    ||| t == "l"@
    ||| t == "xs"@
    ||| t == "xl"@
    ||| t == "0"@
    ||| t == "1"@
}

/// A precision token a repackager appends to a model's name.
pub open spec fn is_precision_token(t: Seq<char>) -> bool {
    ||| t == "f16"@
    ||| t == "f32"@
    ||| t == "bf16"@
    ||| t == "fp8"@
    ||| t == "fp16"@
    ||| t == "mxfp4"@
    ||| t == "int4"@
    ||| t == "int8"@
}

proof fn lemma_last_dash(s: Seq<char>, t: Seq<char>, j: int)
    requires
        s.len() <= j < s.len() + 1 + t.len(),
        forall|k: int| 0 <= k < t.len() ==> t[k] != '-',
    ensures
        crate::text::rfind_from(s + seq!['-'] + t, seq!['-'], j) == s.len(),
    decreases j,
{
    let x = s + seq!['-'] + t;
    if j > s.len() {
        assert(x.subrange(j, j + 1) =~= seq![t[j - s.len() - 1]]);
        assert(x.subrange(j, j + 1) != seq!['-']) by {
            if x.subrange(j, j + 1) == seq!['-'] {
                assert(x.subrange(j, j + 1)[0] == t[j - s.len() - 1]);
            }
        }
        lemma_last_dash(s, t, j - 1);
    } else {
        assert(x.subrange(j, j + 1) =~= seq!['-']);
    }
}

/// A precision token at the end of a (lowered) name is packaging: dropping `-f16`, `-f32`,
/// `-bf16`, `-fp8`, `-fp16`, `-mxfp4`, `-int4` or `-int8` from the end changes nothing, so
/// `qwen3-8b-fp8` compares as `qwen3-8b`.
pub proof fn lemma_precision_tokens_are_packaging(s: Seq<char>, t: Seq<char>)
    requires
        is_precision_token(t),
    ensures
        strip_quant_tail(s + "-"@ + t) == strip_quant_tail(s),
{
    reveal_strlit("-");
    reveal_strlit("f16");
    reveal_strlit("f32");
    reveal_strlit("bf16");
    reveal_strlit("fp8");
    reveal_strlit("fp16");
    reveal_strlit("mxfp4");
    reveal_strlit("int4");
    reveal_strlit("int8");
    assert("-"@ =~= seq!['-']);
    assert(forall|k: int| 0 <= k < t.len() ==> t[k] != '-');
    let x = s + seq!['-'] + t;
    assert(s + "-"@ + t == x);
    lemma_last_dash(s, t, x.len() - 1);
    assert(crate::text::rfind(x, seq!['-']) == s.len());
    assert(x.skip(s.len() as int + 1) =~= t);
    assert(x.take(s.len() as int) =~= s);
    assert(is_quant_token(t));
}

/// `s` with trailing quantization tokens removed, one `-token` at a time.
pub open spec fn strip_quant_tail(s: Seq<char>) -> Seq<char>
    decreases s.len(),
{
    let k = rfind(s, seq!['-']);
    if k >= 0 && is_quant_token(s.skip(k + 1)) {
        proof {
            lemma_rfind_range(s, seq!['-'], s.len() - 1);
        }
        strip_quant_tail(s.take(k))
    } else {
        s
    }
}

/// A model id reduced to what is comparable across hosts and packagings: lowered; the local
/// `::<quant>` dropped; the vendor before the last `/` dropped; an Ollama `:tag` dropped; trailing
/// `.gguf` and packaging suffixes (`-gguf`, `-hf`, `-tee`, `-tput`, `-fast`) stripped; trailing
/// quantization tokens stripped.
pub open spec fn normalize(id: Seq<char>) -> Seq<char> {
    let s = head_before(lower(id), "::"@);
    let s = tail_after_last(s, "/"@);
    let s = head_before(s, ":"@);
    let s = strip_suffix_all(s, ".gguf"@);
    let s = strip_suffix_all(s, "-gguf"@);
    let s = strip_suffix_all(s, "-hf"@);
    let s = strip_suffix_all(s, "-tee"@);
    let s = strip_suffix_all(s, "-tput"@);
    let s = strip_suffix_all(s, "-fast"@);
    strip_quant_tail(s)
}

/// The token is quantization or precision packaging.
pub fn quant_token(t: &[char]) -> (r: bool)
    ensures
        r == is_quant_token(t@),
{
    if t.len() >= 2 && t[0] == 'q' && '0' <= t[1] && t[1] <= '9' {
        return true;
    }
    let iq = chars_of("iq");
    if starts_with_chars(t, iq.as_slice()) && t.len() >= 3 {
        return true;
    }
    let s = string_of(t);
    let s = s.as_str();
    eq_str(s, "f16") || eq_str(s, "f32") || eq_str(s, "bf16") || eq_str(s, "fp8") || eq_str(
        s,
        "fp16",
    ) || eq_str(s, "mxfp4") || eq_str(s, "int4") || eq_str(s, "int8") || eq_str(s, "k") || eq_str(
        s,
        "m",
    ) || eq_str(s, "s") || eq_str(s, "l") || eq_str(s, "xs") || eq_str(s, "xl") || eq_str(s, "0")
        || eq_str(s, "1")
}

/// Reduce a model id to something comparable across hosts and packagings:
/// `unsloth/Qwen3-30B-A3B-Instruct-2507-GGUF::Q4_K_M` becomes `qwen3-30b-a3b-instruct-2507`, which
/// is what models.dev calls `Qwen/Qwen3-30B-A3B-Instruct-2507`. Size and version tokens are
/// identity and stay.
pub fn normalize_id(id: &str) -> (r: String)
    ensures
        r@ == normalize(id@),
{
    let lowered = to_lower(id);
    let s = chars_of(lowered.as_str());
    let s = head_before_chars(s.as_slice(), chars_of("::").as_slice());
    let s = tail_after_last_chars(s.as_slice(), chars_of("/").as_slice());
    let s = head_before_chars(s.as_slice(), chars_of(":").as_slice());
    let s = strip_suffix_all_chars(s, chars_of(".gguf").as_slice());
    let s = strip_suffix_all_chars(s, chars_of("-gguf").as_slice());
    let s = strip_suffix_all_chars(s, chars_of("-hf").as_slice());
    let s = strip_suffix_all_chars(s, chars_of("-tee").as_slice());
    let s = strip_suffix_all_chars(s, chars_of("-tput").as_slice());
    let s = strip_suffix_all_chars(s, chars_of("-fast").as_slice());
    let dash = vec!['-'];
    let mut s = s;
    let ghost before = s@;
    loop
        invariant
            strip_quant_tail(before) == strip_quant_tail(s@),
            dash@ == seq!['-'],
        ensures
            strip_quant_tail(before) == s@,
        decreases s@.len(),
    {
        match rfind_chars(s.as_slice(), dash.as_slice()) {
            Some(k) => {
                proof {
                    assert(dash@.len() == 1);
                    lemma_rfind_range(s@, seq!['-'], s@.len() - 1);
                    assert(occurs_at(s@, seq!['-'], k as int));
                }
                assert(k < s.len());
                let last = slice_to_vec_range(s.as_slice(), k + 1, s.len());
                assert(last@ =~= s@.skip(k + 1));
                if !quant_token(last.as_slice()) {
                    break;
                }
                s.truncate(k);
            },
            None => break,
        }
    }
    string_of(s.as_slice())
}


// ------------------------------------------------------------------ building the registry

/// A registry row in spec terms: provider id, model id, what the entry says.
pub type Row = (Seq<char>, Seq<char>, PartialCaps);

/// The spec view of a per-provider entry.
pub open spec fn row_view(e: ProviderCaps) -> Row {
    (e.provider@, e.model@, e.caps)
}

/// The rows one provider contributes: every model whose entry says anything, in order.
pub open spec fn model_rows(pid: Seq<char>, models: Seq<RegistryModel>) -> Seq<Row>
    decreases models.len(),
{
    if models.len() == 0 {
        seq![]
    } else {
        let rest = model_rows(pid, models.drop_last());
        let c = spec_entry_caps(models.last());
        if c.spec_empty() {
            rest
        } else {
            rest.push((pid, models.last().id@, c))
        }
    }
}

/// Every row of the registry, provider by provider.
pub open spec fn registry_rows(ps: Seq<RegistryProvider>) -> Seq<Row>
    decreases ps.len(),
{
    if ps.len() == 0 {
        seq![]
    } else {
        registry_rows(ps.drop_last()) + model_rows(ps.last().id@, ps.last().models@)
    }
}

/// One flag of a partial answer: 0 vision, 1 tools, 2 reasoning.
pub open spec fn flag(c: PartialCaps, f: int) -> Option<bool> {
    if f == 0 {
        c.vision
    } else if f == 1 {
        c.tools
    } else {
        c.reasoning
    }
}

/// Rows naming (after normalization) `n` that say yes to flag `f`.
pub open spec fn yes_votes(rows: Seq<Row>, n: Seq<char>, f: int) -> nat
    decreases rows.len(),
{
    if rows.len() == 0 {
        0
    } else {
        yes_votes(rows.drop_last(), n, f) + if normalize(rows.last().1) == n && flag(rows.last().2, f)
            == Some(true) {
            1nat
        } else {
            0nat
        }
    }
}

/// Rows naming (after normalization) `n` that say anything about flag `f`.
pub open spec fn all_votes(rows: Seq<Row>, n: Seq<char>, f: int) -> nat
    decreases rows.len(),
{
    if rows.len() == 0 {
        0
    } else {
        all_votes(rows.drop_last(), n, f) + if normalize(rows.last().1) == n && flag(
            rows.last().2,
            f,
        ) is Some {
            1nat
        } else {
            0nat
        }
    }
}

/// Majority, a tie counting as "supported"; nothing when nobody voted.
pub open spec fn verdict(yes: nat, total: nat) -> Option<bool> {
    if total > 0 {
        Some(2 * yes >= total)
    } else {
        None
    }
}

/// Some row's model normalizes to `n`.
pub open spec fn names_rows(rows: Seq<Row>, n: Seq<char>) -> bool {
    exists|i: int| 0 <= i < rows.len() && normalize(#[trigger] rows[i].1) == n
}

/// What the rows naming `n` vote, flag by flag.
pub open spec fn voted_caps(rows: Seq<Row>, n: Seq<char>) -> PartialCaps {
    PartialCaps {
        vision: verdict(yes_votes(rows, n, 0), all_votes(rows, n, 0)),
        tools: verdict(yes_votes(rows, n, 1), all_votes(rows, n, 1)),
        reasoning: verdict(yes_votes(rows, n, 2), all_votes(rows, n, 2)),
    }
}

/// How many models the providers list.
pub open spec fn model_count(ps: Seq<RegistryProvider>) -> nat
    decreases ps.len(),
{
    if ps.len() == 0 {
        0
    } else {
        model_count(ps.drop_last()) + ps.last().models@.len()
    }
}

proof fn lemma_votes_bounded(rows: Seq<Row>, n: Seq<char>, f: int)
    ensures
        yes_votes(rows, n, f) <= all_votes(rows, n, f) <= rows.len(),
    decreases rows.len(),
{
    if rows.len() > 0 {
        lemma_votes_bounded(rows.drop_last(), n, f);
    }
}

proof fn lemma_model_rows_len(pid: Seq<char>, models: Seq<RegistryModel>)
    ensures
        model_rows(pid, models).len() <= models.len(),
    decreases models.len(),
{
    if models.len() > 0 {
        lemma_model_rows_len(pid, models.drop_last());
    }
}

proof fn lemma_registry_rows_len(ps: Seq<RegistryProvider>)
    ensures
        registry_rows(ps).len() <= model_count(ps),
    decreases ps.len(),
{
    if ps.len() > 0 {
        lemma_registry_rows_len(ps.drop_last());
        lemma_model_rows_len(ps.last().id@, ps.last().models@);
    }
}

proof fn lemma_model_count_prefix(ps: Seq<RegistryProvider>, i: int)
    requires
        0 <= i <= ps.len(),
    ensures
        model_count(ps.take(i)) + ps[i].models@.len() <= model_count(ps) || i == ps.len(),
        model_count(ps.take(i)) <= model_count(ps),
    decreases ps.len() - i,
{
    if i < ps.len() {
        lemma_model_count_prefix(ps, i + 1);
        assert(ps.take(i + 1).drop_last() =~= ps.take(i));
    } else {
        assert(ps.take(i) =~= ps);
    }
}

/// (yes-votes, total-votes) for one flag.
#[derive(Clone, Copy)]
struct Tally(u32, u32);

impl Tally {
    /// Count one source's answer, if it gave one.
    fn add(&mut self, v: Option<bool>)
        requires
            old(self).1 < u32::MAX,
            old(self).0 <= old(self).1,
        ensures
            final(self).0 == old(self).0 + if v == Some(true) {
                1int
            } else {
                0int
            },
            final(self).1 == old(self).1 + if v is Some {
                1int
            } else {
                0int
            },
    {
        if let Some(b) = v {
            self.0 = self.0 + if b {
                1
            } else {
                0
            };
            self.1 = self.1 + 1;
        }
    }

    /// Majority, ties counting as "supported". A host that omits a capability the model has is a
    /// far more common error than a host inventing one.
    fn verdict(self) -> (r: Option<bool>)
        requires
            self.0 <= self.1 <= 0x7fff_ffff,
        ensures
            r == verdict(self.0 as nat, self.1 as nat),
    {
        if self.1 > 0 {
            Some(self.0 * 2 >= self.1)
        } else {
            None
        }
    }
}

/// The votes gathered for one normalized name.
struct Vote {
    name: String,
    vision: Tally,
    tools: Tally,
    reasoning: Tally,
}

impl Vote {
    spec fn tally(self, f: int) -> Tally {
        if f == 0 {
            self.vision
        } else if f == 1 {
            self.tools
        } else {
            self.reasoning
        }
    }
}

/// The invariant of the vote table after `rows` were counted.
spec fn votes_match(votes: Seq<Vote>, rows: Seq<Row>) -> bool {
    &&& forall|a: int, b: int| 0 <= a < b < votes.len() ==> votes[a].name@ != votes[b].name@
    &&& forall|a: int, f: int|
        #![trigger votes[a].tally(f)]
        0 <= a < votes.len() && 0 <= f < 3 ==> votes[a].tally(f).0 == yes_votes(
            rows,
            votes[a].name@,
            f,
        ) && votes[a].tally(f).1 == all_votes(rows, votes[a].name@, f)
    &&& forall|a: int| 0 <= a < votes.len() ==> names_rows(rows, #[trigger] votes[a].name@)
    &&& forall|n: Seq<char>| names_rows(rows, n) ==> exists|a: int| 0 <= a < votes.len() && #[trigger] votes[a].name@ == n
}

proof fn lemma_votes_step(rows: Seq<Row>, k: int, n: Seq<char>, f: int)
    requires
        0 <= k < rows.len(),
    ensures
        yes_votes(rows.take(k + 1), n, f) == yes_votes(rows.take(k), n, f) + if normalize(rows[k].1)
            == n && flag(rows[k].2, f) == Some(true) {
            1nat
        } else {
            0nat
        },
        all_votes(rows.take(k + 1), n, f) == all_votes(rows.take(k), n, f) + if normalize(rows[k].1)
            == n && flag(rows[k].2, f) is Some {
            1nat
        } else {
            0nat
        },
{
    assert(rows.take(k + 1).drop_last() =~= rows.take(k));
}

proof fn lemma_names_rows_step(rows: Seq<Row>, k: int, n: Seq<char>)
    requires
        0 <= k < rows.len(),
    ensures
        names_rows(rows.take(k + 1), n) == (names_rows(rows.take(k), n) || normalize(rows[k].1) == n),
{
    let big = rows.take(k + 1);
    let small = rows.take(k);
    if names_rows(big, n) && normalize(rows[k].1) != n {
        let i = choose|i: int| 0 <= i < big.len() && normalize(#[trigger] big[i].1) == n;
        assert(small[i] == big[i]);
    }
    if names_rows(small, n) {
        let i = choose|i: int| 0 <= i < small.len() && normalize(#[trigger] small[i].1) == n;
        assert(big[i] == small[i]);
    }
    if normalize(rows[k].1) == n {
        assert(rows.take(k + 1)[k] == rows[k]);
    }
}

proof fn lemma_name_lookup_unique(entries: Seq<NameCaps>, n: Seq<char>)
    requires
        forall|a: int, b: int| 0 <= a < b < entries.len() ==> entries[a].name@ != entries[b].name@,
    ensures
        (forall|a: int| 0 <= a < entries.len() ==> entries[a].name@ != n) ==> name_lookup(entries, n) is None,
        forall|a: int| 0 <= a < entries.len() && entries[a].name@ == n ==> name_lookup(entries, n)
            == Some(entries[a].caps),
    decreases entries.len(),
{
    if entries.len() > 0 {
        let init = entries.drop_last();
        lemma_name_lookup_unique(init, n);
        assert forall|a: int| 0 <= a < entries.len() && entries[a].name@ == n implies name_lookup(
            entries,
            n,
        ) == Some(entries[a].caps) by {
            if a < entries.len() - 1 {
                assert(init[a] == entries[a]);
            }
        }
    }
}

/// The index of the vote for `name`, if the table has one.
fn find_vote(votes: &Vec<Vote>, name: &str) -> (r: Option<usize>)
    ensures
        match r {
            Some(i) => i < votes@.len() && votes@[i as int].name@ == name@,
            None => forall|a: int| 0 <= a < votes@.len() ==> votes@[a].name@ != name@,
        },
{
    let mut i: usize = 0;
    while i < votes.len()
        invariant
            i <= votes@.len(),
            forall|a: int| 0 <= a < i ==> votes@[a].name@ != name@,
        decreases votes@.len() - i,
    {
        if eq_str(votes[i].name.as_str(), name) {
            return Some(i);
        }
        i = i + 1;
    }
    None
}

/// Count one row into the vote table.
fn count_row(votes: &mut Vec<Vote>, row: &ProviderCaps, rows: Ghost<Seq<Row>>, k: Ghost<int>)
    requires
        0 <= k@ < rows@.len(),
        rows@.len() < 0x7fff_ffff,
        rows@[k@] == row_view(*row),
        votes_match(old(votes)@, rows@.take(k@)),
    ensures
        votes_match(final(votes)@, rows@.take(k@ + 1)),
{
    let ghost rs = rows@;
    let ghost kk = k@;
    let name = normalize_id(row.model.as_str());
    proof {
        assert forall|n: Seq<char>, f: int|
            #![trigger yes_votes(rs.take(kk), n, f)]
            #![trigger all_votes(rs.take(kk), n, f)]
            true implies yes_votes(rs.take(kk), n, f) <= all_votes(
            rs.take(kk),
            n,
            f,
        ) <= kk by {
            lemma_votes_bounded(rs.take(kk), n, f);
        }
        assert forall|n: Seq<char>, f: int|
            #![trigger yes_votes(rs.take(kk + 1), n, f)]
            #![trigger all_votes(rs.take(kk + 1), n, f)]
            true implies yes_votes(rs.take(kk + 1), n, f) == yes_votes(
            rs.take(kk),
            n,
            f,
        ) + (if normalize(rs[kk].1) == n && flag(rs[kk].2, f) == Some(true) {
            1nat
        } else {
            0nat
        }) && all_votes(rs.take(kk + 1), n, f) == all_votes(rs.take(kk), n, f) + (if normalize(
            rs[kk].1,
        ) == n && flag(rs[kk].2, f) is Some {
            1nat
        } else {
            0nat
        }) by {
            lemma_votes_step(rs, kk, n, f);
        }
        assert forall|n: Seq<char>| #![trigger names_rows(rs.take(kk + 1), n)] true implies names_rows(rs.take(kk + 1), n) == (names_rows(
            rs.take(kk),
            n,
        ) || normalize(rs[kk].1) == n) by {
            lemma_names_rows_step(rs, kk, n);
        }
    }
    if let Some(i) = find_vote(votes, name.as_str()) {
        let mut v = Vote {
            name: String::new(),
            vision: votes[i].vision,
            tools: votes[i].tools,
            reasoning: votes[i].reasoning,
        };
        proof {
            assert(v.vision == votes@[i as int].tally(0));
            assert(v.tools == votes@[i as int].tally(1));
            assert(v.reasoning == votes@[i as int].tally(2));
            lemma_votes_bounded(rs.take(kk), name@, 0);
            lemma_votes_bounded(rs.take(kk), name@, 1);
            lemma_votes_bounded(rs.take(kk), name@, 2);
            assert(votes@[i as int].name@ == name@);
            assert(votes@[i as int].tally(0).1 == all_votes(rs.take(kk), name@, 0));
            assert(all_votes(rs.take(kk), name@, 0) <= kk);
            assert(v.vision.1 < u32::MAX);
        }
        v.vision.add(row.caps.vision);
        v.tools.add(row.caps.tools);
        v.reasoning.add(row.caps.reasoning);
        v.name = name;
        let ghost before = votes@;
        votes.set(i, v);
        proof {
            assert forall|a: int, f: int|
                0 <= a < votes@.len() && 0 <= f < 3 implies #[trigger] votes@[a].tally(f).0
                == yes_votes(rs.take(kk + 1), votes@[a].name@, f) && votes@[a].tally(f).1
                == all_votes(rs.take(kk + 1), votes@[a].name@, f) by {
                if a != i {
                    assert(votes@[a] == before[a]);
                    assert(before[a].tally(f) == votes@[a].tally(f));
                } else {
                    assert(votes@[a] == v);
                }
            }
            assert forall|a: int| 0 <= a < votes@.len() implies names_rows(
                rs.take(kk + 1),
                #[trigger] votes@[a].name@,
            ) by {
                if a != i {
                    assert(votes@[a] == before[a]);
                    assert(names_rows(rs.take(kk), before[a].name@));
                }
            }
            assert forall|n: Seq<char>| #![trigger names_rows(rs.take(kk + 1), n)] names_rows(
                rs.take(kk + 1),
                n,
            ) implies exists|a: int| 0 <= a < votes@.len() && #[trigger] votes@[a].name@ == n by {
                if normalize(rs[kk].1) == n {
                    assert(votes@[i as int].name@ == n);
                } else {
                    assert(names_rows(rs.take(kk), n));
                    let a = choose|a: int| 0 <= a < before.len() && #[trigger] before[a].name@ == n;
                    if a != i {
                        assert(votes@[a] == before[a]);
                    } else {
                        assert(votes@[a].name@ == n);
                    }
                }
            }
            assert forall|a: int, b: int| 0 <= a < b < votes@.len() implies votes@[a].name@
                != votes@[b].name@ by {
                if a != i {
                    assert(votes@[a] == before[a]);
                }
                if b != i {
                    assert(votes@[b] == before[b]);
                }
            }
        }
        return ;
    }
    let mut v = Vote {
        name,
        vision: Tally(0, 0),
        tools: Tally(0, 0),
        reasoning: Tally(0, 0),
    };
    v.vision.add(row.caps.vision);
    v.tools.add(row.caps.tools);
    v.reasoning.add(row.caps.reasoning);
    let ghost before = votes@;
    proof {
        assert(!names_rows(rs.take(kk), name@));
        assert forall|f: int| #![trigger yes_votes(rs.take(kk), name@, f)] #![trigger all_votes(rs.take(kk), name@, f)] 0 <= f < 3 implies yes_votes(rs.take(kk), name@, f) == 0 && all_votes(
            rs.take(kk),
            name@,
            f,
        ) == 0 by {
            lemma_votes_absent(rs.take(kk), name@, f);
        }
    }
    votes.push(v);
    proof {
        assert forall|a: int, f: int|
            0 <= a < votes@.len() && 0 <= f < 3 implies #[trigger] votes@[a].tally(f).0 == yes_votes(
            rs.take(kk + 1),
            votes@[a].name@,
            f,
        ) && votes@[a].tally(f).1 == all_votes(rs.take(kk + 1), votes@[a].name@, f) by {
            if a < before.len() {
                assert(votes@[a] == before[a]);
                assert(before[a].tally(f) == votes@[a].tally(f));
            } else {
                assert(votes@[a] == v);
            }
        }
        assert forall|a: int| 0 <= a < votes@.len() implies names_rows(
            rs.take(kk + 1),
            #[trigger] votes@[a].name@,
        ) by {
            if a < before.len() {
                assert(votes@[a] == before[a]);
            }
        }
        assert forall|n: Seq<char>| #![trigger names_rows(rs.take(kk + 1), n)] names_rows(rs.take(kk + 1), n) implies exists|a: int|
            0 <= a < votes@.len() && #[trigger] votes@[a].name@ == n by {
            if normalize(rs[kk].1) == n {
                assert(votes@[before.len() as int].name@ == n);
            } else {
                let a = choose|a: int| 0 <= a < before.len() && #[trigger] before[a].name@ == n;
                assert(votes@[a] == before[a]);
            }
        }
        assert forall|a: int, b: int| 0 <= a < b < votes@.len() implies votes@[a].name@
            != votes@[b].name@ by {
            assert(votes@[a] == before[a]);
            if b < before.len() {
                assert(votes@[b] == before[b]);
            }
        }
    }
}

/// A name no counted row carries has no votes.
proof fn lemma_votes_absent(rows: Seq<Row>, n: Seq<char>, f: int)
    requires
        !names_rows(rows, n),
    ensures
        yes_votes(rows, n, f) == 0,
        all_votes(rows, n, f) == 0,
    decreases rows.len(),
{
    if rows.len() > 0 {
        let init = rows.drop_last();
        assert(!names_rows(init, n)) by {
            if names_rows(init, n) {
                let i = choose|i: int| 0 <= i < init.len() && normalize(#[trigger] init[i].1) == n;
                assert(rows[i] == init[i]);
            }
        }
        assert(normalize(rows.last().1) != n) by {
            if normalize(rows.last().1) == n {
                assert(normalize(rows[rows.len() - 1].1) == n);
            }
        }
        lemma_votes_absent(init, n, f);
    }
}

/// Build the indexes from a models.dev `api.json` body, given as its providers. The exact index
/// holds every entry that says anything; the name index is a vote across every provider listing
/// the same normalized name, so one reseller that understates a model cannot erase a capability
/// the others report.
pub fn parse_registry(providers: &[RegistryProvider]) -> (r: Registry)
    requires
        model_count(providers@) < 0x7fff_ffff,
    ensures
        r.provider_entries().map_values(|e: ProviderCaps| row_view(e)) == registry_rows(providers@),
        forall|n: Seq<char>|
            #[trigger] name_lookup(r.name_entries(), n) == if names_rows(registry_rows(providers@), n) {
                Some(voted_caps(registry_rows(providers@), n))
            } else {
                None
            },
        forall|a: int, b: int|
            0 <= a < b < r.name_entries().len() ==> r.name_entries()[a].name@
                != r.name_entries()[b].name@,
{
    let ghost ps = providers@;
    let mut rows: Vec<ProviderCaps> = Vec::new();
    let mut i: usize = 0;
    assert(ps.take(0) =~= Seq::<RegistryProvider>::empty());
    assert(rows@.map_values(|e: ProviderCaps| row_view(e)) =~= Seq::<Row>::empty());
    while i < providers.len()
        invariant
            i <= ps.len(),
            ps == providers@,
            rows@.map_values(|e: ProviderCaps| row_view(e)) == registry_rows(ps.take(i as int)),
        decreases ps.len() - i,
    {
        let p = &providers[i];
        let mut j: usize = 0;
        assert(p.models@.take(0) =~= Seq::<RegistryModel>::empty());
        assert(registry_rows(ps.take(i as int)) + model_rows(p.id@, p.models@.take(0)) =~= registry_rows(
            ps.take(i as int),
        ));
        while j < p.models.len()
            invariant
                i < ps.len(),
                j <= p.models@.len(),
                p == ps[i as int],
                rows@.map_values(|e: ProviderCaps| row_view(e)) == registry_rows(ps.take(i as int))
                    + model_rows(p.id@, p.models@.take(j as int)),
            decreases p.models@.len() - j,
        {
            let m = &p.models[j];
            let c = caps_from_registry_entry(m);
            let ghost before = rows@;
            assert(p.models@.take(j + 1).drop_last() =~= p.models@.take(j as int));
            assert(p.models@.take(j + 1).last() == p.models@[j as int]);
            if !c.is_empty() {
                rows.push(ProviderCaps { provider: p.id.clone(), model: m.id.clone(), caps: c });
                assert(rows@.map_values(|e: ProviderCaps| row_view(e)) =~= before.map_values(
                    |e: ProviderCaps| row_view(e),
                ).push((p.id@, m.id@, c)));
            }
            j = j + 1;
        }
        assert(p.models@.take(p.models@.len() as int) =~= p.models@);
        assert(ps.take(i + 1).drop_last() =~= ps.take(i as int));
        assert(ps.take(i + 1).last() == ps[i as int]);
        i = i + 1;
    }
    assert(ps.take(ps.len() as int) =~= ps);
    let ghost rv = rows@.map_values(|e: ProviderCaps| row_view(e));
    proof {
        lemma_registry_rows_len(ps);
    }
    let mut votes: Vec<Vote> = Vec::new();
    let mut k: usize = 0;
    proof {
        assert(rv.take(0) =~= Seq::<Row>::empty());
        assert forall|n: Seq<char>| #![trigger names_rows(rv.take(0), n)] names_rows(rv.take(0), n) implies exists|a: int|
            0 <= a < votes@.len() && #[trigger] votes@[a].name@ == n by {}
    }
    while k < rows.len()
        invariant
            k <= rows@.len(),
            rv == rows@.map_values(|e: ProviderCaps| row_view(e)),
            rv.len() < 0x7fff_ffff,
            votes_match(votes@, rv.take(k as int)),
        decreases rows@.len() - k,
    {
        count_row(&mut votes, &rows[k], Ghost(rv), Ghost(k as int));
        k = k + 1;
    }
    assert(rv.take(rows@.len() as int) =~= rv);
    let mut by_name: Vec<NameCaps> = Vec::new();
    let mut v: usize = 0;
    while v < votes.len()
        invariant
            v <= votes@.len(),
            votes_match(votes@, rv),
            rv.len() < 0x7fff_ffff,
            by_name@.len() == v,
            forall|a: int|
                0 <= a < v ==> #[trigger] by_name@[a].name@ == votes@[a].name@ && by_name@[a].caps
                    == voted_caps(rv, votes@[a].name@),
        decreases votes@.len() - v,
    {
        let e = &votes[v];
        proof {
            assert forall|f: int| #![trigger yes_votes(rv, e.name@, f)] #![trigger all_votes(rv, e.name@, f)] 0 <= f < 3 implies yes_votes(rv, e.name@, f) <= all_votes(
                rv,
                e.name@,
                f,
            ) <= rv.len() by {
                lemma_votes_bounded(rv, e.name@, f);
            }
            assert(e.tally(0) == e.vision);
            assert(e.tally(1) == e.tools);
            assert(e.tally(2) == e.reasoning);
        }
        let caps = PartialCaps {
            vision: e.vision.verdict(),
            tools: e.tools.verdict(),
            reasoning: e.reasoning.verdict(),
        };
        assert(caps == voted_caps(rv, e.name@));
        let ghost before = by_name@;
        by_name.push(NameCaps { name: e.name.clone(), caps });
        proof {
            assert forall|a: int|
                0 <= a < v + 1 implies #[trigger] by_name@[a].name@ == votes@[a].name@
                && by_name@[a].caps == voted_caps(rv, votes@[a].name@) by {
                if a < v {
                    assert(by_name@[a] == before[a]);
                } else {
                    assert(by_name@[a].name@ == e.name@);
                    assert(by_name@[a].caps == caps);
                }
            }
        }
        v = v + 1;
    }
    proof {
        assert forall|a: int, b: int| 0 <= a < b < by_name@.len() implies by_name@[a].name@
            != by_name@[b].name@ by {
            assert(by_name@[a].name@ == votes@[a].name@);
            assert(by_name@[b].name@ == votes@[b].name@);
        }
        lemma_name_lookup_unique(by_name@, Seq::<char>::empty());
        assert forall|n: Seq<char>| #[trigger] name_lookup(by_name@, n) == if names_rows(rv, n) {
            Some(voted_caps(rv, n))
        } else {
            None
        } by {
            lemma_name_lookup_unique(by_name@, n);
            if names_rows(rv, n) {
                let a = choose|a: int| 0 <= a < votes@.len() && #[trigger] votes@[a].name@ == n;
                assert(by_name@[a].name@ == n);
            } else {
                assert forall|a: int| 0 <= a < by_name@.len() implies by_name@[a].name@ != n by {
                    assert(by_name@[a].name@ == votes@[a].name@);
                }
            }
        }
    }
    Registry { by_provider: rows, by_name }
}

/// A models.dev model as the registry body gives it: its id, its input modalities (each entry's
/// text where it is a string), and its `tool_call` and `reasoning` flags.
pub type ModelView = (Seq<char>, Option<Seq<Option<Seq<char>>>>, Option<bool>, Option<bool>);

/// The view of a registry model.
pub open spec fn model_view(m: RegistryModel) -> ModelView {
    (
        m.id@,
        match m.input_modalities {
            Some(v) => Some(v@.map_values(|o: Option<String>| opt_string(o))),
            None => None,
        },
        m.tool_call,
        m.reasoning,
    )
}

/// The view of registry providers: each id with its models.
pub open spec fn providers_view(ps: Seq<RegistryProvider>) -> Seq<(Seq<char>, Seq<ModelView>)> {
    ps.map_values(|p: RegistryProvider| (p.id@, p.models@.map_values(|m: RegistryModel| model_view(m))))
}

/// The providers `serde_json::from_str` reads out of a models.dev `api.json` body, in the order of
/// its object's keys: each provider's key with the models under its `models` object (none where
/// that is not an object), each model's key with its `modalities.input` list, `tool_call` and
/// `reasoning`. `None` where the body is not a JSON object.
pub uninterp spec fn models_dev_providers(body: Seq<char>) -> Option<Seq<(Seq<char>, Seq<ModelView>)>>;

/// `serde_json::from_str` of a models.dev body, read into its providers and models.
#[verifier::external_body]
fn registry_providers(body: &str) -> (r: Option<Vec<RegistryProvider>>)
    ensures
        match r {
            Some(ps) => models_dev_providers(body@) == Some(providers_view(ps@)),
            None => models_dev_providers(body@) is None,
        },
{
    let json: Value = serde_json::from_str(body).ok()?;
    let model = |(mid, m): (&String, &Value)| RegistryModel {
        id: mid.clone(),
        input_modalities: m["modalities"]["input"].as_array().map(|a| a.iter().map(|x| x.as_str().map(String::from)).collect()),
        tool_call: m["tool_call"].as_bool(),
        reasoning: m["reasoning"].as_bool(),
    };
    Some(json.as_object()?.iter().map(|(pk, pv)| RegistryProvider {
        id: pk.clone(),
        models: pv["models"].as_object().map(|ms| ms.iter().map(model).collect()).unwrap_or_default(),
    }).collect())
}

/// The most models a registry is built from.
pub const MAX_REGISTRY_MODELS: usize = 0x7fff_ffff;

/// The registry of a models.dev body (fresh from the network, or the cached copy): `Some` exactly
/// where the body is a JSON object of providers, holds fewer than [`MAX_REGISTRY_MODELS`] models,
/// and gives a registry that knows at least one model name; that registry is [`parse_registry`]'s
/// of the providers read from the body.
pub fn registry_from_text(body: &str) -> (r: Option<Registry>)
    ensures
        match models_dev_providers(body@) {
            None => r is None,
            Some(v) => exists|ps: Seq<RegistryProvider>|
                #![trigger providers_view(ps)]
                providers_view(ps) == v && if model_count(ps) >= MAX_REGISTRY_MODELS {
                    r is None
                } else {
                    match r {
                        None => forall|n: Seq<char>| !#[trigger] names_rows(registry_rows(ps), n),
                        Some(reg) => {
                            &&& reg.name_entries().len() > 0
                            &&& reg.provider_entries().map_values(|e: ProviderCaps| row_view(e)) == registry_rows(ps)
                            &&& forall|n: Seq<char>|
                                #[trigger] name_lookup(reg.name_entries(), n) == if names_rows(registry_rows(ps), n) {
                                    Some(voted_caps(registry_rows(ps), n))
                                } else {
                                    None
                                }
                        },
                    }
                },
        },
{
    let ps = match registry_providers(body) {
        Some(ps) => ps,
        None => return None,
    };
    let n = count_models(&ps);
    if n >= MAX_REGISTRY_MODELS {
        return None;
    }
    let reg = parse_registry(ps.as_slice());
    if reg.len() == 0 {
        proof {
            assert forall|n: Seq<char>| !#[trigger] names_rows(registry_rows(ps@), n) by {
                assert(name_lookup(reg.name_entries(), n) is None);
            }
        }
        None
    } else {
        Some(reg)
    }
}

/// How many models the providers list, saturating at [`MAX_REGISTRY_MODELS`].
fn count_models(ps: &Vec<RegistryProvider>) -> (r: usize)
    ensures
        r == if model_count(ps@) >= MAX_REGISTRY_MODELS { MAX_REGISTRY_MODELS as nat } else { model_count(ps@) },
{
    let mut n: usize = 0;
    let mut i: usize = 0;
    assert(ps@.take(0) =~= Seq::<RegistryProvider>::empty());
    while i < ps.len()
        invariant
            i <= ps@.len(),
            n == if model_count(ps@.take(i as int)) >= MAX_REGISTRY_MODELS {
                MAX_REGISTRY_MODELS as nat
            } else {
                model_count(ps@.take(i as int))
            },
        decreases ps@.len() - i,
    {
        assert(ps@.take(i + 1).drop_last() =~= ps@.take(i as int));
        let k = ps[i].models.len();
        if n >= MAX_REGISTRY_MODELS || k >= MAX_REGISTRY_MODELS - n {
            n = MAX_REGISTRY_MODELS;
        } else {
            n = n + k;
        }
        i = i + 1;
    }
    assert(ps@.take(i as int) =~= ps@);
    n
}

} // verus!
