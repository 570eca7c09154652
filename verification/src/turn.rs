//! The decisions of a chat turn: which reasoning knob a model gets, what goes into the system
//! prompt, which tools are offered, what an attached file looks like to the model, what happens
//! after a stream ends, and when a conversation is due a new title.
//!
//! The provider calls, the database and the window events belong to the shell; the tool loop
//! hands each of them to these functions and does what they answer.
use vstd::prelude::*;
use vstd::string::*;

use crate::agent::spec_google_service_for;
use crate::text::{
    chars_of, concat, eq_str, find_chars, slice_to_vec_range, split_char, split_chars, starts_with,
    str_starts_with, string_of, strip_suffix_all, strip_suffix_all_chars, trim, trim_bounds, trim_str,
    push_chars,
};

use crate::text::opt_str;
use crate::text::opt_string;
verus! {

broadcast use vstd::string::group_string_axioms;

// ------------------------------------------------------------------ the request

/// A file the user attached to a message.
#[derive(Debug, Clone)]
pub struct FileAttachment {
    pub name: String,
    pub content: String,
    pub mime_type: Option<String>,
}

/// What the window sends with a new user message.
#[derive(Debug, Clone)]
pub struct SendMessageRequest {
    pub conversation_id: String,
    pub content: String,
    pub disabled_tools: Option<Vec<String>>,
    pub reasoning_effort: Option<String>,
    pub provider_id: Option<String>,
    pub model_id: Option<String>,
    pub attachments: Option<Vec<FileAttachment>>,
    pub skills_context: Option<String>,
    pub historical_attachments: Option<Vec<FileAttachment>>,
    /// The skills switched on in the window, whose tools the turn offers.
    pub enabled_skills: Option<Vec<String>>,
}

// ------------------------------------------------------------------ reasoning

/// The reasoning knob a model offers: its options and which one starts selected.
#[derive(Debug)]
pub struct ReasoningInfo {
    pub allowed_options: Vec<String>,
    pub default: String,
}

/// The view of a reasoning knob.
pub open spec fn info_view(i: ReasoningInfo) -> (Seq<Seq<char>>, Seq<char>) {
    (i.allowed_options.deep_view(), i.default@)
}

/// The graded knob Gemini exposes.
pub open spec fn graded_options() -> Seq<Seq<char>> {
    seq!["off"@, "low"@, "medium"@, "high"@]
}

/// A plain on/off knob.
pub open spec fn on_off_options() -> Seq<Seq<char>> {
    seq!["on"@, "off"@]
}

/// The knob a provider exposes for a model known to reason: Gemini grades its thinking budget,
/// every other provider is a plain on/off. It starts off.
pub open spec fn spec_reasoning_options(provider_type: Seq<char>) -> (Seq<Seq<char>>, Seq<char>) {
    if provider_type == "gemini"@ {
        (graded_options(), "off"@)
    } else {
        (on_off_options(), "off"@)
    }
}

fn strings(a: &str, b: &str) -> (r: Vec<String>)
    ensures
        r.deep_view() == seq![a@, b@],
{
    let mut v: Vec<String> = Vec::new();
    v.push(a.to_string());
    v.push(b.to_string());
    assert(v.deep_view() =~= seq![a@, b@]);
    v
}

fn graded() -> (r: Vec<String>)
    ensures
        r.deep_view() == graded_options(),
{
    let mut v: Vec<String> = Vec::new();
    v.push("off".to_string());
    v.push("low".to_string());
    v.push("medium".to_string());
    v.push("high".to_string());
    assert(v.deep_view() =~= graded_options());
    v
}

/// The reasoning knob a provider exposes for a model already known to reason.
pub fn reasoning_options(provider_type: &str) -> (r: ReasoningInfo)
    ensures
        info_view(r) == spec_reasoning_options(provider_type@),
{
    if eq_str(provider_type, "gemini") {
        ReasoningInfo { allowed_options: graded(), default: "off".to_string() }
    } else {
        ReasoningInfo { allowed_options: strings("on", "off"), default: "off".to_string() }
    }
}

/// What the model list of LM Studio's own API says of a model's reasoning: the options it lists
/// and its default, where it gives one.
#[derive(Debug)]
pub struct NativeReasoning {
    pub allowed_options: Vec<String>,
    pub default: Option<String>,
}

/// The next thing to do in deciding a model's reasoning knob.
#[derive(Debug)]
pub enum ReasoningStep {
    /// Answered: the knob, or `None` to hide it.
    Decided(Option<ReasoningInfo>),
    /// Ask LM Studio's own model list (at [`native_models_url`]).
    FetchNative,
    /// Ask the model registry whether the model reasons.
    FetchRegistry,
}

/// The view of a step: `None` for a fetch, else the answer's view.
pub enum StepView {
    Decided(Option<(Seq<Seq<char>>, Seq<char>)>),
    FetchNative,
    FetchRegistry,
}

/// The view of a step.
pub open spec fn step_view(s: ReasoningStep) -> StepView {
    match s {
        ReasoningStep::Decided(None) => StepView::Decided(None),
        ReasoningStep::Decided(Some(i)) => StepView::Decided(Some(info_view(i))),
        ReasoningStep::FetchNative => StepView::FetchNative,
        ReasoningStep::FetchRegistry => StepView::FetchRegistry,
    }
}

/// The view of a native answer.
pub open spec fn native_view(n: NativeReasoning) -> (Seq<Seq<char>>, Option<Seq<char>>) {
    (
        n.allowed_options.deep_view(),
        match n.default {
            Some(d) => Some(d@),
            None => None,
        },
    )
}

/// A registry answer only hides the knob when it positively says the model does not reason.
pub open spec fn registry_keeps(known: Option<bool>) -> bool {
    known != Some(false)
}

/// How a model's reasoning knob is decided. A manual override settles it first. Anthropic always
/// offers on/off; Gemini offers its graded knob unless the registry says the model does not
/// reason; an OpenAI-compatible local model already probed follows the probe; otherwise LM Studio's
/// own list is asked (a non-empty option list wins, its default falling back to `off`), then the
/// registry. Any other provider has no knob. `native` and `registry` are `None` until fetched, and
/// `Some(None)` when the fetch gave no answer.
pub open spec fn spec_reasoning_step(
    provider_type: Seq<char>,
    is_local: bool,
    user_override: Option<bool>,
    probed: Option<bool>,
    native: Option<Option<(Seq<Seq<char>>, Option<Seq<char>>)>>,
    registry: Option<Option<bool>>,
) -> StepView {
    if user_override == Some(false) {
        StepView::Decided(None)
    } else if user_override == Some(true) {
        StepView::Decided(Some(spec_reasoning_options(provider_type)))
    } else if provider_type == "anthropic"@ {
        StepView::Decided(Some((seq!["off"@, "on"@], "off"@)))
    } else if provider_type == "gemini"@ {
        match registry {
            None => StepView::FetchRegistry,
            Some(known) => if registry_keeps(known) {
                StepView::Decided(Some((graded_options(), "off"@)))
            } else {
                StepView::Decided(None)
            },
        }
    } else if provider_type == "openai_compat"@ {
        if is_local && probed == Some(false) {
            StepView::Decided(None)
        } else if is_local && probed == Some(true) {
            StepView::Decided(Some((on_off_options(), "off"@)))
        } else {
            match native {
                None => StepView::FetchNative,
                Some(answer) => match answer {
                    Some((allowed, default)) if allowed.len() > 0 => StepView::Decided(
                        Some(
                            (
                                allowed,
                                match default {
                                    Some(d) => d,
                                    None => "off"@,
                                },
                            ),
                        ),
                    ),
                    _ => match registry {
                        None => StepView::FetchRegistry,
                        Some(known) => if registry_keeps(known) {
                            StepView::Decided(Some((on_off_options(), "off"@)))
                        } else {
                            StepView::Decided(None)
                        },
                    },
                },
            }
        }
    } else {
        StepView::Decided(None)
    }
}

/// The view of a fetched native answer.
pub open spec fn opt_native_view(n: Option<Option<NativeReasoning>>) -> Option<
    Option<(Seq<Seq<char>>, Option<Seq<char>>)>,
> {
    match n {
        None => None,
        Some(None) => Some(None),
        Some(Some(a)) => Some(Some(native_view(a))),
    }
}

/// The next step in deciding a model's reasoning knob, given what has been fetched so far.
pub fn reasoning_step(
    provider_type: &str,
    is_local: bool,
    user_override: Option<bool>,
    probed: Option<bool>,
    native: Option<Option<NativeReasoning>>,
    registry: Option<Option<bool>>,
) -> (r: ReasoningStep)
    ensures
        step_view(r) == spec_reasoning_step(
            provider_type@,
            is_local,
            user_override,
            probed,
            opt_native_view(native),
            registry,
        ),
{
    match user_override {
        Some(false) => return ReasoningStep::Decided(None),
        Some(true) => return ReasoningStep::Decided(Some(reasoning_options(provider_type))),
        None => {},
    }
    if eq_str(provider_type, "anthropic") {
        return ReasoningStep::Decided(
            Some(ReasoningInfo { allowed_options: strings("off", "on"), default: "off".to_string() }),
        );
    }
    if eq_str(provider_type, "gemini") {
        return match registry {
            None => ReasoningStep::FetchRegistry,
            Some(Some(false)) => ReasoningStep::Decided(None),
            Some(_) => ReasoningStep::Decided(
                Some(ReasoningInfo { allowed_options: graded(), default: "off".to_string() }),
            ),
        };
    }
    if !eq_str(provider_type, "openai_compat") {
        return ReasoningStep::Decided(None);
    }
    if is_local {
        match probed {
            Some(false) => return ReasoningStep::Decided(None),
            Some(true) => return ReasoningStep::Decided(
                Some(ReasoningInfo { allowed_options: strings("on", "off"), default: "off".to_string() }),
            ),
            None => {},
        }
    }
    match native {
        None => ReasoningStep::FetchNative,
        Some(answer) => {
            if let Some(a) = answer {
                if a.allowed_options.len() > 0 {
                    let default = match a.default {
                        Some(d) => d,
                        None => "off".to_string(),
                    };
                    return ReasoningStep::Decided(
                        Some(ReasoningInfo { allowed_options: a.allowed_options, default }),
                    );
                }
            }
            match registry {
                None => ReasoningStep::FetchRegistry,
                Some(Some(false)) => ReasoningStep::Decided(None),
                Some(_) => ReasoningStep::Decided(
                    Some(ReasoningInfo { allowed_options: strings("on", "off"), default: "off".to_string() }),
                ),
            }
        },
    }
}

/// Where LM Studio's own model list lives: the base url without its trailing slashes and its
/// trailing `/v1`, then `/api/v1/models`.
pub open spec fn spec_native_models_url(base_url: Seq<char>) -> Seq<char> {
    strip_suffix_all(strip_suffix_all(base_url, seq!['/']), "/v1"@) + "/api/v1/models"@
}

/// Where LM Studio's own model list lives, for an OpenAI-compatible base url.
pub fn native_models_url(base_url: &str) -> (r: String)
    ensures
        r@ == spec_native_models_url(base_url@),
{
    let cs = chars_of(base_url);
    let slash = ['/'];
    assert(slash@ =~= seq!['/']);
    let a = strip_suffix_all_chars(cs, slash.as_slice());
    let v1 = chars_of("/v1");
    let b = strip_suffix_all_chars(a, v1.as_slice());
    let s = string_of(b.as_slice());
    concat(s.as_str(), "/api/v1/models")
}

// ------------------------------------------------------------------ the system prompt

/// The system prompt with the enabled skills' context after it, a blank line between; an empty
/// skills context adds nothing, and an empty system prompt leaves the context alone.
pub open spec fn spec_compose_prompt(system: Seq<char>, skills_context: Option<Seq<char>>) -> Seq<char> {
    match skills_context {
        Some(ctx) if ctx.len() > 0 => if system.len() > 0 {
            system + "\n\n"@ + ctx
        } else {
            ctx
        },
        _ => system,
    }
}

/// The system prompt and the skills context, as one prompt.
pub fn compose_prompt(system: &str, skills_context: Option<&str>) -> (r: String)
    ensures
        r@ == spec_compose_prompt(system@, opt_str(skills_context)),
{
    match skills_context {
        Some(ctx) if ctx.unicode_len() > 0 => if system.unicode_len() > 0 {
            let a = concat(system, "\n\n");
            concat(a.as_str(), ctx)
        } else {
            ctx.to_string()
        },
        _ => system.to_string(),
    }
}

// ------------------------------------------------------------------ attachments

/// The text an XML-escaped character becomes.
pub open spec fn escape_char(c: char) -> Seq<char> {
    if c == '&' {
        "&amp;"@
    } else if c == '<' {
        "&lt;"@
    } else if c == '>' {
        "&gt;"@
    } else if c == '"' {
        "&quot;"@
    } else {
        seq![c]
    }
}

/// `s` with `&`, `<`, `>` and `"` written as XML entities.
pub open spec fn spec_xml_escape(s: Seq<char>) -> Seq<char>
    decreases s.len(),
{
    if s.len() == 0 {
        Seq::empty()
    } else {
        spec_xml_escape(s.drop_last()) + escape_char(s.last())
    }
}

/// `s` with `&`, `<`, `>` and `"` written as XML entities, so a file's name and text cannot close
/// the tag they are quoted in.
pub fn xml_escape(s: &str) -> (r: String)
    ensures
        r@ == spec_xml_escape(s@),
{
    let cs = chars_of(s);
    let mut out = String::new();
    let mut i: usize = 0;
    while i < cs.len()
        invariant
            i <= cs@.len(),
            cs@ == s@,
            out@ == spec_xml_escape(cs@.take(i as int)),
        decreases cs@.len() - i,
    {
        let c = cs[i];
        assert(cs@.take(i + 1).drop_last() =~= cs@.take(i as int));
        if c == '&' {
            out = concat(out.as_str(), "&amp;");
        } else if c == '<' {
            out = concat(out.as_str(), "&lt;");
        } else if c == '>' {
            out = concat(out.as_str(), "&gt;");
        } else if c == '"' {
            out = concat(out.as_str(), "&quot;");
        } else {
            let one = [c];
            assert(one@ =~= seq![c]);
            push_chars(&mut out, one.as_slice());
        }
        i = i + 1;
    }
    assert(cs@.take(i as int) =~= cs@);
    out
}

/// How a text attachment is quoted to the model: its escaped name and text inside a `file` tag.
pub open spec fn spec_attachment_text(name: Seq<char>, content: Seq<char>) -> Seq<char> {
    "<file name=\""@ + spec_xml_escape(name) + "\">\n"@ + spec_xml_escape(content) + "\n</file>"@
}

/// How a text attachment is quoted to the model.
pub fn attachment_text(name: &str, content: &str) -> (r: String)
    ensures
        r@ == spec_attachment_text(name@, content@),
{
    let mut out = concat("<file name=\"", xml_escape(name).as_str());
    out = concat(out.as_str(), "\">\n");
    out = concat(out.as_str(), xml_escape(content).as_str());
    concat(out.as_str(), "\n</file>")
}

/// An attachment goes to the model as an image when its MIME type is `image/...`.
pub fn is_image_attachment(mime_type: Option<&str>) -> (r: bool)
    ensures
        r == (mime_type matches Some(m) && starts_with(m@, "image/"@)),
{
    match mime_type {
        Some(m) => str_starts_with(m, "image/"),
        None => false,
    }
}

// ------------------------------------------------------------------ which tools are offered

/// Whether `key` is in the list.
pub open spec fn listed(list: Seq<Seq<char>>, key: Seq<char>) -> bool {
    list.contains(key)
}

fn list_has(list: &Vec<String>, key: &str) -> (r: bool)
    ensures
        r == listed(list.deep_view(), key@),
{
    let ghost l = list.deep_view();
    let mut i: usize = 0;
    while i < list.len()
        invariant
            i <= list@.len(),
            l == list.deep_view(),
            forall|j: int| 0 <= j < i ==> l[j] != key@,
        decreases list@.len() - i,
    {
        assert(l[i as int] == list@[i as int]@);
        if eq_str(list[i].as_str(), key) {
            return true;
        }
        i = i + 1;
    }
    proof {
        if l.contains(key@) {
            let j = choose|j: int| 0 <= j < l.len() && l[j] == key@;
            assert(l[j] != key@);
        }
    }
    false
}

/// An MCP server's tool is offered unless `server_id:name` is switched off.
pub fn mcp_tool_offered(server_id: &str, name: &str, disabled: &Vec<String>) -> (r: bool)
    ensures
        r == !listed(disabled.deep_view(), server_id@ + ":"@ + name@),
{
    let a = concat(server_id, ":");
    let key = concat(a.as_str(), name);
    !list_has(disabled, key.as_str())
}

/// A web or Google tool is offered unless `builtin:name` is switched off, and a Google tool only
/// where an account is connected for its service.
pub open spec fn spec_builtin_tool_offered(
    name: Seq<char>,
    disabled: Seq<Seq<char>>,
    connected: Seq<Seq<char>>,
) -> bool {
    &&& !listed(disabled, "builtin:"@ + name)
    &&& match spec_google_service_for(name) {
        Some(service) => listed(connected, service),
        None => true,
    }
}

/// Whether a web or Google tool is offered, given the switched-off tools and the services of the
/// connected accounts.
pub fn builtin_tool_offered(name: &str, disabled: &Vec<String>, connected: &Vec<String>) -> (r: bool)
    ensures
        r == spec_builtin_tool_offered(name@, disabled.deep_view(), connected.deep_view()),
{
    let key = concat("builtin:", name);
    if list_has(disabled, key.as_str()) {
        return false;
    }
    match crate::agent::google_service_for(name) {
        Some(service) => list_has(connected, service),
        None => true,
    }
}

// ------------------------------------------------------------------ after a stream

/// What the loop does once the provider's stream has ended.
#[derive(Debug, Clone, Copy, PartialEq, Eq, Structural)]
pub enum TurnOutcome {
    /// Stopped before anything worth keeping arrived: nothing is saved.
    Discard,
    /// A continuation: what arrived is appended to the last assistant message.
    Append,
    /// The answer is final: save it.
    Save,
    /// The model called tools: run them, then loop.
    RunTools,
}

/// A stop drops the (possibly cut-off) tool calls and keeps the text; a stop with no text and no
/// reasoning keeps nothing. Without tool calls the text is final, appended for a continuation.
pub open spec fn spec_turn_outcome(
    cancelled: bool,
    content: Seq<char>,
    has_thinking: bool,
    tool_calls: nat,
    continuing: bool,
) -> TurnOutcome {
    if cancelled && trim(content).len() == 0 && !has_thinking {
        TurnOutcome::Discard
    } else if cancelled || tool_calls == 0 {
        if continuing {
            TurnOutcome::Append
        } else {
            TurnOutcome::Save
        }
    } else {
        TurnOutcome::RunTools
    }
}

/// What the loop does once the stream has ended.
pub fn turn_outcome(
    cancelled: bool,
    content: &str,
    has_thinking: bool,
    tool_calls: usize,
    continuing: bool,
) -> (r: TurnOutcome)
    ensures
        r == spec_turn_outcome(cancelled, content@, has_thinking, tool_calls as nat, continuing),
{
    if cancelled && trim_str(content).unicode_len() == 0 && !has_thinking {
        TurnOutcome::Discard
    } else if cancelled || tool_calls == 0 {
        if continuing {
            TurnOutcome::Append
        } else {
            TurnOutcome::Save
        }
    } else {
        TurnOutcome::RunTools
    }
}

/// The last assistant message after a continuation: what arrived is appended, unless it is blank,
/// which leaves the message as it was (`None`).
pub fn append_continuation(previous: &str, addition: &str) -> (r: Option<String>)
    ensures
        match r {
            Some(s) => trim(addition@).len() != 0 && s@ == previous@ + addition@,
            None => trim(addition@).len() == 0,
        },
{
    if trim_str(addition).unicode_len() == 0 {
        None
    } else {
        Some(concat(previous, addition))
    }
}

/// Whether the turn since the last user message has tool results the model has not yet seen.
pub open spec fn spec_pending_tool_results(roles: Seq<Seq<char>>) -> bool {
    exists|u: int, t: int|
        0 <= u < t < roles.len() && roles[u] == "user"@ && roles[t] == "tool"@ && (forall|k: int|
            u < k < roles.len() ==> #[trigger] roles[k] != "user"@)
}

/// Whether, after the last user message, there are tool results (so the status line says the
/// model is reading them).
pub fn has_pending_tool_results(roles: &Vec<String>) -> (r: bool)
    ensures
        r == spec_pending_tool_results(roles.deep_view()),
{
    let ghost rv = roles.deep_view();
    let mut i: usize = roles.len();
    let mut seen_tool = false;
    while i > 0
        invariant
            i <= roles@.len(),
            rv == roles.deep_view(),
            forall|k: int| i <= k < rv.len() ==> #[trigger] rv[k] != "user"@,
            seen_tool == exists|t: int| i <= t < rv.len() && #[trigger] rv[t] == "tool"@,
        decreases i,
    {
        let r = &roles[i - 1];
        assert(rv[i - 1] == r@);
        if eq_str(r.as_str(), "user") {
            proof {
                if spec_pending_tool_results(rv) {
                    let (u, t) = choose|u: int, t: int|
                        0 <= u < t < rv.len() && rv[u] == "user"@ && rv[t] == "tool"@ && (forall|k: int|
                            u < k < rv.len() ==> #[trigger] rv[k] != "user"@);
                    if u < i - 1 {
                        assert(rv[i - 1] != "user"@);
                    }
                    if u > i - 1 {
                        assert(rv[u] != "user"@);
                    }
                    assert(u == i - 1);
                    assert(rv[t] == "tool"@);
                }
                if seen_tool {
                    let t = choose|t: int| i <= t < rv.len() && #[trigger] rv[t] == "tool"@;
                    assert(0 <= i - 1 < t < rv.len() && rv[i - 1] == "user"@ && rv[t] == "tool"@);
                }
            }
            return seen_tool;
        }
        if eq_str(r.as_str(), "tool") {
            seen_tool = true;
        }
        i = i - 1;
    }
    proof {
        if spec_pending_tool_results(rv) {
            let (u, t) = choose|u: int, t: int|
                0 <= u < t < rv.len() && rv[u] == "user"@ && rv[t] == "tool"@ && (forall|k: int|
                    u < k < rv.len() ==> #[trigger] rv[k] != "user"@);
            assert(rv[u] != "user"@);
        }
    }
    false
}

// ------------------------------------------------------------------ MCP calls

/// The skill whose approval rule an MCP server's tools follow: a skill's server asks for approval
/// unless its `mcp.json` opted out of it; a hand-configured server never asks.
pub fn skill_gate(skill_id: Option<&str>, bypass_agent_mode: bool) -> (r: Option<String>)
    ensures
        match r {
            Some(s) => skill_id matches Some(k) && s@ == k@ && !bypass_agent_mode,
            None => skill_id is None || bypass_agent_mode,
        },
{
    match skill_id {
        Some(k) if !bypass_agent_mode => Some(k.to_string()),
        _ => None,
    }
}

/// What the permission prompt says for a gated skill server's tool.
pub fn skill_tool_prompt(tool_name: &str, skill_id: &str) -> (r: String)
    ensures
        r@ == "Run '"@ + tool_name@ + "' from the \""@ + skill_id@ + "\" skill's MCP server"@,
{
    let mut out = concat("Run '", tool_name);
    out = concat(out.as_str(), "' from the \"");
    out = concat(out.as_str(), skill_id);
    concat(out.as_str(), "\" skill's MCP server")
}

/// What is recorded for a tool no MCP server offers.
pub fn no_server_result(tool_name: &str) -> (r: String)
    ensures
        r@ == "Error: no MCP server found for tool '"@ + tool_name@ + "'"@,
{
    let out = concat("Error: no MCP server found for tool '", tool_name);
    concat(out.as_str(), "'")
}

/// What is recorded when the tool's server is not connected.
pub fn not_connected_result(server_id: &str) -> (r: String)
    ensures
        r@ == "Error: MCP server '"@ + server_id@ + "' not connected"@,
{
    let out = concat("Error: MCP server '", server_id);
    concat(out.as_str(), "' not connected")
}

// ------------------------------------------------------------------ titles

/// The instruction a title is asked for with.
pub const TITLE_REQUEST: &'static str = "Summarise this conversation as a short title (5 words or fewer). Output only the title text \u{2014} no markdown, no bullet points, no bold, no italics, no hyphens, no dashes, no punctuation, no quotes. Plain words only.";

/// A title is due after the first answer, and then after every `every`-th one (never, for an
/// `every` that is not positive).
pub open spec fn spec_title_due(answers: int, every: int) -> bool {
    answers == 1 || (every > 0 && answers % every == 0)
}

/// Whether a conversation with `answers` assistant answers (a count) is due a new title.
pub fn title_due(answers: u64, every: i64) -> (r: bool)
    ensures
        r == spec_title_due(answers as int, every as int),
{
    answers == 1 || (every > 0 && answers % (every as u64) == 0)
}

/// The model that writes titles: the configured task model where both its provider and its id
/// are set, else the conversation's own.
pub fn title_model(
    task_provider_id: &str,
    task_model_id: &str,
    conversation_provider_id: &str,
    conversation_model_id: &str,
) -> (r: (String, String))
    ensures
        if task_provider_id@.len() > 0 && task_model_id@.len() > 0 {
            r.0@ == task_provider_id@ && r.1@ == task_model_id@
        } else {
            r.0@ == conversation_provider_id@ && r.1@ == conversation_model_id@
        },
{
    if task_provider_id.unicode_len() > 0 && task_model_id.unicode_len() > 0 {
        (task_provider_id.to_string(), task_model_id.to_string())
    } else {
        (conversation_provider_id.to_string(), conversation_model_id.to_string())
    }
}

/// Markdown marks and whitespace stripped from a title's ends.
pub open spec fn is_title_mark(c: char) -> bool {
    c == '#' || c == '*' || c == '_' || c == '-' || c == '`' || crate::text::is_ws(c)
}

/// `s` without leading title marks.
pub open spec fn strip_marks_start(s: Seq<char>) -> Seq<char>
    decreases s.len(),
{
    if s.len() > 0 && is_title_mark(s[0]) {
        strip_marks_start(s.drop_first())
    } else {
        s
    }
}

/// `s` without trailing title marks.
pub open spec fn strip_marks_end(s: Seq<char>) -> Seq<char>
    decreases s.len(),
{
    if s.len() > 0 && is_title_mark(s.last()) {
        strip_marks_end(s.drop_last())
    } else {
        s
    }
}

/// The first line that is not blank, if any.
pub open spec fn first_nonblank(lines: Seq<Seq<char>>) -> Option<Seq<char>>
    decreases lines.len(),
{
    if lines.len() == 0 {
        None
    } else if trim(lines[0]).len() != 0 {
        Some(lines[0])
    } else {
        first_nonblank(lines.drop_first())
    }
}

/// A model's title answer cleaned up: its first non-blank line (or the whole answer), with
/// markdown marks and whitespace stripped from both ends. Empty means there is no title.
pub open spec fn spec_clean_title(raw: Seq<char>) -> Seq<char> {
    let line = match first_nonblank(split_char(raw, '\n')) {
        Some(l) => l,
        None => raw,
    };
    strip_marks_end(strip_marks_start(line))
}

fn is_title_mark_char(c: char) -> (r: bool)
    ensures
        r == is_title_mark(c),
{
    c == '#' || c == '*' || c == '_' || c == '-' || c == '`' || crate::text::is_whitespace(c)
}

proof fn lemma_marks_start_step(s: Seq<char>, k: int)
    requires
        0 <= k < s.len(),
        is_title_mark(s[k]),
    ensures
        strip_marks_start(s.skip(k)) == strip_marks_start(s.skip(k + 1)),
{
    assert(s.skip(k).drop_first() =~= s.skip(k + 1));
}

proof fn lemma_marks_end_step(s: Seq<char>, k: int)
    requires
        0 < k <= s.len(),
        is_title_mark(s[k - 1]),
    ensures
        strip_marks_end(s.take(k)) == strip_marks_end(s.take(k - 1)),
{
    assert(s.take(k).drop_last() =~= s.take(k - 1));
}

fn strip_marks(s: &[char]) -> (r: Vec<char>)
    ensures
        r@ == strip_marks_end(strip_marks_start(s@)),
{
    let mut lo: usize = 0;
    assert(s@.skip(0) =~= s@);
    while lo < s.len() && is_title_mark_char(s[lo])
        invariant
            lo <= s@.len(),
            strip_marks_start(s@) == strip_marks_start(s@.skip(lo as int)),
        decreases s@.len() - lo,
    {
        proof {
            lemma_marks_start_step(s@, lo as int);
        }
        lo = lo + 1;
    }
    let ghost t = s@.skip(lo as int);
    assert(strip_marks_start(s@) == t) by {
        if t.len() > 0 {
            assert(t[0] == s@[lo as int]);
        }
    }
    let mut hi: usize = s.len();
    assert(t.take(t.len() as int) =~= t);
    while hi > lo && is_title_mark_char(s[hi - 1])
        invariant
            lo <= hi <= s@.len(),
            t == s@.skip(lo as int),
            strip_marks_end(t) == strip_marks_end(t.take(hi - lo)),
        decreases hi,
    {
        proof {
            assert(t[hi - lo - 1] == s@[hi - 1]);
            lemma_marks_end_step(t, (hi - lo) as int);
        }
        hi = hi - 1;
    }
    assert(strip_marks_end(t.take(hi - lo)) == t.take(hi - lo)) by {
        if hi > lo {
            assert(t.take(hi - lo).last() == s@[hi - 1]);
        }
    }
    let r = slice_to_vec_range(s, lo, hi);
    assert(r@ =~= t.take(hi - lo));
    r
}

/// The index of the first line that is not blank, if any.
fn first_nonblank_index(lines: &Vec<Vec<char>>) -> (r: Option<usize>)
    ensures
        match r {
            Some(k) => k < lines@.len() && first_nonblank(lines.deep_view()) == Some(lines@[k as int]@),
            None => first_nonblank(lines.deep_view()) is None,
        },
{
    let ghost ls = lines.deep_view();
    let mut i: usize = 0;
    assert(ls.skip(0) =~= ls);
    while i < lines.len()
        invariant
            i <= lines@.len(),
            lines.deep_view() == ls,
            first_nonblank(ls) == first_nonblank(ls.skip(i as int)),
        decreases lines@.len() - i,
    {
        let line = &lines[i];
        assert(ls[i as int] == line@);
        assert(ls.skip(i as int).drop_first() =~= ls.skip(i + 1));
        assert(ls.skip(i as int)[0] == line@);
        let (lo, hi) = trim_bounds(line.as_slice());
        if hi > lo {
            return Some(i);
        }
        i = i + 1;
    }
    assert(ls.skip(i as int) =~= Seq::<Seq<char>>::empty());
    None
}

/// A model's title answer cleaned up; empty when there is no title in it.
pub fn clean_title(raw: &str) -> (r: String)
    ensures
        r@ == spec_clean_title(raw@),
{
    let cs = chars_of(raw);
    let lines = split_chars(cs.as_slice(), '\n');
    let chosen = match first_nonblank_index(&lines) {
        Some(k) => lines[k].clone(),
        None => cs,
    };
    let stripped = strip_marks(chosen.as_slice());
    string_of(stripped.as_slice())
}

// ------------------------------------------------------------------ continuing an answer

/// How far back a continuation quotes the answer it continues, in characters.
pub const TAIL_CHARS: usize = 200;

/// The anchor a continuation quotes: the last [`TAIL_CHARS`] characters of the trimmed answer,
/// trimmed again.
pub open spec fn spec_continuation_tail(content: Seq<char>) -> Seq<char> {
    let t = trim(content);
    if t.len() <= TAIL_CHARS {
        trim(t)
    } else {
        trim(t.skip(t.len() - TAIL_CHARS))
    }
}

/// The last words of an answer being continued.
pub fn continuation_tail(content: &str) -> (r: String)
    ensures
        r@ == spec_continuation_tail(content@),
{
    let t = trim_str(content);
    let n = t.unicode_len();
    let start: usize = if n <= TAIL_CHARS { 0 } else { n - TAIL_CHARS };
    let tail = t.substring_char(start, n);
    assert(start == 0 ==> tail@ =~= t@);
    assert(start > 0 ==> tail@ =~= t@.skip(n - TAIL_CHARS));
    trim_str(tail).to_string()
}

/// What the model is asked to continue with: plain, or quoting the words it stopped at.
pub open spec fn spec_continuation_hint(tail: Seq<char>) -> Seq<char> {
    if tail.len() == 0 {
        "Please continue your previous response."@
    } else {
        "Please continue your previous response. Your last words were: \""@ + tail
            + "\". Output only new content that naturally follows, without repeating anything already written."@
    }
}

/// What the model is asked to continue with.
pub fn continuation_hint(tail: &str) -> (r: String)
    ensures
        r@ == spec_continuation_hint(tail@),
{
    if tail.unicode_len() == 0 {
        "Please continue your previous response.".to_string()
    } else {
        let a = concat("Please continue your previous response. Your last words were: \"", tail);
        concat(
            a.as_str(),
            "\". Output only new content that naturally follows, without repeating anything already written.",
        )
    }
}

// ------------------------------------------------------------------ the messages sent

/// `s` with every occurrence of `pat` (not empty) removed, left to right (`str::replace` with
/// an empty replacement).
pub open spec fn remove_all(s: Seq<char>, pat: Seq<char>) -> Seq<char>
    decreases s.len(),
{
    let k = crate::text::find(s, pat);
    if pat.len() == 0 || k < 0 {
        s
    } else {
        proof {
            crate::text::lemma_find_range(s, pat, 0);
        }
        s.take(k) + remove_all(s.skip(k + pat.len()), pat)
    }
}

/// `s` with every occurrence of `pat` removed.
pub fn remove_all_chars(s: &[char], pat: &[char]) -> (r: Vec<char>)
    ensures
        r@ == remove_all(s@, pat@),
{
    if pat.len() == 0 {
        return slice_to_vec_range(s, 0, s.len());
    }
    let mut out: Vec<char> = Vec::new();
    let mut i: usize = 0;
    assert(s@.skip(0) =~= s@);
    while i <= s.len()
        invariant
            i <= s@.len(),
            pat@.len() > 0,
            remove_all(s@, pat@) == out@ + remove_all(s@.skip(i as int), pat@),
        decreases s@.len() - i,
    {
        let ghost rest = s@.skip(i as int);
        proof {
            crate::text::lemma_find_range(s@, pat@, i as int);
            crate::text::lemma_find_range(rest, pat@, 0);
        }
        match crate::text::find_at(s, pat, i) {
            None => {
                proof {
                    if crate::text::find(rest, pat@) >= 0 {
                        let k = crate::text::find(rest, pat@);
                        assert(rest.subrange(k, k + pat@.len()) =~= s@.subrange(i + k, i + k + pat@.len()));
                        assert(crate::text::occurs_at(s@, pat@, i + k));
                    }
                }
                let tail = slice_to_vec_range(s, i, s.len());
                let ghost before = out@;
                push_all(&mut out, tail.as_slice());
                assert(tail@ =~= rest);
                return out;
            },
            Some(k) => {
                let ghost kk = (k - i) as int;
                proof {
                    assert(crate::text::occurs_at(s@, pat@, k as int));
                    assert(rest.subrange(kk, kk + pat@.len()) =~= s@.subrange(k as int, k + pat@.len()));
                    assert(crate::text::occurs_at(rest, pat@, kk));
                    if crate::text::find(rest, pat@) != kk {
                        let f = crate::text::find(rest, pat@);
                        if 0 <= f < kk {
                            assert(rest.subrange(f, f + pat@.len()) =~= s@.subrange(i + f, i + f + pat@.len()));
                            assert(crate::text::occurs_at(s@, pat@, i + f));
                        }
                    }
                    assert(rest.skip(kk + pat@.len()) =~= s@.skip(k + pat@.len()));
                }
                let head = slice_to_vec_range(s, i, k);
                assert(head@ =~= rest.take(kk));
                push_all(&mut out, head.as_slice());
                i = k + pat.len();
            },
        }
    }
    out
}

/// Appends `tail` to `v`.
fn push_all(v: &mut Vec<char>, tail: &[char])
    ensures
        final(v)@ == old(v)@ + tail@,
{
    let mut i: usize = 0;
    while i < tail.len()
        invariant
            i <= tail@.len(),
            v@ == old(v)@ + tail@.take(i as int),
        decreases tail@.len() - i,
    {
        v.push(tail[i]);
        assert(tail@.take(i + 1) =~= tail@.take(i as int).push(tail@[i as int]));
        i = i + 1;
    }
    assert(tail@.take(i as int) =~= tail@);
}

/// A recorded call as read out of a stored record: its `id`, its function's `name` and
/// `arguments`, and its `thought_signature`, each where it is a string.
pub type RecordedCall = (Option<Seq<char>>, Option<Seq<char>>, Option<Seq<char>>, Option<Seq<char>>);

/// What a stored assistant message records under its `__tool_calls__` key, as
/// `serde_json::from_str` reads it: `None` where it is not such a record (not JSON, or no such
/// key); `Some(None)` where the value under the key is not an array; else each element read as a
/// [`RecordedCall`], in order.
pub uninterp spec fn recorded_call_list(content: Seq<char>) -> Option<Option<Seq<RecordedCall>>>;

/// The view of a call read out of a record.
pub open spec fn recorded_view(c: crate::providers::CallRecord) -> RecordedCall {
    (opt_string(c.id), opt_string(c.name), opt_string(c.arguments), opt_string(c.thought_signature))
}

/// `serde_json::from_str` of a stored message, then the value under its `__tool_calls__` key:
/// each element of an array read for `id`, `function.name`, `function.arguments` and
/// `thought_signature` as strings.
#[verifier::external_body]
fn tool_calls_of(content: &str) -> (r: Option<crate::providers::CallList>)
    ensures
        match r {
            None => recorded_call_list(content@) is None,
            Some(crate::providers::CallList::NotAList) => recorded_call_list(content@) == Some(None::<Seq<RecordedCall>>),
            Some(crate::providers::CallList::List(v)) => recorded_call_list(content@) == Some(
                Some(v@.map_values(|c: crate::providers::CallRecord| recorded_view(c))),
            ),
        },
{
    let v: serde_json::Value = serde_json::from_str(content).ok()?;
    let calls = v.get("__tool_calls__")?;
    Some(match calls.as_array() {
        Some(a) => crate::providers::CallList::List(a.iter().map(|tc| crate::providers::CallRecord {
            id: tc["id"].as_str().map(|s| s.to_string()),
            name: tc["function"]["name"].as_str().map(|s| s.to_string()),
            arguments: tc["function"]["arguments"].as_str().map(|s| s.to_string()),
            thought_signature: tc["thought_signature"].as_str().map(|s| s.to_string()),
        }).collect()),
        None => crate::providers::CallList::NotAList,
    })
}

/// The calls of a record as they are sent: a list of the recorded calls, or a value that is not
/// one.
pub open spec fn recorded_calls_view(rec: Option<Seq<RecordedCall>>) -> crate::providers::CallsView {
    match rec {
        None => crate::providers::CallsView::NotAList,
        Some(es) => crate::providers::CallsView::List(
            es.map_values(
                |e: RecordedCall|
                    crate::providers::CallView { id: e.0, name: e.1, arguments: e.2, thought_signature: e.3 },
            ),
        ),
    }
}

/// A message as the provider is sent it.
#[derive(Debug)]
pub enum ApiMessage {
    /// Plain text from the user or the assistant.
    Text { role: String, text: String },
    /// An assistant turn that called tools: the calls its record holds.
    ToolCalls { calls: crate::providers::CallList },
    /// A tool's result, for the call it answers.
    ToolResult { content: String, tool_call_id: Option<String> },
}

/// The view of a message as sent.
pub enum ApiView {
    Text(Seq<char>, Seq<char>),
    ToolCalls(crate::providers::CallsView),
    ToolResult(Seq<char>, Option<Seq<char>>),
}

/// The view of a message as sent.
pub open spec fn api_view(m: ApiMessage) -> ApiView {
    match m {
        ApiMessage::Text { role, text } => ApiView::Text(role@, text@),
        ApiMessage::ToolCalls { calls } => ApiView::ToolCalls(crate::providers::call_list_view(calls)),
        ApiMessage::ToolResult { content, tool_call_id } => ApiView::ToolResult(
            content@,
            match tool_call_id {
                Some(id) => Some(id@),
                None => None,
            },
        ),
    }
}

/// The keyed artifact blocks of a message's text.
pub open spec fn msg_blocks(content: Seq<char>) -> Seq<(Seq<char>, Seq<char>)> {
    crate::artifacts::keyed_blocks(crate::artifacts::blocks_from(content, 0))
}

/// Some block in the list has this key.
pub open spec fn has_key(blocks: Seq<(Seq<char>, Seq<char>)>, key: Seq<char>) -> bool {
    exists|b: int| 0 <= b < blocks.len() && #[trigger] blocks[b].0 == key
}

/// A later assistant message has a block under the same key.
pub open spec fn superseded(msgs: Seq<crate::db::Message>, i: int, key: Seq<char>) -> bool {
    exists|j: int|
        i < j < msgs.len() && #[trigger] msgs[j].role@ == "assistant"@ && has_key(
            msg_blocks(msgs[j].content@),
            key,
        )
}

/// A message's text with the blocks that a later message supersedes removed, block by block.
pub open spec fn strip_superseded(
    c: Seq<char>,
    blocks: Seq<(Seq<char>, Seq<char>)>,
    msgs: Seq<crate::db::Message>,
    i: int,
) -> Seq<char>
    decreases blocks.len(),
{
    if blocks.len() == 0 {
        c
    } else {
        let before = strip_superseded(c, blocks.drop_last(), msgs, i);
        if superseded(msgs, i, blocks.last().0) {
            remove_all(before, blocks.last().1)
        } else {
            before
        }
    }
}

/// What message `i` is sent as: a user's text as it is; an assistant's tool-calls record as its
/// calls, or its text without superseded artifact blocks, trimmed (and nothing when that is
/// empty); a tool's result with the call it answers. Other roles are not sent.
pub open spec fn api_view_of(msgs: Seq<crate::db::Message>, i: int) -> Option<ApiView> {
    let m = msgs[i];
    if m.role@ == "user"@ {
        Some(ApiView::Text("user"@, m.content@))
    } else if m.role@ == "assistant"@ {
        if recorded_call_list(m.content@) is Some {
            Some(ApiView::ToolCalls(recorded_calls_view(recorded_call_list(m.content@).unwrap())))
        } else {
            let t = trim(strip_superseded(m.content@, msg_blocks(m.content@), msgs, i));
            if t.len() == 0 {
                None
            } else {
                Some(ApiView::Text("assistant"@, t))
            }
        }
    } else if m.role@ == "tool"@ {
        Some(
            ApiView::ToolResult(
                m.content@,
                match m.tool_call_id {
                    Some(id) => Some(id@),
                    None => None,
                },
            ),
        )
    } else {
        None
    }
}

/// What the first `n` messages are sent as, in order.
pub open spec fn api_views(msgs: Seq<crate::db::Message>, n: int) -> Seq<ApiView>
    decreases n,
{
    if n <= 0 {
        Seq::empty()
    } else {
        let before = api_views(msgs, n - 1);
        match api_view_of(msgs, n - 1) {
            Some(v) => before.push(v),
            None => before,
        }
    }
}

/// The views of the messages as sent.
pub open spec fn api_list_view(v: Seq<ApiMessage>) -> Seq<ApiView> {
    v.map_values(|m: ApiMessage| api_view(m))
}

fn blocks_have_key(blocks: &Vec<(String, String)>, key: &str) -> (r: bool)
    ensures
        r == has_key(crate::artifacts::string_pairs(blocks@), key@),
{
    let ghost bv = crate::artifacts::string_pairs(blocks@);
    let mut b: usize = 0;
    while b < blocks.len()
        invariant
            b <= blocks@.len(),
            bv == crate::artifacts::string_pairs(blocks@),
            forall|c: int| 0 <= c < b ==> #[trigger] bv[c].0 != key@,
        decreases blocks@.len() - b,
    {
        assert(bv[b as int].0 == blocks@[b as int].0@);
        if eq_str(blocks[b].0.as_str(), key) {
            return true;
        }
        b = b + 1;
    }
    proof {
        if has_key(bv, key@) {
            let c = choose|c: int| 0 <= c < bv.len() && #[trigger] bv[c].0 == key@;
            assert(bv[c].0 != key@);
        }
    }
    false
}

/// Whether a message after `i` in an assistant role has a block under `key`.
fn later_has_key(
    msgs: &Vec<crate::db::Message>,
    blocks: &Vec<Vec<(String, String)>>,
    i: usize,
    key: &str,
) -> (r: bool)
    requires
        i < msgs@.len(),
        blocks@.len() == msgs@.len(),
        forall|j: int|
            0 <= j < msgs@.len() ==> crate::artifacts::string_pairs(#[trigger] blocks@[j]@) == msg_blocks(
                msgs@[j].content@,
            ),
    ensures
        r == superseded(msgs@, i as int, key@),
{
    let n = msgs.len();
    assert(i < n);
    let mut j: usize = i + 1;
    while j < msgs.len()
        invariant
            i < j <= msgs@.len(),
            blocks@.len() == msgs@.len(),
            forall|j: int|
                0 <= j < msgs@.len() ==> crate::artifacts::string_pairs(#[trigger] blocks@[j]@)
                    == msg_blocks(msgs@[j].content@),
            forall|t: int|
                i < t < j && t < msgs@.len() ==> !(#[trigger] msgs@[t].role@ == "assistant"@ && has_key(
                    msg_blocks(msgs@[t].content@),
                    key@,
                )),
        decreases msgs@.len() - j,
    {
        if eq_str(msgs[j].role.as_str(), "assistant") && blocks_have_key(&blocks[j], key) {
            assert(msgs@[j as int].role@ == "assistant"@);
            return true;
        }
        j = j + 1;
    }
    proof {
        if superseded(msgs@, i as int, key@) {
            let t = choose|t: int|
                i < t < msgs@.len() && #[trigger] msgs@[t].role@ == "assistant"@ && has_key(
                    msg_blocks(msgs@[t].content@),
                    key@,
                );
            assert(!(msgs@[t].role@ == "assistant"@ && has_key(msg_blocks(msgs@[t].content@), key@)));
        }
    }
    false
}

/// The messages as the provider is sent them, from the stored ones: tool-call records and
/// tool results paired back up, and each artifact block kept only in the latest assistant message
/// that carries its key.
pub fn build_api_messages(msgs: &Vec<crate::db::Message>) -> (r: Vec<ApiMessage>)
    ensures
        api_list_view(r@) == api_views(msgs@, msgs@.len() as int),
{
    let mut blocks: Vec<Vec<(String, String)>> = Vec::new();
    let mut b: usize = 0;
    while b < msgs.len()
        invariant
            b <= msgs@.len(),
            blocks@.len() == b,
            forall|j: int|
                0 <= j < b ==> crate::artifacts::string_pairs(#[trigger] blocks@[j]@) == msg_blocks(
                    msgs@[j].content@,
                ),
        decreases msgs@.len() - b,
    {
        blocks.push(crate::artifacts::extract_artifact_identifiers(msgs[b].content.as_str()));
        b = b + 1;
    }
    let mut out: Vec<ApiMessage> = Vec::new();
    let mut i: usize = 0;
    assert(api_list_view(out@) =~= api_views(msgs@, 0));
    while i < msgs.len()
        invariant
            i <= msgs@.len(),
            blocks@.len() == msgs@.len(),
            forall|j: int|
                0 <= j < msgs@.len() ==> crate::artifacts::string_pairs(#[trigger] blocks@[j]@)
                    == msg_blocks(msgs@[j].content@),
            api_list_view(out@) == api_views(msgs@, i as int),
        decreases msgs@.len() - i,
    {
        let m = &msgs[i];
        let ghost before = api_list_view(out@);
        if eq_str(m.role.as_str(), "user") {
            out.push(ApiMessage::Text { role: "user".to_string(), text: m.content.clone() });
            assert(api_list_view(out@) =~= before.push(ApiView::Text("user"@, m.content@)));
        } else if eq_str(m.role.as_str(), "assistant") {
            match tool_calls_of(m.content.as_str()) {
                Some(calls) => {
                    let ghost cv = crate::providers::call_list_view(calls);
                    proof {
                        if calls is List {
                            let v = calls->List_0;
                            let es = v@.map_values(|c: crate::providers::CallRecord| recorded_view(c));
                            assert(v@.map_values(|c: crate::providers::CallRecord| crate::providers::call_view(c)) =~= es.map_values(
                                |e: RecordedCall|
                                    crate::providers::CallView { id: e.0, name: e.1, arguments: e.2, thought_signature: e.3 },
                            ));
                        }
                        assert(cv == recorded_calls_view(recorded_call_list(m.content@).unwrap()));
                    }
                    out.push(ApiMessage::ToolCalls { calls });
                    assert(api_list_view(out@) =~= before.push(ApiView::ToolCalls(cv)));
                },
                None => {
                    let own = &blocks[i];
                    let ghost ov = crate::artifacts::string_pairs(own@);
                    let mut c = chars_of(m.content.as_str());
                    let mut k: usize = 0;
                    assert(ov.take(0) =~= Seq::<(Seq<char>, Seq<char>)>::empty());
                    while k < own.len()
                        invariant
                            i < msgs@.len(),
                            k <= own@.len(),
                            ov == crate::artifacts::string_pairs(own@),
                            ov == msg_blocks(m.content@),
                            blocks@.len() == msgs@.len(),
                            forall|j: int|
                                0 <= j < msgs@.len() ==> crate::artifacts::string_pairs(
                                    #[trigger] blocks@[j]@,
                                ) == msg_blocks(msgs@[j].content@),
                            c@ == strip_superseded(m.content@, ov.take(k as int), msgs@, i as int),
                        decreases own@.len() - k,
                    {
                        assert(ov[k as int] == (own@[k as int].0@, own@[k as int].1@));
                        assert(ov.take(k + 1).drop_last() =~= ov.take(k as int));
                        if later_has_key(msgs, &blocks, i, own[k].0.as_str()) {
                            let pat = chars_of(own[k].1.as_str());
                            c = remove_all_chars(c.as_slice(), pat.as_slice());
                        }
                        k = k + 1;
                    }
                    assert(ov.take(k as int) =~= ov);
                    let (lo, hi) = trim_bounds(c.as_slice());
                    if hi > lo {
                        let t = slice_to_vec_range(c.as_slice(), lo, hi);
                        let text = string_of(t.as_slice());
                        out.push(ApiMessage::Text { role: "assistant".to_string(), text });
                        assert(api_list_view(out@) =~= before.push(ApiView::Text("assistant"@, text@)));
                    }
                },
            }
        } else if eq_str(m.role.as_str(), "tool") {
            let id = match &m.tool_call_id {
                Some(t) => Some(t.clone()),
                None => None,
            };
            let ghost idv = crate::text::opt_string(id);
            out.push(ApiMessage::ToolResult { content: m.content.clone(), tool_call_id: id });
            assert(api_list_view(out@) =~= before.push(ApiView::ToolResult(m.content@, idv)));
        }
        i = i + 1;
    }
    out
}

/// The system prompt with the conversation's identified artifacts listed after it, so a model
/// that edits one reuses its identifier and title.
pub open spec fn spec_artifacts_prompt(system: Seq<char>, active: Seq<(Seq<char>, Seq<char>)>) -> Seq<
    char,
> {
    if active.len() == 0 {
        system
    } else {
        system + "\n\nACTIVE ARTIFACTS IN THIS CONVERSATION \u{2014} when modifying any of these, use the EXACT same identifier and title:\n"@
            + artifact_lines(active)
    }
}

/// One `  - title="..." identifier="..."` line per artifact.
pub open spec fn artifact_lines(active: Seq<(Seq<char>, Seq<char>)>) -> Seq<char>
    decreases active.len(),
{
    if active.len() == 0 {
        Seq::empty()
    } else if active.len() == 1 {
        artifact_line(active[0])
    } else {
        artifact_lines(active.drop_last()) + "\n"@ + artifact_line(active.last())
    }
}

/// The line listing one artifact.
pub open spec fn artifact_line(a: (Seq<char>, Seq<char>)) -> Seq<char> {
    "  - title=\""@ + a.0 + "\" identifier=\""@ + a.1 + "\""@
}

/// The system prompt for one pass of the tool loop, listing the conversation's artifacts.
pub fn artifacts_prompt(system: &str, active: &Vec<(String, String)>) -> (r: String)
    ensures
        r@ == spec_artifacts_prompt(system@, crate::artifacts::string_pairs(active@)),
{
    let ghost av = crate::artifacts::string_pairs(active@);
    if active.len() == 0 {
        return system.to_string();
    }
    let mut lines = String::new();
    let mut i: usize = 0;
    while i < active.len()
        invariant
            i <= active@.len(),
            av == crate::artifacts::string_pairs(active@),
            lines@ == artifact_lines(av.take(i as int)),
        decreases active@.len() - i,
    {
        assert(av[i as int] == (active@[i as int].0@, active@[i as int].1@));
        assert(av.take(i + 1).drop_last() =~= av.take(i as int));
        let mut line = concat("  - title=\"", active[i].0.as_str());
        line = concat(line.as_str(), "\" identifier=\"");
        line = concat(line.as_str(), active[i].1.as_str());
        line = concat(line.as_str(), "\"");
        if i == 0 {
            assert(av.take(1) =~= seq![av[0]]);
            lines = line;
        } else {
            lines = concat(lines.as_str(), "\n");
            lines = concat(lines.as_str(), line.as_str());
        }
        i = i + 1;
    }
    assert(av.take(i as int) =~= av);
    let head = concat(
        system,
        "\n\nACTIVE ARTIFACTS IN THIS CONVERSATION \u{2014} when modifying any of these, use the EXACT same identifier and title:\n",
    );
    concat(head.as_str(), lines.as_str())
}

} // verus!
