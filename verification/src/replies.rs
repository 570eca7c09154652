//! What Anthropic and Gemini stream back, folded into an answer, and how their requests ask for
//! reasoning. The shell reads the event stream and hands each event over as plain values; what
//! each event adds to the answer, and what the window is shown, is decided here.
use vstd::prelude::*;
use serde_json::Value;
use vstd::string::*;

use crate::text::{concat, eq_str, opt_str, opt_string, decimal, decimal_string};

verus! {

broadcast use vstd::string::group_string_axioms;

/// What the window is shown while an answer streams in.
#[derive(Debug, Clone, PartialEq, Eq)]
pub enum Shown {
    /// Answer text.
    Token(String),
    /// Reasoning text.
    Thinking(String),
    /// A reasoning block ended.
    ThinkingEnd,
}

/// The view of what the window is shown.
pub enum ShownView {
    Token(Seq<char>),
    Thinking(Seq<char>),
    ThinkingEnd,
}

pub open spec fn shown_view(s: Shown) -> ShownView {
    match s {
        Shown::Token(t) => ShownView::Token(t@),
        Shown::Thinking(t) => ShownView::Thinking(t@),
        Shown::ThinkingEnd => ShownView::ThinkingEnd,
    }
}

/// A tool call a streamed answer made: its id, its name, its arguments as JSON text, and the
/// thought signature Gemini asks to have back.
#[derive(Debug, Clone)]
pub struct ReplyCall {
    pub id: String,
    pub name: String,
    pub arguments: String,
    pub thought_signature: Option<String>,
}

/// The view of a call.
pub open spec fn reply_call_view(c: ReplyCall) -> (Seq<char>, Seq<char>, Seq<char>, Option<Seq<char>>) {
    (c.id@, c.name@, c.arguments@, opt_string(c.thought_signature))
}

// ------------------------------------------------------------------ Anthropic

/// Anthropic thinks when a reasoning effort other than `off` is asked for.
pub open spec fn spec_anthropic_thinking(effort: Option<Seq<char>>) -> bool {
    match effort {
        Some(e) => e != "off"@,
        None => false,
    }
}

/// Whether Anthropic is asked to think: some reasoning effort other than `off` was chosen.
pub fn anthropic_thinking(effort: Option<&str>) -> (r: bool)
    ensures
        r == spec_anthropic_thinking(opt_str(effort)),
{
    match effort {
        Some(e) => !eq_str(e, "off"),
        None => false,
    }
}

/// The token budgets of an Anthropic request: the answer's cap, and the thinking budget where it
/// thinks (the cap then grows to leave room for it).
pub fn anthropic_budgets(thinking: bool) -> (r: (u32, Option<u32>))
    ensures
        r == if thinking { (16000u32, Some(10000u32)) } else { (8192u32, None::<u32>) },
{
    if thinking {
        (16000, Some(10000))
    } else {
        (8192, None)
    }
}

/// An event of Anthropic's stream, as the fold reads it.
#[derive(Debug)]
pub enum AnthropicEvent {
    /// `content_block_start`: the block's type, and a tool block's id and name.
    BlockStart { kind: Option<String>, id: Option<String>, name: Option<String> },
    /// A `text_delta` with its text.
    Text(String),
    /// An `input_json_delta` with its partial JSON.
    InputJson(String),
    /// A `thinking_delta` with its text.
    Thinking(String),
    /// `content_block_stop`.
    BlockStop,
    /// Any other event, or a delta without its text.
    Other,
}

/// The view of an Anthropic event.
pub enum AEventView {
    BlockStart(Option<Seq<char>>, Option<Seq<char>>, Option<Seq<char>>),
    Text(Seq<char>),
    InputJson(Seq<char>),
    Thinking(Seq<char>),
    BlockStop,
    Other,
}

pub open spec fn a_event_view(e: AnthropicEvent) -> AEventView {
    match e {
        AnthropicEvent::BlockStart { kind, id, name } => AEventView::BlockStart(opt_string(kind), opt_string(id), opt_string(name)),
        AnthropicEvent::Text(t) => AEventView::Text(t@),
        AnthropicEvent::InputJson(t) => AEventView::InputJson(t@),
        AnthropicEvent::Thinking(t) => AEventView::Thinking(t@),
        AnthropicEvent::BlockStop => AEventView::BlockStop,
        AnthropicEvent::Other => AEventView::Other,
    }
}

/// An Anthropic answer as it streams in.
#[derive(Debug)]
pub struct AnthropicReply {
    pub content: String,
    pub tool_id: String,
    pub tool_name: String,
    pub tool_args: String,
    pub in_tool_use: bool,
    pub thinking_now: String,
    pub in_thinking: bool,
    pub thinking: String,
    pub calls: Vec<ReplyCall>,
}

/// The view of an answer streaming in.
pub struct AReplyView {
    pub content: Seq<char>,
    pub tool_id: Seq<char>,
    pub tool_name: Seq<char>,
    pub tool_args: Seq<char>,
    pub in_tool_use: bool,
    pub thinking_now: Seq<char>,
    pub in_thinking: bool,
    pub thinking: Seq<char>,
    pub calls: Seq<(Seq<char>, Seq<char>, Seq<char>, Option<Seq<char>>)>,
}

pub open spec fn a_reply_view(r: AnthropicReply) -> AReplyView {
    AReplyView {
        content: r.content@,
        tool_id: r.tool_id@,
        tool_name: r.tool_name@,
        tool_args: r.tool_args@,
        in_tool_use: r.in_tool_use,
        thinking_now: r.thinking_now@,
        in_thinking: r.in_thinking,
        thinking: r.thinking@,
        calls: r.calls@.map_values(|c: ReplyCall| reply_call_view(c)),
    }
}

/// The text of an optional field, empty where it is absent.
pub open spec fn text_or_empty(o: Option<Seq<char>>) -> Seq<char> {
    match o {
        Some(t) => t,
        None => Seq::empty(),
    }
}

/// What one event does to an Anthropic answer, and what the window is shown: a tool block starts
/// a call (its arguments empty so far); a thinking block starts fresh reasoning; text is answer;
/// partial JSON is the current call's arguments; reasoning text is the current block's; a block's
/// end finishes the call (arguments that do not parse become `{}`) and the reasoning block, whose
/// text becomes the answer's reasoning.
pub open spec fn spec_a_feed(s: AReplyView, e: AEventView) -> (AReplyView, Option<ShownView>) {
    match e {
        AEventView::BlockStart(kind, id, name) => {
            let s1 = if kind == Some("tool_use"@) {
                AReplyView {
                    in_tool_use: true,
                    tool_id: text_or_empty(id),
                    tool_name: text_or_empty(name),
                    tool_args: Seq::empty(),
                    ..s
                }
            } else {
                s
            };
            let s2 = if kind == Some("thinking"@) {
                AReplyView { in_thinking: true, thinking_now: Seq::empty(), ..s1 }
            } else {
                s1
            };
            (s2, None)
        },
        AEventView::Text(t) => (AReplyView { content: s.content + t, ..s }, Some(ShownView::Token(t))),
        AEventView::InputJson(t) => (AReplyView { tool_args: s.tool_args + t, ..s }, None),
        AEventView::Thinking(t) => (AReplyView { thinking_now: s.thinking_now + t, ..s }, Some(ShownView::Thinking(t))),
        AEventView::BlockStop => {
            let s1 = if s.in_tool_use {
                AReplyView {
                    calls: s.calls.push((s.tool_id, s.tool_name, crate::providers::call_input(Some(s.tool_args)), None)),
                    in_tool_use: false,
                    ..s
                }
            } else {
                s
            };
            if s.in_thinking {
                (AReplyView { thinking: s.thinking_now, thinking_now: Seq::empty(), in_thinking: false, ..s1 }, Some(ShownView::ThinkingEnd))
            } else {
                (s1, None)
            }
        },
        AEventView::Other => (s, None),
    }
}

/// A fresh answer.
pub open spec fn a_initial() -> AReplyView {
    AReplyView {
        content: Seq::empty(),
        tool_id: Seq::empty(),
        tool_name: Seq::empty(),
        tool_args: Seq::empty(),
        in_tool_use: false,
        thinking_now: Seq::empty(),
        in_thinking: false,
        thinking: Seq::empty(),
        calls: Seq::empty(),
    }
}

/// An answer after a stream of events.
pub open spec fn a_run(es: Seq<AEventView>) -> AReplyView
    decreases es.len(),
{
    if es.len() == 0 {
        a_initial()
    } else {
        spec_a_feed(a_run(es.drop_last()), es.last()).0
    }
}

/// The answer text of a stream of events: its text deltas, in order.
pub open spec fn a_texts(es: Seq<AEventView>) -> Seq<char>
    decreases es.len(),
{
    if es.len() == 0 {
        Seq::empty()
    } else {
        a_texts(es.drop_last()) + match es.last() {
            AEventView::Text(t) => t,
            _ => Seq::empty(),
        }
    }
}

/// An Anthropic answer's text is its text deltas, in order: reasoning and tool arguments never
/// leak into it.
pub proof fn lemma_anthropic_content_is_its_text(es: Seq<AEventView>)
    ensures
        a_run(es).content == a_texts(es),
    decreases es.len(),
{
    if es.len() > 0 {
        lemma_anthropic_content_is_its_text(es.drop_last());
    }
}

fn opt_or_empty(o: &Option<String>) -> (r: String)
    ensures
        r@ == text_or_empty(opt_string(*o)),
{
    match o {
        Some(t) => t.clone(),
        None => String::new(),
    }
}

impl AnthropicReply {
    /// A fresh answer.
    pub fn new() -> (r: AnthropicReply)
        ensures
            a_reply_view(r) == a_initial(),
    {
        let r = AnthropicReply {
            content: String::new(),
            tool_id: String::new(),
            tool_name: String::new(),
            tool_args: String::new(),
            in_tool_use: false,
            thinking_now: String::new(),
            in_thinking: false,
            thinking: String::new(),
            calls: Vec::new(),
        };
        assert(a_reply_view(r).calls =~= Seq::<(Seq<char>, Seq<char>, Seq<char>, Option<Seq<char>>)>::empty());
        r
    }

    /// Fold one event into the answer; what the window is shown, if anything.
    pub fn feed(&mut self, e: AnthropicEvent) -> (shown: Option<Shown>)
        ensures
            a_reply_view(*final(self)) == spec_a_feed(a_reply_view(*old(self)), a_event_view(e)).0,
            match shown {
                Some(s) => spec_a_feed(a_reply_view(*old(self)), a_event_view(e)).1 == Some(shown_view(s)),
                None => spec_a_feed(a_reply_view(*old(self)), a_event_view(e)).1 is None,
            },
    {
        proof {
            reveal_strlit("tool_use");
            reveal_strlit("thinking");
        }
        let ghost before = a_reply_view(*self);
        match e {
            AnthropicEvent::BlockStart { kind, id, name } => {
                let is_tool = match &kind {
                    Some(k) => eq_str(k.as_str(), "tool_use"),
                    None => false,
                };
                let is_thinking = match &kind {
                    Some(k) => eq_str(k.as_str(), "thinking"),
                    None => false,
                };
                if is_tool {
                    self.in_tool_use = true;
                    self.tool_id = opt_or_empty(&id);
                    self.tool_name = opt_or_empty(&name);
                    self.tool_args = String::new();
                }
                if is_thinking {
                    self.in_thinking = true;
                    self.thinking_now = String::new();
                }
                proof {
                    assert(a_reply_view(*self).calls =~= before.calls);
                }
                None
            },
            AnthropicEvent::Text(t) => {
                self.content = concat(self.content.as_str(), t.as_str());
                proof {
                    assert(a_reply_view(*self).calls =~= before.calls);
                }
                Some(Shown::Token(t))
            },
            AnthropicEvent::InputJson(t) => {
                self.tool_args = concat(self.tool_args.as_str(), t.as_str());
                proof {
                    assert(a_reply_view(*self).calls =~= before.calls);
                }
                None
            },
            AnthropicEvent::Thinking(t) => {
                self.thinking_now = concat(self.thinking_now.as_str(), t.as_str());
                proof {
                    assert(a_reply_view(*self).calls =~= before.calls);
                }
                Some(Shown::Thinking(t))
            },
            AnthropicEvent::BlockStop => {
                if self.in_tool_use {
                    let arguments = if crate::providers::parses_as_json(self.tool_args.as_str()) {
                        self.tool_args.clone()
                    } else {
                        "{}".to_string()
                    };
                    let call = ReplyCall {
                        id: self.tool_id.clone(),
                        name: self.tool_name.clone(),
                        arguments,
                        thought_signature: None,
                    };
                    let ghost cv = reply_call_view(call);
                    self.calls.push(call);
                    self.in_tool_use = false;
                    proof {
                        assert(a_reply_view(*self).calls =~= before.calls.push(cv));
                    }
                }
                let ghost mid = a_reply_view(*self);
                if self.in_thinking {
                    self.thinking = self.thinking_now.clone();
                    self.thinking_now = String::new();
                    self.in_thinking = false;
                    proof {
                        assert(a_reply_view(*self).calls =~= mid.calls);
                    }
                    Some(Shown::ThinkingEnd)
                } else {
                    None
                }
            },
            AnthropicEvent::Other => None,
        }
    }
}

/// A streamed answer as it is kept: its text, its calls, and its reasoning (`None` where there
/// is none).
#[derive(Debug)]
pub struct Answer {
    pub content: String,
    pub calls: Vec<ReplyCall>,
    pub thinking: Option<String>,
}

/// An Anthropic answer once the stream has ended: the reasoning of its last finished reasoning
/// block, `None` where that is empty.
pub fn finish_anthropic(r: AnthropicReply) -> (a: Answer)
    ensures
        a.content@ == r.content@,
        a.calls@ == r.calls@,
        opt_string(a.thinking) == if r.thinking@.len() == 0 { None } else { Some(r.thinking@) },
{
    let thinking = if r.thinking.unicode_len() == 0 { None } else { Some(r.thinking) };
    Answer { content: r.content, calls: r.calls, thinking }
}

// ------------------------------------------------------------------ Gemini

/// Gemini's thinking budget for a reasoning effort: graded by effort, none for any other.
pub open spec fn spec_gemini_budget(effort: Seq<char>) -> i64 {
    if effort == "low"@ {
        1024
    } else if effort == "medium"@ {
        8192
    } else if effort == "high"@ {
        24576
    } else {
        0
    }
}

/// Gemini's thinking configuration where a reasoning effort is chosen: the budget, and whether
/// thoughts are sent back (only with a budget).
pub fn gemini_thinking(effort: Option<&str>) -> (r: Option<(i64, bool)>)
    ensures
        match opt_str(effort) {
            Some(e) => r == Some((spec_gemini_budget(e), spec_gemini_budget(e) > 0)),
            None => r is None,
        },
{
    match effort {
        None => None,
        Some(e) => {
            let budget: i64 = if eq_str(e, "low") {
                1024
            } else if eq_str(e, "medium") {
                8192
            } else if eq_str(e, "high") {
                24576
            } else {
                0
            };
            Some((budget, budget > 0))
        },
    }
}

/// A part of a streamed Gemini chunk, as the fold reads it: whether it is a thought, its text,
/// and its function call (the name, the arguments as JSON text) with the part's thought
/// signature.
#[derive(Debug)]
pub struct GeminiReplyPart {
    pub thought: bool,
    pub text: Option<String>,
    pub function_call: Option<(Option<String>, String)>,
    pub thought_signature: Option<String>,
}

/// The view of a streamed part.
pub struct GPartIn {
    pub thought: bool,
    pub text: Option<Seq<char>>,
    pub function_call: Option<(Option<Seq<char>>, Seq<char>)>,
    pub thought_signature: Option<Seq<char>>,
}

pub open spec fn g_part_in(p: GeminiReplyPart) -> GPartIn {
    GPartIn {
        thought: p.thought,
        text: opt_string(p.text),
        function_call: match p.function_call {
            Some((n, a)) => Some((opt_string(n), a@)),
            None => None,
        },
        thought_signature: opt_string(p.thought_signature),
    }
}

/// A Gemini answer as it streams in.
#[derive(Debug)]
pub struct GeminiReply {
    pub content: String,
    pub thinking: String,
    pub calls: Vec<ReplyCall>,
}

/// The view of a Gemini answer streaming in.
pub struct GReplyView {
    pub content: Seq<char>,
    pub thinking: Seq<char>,
    pub calls: Seq<(Seq<char>, Seq<char>, Seq<char>, Option<Seq<char>>)>,
}

pub open spec fn g_reply_view(r: GeminiReply) -> GReplyView {
    GReplyView {
        content: r.content@,
        thinking: r.thinking@,
        calls: r.calls@.map_values(|c: ReplyCall| reply_call_view(c)),
    }
}

/// The id a Gemini call is given: `gemini-`, its name, `-`, and how many calls came before it.
pub open spec fn gemini_call_id(name: Seq<char>, index: nat) -> Seq<char> {
    "gemini-"@ + name + "-"@ + decimal(index)
}

/// What one part does to a Gemini answer, and what the window is shown: a thought's text is
/// reasoning (a thought without text adds nothing); other text is answer; else a function call
/// is a call, named (empty where unnamed) and numbered in order.
pub open spec fn spec_g_feed(s: GReplyView, p: GPartIn) -> (GReplyView, Option<ShownView>) {
    if p.thought {
        match p.text {
            Some(t) => (GReplyView { thinking: s.thinking + t, ..s }, Some(ShownView::Thinking(t))),
            None => (s, None),
        }
    } else {
        match p.text {
            Some(t) => (GReplyView { content: s.content + t, ..s }, Some(ShownView::Token(t))),
            None => match p.function_call {
                Some((n, args)) => {
                    let name = text_or_empty(n);
                    (
                        GReplyView {
                            calls: s.calls.push((gemini_call_id(name, s.calls.len()), name, args, p.thought_signature)),
                            ..s
                        },
                        None,
                    )
                },
                None => (s, None),
            },
        }
    }
}

/// A Gemini answer after a stream of parts.
pub open spec fn g_run(ps: Seq<GPartIn>) -> GReplyView
    decreases ps.len(),
{
    if ps.len() == 0 {
        GReplyView { content: Seq::empty(), thinking: Seq::empty(), calls: Seq::empty() }
    } else {
        spec_g_feed(g_run(ps.drop_last()), ps.last()).0
    }
}

/// Every call of a Gemini answer is numbered by its place: the call at position `i` has the id
/// `gemini-<name>-<i>`, so no two calls share an id.
pub proof fn lemma_gemini_calls_numbered_in_order(ps: Seq<GPartIn>)
    ensures
        forall|i: int|
            0 <= i < g_run(ps).calls.len() ==> (#[trigger] g_run(ps).calls[i]).0 == gemini_call_id(
                g_run(ps).calls[i].1,
                i as nat,
            ),
    decreases ps.len(),
{
    if ps.len() > 0 {
        let prev = g_run(ps.drop_last());
        lemma_gemini_calls_numbered_in_order(ps.drop_last());
        let now = g_run(ps);
        assert(now == spec_g_feed(prev, ps.last()).0);
        assert(now.calls == prev.calls || (now.calls.len() == prev.calls.len() + 1 && now.calls.drop_last() == prev.calls
            && now.calls.last().0 == gemini_call_id(now.calls.last().1, prev.calls.len())));
        assert forall|i: int| 0 <= i < now.calls.len() implies (#[trigger] now.calls[i]).0 == gemini_call_id(
            now.calls[i].1,
            i as nat,
        ) by {
            if i < prev.calls.len() {
                assert(now.calls[i] == prev.calls[i]);
            }
        }
    }
}

impl GeminiReply {
    /// A fresh answer.
    pub fn new() -> (r: GeminiReply)
        ensures
            g_reply_view(r) == (GReplyView { content: Seq::empty(), thinking: Seq::empty(), calls: Seq::empty() }),
    {
        let r = GeminiReply { content: String::new(), thinking: String::new(), calls: Vec::new() };
        assert(g_reply_view(r).calls =~= Seq::<(Seq<char>, Seq<char>, Seq<char>, Option<Seq<char>>)>::empty());
        r
    }

    /// Fold one part into the answer; what the window is shown, if anything.
    pub fn feed(&mut self, p: GeminiReplyPart) -> (shown: Option<Shown>)
        requires
            old(self).calls@.len() < u64::MAX,
        ensures
            g_reply_view(*final(self)) == spec_g_feed(g_reply_view(*old(self)), g_part_in(p)).0,
            match shown {
                Some(s) => spec_g_feed(g_reply_view(*old(self)), g_part_in(p)).1 == Some(shown_view(s)),
                None => spec_g_feed(g_reply_view(*old(self)), g_part_in(p)).1 is None,
            },
    {
        let ghost before = g_reply_view(*self);
        let GeminiReplyPart { thought, text, function_call, thought_signature } = p;
        if thought {
            match text {
                Some(t) => {
                    self.thinking = concat(self.thinking.as_str(), t.as_str());
                    proof {
                        assert(g_reply_view(*self).calls =~= before.calls);
                    }
                    Some(Shown::Thinking(t))
                },
                None => None,
            }
        } else {
            match text {
                Some(t) => {
                    self.content = concat(self.content.as_str(), t.as_str());
                    proof {
                        assert(g_reply_view(*self).calls =~= before.calls);
                    }
                    Some(Shown::Token(t))
                },
                None => match function_call {
                    Some((n, args)) => {
                        let name = opt_or_empty(&n);
                        let mut id = concat("gemini-", name.as_str());
                        id = concat(id.as_str(), "-");
                        id = concat(id.as_str(), decimal_string(self.calls.len() as u64).as_str());
                        let ghost name_v = name@;
                        let call = ReplyCall { id, name, arguments: args, thought_signature };
                        let ghost cv = reply_call_view(call);
                        assert(cv.0 == gemini_call_id(name_v, before.calls.len()));
                        self.calls.push(call);
                        proof {
                            assert(g_reply_view(*self).calls =~= before.calls.push(cv));
                        }
                        None
                    },
                    None => None,
                },
            }
        }
    }
}

/// A Gemini answer once the stream has ended: its reasoning `None` where it is empty.
pub fn finish_gemini(r: GeminiReply) -> (a: Answer)
    ensures
        a.content@ == r.content@,
        a.calls@ == r.calls@,
        opt_string(a.thinking) == if r.thinking@.len() == 0 { None } else { Some(r.thinking@) },
{
    let thinking = if r.thinking.unicode_len() == 0 { None } else { Some(r.thinking) };
    Answer { content: r.content, calls: r.calls, thinking }
}

/// The error a Gemini stream reports in one of its events.
pub fn gemini_stream_error(message: Option<&str>) -> (r: String)
    ensures
        r@ == "Gemini stream error: "@ + match opt_str(message) {
            Some(m) => m,
            None => "unknown error"@,
        },
{
    match message {
        Some(m) => concat("Gemini stream error: ", m),
        None => concat("Gemini stream error: ", "unknown error"),
    }
}

// ------------------------------------------------------------------ reading the events

/// The fields of an Anthropic stream event that the fold reads: `type`; `content_block.type`,
/// `.id` and `.name`; `delta.type`, `.text`, `.partial_json` and `.thinking`; each where it is a
/// string.
#[derive(Debug)]
pub struct RawAnthropicEvent {
    pub kind: Option<String>,
    pub block_kind: Option<String>,
    pub block_id: Option<String>,
    pub block_name: Option<String>,
    pub delta_kind: Option<String>,
    pub text: Option<String>,
    pub partial_json: Option<String>,
    pub thinking: Option<String>,
}

/// The view of an event's fields, in the order of [`RawAnthropicEvent`].
pub type RawAEventView = (
    Option<Seq<char>>,
    Option<Seq<char>>,
    Option<Seq<char>>,
    Option<Seq<char>>,
    Option<Seq<char>>,
    Option<Seq<char>>,
    Option<Seq<char>>,
    Option<Seq<char>>,
);

pub open spec fn raw_a_event_view(e: RawAnthropicEvent) -> RawAEventView {
    (
        opt_string(e.kind),
        opt_string(e.block_kind),
        opt_string(e.block_id),
        opt_string(e.block_name),
        opt_string(e.delta_kind),
        opt_string(e.text),
        opt_string(e.partial_json),
        opt_string(e.thinking),
    )
}

/// The fields `serde_json::from_str` reads out of an Anthropic event's data; `None` where the
/// data is not JSON.
pub uninterp spec fn anthropic_event_fields(data: Seq<char>) -> Option<RawAEventView>;

/// `serde_json::from_str` of an Anthropic event's data, read for the fields the fold uses.
#[verifier::external_body]
fn read_anthropic_event(data: &str) -> (r: Option<RawAnthropicEvent>)
    ensures
        match r {
            Some(e) => anthropic_event_fields(data@) == Some(raw_a_event_view(e)),
            None => anthropic_event_fields(data@) is None,
        },
{
    let v: Value = serde_json::from_str(data).ok()?;
    let s = |x: &Value| x.as_str().map(String::from);
    let (b, d) = (&v["content_block"], &v["delta"]);
    Some(RawAnthropicEvent {
        kind: s(&v["type"]), block_kind: s(&b["type"]), block_id: s(&b["id"]), block_name: s(&b["name"]),
        delta_kind: s(&d["type"]), text: s(&d["text"]), partial_json: s(&d["partial_json"]), thinking: s(&d["thinking"]),
    })
}

/// The event an Anthropic event's fields make: a block's start with its type, id and name; a
/// text, partial-JSON or reasoning delta with its text; a block's end; anything else (a delta
/// without its text among them) counts for nothing.
pub open spec fn spec_anthropic_event(f: RawAEventView) -> AEventView {
    if f.0 == Some("content_block_start"@) {
        AEventView::BlockStart(f.1, f.2, f.3)
    } else if f.0 == Some("content_block_delta"@) {
        if f.4 == Some("text_delta"@) && f.5 is Some {
            AEventView::Text(f.5.unwrap())
        } else if f.4 == Some("input_json_delta"@) && f.6 is Some {
            AEventView::InputJson(f.6.unwrap())
        } else if f.4 == Some("thinking_delta"@) && f.7 is Some {
            AEventView::Thinking(f.7.unwrap())
        } else {
            AEventView::Other
        }
    } else if f.0 == Some("content_block_stop"@) {
        AEventView::BlockStop
    } else {
        AEventView::Other
    }
}

fn is_some_text(o: &Option<String>, t: &str) -> (r: bool)
    ensures
        r == (opt_string(*o) == Some(t@)),
{
    match o {
        Some(x) => eq_str(x.as_str(), t),
        None => false,
    }
}

/// The event in an Anthropic stream's data; data that is not JSON counts for nothing.
pub fn anthropic_event(data: &str) -> (r: AnthropicEvent)
    ensures
        a_event_view(r) == match anthropic_event_fields(data@) {
            Some(f) => spec_anthropic_event(f),
            None => AEventView::Other,
        },
{
    let e = match read_anthropic_event(data) {
        Some(e) => e,
        None => return AnthropicEvent::Other,
    };
    if is_some_text(&e.kind, "content_block_start") {
        AnthropicEvent::BlockStart { kind: e.block_kind, id: e.block_id, name: e.block_name }
    } else if is_some_text(&e.kind, "content_block_delta") {
        if is_some_text(&e.delta_kind, "text_delta") && e.text.is_some() {
            AnthropicEvent::Text(e.text.unwrap())
        } else if is_some_text(&e.delta_kind, "input_json_delta") && e.partial_json.is_some() {
            AnthropicEvent::InputJson(e.partial_json.unwrap())
        } else if is_some_text(&e.delta_kind, "thinking_delta") && e.thinking.is_some() {
            AnthropicEvent::Thinking(e.thinking.unwrap())
        } else {
            AnthropicEvent::Other
        }
    } else if is_some_text(&e.kind, "content_block_stop") {
        AnthropicEvent::BlockStop
    } else {
        AnthropicEvent::Other
    }
}

/// A part of a Gemini chunk as the API gives it: `thought`, `text`, the `functionCall`'s name and
/// its `args` as JSON text, and the part's `thoughtSignature`.
#[derive(Debug)]
pub struct RawGeminiPart {
    pub thought: Option<bool>,
    pub text: Option<String>,
    pub function_call: Option<(Option<String>, String)>,
    pub thought_signature: Option<String>,
}

/// The view of a raw part.
pub type RawGPartView = (Option<bool>, Option<Seq<char>>, Option<(Option<Seq<char>>, Seq<char>)>, Option<Seq<char>>);

pub open spec fn raw_g_part_view(p: RawGeminiPart) -> RawGPartView {
    (
        p.thought,
        opt_string(p.text),
        match p.function_call {
            Some((n, a)) => Some((opt_string(n), a@)),
            None => None,
        },
        opt_string(p.thought_signature),
    )
}

/// A Gemini chunk as the fold reads it: its `error` (with the error's `message` where it is a
/// string), else the parts of its first candidate's content.
#[derive(Debug)]
pub enum RawGeminiChunk {
    Error(Option<String>),
    Parts(Vec<RawGeminiPart>),
}

/// The view of a chunk: the error's message, or the parts.
pub type RawGChunkView = Result<Seq<RawGPartView>, Option<Seq<char>>>;

pub open spec fn raw_g_chunk_view(c: RawGeminiChunk) -> RawGChunkView {
    match c {
        RawGeminiChunk::Error(m) => Err(opt_string(m)),
        RawGeminiChunk::Parts(v) => Ok(v@.map_values(|p: RawGeminiPart| raw_g_part_view(p))),
    }
}

/// What `serde_json::from_str` reads out of a Gemini chunk's data: its `error`'s message, or the
/// parts under `candidates[0].content.parts` (none where that is not an array), each part's
/// function call present where the part has a `functionCall` key. `None` where the data is not
/// JSON.
pub uninterp spec fn gemini_chunk_fields(data: Seq<char>) -> Option<RawGChunkView>;

/// `serde_json::from_str` of a Gemini chunk's data, read for the fields the fold uses.
#[verifier::external_body]
fn read_gemini_chunk(data: &str) -> (r: Option<RawGeminiChunk>)
    ensures
        match r {
            Some(c) => gemini_chunk_fields(data@) == Some(raw_g_chunk_view(c)),
            None => gemini_chunk_fields(data@) is None,
        },
{
    let v: Value = serde_json::from_str(data).ok()?;
    let s = |x: &Value| x.as_str().map(String::from);
    if let Some(err) = v.get("error") {
        return Some(RawGeminiChunk::Error(s(&err["message"])));
    }
    let parts = v["candidates"][0]["content"]["parts"].as_array().into_iter().flatten();
    Some(RawGeminiChunk::Parts(parts.map(|p| RawGeminiPart {
        thought: p.get("thought").and_then(Value::as_bool),
        text: s(&p["text"]),
        function_call: p.get("functionCall").map(|fc| (s(&fc["name"]), fc["args"].to_string())),
        thought_signature: s(&p["thoughtSignature"]),
    }).collect()))
}

/// A part as the fold takes it: a part is a thought only where `thought` is `true`.
pub open spec fn part_of(p: RawGPartView) -> GPartIn {
    GPartIn {
        thought: p.0 == Some(true),
        text: p.1,
        function_call: p.2,
        thought_signature: p.3,
    }
}

/// The parts of a Gemini stream's data to fold in, or the stream's error: data that is not JSON
/// gives no parts; an `error` ends the stream with [`gemini_stream_error`]'s text.
pub fn gemini_parts(data: &str) -> (r: Result<Vec<GeminiReplyPart>, String>)
    ensures
        match gemini_chunk_fields(data@) {
            None => r matches Ok(v) && v@.len() == 0,
            Some(Err(m)) => r matches Err(e) && e@ == "Gemini stream error: "@ + match m {
                Some(t) => t,
                None => "unknown error"@,
            },
            Some(Ok(ps)) => r matches Ok(v) && v@.map_values(|p: GeminiReplyPart| g_part_in(p)) == ps.map_values(
                |p: RawGPartView| part_of(p),
            ),
        },
{
    let chunk = match read_gemini_chunk(data) {
        Some(c) => c,
        None => return Ok(Vec::new()),
    };
    match chunk {
        RawGeminiChunk::Error(m) => {
            let msg = match &m {
                Some(t) => Some(t.as_str()),
                None => None,
            };
            Err(gemini_stream_error(msg))
        },
        RawGeminiChunk::Parts(raw) => {
            let ghost rv = raw@.map_values(|p: RawGeminiPart| raw_g_part_view(p));
            let mut out: Vec<GeminiReplyPart> = Vec::new();
            let mut i: usize = 0;
            let mut rest = raw;
            let ghost all = rest@;
            let n = rest.len();
            assert(all.skip(0) =~= all);
            while rest.len() > 0
                invariant
                    all.len() == n,
                    i <= all.len(),
                    rest@ == all.skip(i as int),
                    rv == all.map_values(|p: RawGeminiPart| raw_g_part_view(p)),
                    out@.map_values(|p: GeminiReplyPart| g_part_in(p)) == rv.take(i as int).map_values(
                        |p: RawGPartView| part_of(p),
                    ),
                decreases rest@.len(),
            {
                let p = rest.remove(0);
                assert(rest@ =~= all.skip(i + 1));
                let ghost pv = raw_g_part_view(p);
                assert(pv == rv[i as int]);
                let RawGeminiPart { thought, text, function_call, thought_signature } = p;
                let t = match thought {
                    Some(b) => b,
                    None => false,
                };
                let ghost before = out@.map_values(|p: GeminiReplyPart| g_part_in(p));
                let part = GeminiReplyPart { thought: t, text, function_call, thought_signature };
                assert(g_part_in(part) == part_of(pv));
                out.push(part);
                assert(out@.map_values(|p: GeminiReplyPart| g_part_in(p)) =~= before.push(part_of(pv)));
                assert(rv.take(i + 1).map_values(|p: RawGPartView| part_of(p)) =~= rv.take(i as int).map_values(
                    |p: RawGPartView| part_of(p),
                ).push(part_of(rv[i as int])));
                i = i + 1;
            }
            assert(rv.take(i as int) =~= rv);
            Ok(out)
        },
    }
}

} // verus!
