//! The conversation as each provider's API is sent it.
//!
//! A message is kept in the OpenAI shape (a role, text or an array of content blocks, the call a
//! tool result answers, the calls an assistant turn made). Anthropic and Gemini are sent their own
//! shapes, built here; the shell turns those into JSON.
use vstd::prelude::*;
use vstd::string::*;

use crate::text::{chars_of, concat, find, slice_to_vec_range, starts_with, starts_with_chars, find_chars, string_of, eq_str};
use crate::google::or_text;

use crate::text::opt_string;
use crate::text::clone_opt;
verus! {

broadcast use vstd::string::group_string_axioms;

// ------------------------------------------------------------------ messages

/// A block of array content, as the conversion reads it: its `type`, its `text`, and the `url`
/// of its `image_url`, beside the block itself as JSON text.
#[derive(Debug)]
pub struct ContentBlock {
    pub kind: Option<String>,
    pub text: Option<String>,
    pub image_url: Option<String>,
    pub json: String,
}

/// A message's content: text, or an array of blocks.
#[derive(Debug)]
pub enum Content {
    Text(String),
    Blocks(Vec<ContentBlock>),
}

/// One recorded tool call, as the conversion reads it: its `id`, its function's `name` and
/// `arguments` (JSON text), and the thought signature Gemini asked to have back.
#[derive(Debug)]
pub struct CallRecord {
    pub id: Option<String>,
    pub name: Option<String>,
    pub arguments: Option<String>,
    pub thought_signature: Option<String>,
}

/// The calls an assistant turn made: a list, or a value that is not one.
#[derive(Debug)]
pub enum CallList {
    NotAList,
    List(Vec<CallRecord>),
}

/// A message of the conversation.
#[derive(Debug)]
pub struct ChatMessage {
    pub role: String,
    pub content: Content,
    pub tool_call_id: Option<String>,
    pub tool_calls: Option<CallList>,
}

impl ChatMessage {
    /// A message of plain text.
    pub fn text(role: &str, content: &str) -> (r: ChatMessage)
        ensures
            r.role@ == role@,
            r.content matches Content::Text(t) && t@ == content@,
            r.tool_call_id is None,
            r.tool_calls is None,
    {
        ChatMessage {
            role: role.to_string(),
            content: Content::Text(content.to_string()),
            tool_call_id: None,
            tool_calls: None,
        }
    }
}

/// What the conversion reads of a block.
pub struct BlockView {
    pub kind: Option<Seq<char>>,
    pub text: Option<Seq<char>>,
    pub image_url: Option<Seq<char>>,
    pub json: Seq<char>,
}

/// The view of a block.
pub open spec fn block_view(b: ContentBlock) -> BlockView {
    BlockView { kind: opt_string(b.kind), text: opt_string(b.text), image_url: opt_string(b.image_url), json: b.json@ }
}

/// The view of a message's content.
pub enum ContentView {
    Text(Seq<char>),
    Blocks(Seq<BlockView>),
}

/// The view of a message's content.
pub open spec fn content_view(c: Content) -> ContentView {
    match c {
        Content::Text(s) => ContentView::Text(s@),
        Content::Blocks(v) => ContentView::Blocks(v@.map_values(|b: ContentBlock| block_view(b))),
    }
}

/// The content as text: its text, or empty where it is an array.
pub open spec fn content_text(c: Content) -> Seq<char> {
    match c {
        Content::Text(s) => s@,
        Content::Blocks(_) => Seq::empty(),
    }
}

fn clone_content(c: &Content) -> (r: Content)
    ensures
        content_view(r) == content_view(*c),
{
    match c {
        Content::Text(s) => Content::Text(s.clone()),
        Content::Blocks(v) => {
            let mut out: Vec<ContentBlock> = Vec::new();
            let mut i: usize = 0;
            while i < v.len()
                invariant
                    i <= v@.len(),
                    out@.len() == i,
                    forall|k: int| 0 <= k < i ==> block_view(#[trigger] out@[k]) == block_view(v@[k]),
                decreases v@.len() - i,
            {
                let b = &v[i];
                out.push(
                    ContentBlock {
                        kind: clone_opt(&b.kind),
                        text: clone_opt(&b.text),
                        image_url: clone_opt(&b.image_url),
                        json: b.json.clone(),
                    },
                );
                i = i + 1;
            }
            proof {
                assert(out@.map_values(|b: ContentBlock| block_view(b)) =~= v@.map_values(
                    |b: ContentBlock| block_view(b),
                ));
            }
            Content::Blocks(out)
        },
    }
}

fn content_as_text(c: &Content) -> (r: String)
    ensures
        r@ == content_text(*c),
{
    match c {
        Content::Text(s) => s.clone(),
        Content::Blocks(_) => String::new(),
    }
}

// ------------------------------------------------------------------ shared pieces

/// The media type and Base64 data of a `data:` URL (`data:<type>;base64,<data>`), or `None`
/// where the URL is not one.
pub open spec fn data_url_parts(url: Seq<char>) -> Option<(Seq<char>, Seq<char>)> {
    if starts_with(url, "data:"@) {
        let rest = url.skip(5);
        let k = find(rest, ";base64,"@);
        if k >= 0 {
            Some((rest.take(k), rest.skip(k + 8)))
        } else {
            None
        }
    } else {
        None
    }
}

/// The media type and data of a `data:` URL.
pub fn data_url(url: &str) -> (r: Option<(String, String)>)
    ensures
        match r {
            Some((m, d)) => data_url_parts(url@) == Some((m@, d@)),
            None => data_url_parts(url@) is None,
        },
{
    proof {
        reveal_strlit("data:");
        reveal_strlit(";base64,");
    }
    let u = chars_of(url);
    let prefix = chars_of("data:");
    if !starts_with_chars(u.as_slice(), prefix.as_slice()) {
        return None;
    }
    let rest = slice_to_vec_range(u.as_slice(), 5, u.len());
    assert(rest@ =~= url@.skip(5));
    let marker = chars_of(";base64,");
    match find_chars(rest.as_slice(), marker.as_slice()) {
        Some(k) => {
            proof {
                crate::text::lemma_find_range(rest@, marker@, 0);
            }
            let m = slice_to_vec_range(rest.as_slice(), 0, k);
            let d = slice_to_vec_range(rest.as_slice(), k + 8, rest.len());
            assert(m@ =~= rest@.take(k as int));
            assert(d@ =~= rest@.skip(k + 8));
            Some((string_of(m.as_slice()), string_of(d.as_slice())))
        },
        None => None,
    }
}

/// Whether a text parses as JSON (`serde_json::from_str::<Value>` succeeds).
pub uninterp spec fn json_text_parses(text: Seq<char>) -> bool;

/// `serde_json::from_str::<serde_json::Value>`, asked only whether it succeeds.
#[verifier::external_body]
pub(crate) fn parses_as_json(text: &str) -> (r: bool)
    ensures
        r == json_text_parses(text@),
{
    serde_json::from_str::<serde_json::Value>(text).is_ok()
}

/// A call's arguments as the input handed back to the provider: the recorded JSON text (`{}`
/// where there is none), or `{}` where that does not parse.
pub open spec fn call_input(arguments: Option<Seq<char>>) -> Seq<char> {
    let t = match arguments {
        Some(a) => a,
        None => "{}"@,
    };
    if json_text_parses(t) {
        t
    } else {
        "{}"@
    }
}

fn input_of(arguments: &Option<String>) -> (r: String)
    ensures
        r@ == call_input(opt_string(*arguments)),
{
    let t: &str = match arguments {
        Some(a) => a.as_str(),
        None => "{}",
    };
    if parses_as_json(t) {
        t.to_string()
    } else {
        "{}".to_string()
    }
}

// ------------------------------------------------------------------ Anthropic

/// A content block of a message sent to Anthropic.
#[derive(Debug)]
pub enum AnthropicBlock {
    /// A tool's result, for the call it answers.
    ToolResult { tool_use_id: Option<String>, content: Content },
    /// A call the assistant made.
    ToolUse { id: Option<String>, name: Option<String>, input: String },
    /// An image, from a `data:` URL.
    Image { media_type: String, data: String },
    /// A block passed on as it came (its JSON text).
    Block { json: String },
}

/// The content of a message sent to Anthropic.
#[derive(Debug)]
pub enum AnthropicContent {
    Blocks(Vec<AnthropicBlock>),
    Text(String),
}

/// A message sent to Anthropic.
#[derive(Debug)]
pub struct AnthropicMessage {
    pub role: String,
    pub content: AnthropicContent,
}

/// The view of an Anthropic block.
pub enum ABlockView {
    ToolResult(Option<Seq<char>>, ContentView),
    ToolUse(Option<Seq<char>>, Option<Seq<char>>, Seq<char>),
    Image(Seq<char>, Seq<char>),
    Block(Seq<char>),
}

/// The view of an Anthropic content.
pub enum AContentView {
    Blocks(Seq<ABlockView>),
    Text(Seq<char>),
}

/// The view of an Anthropic message: its role and content.
pub struct AMessageView {
    pub role: Seq<char>,
    pub content: AContentView,
}

pub open spec fn a_block_view(b: AnthropicBlock) -> ABlockView {
    match b {
        AnthropicBlock::ToolResult { tool_use_id, content } => ABlockView::ToolResult(opt_string(tool_use_id), content_view(content)),
        AnthropicBlock::ToolUse { id, name, input } => ABlockView::ToolUse(opt_string(id), opt_string(name), input@),
        AnthropicBlock::Image { media_type, data } => ABlockView::Image(media_type@, data@),
        AnthropicBlock::Block { json } => ABlockView::Block(json@),
    }
}

pub open spec fn a_message_view(m: AnthropicMessage) -> AMessageView {
    AMessageView {
        role: m.role@,
        content: match m.content {
            AnthropicContent::Blocks(v) => AContentView::Blocks(v@.map_values(|b: AnthropicBlock| a_block_view(b))),
            AnthropicContent::Text(t) => AContentView::Text(t@),
        },
    }
}

/// The media type and data of an `image_url` block whose URL is a `data:` URL.
pub open spec fn image_parts(b: BlockView) -> Option<(Seq<char>, Seq<char>)> {
    if b.kind == Some("image_url"@) {
        match b.image_url {
            Some(u) => data_url_parts(u),
            None => None,
        }
    } else {
        None
    }
}

/// An array block as Anthropic is sent it: an `image_url` block with a `data:` URL becomes an
/// image block; any other block goes as it came.
pub open spec fn anthropic_block(b: BlockView) -> ABlockView {
    match image_parts(b) {
        Some((media_type, data)) => ABlockView::Image(media_type, data),
        None => ABlockView::Block(b.json),
    }
}

/// A message's content as Anthropic is sent it: text as it is, blocks converted one by one.
pub open spec fn anthropic_content(c: ContentView) -> AContentView {
    match c {
        ContentView::Text(t) => AContentView::Text(t),
        ContentView::Blocks(bs) => AContentView::Blocks(bs.map_values(|b: BlockView| anthropic_block(b))),
    }
}

/// A recorded call as a `tool_use` block.
pub open spec fn tool_use_view(c: CallRecord) -> ABlockView {
    ABlockView::ToolUse(opt_string(c.id), opt_string(c.name), call_input(opt_string(c.arguments)))
}

/// A tool message as a `tool_result` block.
pub open spec fn tool_result_view(m: ChatMessage) -> ABlockView {
    ABlockView::ToolResult(opt_string(m.tool_call_id), content_view(m.content))
}

/// How many messages from `j` on are tool results, one after another.
pub open spec fn tool_run_len(msgs: Seq<ChatMessage>, j: int) -> nat
    decreases msgs.len() - j,
{
    if 0 <= j < msgs.len() && msgs[j].role@ == "tool"@ {
        1 + tool_run_len(msgs, j + 1)
    } else {
        0
    }
}

/// A run of tool results stays inside the conversation and holds only tool results.
pub proof fn lemma_tool_run_len(msgs: Seq<ChatMessage>, j: int)
    requires
        0 <= j <= msgs.len(),
    ensures
        j + tool_run_len(msgs, j) <= msgs.len(),
        forall|k: int| j <= k < j + tool_run_len(msgs, j) ==> #[trigger] msgs[k].role@ == "tool"@,
    decreases msgs.len() - j,
{
    if j < msgs.len() && msgs[j].role@ == "tool"@ {
        lemma_tool_run_len(msgs, j + 1);
    }
}

/// The messages from `i` on as Anthropic is sent them: a run of tool results becomes one user
/// message of `tool_result` blocks; an assistant turn with recorded calls becomes its `tool_use`
/// blocks (none where the calls are not a list); any other message keeps its role, its blocks
/// converted.
pub open spec fn anthropic_from(msgs: Seq<ChatMessage>, i: int) -> Seq<AMessageView>
    decreases msgs.len() - i,
{
    if i < 0 || i >= msgs.len() {
        Seq::empty()
    } else {
        let m = msgs[i];
        if m.role@ == "tool"@ {
            let n = 1 + tool_run_len(msgs, i + 1);
            proof {
                lemma_tool_run_len(msgs, i + 1);
            }
            seq![
                AMessageView {
                    role: "user"@,
                    content: AContentView::Blocks(Seq::new(n, |k: int| tool_result_view(msgs[i + k]))),
                },
            ] + anthropic_from(msgs, i + n)
        } else if m.role@ == "assistant"@ && m.tool_calls is Some {
            let uses = match m.tool_calls->0 {
                CallList::List(v) => v@.map_values(|c: CallRecord| tool_use_view(c)),
                CallList::NotAList => Seq::empty(),
            };
            seq![AMessageView { role: "assistant"@, content: AContentView::Blocks(uses) }] + anthropic_from(msgs, i + 1)
        } else {
            seq![AMessageView { role: m.role@, content: anthropic_content(content_view(m.content)) }]
                + anthropic_from(msgs, i + 1)
        }
    }
}

/// Anthropic is never sent a `tool` message: tool results ride in user messages.
pub proof fn lemma_anthropic_has_no_tool_role(msgs: Seq<ChatMessage>, i: int)
    requires
        0 <= i,
    ensures
        forall|k: int| 0 <= k < anthropic_from(msgs, i).len() ==> #[trigger] anthropic_from(msgs, i)[k].role != "tool"@,
    decreases msgs.len() - i,
{
    reveal_strlit("tool");
    reveal_strlit("user");
    reveal_strlit("assistant");
    if i < msgs.len() {
        let m = msgs[i];
        if m.role@ == "tool"@ {
            lemma_tool_run_len(msgs, i + 1);
            lemma_anthropic_has_no_tool_role(msgs, i + 1 + tool_run_len(msgs, i + 1));
        } else {
            lemma_anthropic_has_no_tool_role(msgs, i + 1);
        }
        let out = anthropic_from(msgs, i);
        assert forall|k: int| 0 <= k < out.len() implies #[trigger] out[k].role != "tool"@ by {
            if k > 0 {
                if m.role@ == "tool"@ {
                    assert(out[k] == anthropic_from(msgs, i + 1 + tool_run_len(msgs, i + 1))[k - 1]);
                } else {
                    assert(out[k] == anthropic_from(msgs, i + 1)[k - 1]);
                }
            } else {
                assert("user"@[0] != "tool"@[0]);
                assert("assistant"@.len() != "tool"@.len());
            }
        }
    }
}

/// The `tool_result` blocks among some blocks.
pub open spec fn results_in_blocks(bs: Seq<ABlockView>) -> nat
    decreases bs.len(),
{
    if bs.len() == 0 {
        0
    } else {
        (if bs[0] is ToolResult { 1nat } else { 0nat }) + results_in_blocks(bs.drop_first())
    }
}

/// The `tool_result` blocks a list of Anthropic messages carries.
pub open spec fn results_sent(out: Seq<AMessageView>) -> nat
    decreases out.len(),
{
    if out.len() == 0 {
        0
    } else {
        (match out[0].content {
            AContentView::Blocks(bs) => results_in_blocks(bs),
            AContentView::Text(_) => 0,
        }) + results_sent(out.drop_first())
    }
}

/// The tool messages from `i` on.
pub open spec fn tool_messages(msgs: Seq<ChatMessage>, i: int) -> nat
    decreases msgs.len() - i,
{
    if i < 0 || i >= msgs.len() {
        0
    } else {
        (if msgs[i].role@ == "tool"@ { 1nat } else { 0nat }) + tool_messages(msgs, i + 1)
    }
}

proof fn lemma_run_counts(msgs: Seq<ChatMessage>, j: int)
    requires
        0 <= j <= msgs.len(),
    ensures
        tool_messages(msgs, j) == tool_run_len(msgs, j) + tool_messages(msgs, j + tool_run_len(msgs, j)),
    decreases msgs.len() - j,
{
    if j < msgs.len() && msgs[j].role@ == "tool"@ {
        lemma_run_counts(msgs, j + 1);
    }
}

proof fn lemma_all_results(bs: Seq<ABlockView>)
    requires
        forall|k: int| 0 <= k < bs.len() ==> #[trigger] bs[k] is ToolResult,
    ensures
        results_in_blocks(bs) == bs.len(),
    decreases bs.len(),
{
    if bs.len() > 0 {
        assert forall|k: int| 0 <= k < bs.drop_first().len() implies #[trigger] bs.drop_first()[k] is ToolResult by {
            assert(bs.drop_first()[k] == bs[k + 1]);
        }
        lemma_all_results(bs.drop_first());
    }
}

proof fn lemma_no_results(bs: Seq<ABlockView>)
    requires
        forall|k: int| 0 <= k < bs.len() ==> !(#[trigger] bs[k] is ToolResult),
    ensures
        results_in_blocks(bs) == 0,
    decreases bs.len(),
{
    if bs.len() > 0 {
        assert forall|k: int| 0 <= k < bs.drop_first().len() implies !(#[trigger] bs.drop_first()[k] is ToolResult) by {
            assert(bs.drop_first()[k] == bs[k + 1]);
        }
        lemma_no_results(bs.drop_first());
    }
}

/// Every tool result reaches Anthropic, and only once: the `tool_result` blocks sent for the
/// messages from `i` on are as many as the tool messages among them.
pub proof fn lemma_every_result_sent_once(msgs: Seq<ChatMessage>, i: int)
    requires
        0 <= i,
    ensures
        results_sent(anthropic_from(msgs, i)) == tool_messages(msgs, i),
    decreases msgs.len() - i,
{
    reveal_strlit("tool");
    if i < msgs.len() {
        let m = msgs[i];
        let out = anthropic_from(msgs, i);
        if m.role@ == "tool"@ {
            let n = 1 + tool_run_len(msgs, i + 1);
            lemma_tool_run_len(msgs, i + 1);
            lemma_run_counts(msgs, i + 1);
            lemma_every_result_sent_once(msgs, i + n);
            let bs = Seq::new(n, |k: int| tool_result_view(msgs[i + k]));
            lemma_all_results(bs);
            assert(out.drop_first() =~= anthropic_from(msgs, i + n));
        } else {
            lemma_every_result_sent_once(msgs, i + 1);
            assert(out.drop_first() =~= anthropic_from(msgs, i + 1));
            if m.role@ == "assistant"@ && m.tool_calls is Some {
                match m.tool_calls->0 {
                    CallList::List(v) => {
                        lemma_no_results(v@.map_values(|c: CallRecord| tool_use_view(c)));
                    },
                    CallList::NotAList => {
                        lemma_no_results(Seq::<ABlockView>::empty());
                    },
                }
            } else {
                match content_view(m.content) {
                    ContentView::Blocks(bs) => {
                        lemma_no_results(bs.map_values(|b: BlockView| anthropic_block(b)));
                    },
                    ContentView::Text(_) => {},
                }
            }
        }
    }
}

fn anthropic_block_of(b: &ContentBlock) -> (r: AnthropicBlock)
    ensures
        a_block_view(r) == anthropic_block(block_view(*b)),
{
    proof {
        reveal_strlit("image_url");
    }
    let is_image = match &b.kind {
        Some(k) => eq_str(k.as_str(), "image_url"),
        None => false,
    };
    if is_image {
        if let Some(u) = &b.image_url {
            if let Some((media_type, data)) = data_url(u.as_str()) {
                return AnthropicBlock::Image { media_type, data };
            }
        }
    }
    AnthropicBlock::Block { json: b.json.clone() }
}

fn anthropic_content_of(c: &Content) -> (r: AnthropicContent)
    ensures
        (match r {
            AnthropicContent::Blocks(v) => AContentView::Blocks(v@.map_values(|b: AnthropicBlock| a_block_view(b))),
            AnthropicContent::Text(t) => AContentView::Text(t@),
        }) == anthropic_content(content_view(*c)),
{
    match c {
        Content::Text(s) => AnthropicContent::Text(s.clone()),
        Content::Blocks(v) => {
            let mut out: Vec<AnthropicBlock> = Vec::new();
            let mut i: usize = 0;
            while i < v.len()
                invariant
                    i <= v@.len(),
                    out@.len() == i,
                    forall|k: int| 0 <= k < i ==> a_block_view(#[trigger] out@[k]) == anthropic_block(block_view(v@[k])),
                decreases v@.len() - i,
            {
                out.push(anthropic_block_of(&v[i]));
                i = i + 1;
            }
            proof {
                let bs = v@.map_values(|b: ContentBlock| block_view(b));
                assert(out@.map_values(|b: AnthropicBlock| a_block_view(b)) =~= bs.map_values(
                    |b: BlockView| anthropic_block(b),
                ));
            }
            AnthropicContent::Blocks(out)
        },
    }
}

fn tool_use_of(c: &CallRecord) -> (r: AnthropicBlock)
    ensures
        a_block_view(r) == tool_use_view(*c),
{
    AnthropicBlock::ToolUse { id: clone_opt(&c.id), name: clone_opt(&c.name), input: input_of(&c.arguments) }
}

/// The conversation as Anthropic is sent it, where tool results ride in user messages.
pub fn to_anthropic_messages(messages: Vec<ChatMessage>) -> (r: Vec<AnthropicMessage>)
    ensures
        r@.map_values(|m: AnthropicMessage| a_message_view(m)) == anthropic_from(messages@, 0),
{
    proof {
        reveal_strlit("tool");
        reveal_strlit("user");
        reveal_strlit("assistant");
    }
    let msgs = &messages;
    let ghost ms = msgs@;
    let mut out: Vec<AnthropicMessage> = Vec::new();
    let mut i: usize = 0;
    while i < msgs.len()
        invariant
            ms == msgs@,
            i <= ms.len(),
            anthropic_from(ms, 0) == out@.map_values(|m: AnthropicMessage| a_message_view(m)) + anthropic_from(ms, i as int),
        decreases ms.len() - i,
    {
        let ghost before = out@.map_values(|m: AnthropicMessage| a_message_view(m));
        let m = &msgs[i];
        if eq_str(m.role.as_str(), "tool") {
            let i0 = i;
            let mut results: Vec<AnthropicBlock> = Vec::new();
            proof {
                lemma_tool_run_len(ms, i + 1);
            }
            while i < msgs.len() && eq_str(msgs[i].role.as_str(), "tool")
                invariant
                    ms == msgs@,
                    i0 <= i <= ms.len(),
                    i0 < ms.len(),
                    ms[i0 as int].role@ == "tool"@,
                    results@.len() == i - i0,
                    forall|k: int| 0 <= k < i - i0 ==> a_block_view(#[trigger] results@[k]) == tool_result_view(ms[i0 + k]),
                    i == i0 || i + tool_run_len(ms, i as int) == i0 + 1 + tool_run_len(ms, i0 + 1),
                decreases ms.len() - i,
            {
                let tm = &msgs[i];
                results.push(
                    AnthropicBlock::ToolResult { tool_use_id: clone_opt(&tm.tool_call_id), content: clone_content(&tm.content) },
                );
                i = i + 1;
            }
            proof {
                let n = 1 + tool_run_len(ms, i0 + 1);
                assert(i == i0 + n);
                let rv = results@.map_values(|b: AnthropicBlock| a_block_view(b));
                assert(rv =~= Seq::new(n, |k: int| tool_result_view(ms[i0 + k])));
            }
            out.push(AnthropicMessage { role: "user".to_string(), content: AnthropicContent::Blocks(results) });
            proof {
                let after = out@.map_values(|m: AnthropicMessage| a_message_view(m));
                assert(after =~= before.push(after.last()));
                assert(anthropic_from(ms, i0 as int) == seq![after.last()] + anthropic_from(ms, i as int));
                assert(before + anthropic_from(ms, i0 as int) =~= after + anthropic_from(ms, i as int));
            }
        } else {
            let is_calls = eq_str(m.role.as_str(), "assistant") && m.tool_calls.is_some();
            if is_calls {
                let mut uses: Vec<AnthropicBlock> = Vec::new();
                match &m.tool_calls {
                    Some(CallList::List(v)) => {
                        let mut k: usize = 0;
                        while k < v.len()
                            invariant
                                k <= v@.len(),
                                uses@.len() == k,
                                forall|t: int| 0 <= t < k ==> a_block_view(#[trigger] uses@[t]) == tool_use_view(v@[t]),
                            decreases v@.len() - k,
                        {
                            uses.push(tool_use_of(&v[k]));
                            k = k + 1;
                        }
                        proof {
                            assert(uses@.map_values(|b: AnthropicBlock| a_block_view(b)) =~= v@.map_values(
                                |c: CallRecord| tool_use_view(c),
                            ));
                        }
                    },
                    _ => {
                        proof {
                            assert(uses@.map_values(|b: AnthropicBlock| a_block_view(b)) =~= Seq::<ABlockView>::empty());
                        }
                    },
                }
                out.push(AnthropicMessage { role: "assistant".to_string(), content: AnthropicContent::Blocks(uses) });
            } else {
                let content = anthropic_content_of(&m.content);
                out.push(AnthropicMessage { role: m.role.clone(), content });
            }
            i = i + 1;
            proof {
                let after = out@.map_values(|m: AnthropicMessage| a_message_view(m));
                assert(after =~= before.push(after.last()));
                assert(anthropic_from(ms, i - 1) == seq![after.last()] + anthropic_from(ms, i as int));
                assert(before + anthropic_from(ms, i - 1) =~= after + anthropic_from(ms, i as int));
            }
        }
    }
    proof {
        assert(out@.map_values(|m: AnthropicMessage| a_message_view(m)) + anthropic_from(ms, i as int)
            =~= out@.map_values(|m: AnthropicMessage| a_message_view(m)));
    }
    out
}

// ------------------------------------------------------------------ Gemini

/// A part of a content sent to Gemini.
#[derive(Debug)]
pub enum GeminiPart {
    Text(String),
    /// An image, from a `data:` URL.
    InlineData { mime_type: String, data: String },
    /// A call the model made: its name, its arguments (JSON text), and its thought signature.
    FunctionCall { name: String, args: String, thought_signature: Option<String> },
    /// A tool's result, under the name of the function that was called.
    FunctionResponse { name: String, output: String },
}

/// A content sent to Gemini: a role (`user` or `model`) and its parts.
#[derive(Debug)]
pub struct GeminiContent {
    pub role: String,
    pub parts: Vec<GeminiPart>,
}

/// The view of a Gemini part.
pub enum GPartView {
    Text(Seq<char>),
    InlineData(Seq<char>, Seq<char>),
    FunctionCall(Seq<char>, Seq<char>, Option<Seq<char>>),
    FunctionResponse(Seq<char>, Seq<char>),
}

/// The view of a Gemini content: its role and parts.
pub struct GContentView {
    pub role: Seq<char>,
    pub parts: Seq<GPartView>,
}

pub open spec fn g_part_view(p: GeminiPart) -> GPartView {
    match p {
        GeminiPart::Text(t) => GPartView::Text(t@),
        GeminiPart::InlineData { mime_type, data } => GPartView::InlineData(mime_type@, data@),
        GeminiPart::FunctionCall { name, args, thought_signature } => GPartView::FunctionCall(
            name@,
            args@,
            opt_string(thought_signature),
        ),
        GeminiPart::FunctionResponse { name, output } => GPartView::FunctionResponse(name@, output@),
    }
}

pub open spec fn g_content_view(c: GeminiContent) -> GContentView {
    GContentView { role: c.role@, parts: c.parts@.map_values(|p: GeminiPart| g_part_view(p)) }
}

/// The (id, function name) of each recorded call with a non-empty id among the first `n`.
pub open spec fn calls_named(calls: Seq<CallRecord>, n: int) -> Seq<(Seq<char>, Seq<char>)>
    decreases n,
{
    if n <= 0 {
        Seq::empty()
    } else {
        let c = calls[n - 1];
        let id = or_text(c.id, Seq::empty());
        calls_named(calls, n - 1) + if id.len() > 0 {
            seq![(id, or_text(c.name, Seq::empty()))]
        } else {
            Seq::empty()
        }
    }
}

/// The named calls of the assistant messages among the first `n`, in order.
pub open spec fn named_calls(msgs: Seq<ChatMessage>, n: int) -> Seq<(Seq<char>, Seq<char>)>
    decreases n,
{
    if n <= 0 {
        Seq::empty()
    } else {
        let m = msgs[n - 1];
        named_calls(msgs, n - 1) + if m.role@ == "assistant"@ {
            match m.tool_calls {
                Some(CallList::List(v)) => calls_named(v@, v@.len() as int),
                _ => Seq::empty(),
            }
        } else {
            Seq::empty()
        }
    }
}

/// The function name recorded last for a call id.
pub open spec fn name_for(pairs: Seq<(Seq<char>, Seq<char>)>, id: Seq<char>) -> Option<Seq<char>>
    decreases pairs.len(),
{
    if pairs.len() == 0 {
        None
    } else if pairs.last().0 == id {
        Some(pairs.last().1)
    } else {
        name_for(pairs.drop_last(), id)
    }
}

/// The parts a user block gives: an image for an `image_url` block with a `data:` URL (nothing
/// for any other URL), the text of any other block that has one.
pub open spec fn user_block_parts(b: BlockView) -> Seq<GPartView> {
    if b.kind == Some("image_url"@) {
        match image_parts(b) {
            Some((m, d)) => seq![GPartView::InlineData(m, d)],
            None => Seq::empty(),
        }
    } else {
        match b.text {
            Some(t) => seq![GPartView::Text(t)],
            None => Seq::empty(),
        }
    }
}

/// The parts of the first `n` blocks, in order.
pub open spec fn user_parts(bs: Seq<BlockView>, n: int) -> Seq<GPartView>
    decreases n,
{
    if n <= 0 {
        Seq::empty()
    } else {
        user_parts(bs, n - 1) + user_block_parts(bs[n - 1])
    }
}

/// A call the model made, as a `functionCall` part.
pub open spec fn function_call_view(c: CallRecord) -> GPartView {
    GPartView::FunctionCall(or_text(c.name, Seq::empty()), call_input(opt_string(c.arguments)), opt_string(c.thought_signature))
}

/// What one message is sent to Gemini as: a user's text as one part, a user's blocks as their
/// parts (one empty text part where none is left); an assistant's listed calls as `model` call
/// parts, else its text; a tool result as a `functionResponse` under the called function's name
/// (the call id where no call names it). Other roles are not sent.
pub open spec fn gemini_content(m: ChatMessage, pairs: Seq<(Seq<char>, Seq<char>)>) -> Option<GContentView> {
    if m.role@ == "user"@ {
        let parts = match content_view(m.content) {
            ContentView::Text(t) => seq![GPartView::Text(t)],
            ContentView::Blocks(bs) => {
                let p = user_parts(bs, bs.len() as int);
                if p.len() == 0 {
                    seq![GPartView::Text(Seq::empty())]
                } else {
                    p
                }
            },
        };
        Some(GContentView { role: "user"@, parts })
    } else if m.role@ == "assistant"@ {
        match m.tool_calls {
            Some(CallList::List(v)) => Some(
                GContentView { role: "model"@, parts: v@.map_values(|c: CallRecord| function_call_view(c)) },
            ),
            _ => Some(GContentView { role: "model"@, parts: seq![GPartView::Text(content_text(m.content))] }),
        }
    } else if m.role@ == "tool"@ {
        let id = or_text(m.tool_call_id, Seq::empty());
        let name = match name_for(pairs, id) {
            Some(n) => n,
            None => id,
        };
        Some(GContentView { role: "user"@, parts: seq![GPartView::FunctionResponse(name, content_text(m.content))] })
    } else {
        None
    }
}

/// The first `n` messages as Gemini is sent them, in order.
pub open spec fn gemini_upto(msgs: Seq<ChatMessage>, pairs: Seq<(Seq<char>, Seq<char>)>, n: int) -> Seq<
    GContentView,
>
    decreases n,
{
    if n <= 0 {
        Seq::empty()
    } else {
        let before = gemini_upto(msgs, pairs, n - 1);
        match gemini_content(msgs[n - 1], pairs) {
            Some(c) => before.push(c),
            None => before,
        }
    }
}

/// The conversation as Gemini is sent it.
pub open spec fn gemini_contents(msgs: Seq<ChatMessage>) -> Seq<GContentView> {
    gemini_upto(msgs, named_calls(msgs, msgs.len() as int), msgs.len() as int)
}

/// Gemini is sent only the roles it knows: every content is the user's or the model's.
pub proof fn lemma_gemini_roles(msgs: Seq<ChatMessage>, pairs: Seq<(Seq<char>, Seq<char>)>, n: int)
    ensures
        forall|k: int|
            0 <= k < gemini_upto(msgs, pairs, n).len() ==> (#[trigger] gemini_upto(msgs, pairs, n)[k]).role == "user"@
                || gemini_upto(msgs, pairs, n)[k].role == "model"@,
    decreases n,
{
    if n > 0 {
        lemma_gemini_roles(msgs, pairs, n - 1);
        let before = gemini_upto(msgs, pairs, n - 1);
        let all = gemini_upto(msgs, pairs, n);
        match gemini_content(msgs[n - 1], pairs) {
            Some(c) => {
                assert(c.role == "user"@ || c.role == "model"@);
                assert forall|k: int| 0 <= k < all.len() implies (#[trigger] all[k]).role == "user"@ || all[k].role
                    == "model"@ by {
                    if k < before.len() {
                        assert(all[k] == before[k]);
                    }
                }
            },
            None => {},
        }
    }
}

fn clone_opt_or_empty(o: &Option<String>) -> (r: String)
    ensures
        r@ == or_text(*o, Seq::empty()),
{
    match o {
        Some(s) => s.clone(),
        None => String::new(),
    }
}

fn all_named_calls(msgs: &Vec<ChatMessage>) -> (r: Vec<(String, String)>)
    ensures
        crate::artifacts::string_pairs(r@) == named_calls(msgs@, msgs@.len() as int),
{
    proof {
        reveal_strlit("assistant");
    }
    let mut out: Vec<(String, String)> = Vec::new();
    let mut i: usize = 0;
    while i < msgs.len()
        invariant
            i <= msgs@.len(),
            crate::artifacts::string_pairs(out@) == named_calls(msgs@, i as int),
        decreases msgs@.len() - i,
    {
        let m = &msgs[i];
        let ghost before = out@;
        if eq_str(m.role.as_str(), "assistant") {
            if let Some(CallList::List(v)) = &m.tool_calls {
                let mut k: usize = 0;
                while k < v.len()
                    invariant
                        k <= v@.len(),
                        crate::artifacts::string_pairs(out@) == crate::artifacts::string_pairs(before) + calls_named(
                            v@,
                            k as int,
                        ),
                    decreases v@.len() - k,
                {
                    let ghost mid = out@;
                    let id = clone_opt_or_empty(&v[k].id);
                    if id.unicode_len() > 0 {
                        let name = clone_opt_or_empty(&v[k].name);
                        out.push((id, name));
                        proof {
                            assert(crate::artifacts::string_pairs(out@) =~= crate::artifacts::string_pairs(mid).push(
                                (out@.last().0@, out@.last().1@),
                            ));
                        }
                    }
                    k = k + 1;
                    proof {
                        assert(crate::artifacts::string_pairs(out@) =~= crate::artifacts::string_pairs(before)
                            + calls_named(v@, k as int));
                    }
                }
                proof {
                    assert(crate::artifacts::string_pairs(out@) =~= named_calls(msgs@, i + 1));
                }
            } else {
                proof {
                    assert(crate::artifacts::string_pairs(out@) =~= named_calls(msgs@, i + 1));
                }
            }
        } else {
            proof {
                assert(crate::artifacts::string_pairs(out@) =~= named_calls(msgs@, i + 1));
            }
        }
        i = i + 1;
    }
    out
}

fn lookup_name(pairs: &Vec<(String, String)>, id: &str) -> (r: Option<String>)
    ensures
        opt_string(r) == name_for(crate::artifacts::string_pairs(pairs@), id@),
{
    let ghost pv = crate::artifacts::string_pairs(pairs@);
    let mut n: usize = pairs.len();
    assert(pv.take(n as int) =~= pv);
    while n > 0
        invariant
            n <= pairs@.len(),
            pv == crate::artifacts::string_pairs(pairs@),
            name_for(pv, id@) == name_for(pv.take(n as int), id@),
        decreases n,
    {
        assert(pv.take(n as int).last() == (pairs@[n - 1].0@, pairs@[n - 1].1@));
        assert(pv.take(n as int).drop_last() =~= pv.take(n - 1));
        if eq_str(pairs[n - 1].0.as_str(), id) {
            return Some(pairs[n - 1].1.clone());
        }
        n = n - 1;
    }
    None
}

fn user_parts_of(bs: &Vec<ContentBlock>) -> (r: Vec<GeminiPart>)
    ensures
        r@.map_values(|p: GeminiPart| g_part_view(p)) == user_parts(
            bs@.map_values(|b: ContentBlock| block_view(b)),
            bs@.len() as int,
        ),
{
    proof {
        reveal_strlit("image_url");
    }
    let ghost bv = bs@.map_values(|b: ContentBlock| block_view(b));
    let mut out: Vec<GeminiPart> = Vec::new();
    let mut i: usize = 0;
    while i < bs.len()
        invariant
            i <= bs@.len(),
            bv == bs@.map_values(|b: ContentBlock| block_view(b)),
            out@.map_values(|p: GeminiPart| g_part_view(p)) == user_parts(bv, i as int),
        decreases bs@.len() - i,
    {
        let b = &bs[i];
        let ghost before = out@.map_values(|p: GeminiPart| g_part_view(p));
        assert(bv[i as int] == block_view(*b));
        let is_image = match &b.kind {
            Some(k) => eq_str(k.as_str(), "image_url"),
            None => false,
        };
        if is_image {
            let parts = match &b.image_url {
                Some(u) => data_url(u.as_str()),
                None => None,
            };
            if let Some((mime_type, data)) = parts {
                out.push(GeminiPart::InlineData { mime_type, data });
            }
        } else {
            if let Some(t) = &b.text {
                out.push(GeminiPart::Text(t.clone()));
            }
        }
        i = i + 1;
        proof {
            assert(out@.map_values(|p: GeminiPart| g_part_view(p)) =~= before + user_block_parts(bv[i - 1]));
        }
    }
    out
}

fn gemini_content_of(m: &ChatMessage, pairs: &Vec<(String, String)>) -> (r: Option<GeminiContent>)
    ensures
        match r {
            Some(c) => gemini_content(*m, crate::artifacts::string_pairs(pairs@)) == Some(g_content_view(c)),
            None => gemini_content(*m, crate::artifacts::string_pairs(pairs@)) is None,
        },
{
    proof {
        reveal_strlit("user");
        reveal_strlit("assistant");
        reveal_strlit("tool");
        reveal_strlit("model");
    }
    if eq_str(m.role.as_str(), "user") {
        let parts = match &m.content {
            Content::Text(t) => {
                let mut p: Vec<GeminiPart> = Vec::new();
                p.push(GeminiPart::Text(t.clone()));
                proof {
                    assert(p@.map_values(|q: GeminiPart| g_part_view(q)) =~= seq![GPartView::Text(t@)]);
                }
                p
            },
            Content::Blocks(bs) => {
                let mut p = user_parts_of(bs);
                if p.len() == 0 {
                    p.push(GeminiPart::Text(String::new()));
                    proof {
                        assert(p@.map_values(|q: GeminiPart| g_part_view(q)) =~= seq![
                            GPartView::Text(Seq::empty()),
                        ]);
                    }
                }
                p
            },
        };
        Some(GeminiContent { role: "user".to_string(), parts })
    } else if eq_str(m.role.as_str(), "assistant") {
        match &m.tool_calls {
            Some(CallList::List(v)) => {
                let mut parts: Vec<GeminiPart> = Vec::new();
                let mut k: usize = 0;
                while k < v.len()
                    invariant
                        k <= v@.len(),
                        parts@.len() == k,
                        forall|t: int| 0 <= t < k ==> g_part_view(#[trigger] parts@[t]) == function_call_view(v@[t]),
                    decreases v@.len() - k,
                {
                    let c = &v[k];
                    parts.push(
                        GeminiPart::FunctionCall {
                            name: clone_opt_or_empty(&c.name),
                            args: input_of(&c.arguments),
                            thought_signature: clone_opt(&c.thought_signature),
                        },
                    );
                    k = k + 1;
                }
                proof {
                    assert(parts@.map_values(|q: GeminiPart| g_part_view(q)) =~= v@.map_values(
                        |c: CallRecord| function_call_view(c),
                    ));
                }
                Some(GeminiContent { role: "model".to_string(), parts })
            },
            _ => {
                let mut parts: Vec<GeminiPart> = Vec::new();
                parts.push(GeminiPart::Text(content_as_text(&m.content)));
                proof {
                    assert(parts@.map_values(|q: GeminiPart| g_part_view(q)) =~= seq![
                        GPartView::Text(content_text(m.content)),
                    ]);
                }
                Some(GeminiContent { role: "model".to_string(), parts })
            },
        }
    } else if eq_str(m.role.as_str(), "tool") {
        let id = clone_opt_or_empty(&m.tool_call_id);
        let name = match lookup_name(pairs, id.as_str()) {
            Some(n) => n,
            None => id.clone(),
        };
        let mut parts: Vec<GeminiPart> = Vec::new();
        parts.push(GeminiPart::FunctionResponse { name, output: content_as_text(&m.content) });
        proof {
            assert(parts@.map_values(|q: GeminiPart| g_part_view(q)) =~= seq![
                GPartView::FunctionResponse(
                    match name_for(crate::artifacts::string_pairs(pairs@), id@) {
                        Some(n) => n,
                        None => id@,
                    },
                    content_text(m.content),
                ),
            ]);
        }
        Some(GeminiContent { role: "user".to_string(), parts })
    } else {
        None
    }
}

/// The conversation as Gemini is sent it, each tool result under the name of the function that
/// was called.
pub fn to_gemini_contents(messages: Vec<ChatMessage>) -> (r: Vec<GeminiContent>)
    ensures
        r@.map_values(|c: GeminiContent| g_content_view(c)) == gemini_contents(messages@),
{
    let msgs = &messages;
    let pairs = all_named_calls(msgs);
    let ghost pv = crate::artifacts::string_pairs(pairs@);
    let mut out: Vec<GeminiContent> = Vec::new();
    let mut i: usize = 0;
    while i < msgs.len()
        invariant
            i <= msgs@.len(),
            pv == crate::artifacts::string_pairs(pairs@),
            pv == named_calls(msgs@, msgs@.len() as int),
            out@.map_values(|c: GeminiContent| g_content_view(c)) == gemini_upto(msgs@, pv, i as int),
        decreases msgs@.len() - i,
    {
        let ghost before = out@.map_values(|c: GeminiContent| g_content_view(c));
        if let Some(c) = gemini_content_of(&msgs[i], &pairs) {
            out.push(c);
            proof {
                assert(out@.map_values(|c: GeminiContent| g_content_view(c)) =~= before.push(
                    g_content_view(out@.last()),
                ));
            }
        }
        i = i + 1;
    }
    out
}

// ------------------------------------------------------------------ a request's messages

/// The view of a call list.
pub enum CallsView {
    NotAList,
    List(Seq<CallView>),
}

/// The view of a recorded call.
pub struct CallView {
    pub id: Option<Seq<char>>,
    pub name: Option<Seq<char>>,
    pub arguments: Option<Seq<char>>,
    pub thought_signature: Option<Seq<char>>,
}

/// The view of a message.
pub struct MessageView {
    pub role: Seq<char>,
    pub content: ContentView,
    pub tool_call_id: Option<Seq<char>>,
    pub tool_calls: Option<CallsView>,
}

pub open spec fn call_view(c: CallRecord) -> CallView {
    CallView { id: opt_string(c.id), name: opt_string(c.name), arguments: opt_string(c.arguments), thought_signature: opt_string(c.thought_signature) }
}

/// The view of a call list.
pub open spec fn call_list_view(c: CallList) -> CallsView {
    match c {
        CallList::NotAList => CallsView::NotAList,
        CallList::List(v) => CallsView::List(v@.map_values(|c: CallRecord| call_view(c))),
    }
}

pub open spec fn message_view(m: ChatMessage) -> MessageView {
    MessageView {
        role: m.role@,
        content: content_view(m.content),
        tool_call_id: opt_string(m.tool_call_id),
        tool_calls: match m.tool_calls {
            None => None,
            Some(CallList::NotAList) => Some(CallsView::NotAList),
            Some(CallList::List(v)) => Some(CallsView::List(v@.map_values(|c: CallRecord| call_view(c)))),
        },
    }
}

pub open spec fn messages_view(ms: Seq<ChatMessage>) -> Seq<MessageView> {
    ms.map_values(|m: ChatMessage| message_view(m))
}

/// A lowercase hexadecimal digit for `d` (below sixteen).
pub open spec fn hex_digit(d: int) -> char {
    if d < 10 { ((48 + d) as u32) as char } else { ((87 + d) as u32) as char }
}

/// One character as `serde_json` writes it inside a string: a quote and a backslash escaped with a
/// backslash; backspace, form feed, newline, carriage return and tab as `\b`, `\f`, `\n`, `\r`,
/// `\t`; any other control character below U+0020 as `\u00` and two lowercase hex digits; every
/// other character as it is.
pub open spec fn json_escaped_char(c: char) -> Seq<char> {
    if c == '"' {
        seq!['\\', '"']
    } else if c == '\\' {
        seq!['\\', '\\']
    } else if c == '\u{8}' {
        seq!['\\', 'b']
    } else if c == '\u{c}' {
        seq!['\\', 'f']
    } else if c == '\n' {
        seq!['\\', 'n']
    } else if c == '\r' {
        seq!['\\', 'r']
    } else if c == '\t' {
        seq!['\\', 't']
    } else if (c as u32) < 0x20 {
        seq!['\\', 'u', '0', '0', hex_digit((c as int) / 16), hex_digit((c as int) % 16)]
    } else {
        seq![c]
    }
}

/// The characters of a text as `serde_json` writes them inside a string.
pub open spec fn json_escaped(text: Seq<char>) -> Seq<char>
    decreases text.len(),
{
    if text.len() == 0 {
        Seq::empty()
    } else {
        json_escaped(text.drop_last()) + json_escaped_char(text.last())
    }
}

/// A text as a JSON string literal, quoted and escaped as `serde_json` writes it.
pub open spec fn json_quoted(text: Seq<char>) -> Seq<char> {
    seq!['"'] + json_escaped(text) + seq!['"']
}

/// `serde_json::to_string` of a string: the string as a JSON literal.
#[verifier::external_body]
pub(crate) fn quote_json(text: &str) -> (r: String)
    ensures
        r@ == json_quoted(text@),
{
    serde_json::to_string(text).unwrap_or_default()
}

/// A `{"type": "text"}` block holding `text`.
pub open spec fn text_block_view(text: Seq<char>) -> BlockView {
    BlockView {
        kind: Some("text"@),
        text: Some(text),
        image_url: None,
        json: "{\"type\":\"text\",\"text\":"@ + json_quoted(text) + "}"@,
    }
}

/// The index of the first message with `role`, or -1.
pub open spec fn first_with_role(ms: Seq<MessageView>, role: Seq<char>) -> int {
    if exists|i: int| 0 <= i < ms.len() && #[trigger] ms[i].role == role {
        choose|i: int|
            0 <= i < ms.len() && #[trigger] ms[i].role == role && forall|j: int| 0 <= j < i ==> #[trigger] ms[j].role != role
    } else {
        -1
    }
}

/// The index of the last message with `role`, or -1.
pub open spec fn last_with_role(ms: Seq<MessageView>, role: Seq<char>) -> int {
    if exists|i: int| 0 <= i < ms.len() && #[trigger] ms[i].role == role {
        choose|i: int|
            0 <= i < ms.len() && #[trigger] ms[i].role == role && forall|j: int| i < j < ms.len() ==> #[trigger] ms[j].role != role
    } else {
        -1
    }
}

/// A message view with its content replaced.
pub open spec fn with_content(m: MessageView, c: ContentView) -> MessageView {
    MessageView { content: c, ..m }
}

/// A view's content as text: its text, or empty where it is an array.
pub open spec fn view_text(c: ContentView) -> Seq<char> {
    match c {
        ContentView::Text(t) => t,
        ContentView::Blocks(_) => Seq::empty(),
    }
}

/// The messages of one pass of the tool loop, as the provider is sent them: the images of the
/// conversation's first message go back in front of the first user message's text (they are not
/// stored); the attachments of the message being answered replace the last user message's
/// content; a continuation's hint is asked last, as a user message.
pub open spec fn spec_prepared(
    ms: Seq<MessageView>,
    history: Option<Seq<BlockView>>,
    attachments: Option<ContentView>,
    hint: Option<Seq<char>>,
) -> Seq<MessageView> {
    let a = match history {
        Some(h) => {
            let p = first_with_role(ms, "user"@);
            if p >= 0 {
                ms.update(p, with_content(ms[p], ContentView::Blocks(h.push(text_block_view(view_text(ms[p].content))))))
            } else {
                ms
            }
        },
        None => ms,
    };
    let b = match attachments {
        Some(c) => {
            let q = last_with_role(a, "user"@);
            if q >= 0 {
                a.update(q, with_content(a[q], c))
            } else {
                a
            }
        },
        None => a,
    };
    match hint {
        Some(t) => b.push(
            MessageView { role: "user"@, content: ContentView::Text(t), tool_call_id: None, tool_calls: None },
        ),
        None => b,
    }
}

fn first_user(msgs: &Vec<ChatMessage>) -> (r: Option<usize>)
    ensures
        match r {
            Some(p) => p as int == first_with_role(messages_view(msgs@), "user"@) && p < msgs@.len(),
            None => first_with_role(messages_view(msgs@), "user"@) == -1,
        },
{
    proof {
        reveal_strlit("user");
    }
    let ghost mv = messages_view(msgs@);
    let mut i: usize = 0;
    while i < msgs.len()
        invariant
            i <= msgs@.len(),
            mv == messages_view(msgs@),
            forall|j: int| 0 <= j < i ==> #[trigger] mv[j].role != "user"@,
        decreases msgs@.len() - i,
    {
        assert(mv[i as int].role == msgs@[i as int].role@);
        if eq_str(msgs[i].role.as_str(), "user") {
            proof {
                let c = choose|c: int|
                    0 <= c < mv.len() && #[trigger] mv[c].role == "user"@ && forall|j: int|
                        0 <= j < c ==> #[trigger] mv[j].role != "user"@;
                if c < i {
                    assert(mv[c].role != "user"@);
                }
                if c > i {
                    assert(mv[i as int].role != "user"@);
                }
            }
            return Some(i);
        }
        i = i + 1;
    }
    None
}

fn last_user(msgs: &Vec<ChatMessage>) -> (r: Option<usize>)
    ensures
        match r {
            Some(q) => q as int == last_with_role(messages_view(msgs@), "user"@) && q < msgs@.len(),
            None => last_with_role(messages_view(msgs@), "user"@) == -1,
        },
{
    proof {
        reveal_strlit("user");
    }
    let ghost mv = messages_view(msgs@);
    let mut i: usize = msgs.len();
    while i > 0
        invariant
            i <= msgs@.len(),
            mv == messages_view(msgs@),
            forall|j: int| i <= j < mv.len() ==> #[trigger] mv[j].role != "user"@,
        decreases i,
    {
        assert(mv[i - 1].role == msgs@[i - 1].role@);
        if eq_str(msgs[i - 1].role.as_str(), "user") {
            proof {
                let c = choose|c: int|
                    0 <= c < mv.len() && #[trigger] mv[c].role == "user"@ && forall|j: int|
                        c < j < mv.len() ==> #[trigger] mv[j].role != "user"@;
                if c < i - 1 {
                    assert(mv[i - 1].role != "user"@);
                }
                if c > i - 1 {
                    assert(mv[c].role != "user"@);
                }
            }
            return Some(i - 1);
        }
        i = i - 1;
    }
    None
}

fn put_history(msgs: &mut Vec<ChatMessage>, history: Vec<ContentBlock>)
    ensures
        ({
            let ms = messages_view(old(msgs)@);
            let p = first_with_role(ms, "user"@);
            let h = history@.map_values(|b: ContentBlock| block_view(b));
            messages_view(final(msgs)@) == if p >= 0 {
                ms.update(p, with_content(ms[p], ContentView::Blocks(h.push(text_block_view(view_text(ms[p].content))))))
            } else {
                ms
            }
        }),
{
    proof {
        reveal_strlit("text");
        reveal_strlit("{\"type\":\"text\",\"text\":");
        reveal_strlit("}");
    }
    let ghost m0 = messages_view(msgs@);
    if let Some(p) = first_user(msgs) {
        let text = content_as_text(&msgs[p].content);
        let mut blocks = history;
        let quoted = quote_json(text.as_str());
        let mut json = concat("{\"type\":\"text\",\"text\":", quoted.as_str());
        json = concat(json.as_str(), "}");
        let ghost before_blocks = blocks@.map_values(|b: ContentBlock| block_view(b));
        let ghost tv = text_block_view(view_text(m0[p as int].content));
        let tb = ContentBlock { kind: Some("text".to_string()), text: Some(text), image_url: None, json };
        assert(block_view(tb) == tv);
        blocks.push(tb);
        assert(blocks@.map_values(|b: ContentBlock| block_view(b)) =~= before_blocks.push(tv));
        msgs[p].content = Content::Blocks(blocks);
        assert(messages_view(msgs@) =~= m0.update(
            p as int,
            with_content(m0[p as int], ContentView::Blocks(before_blocks.push(tv))),
        ));
    }
}

fn put_attachments(msgs: &mut Vec<ChatMessage>, attachments: Content)
    ensures
        ({
            let ms = messages_view(old(msgs)@);
            let q = last_with_role(ms, "user"@);
            messages_view(final(msgs)@) == if q >= 0 {
                ms.update(q, with_content(ms[q], content_view(attachments)))
            } else {
                ms
            }
        }),
{
    let ghost m1 = messages_view(msgs@);
    let ghost cv = content_view(attachments);
    if let Some(q) = last_user(msgs) {
        msgs[q].content = attachments;
        assert(messages_view(msgs@) =~= m1.update(q as int, with_content(m1[q as int], cv)));
    }
}

/// The messages of one pass of the tool loop: the first message's images put back, the
/// attachments of the message being answered put back, and a continuation's hint asked last.
pub fn prepare_messages(
    messages: Vec<ChatMessage>,
    history: Option<Vec<ContentBlock>>,
    attachments: Option<Content>,
    hint: Option<&str>,
) -> (r: Vec<ChatMessage>)
    ensures
        messages_view(r@) == spec_prepared(
            messages_view(messages@),
            match history {
                Some(h) => Some(h@.map_values(|b: ContentBlock| block_view(b))),
                None => None,
            },
            match attachments {
                Some(c) => Some(content_view(c)),
                None => None,
            },
            match hint {
                Some(t) => Some(t@),
                None => None,
            },
        ),
{
    proof {
        reveal_strlit("user");
    }
    let mut msgs = messages;
    if let Some(h) = history {
        put_history(&mut msgs, h);
    }
    if let Some(c) = attachments {
        put_attachments(&mut msgs, c);
    }
    if let Some(t) = hint {
        let ghost before = messages_view(msgs@);
        msgs.push(ChatMessage::text("user", t));
        assert(messages_view(msgs@) =~= before.push(
            MessageView { role: "user"@, content: ContentView::Text(t@), tool_call_id: None, tool_calls: None },
        ));
    }
    msgs
}

} // verus!
