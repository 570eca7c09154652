//! A conversation exported: every message in order, with each assistant turn that called tools
//! carrying those calls and, for each call, the result a tool message recorded; and that list
//! written out as a Markdown document.
use vstd::prelude::*;
use vstd::string::*;

use crate::db::Message;
use crate::text::{concat, eq_str};
use crate::textmap::{map_lookup, TextMap};

use crate::text::opt_string;
use crate::text::clone_opt;
verus! {

broadcast use vstd::string::group_string_axioms;

/// The calls recorded in an assistant message's `__tool_calls__` array, each with its id,
/// function name and argument text where present as strings; `None` where the message is not
/// such a record (not JSON, no `__tool_calls__` key, or not an array under it).
pub uninterp spec fn recorded_calls_of(content: Seq<char>) -> Option<
    Seq<(Option<Seq<char>>, Option<Seq<char>>, Option<Seq<char>>)>,
>;

/// The view of the entries read out of a record.
pub open spec fn entries_view(v: Seq<(Option<String>, Option<String>, Option<String>)>) -> Seq<
    (Option<Seq<char>>, Option<Seq<char>>, Option<Seq<char>>),
> {
    v.map_values(
        |e: (Option<String>, Option<String>, Option<String>)| (opt_string(e.0), opt_string(e.1), opt_string(e.2)),
    )
}

/// `serde_json::from_str` of a stored message, then each element of the array under its
/// `__tool_calls__` key read for `id`, `function.name` and `function.arguments` as strings.
#[verifier::external_body]
fn recorded_calls(content: &str) -> (r: Option<Vec<(Option<String>, Option<String>, Option<String>)>>)
    ensures
        match r {
            Some(v) => recorded_calls_of(content@) == Some(entries_view(v@)),
            None => recorded_calls_of(content@) is None,
        },
{
    let v: serde_json::Value = serde_json::from_str(content).ok()?;
    let arr = v.get("__tool_calls__")?.as_array()?;
    Some(
        arr.iter().map(
            |tc|
                (
                    tc["id"].as_str().map(|s| s.to_string()),
                    tc["function"]["name"].as_str().map(|s| s.to_string()),
                    tc["function"]["arguments"].as_str().map(|s| s.to_string()),
                ),
        ).collect(),
    )
}

/// A tool call as exported: its id, function name, argument text, and the result recorded for it.
#[derive(Debug)]
pub struct ExportToolCall {
    pub id: String,
    pub name: String,
    /// The arguments as the model sent them (JSON text).
    pub arguments: String,
    pub result: Option<String>,
}

/// A message as exported.
#[derive(Debug)]
pub struct ExportMessage {
    pub role: String,
    pub content: String,
    pub thinking: Option<String>,
    pub tool_calls: Option<Vec<ExportToolCall>>,
    pub created_at: i64,
}

/// The view of an exported call.
pub type CallView = (Seq<char>, Seq<char>, Seq<char>, Option<Seq<char>>);

/// The view of an exported message.
pub type MessageView = (Seq<char>, Seq<char>, Option<Seq<char>>, Option<Seq<CallView>>, i64);

/// The view of an exported call.
pub open spec fn call_view(c: ExportToolCall) -> CallView {
    (c.id@, c.name@, c.arguments@, opt_string(c.result))
}

/// The view of a list of exported calls.
pub open spec fn calls_view(v: Seq<ExportToolCall>) -> Seq<CallView> {
    v.map_values(|c: ExportToolCall| call_view(c))
}

/// The view of an exported message.
pub open spec fn message_view(m: ExportMessage) -> MessageView {
    (
        m.role@,
        m.content@,
        opt_string(m.thinking),
        match m.tool_calls {
            Some(v) => Some(calls_view(v@)),
            None => None,
        },
        m.created_at,
    )
}

/// The view of a list of exported messages.
pub open spec fn messages_view(v: Seq<ExportMessage>) -> Seq<MessageView> {
    v.map_values(|m: ExportMessage| message_view(m))
}

/// The results the tool messages recorded, by the call they answer; a later result under the
/// same call replaces an earlier one.
pub open spec fn recorded_results(msgs: Seq<Message>) -> Map<Seq<char>, Seq<char>>
    decreases msgs.len(),
{
    if msgs.len() == 0 {
        Map::empty()
    } else {
        let before = recorded_results(msgs.drop_last());
        let m = msgs.last();
        if m.role@ == "tool"@ && m.tool_call_id is Some {
            before.insert(m.tool_call_id->0@, m.content@)
        } else {
            before
        }
    }
}

/// The calls of a record from entry `k` on, given the results not yet handed out: an entry
/// without an id, a name and arguments is skipped; each call takes the result under its id, which
/// is then no longer available to a later call.
pub open spec fn calls_from(
    entries: Seq<(Option<Seq<char>>, Option<Seq<char>>, Option<Seq<char>>)>,
    k: int,
    results: Map<Seq<char>, Seq<char>>,
) -> (Seq<CallView>, Map<Seq<char>, Seq<char>>)
    decreases entries.len() - k,
{
    if k < 0 || k >= entries.len() {
        (Seq::empty(), results)
    } else {
        match entries[k] {
            (Some(id), Some(name), Some(args)) => {
                let rest = calls_from(entries, k + 1, results.remove(id));
                (seq![(id, name, args, map_lookup(results, id))] + rest.0, rest.1)
            },
            _ => calls_from(entries, k + 1, results),
        }
    }
}

/// The exported messages from message `i` on, given the results not yet handed out: a tool-call
/// record becomes an assistant message with its calls (and no text); any other assistant message
/// keeps its text and reasoning; tool messages are not exported on their own; any other message
/// keeps its role and text.
pub open spec fn export_from(msgs: Seq<Message>, i: int, results: Map<Seq<char>, Seq<char>>) -> Seq<
    MessageView,
>
    decreases msgs.len() - i,
{
    if i < 0 || i >= msgs.len() {
        Seq::empty()
    } else {
        let m = msgs[i];
        if m.role@ == "assistant"@ {
            match recorded_calls_of(m.content@) {
                Some(entries) => {
                    let taken = calls_from(entries, 0, results);
                    seq![("assistant"@, Seq::<char>::empty(), None::<Seq<char>>, Some(taken.0), m.created_at)]
                        + export_from(msgs, i + 1, taken.1)
                },
                None => seq![("assistant"@, m.content@, opt_string(m.thinking), None::<Seq<CallView>>, m.created_at)]
                    + export_from(msgs, i + 1, results),
            }
        } else if m.role@ == "tool"@ {
            export_from(msgs, i + 1, results)
        } else {
            seq![(m.role@, m.content@, None::<Seq<char>>, None::<Seq<CallView>>, m.created_at)]
                + export_from(msgs, i + 1, results)
        }
    }
}

/// The calls of one record, taking their results out of `results`.
fn take_calls(
    entries: Vec<(Option<String>, Option<String>, Option<String>)>,
    results: &mut TextMap,
) -> (r: Vec<ExportToolCall>)
    ensures
        (calls_view(r@), final(results).view()) == calls_from(entries_view(entries@), 0, old(results).view()),
{
    let ghost ev = entries_view(entries@);
    let ghost start = results.view();
    let mut out: Vec<ExportToolCall> = Vec::new();
    let mut k: usize = 0;
    assert(calls_view(out@) =~= Seq::<CallView>::empty());
    while k < entries.len()
        invariant
            k <= entries@.len(),
            ev == entries_view(entries@),
            start == old(results).view(),
            ({
                let rest = calls_from(ev, k as int, results.view());
                calls_from(ev, 0, start) == (calls_view(out@) + rest.0, rest.1)
            }),
        decreases entries@.len() - k,
    {
        let e = &entries[k];
        assert(ev[k as int] == (opt_string(e.0), opt_string(e.1), opt_string(e.2)));
        match (&e.0, &e.1, &e.2) {
            (Some(id), Some(name), Some(args)) => {
                let ghost before_map = results.view();
                let ghost before = calls_view(out@);
                let result = results.get(id.as_str());
                results.remove(id.as_str());
                let call = ExportToolCall {
                    id: id.clone(),
                    name: name.clone(),
                    arguments: args.clone(),
                    result,
                };
                let ghost cv = call_view(call);
                assert(cv == (id@, name@, args@, map_lookup(before_map, id@)));
                out.push(call);
                assert(calls_view(out@) =~= before.push(cv));
                let ghost rest = calls_from(ev, k + 1, results.view());
                assert(calls_from(ev, k as int, before_map) == (seq![cv] + rest.0, rest.1));
                assert(before + (seq![cv] + rest.0) =~= calls_view(out@) + rest.0);
            },
            _ => {},
        }
        k = k + 1;
    }
    assert(calls_view(out@) + Seq::<CallView>::empty() =~= calls_view(out@));
    out
}

/// The export from message `i` on is a tail of the export from any earlier message `j`.
proof fn lemma_export_tail(msgs: Seq<Message>, j: int, i: int, results: Map<Seq<char>, Seq<char>>)
    requires
        0 <= j <= i,
    ensures
        exists|pre: Seq<MessageView>, later: Map<Seq<char>, Seq<char>>|
            #[trigger] export_from(msgs, j, results) == pre + export_from(msgs, i, later),
    decreases i - j,
{
    if j == i {
        assert(export_from(msgs, j, results) == Seq::<MessageView>::empty() + export_from(msgs, i, results));
    } else if j >= msgs.len() {
        assert(export_from(msgs, j, results) == Seq::<MessageView>::empty());
        assert(export_from(msgs, i, results) == Seq::<MessageView>::empty());
        assert(export_from(msgs, j, results) == Seq::<MessageView>::empty() + export_from(msgs, i, results));
    } else {
        let m = msgs[j];
        if m.role@ == "assistant"@ {
            match recorded_calls_of(m.content@) {
                Some(entries) => {
                    let taken = calls_from(entries, 0, results);
                    lemma_export_tail(msgs, j + 1, i, taken.1);
                    let (pre, later) = choose|pre: Seq<MessageView>, later: Map<Seq<char>, Seq<char>>|
                        #[trigger] export_from(msgs, j + 1, taken.1) == pre + export_from(msgs, i, later);
                    let head = seq![("assistant"@, Seq::<char>::empty(), None::<Seq<char>>, Some(taken.0), m.created_at)];
                    assert(export_from(msgs, j, results) == (head + pre) + export_from(msgs, i, later));
                },
                None => {
                    lemma_export_tail(msgs, j + 1, i, results);
                    let (pre, later) = choose|pre: Seq<MessageView>, later: Map<Seq<char>, Seq<char>>|
                        #[trigger] export_from(msgs, j + 1, results) == pre + export_from(msgs, i, later);
                    let head = seq![("assistant"@, m.content@, opt_string(m.thinking), None::<Seq<CallView>>, m.created_at)];
                    assert(export_from(msgs, j, results) == (head + pre) + export_from(msgs, i, later));
                },
            }
        } else if m.role@ == "tool"@ {
            lemma_export_tail(msgs, j + 1, i, results);
        } else {
            lemma_export_tail(msgs, j + 1, i, results);
            let (pre, later) = choose|pre: Seq<MessageView>, later: Map<Seq<char>, Seq<char>>|
                #[trigger] export_from(msgs, j + 1, results) == pre + export_from(msgs, i, later);
            let head = seq![(m.role@, m.content@, None::<Seq<char>>, None::<Seq<CallView>>, m.created_at)];
            assert(export_from(msgs, j, results) == (head + pre) + export_from(msgs, i, later));
        }
    }
}

/// An assistant answer that is not a record of tool calls is exported as itself: its text, its
/// reasoning (the model's thinking is never lost), no calls, and its time.
pub proof fn lemma_answers_keep_their_reasoning(msgs: Seq<Message>, i: int)
    requires
        0 <= i < msgs.len(),
        msgs[i].role@ == "assistant"@,
        recorded_calls_of(msgs[i].content@) is None,
    ensures
        exists|k: int|
            0 <= k < export_from(msgs, 0, recorded_results(msgs)).len() && #[trigger] export_from(
                msgs,
                0,
                recorded_results(msgs),
            )[k] == ("assistant"@, msgs[i].content@, opt_string(msgs[i].thinking), None::<Seq<CallView>>, msgs[i].created_at),
{
    lemma_export_tail(msgs, 0, i, recorded_results(msgs));
    let (pre, later) = choose|pre: Seq<MessageView>, later: Map<Seq<char>, Seq<char>>|
        #[trigger] export_from(msgs, 0, recorded_results(msgs)) == pre + export_from(msgs, i, later);
    let all = export_from(msgs, 0, recorded_results(msgs));
    let tail = export_from(msgs, i, later);
    assert(tail[0] == ("assistant"@, msgs[i].content@, opt_string(msgs[i].thinking), None::<Seq<CallView>>, msgs[i].created_at));
    assert(all[pre.len() as int] == tail[0]);
}

/// The messages of a conversation as exported, in order.
pub fn export_messages(msgs: &Vec<Message>) -> (r: Vec<ExportMessage>)
    ensures
        messages_view(r@) == export_from(msgs@, 0, recorded_results(msgs@)),
        forall|i: int|
            0 <= i < msgs@.len() && #[trigger] msgs@[i].role@ == "assistant"@ && recorded_calls_of(msgs@[i].content@)
                is None ==> exists|k: int|
                0 <= k < r@.len() && #[trigger] message_view(r@[k]) == (
                    "assistant"@,
                    msgs@[i].content@,
                    opt_string(msgs@[i].thinking),
                    None::<Seq<CallView>>,
                    msgs@[i].created_at,
                ),
{
    let mut results = TextMap::new();
    let mut j: usize = 0;
    assert(msgs@.take(0) =~= Seq::<Message>::empty());
    while j < msgs.len()
        invariant
            j <= msgs@.len(),
            results.view() == recorded_results(msgs@.take(j as int)),
        decreases msgs@.len() - j,
    {
        let m = &msgs[j];
        assert(msgs@.take(j + 1).drop_last() =~= msgs@.take(j as int));
        assert(msgs@.take(j + 1).last() == *m);
        if eq_str(m.role.as_str(), "tool") {
            if let Some(id) = &m.tool_call_id {
                results.insert(id.clone(), m.content.clone());
            }
        }
        j = j + 1;
    }
    assert(msgs@.take(j as int) =~= msgs@);
    let ghost all = recorded_results(msgs@);
    let mut out: Vec<ExportMessage> = Vec::new();
    let mut i: usize = 0;
    assert(messages_view(out@) =~= Seq::<MessageView>::empty());
    while i < msgs.len()
        invariant
            i <= msgs@.len(),
            export_from(msgs@, 0, all) == messages_view(out@) + export_from(
                msgs@,
                i as int,
                results.view(),
            ),
        decreases msgs@.len() - i,
    {
        let m = &msgs[i];
        let ghost before = messages_view(out@);
        let ghost rmap = results.view();
        if eq_str(m.role.as_str(), "assistant") {
            match recorded_calls(m.content.as_str()) {
                Some(entries) => {
                    let calls = take_calls(entries, &mut results);
                    let msg = ExportMessage {
                        role: "assistant".to_string(),
                        content: String::new(),
                        thinking: None,
                        tool_calls: Some(calls),
                        created_at: m.created_at,
                    };
                    let ghost mv = message_view(msg);
                    out.push(msg);
                    assert(messages_view(out@) =~= before.push(mv));
                    assert(before + export_from(msgs@, i as int, rmap) =~= messages_view(out@)
                        + export_from(msgs@, i + 1, results.view()));
                },
                None => {
                    let msg = ExportMessage {
                        role: "assistant".to_string(),
                        content: m.content.clone(),
                        thinking: clone_opt(&m.thinking),
                        tool_calls: None,
                        created_at: m.created_at,
                    };
                    let ghost mv = message_view(msg);
                    out.push(msg);
                    assert(messages_view(out@) =~= before.push(mv));
                    assert(before + export_from(msgs@, i as int, rmap) =~= messages_view(out@)
                        + export_from(msgs@, i + 1, results.view()));
                },
            }
        } else if !eq_str(m.role.as_str(), "tool") {
            let msg = ExportMessage {
                role: m.role.clone(),
                content: m.content.clone(),
                thinking: None,
                tool_calls: None,
                created_at: m.created_at,
            };
            let ghost mv = message_view(msg);
            out.push(msg);
            assert(messages_view(out@) =~= before.push(mv));
            assert(before + export_from(msgs@, i as int, rmap) =~= messages_view(out@) + export_from(
                msgs@,
                i + 1,
                results.view(),
            ));
        }
        i = i + 1;
    }
    assert(messages_view(out@) + Seq::<MessageView>::empty() =~= messages_view(out@));
    proof {
        assert forall|i: int|
            0 <= i < msgs@.len() && #[trigger] msgs@[i].role@ == "assistant"@ && recorded_calls_of(msgs@[i].content@)
                is None implies exists|k: int|
                0 <= k < out@.len() && #[trigger] message_view(out@[k]) == (
                    "assistant"@,
                    msgs@[i].content@,
                    opt_string(msgs@[i].thinking),
                    None::<Seq<CallView>>,
                    msgs@[i].created_at,
                ) by {
            lemma_answers_keep_their_reasoning(msgs@, i);
            let k = choose|k: int|
                0 <= k < export_from(msgs@, 0, recorded_results(msgs@)).len() && #[trigger] export_from(
                    msgs@,
                    0,
                    recorded_results(msgs@),
                )[k] == ("assistant"@, msgs@[i].content@, opt_string(msgs@[i].thinking), None::<Seq<CallView>>, msgs@[i].created_at);
            assert(messages_view(out@)[k] == message_view(out@[k]));
        }
    }
    out
}

// ------------------------------------------------------------------ Markdown

/// How a role is headed: `User` and `Assistant`, any other role as it is.
pub open spec fn role_heading(role: Seq<char>) -> Seq<char> {
    if role == "user"@ {
        "User"@
    } else if role == "assistant"@ {
        "Assistant"@
    } else {
        role
    }
}

/// One call in Markdown: its name, its arguments in a JSON block, and its result where one was
/// recorded.
pub open spec fn call_markdown(c: CallView) -> Seq<char> {
    "**Tool call:** `"@ + c.1 + "`\n\n```json\n"@ + c.2 + "\n```\n\n"@ + match c.3 {
        Some(r) => "**Result:**\n\n```\n"@ + r + "\n```\n\n"@,
        None => Seq::empty(),
    }
}

/// The calls in Markdown, in order.
pub open spec fn calls_markdown(cs: Seq<CallView>) -> Seq<char>
    decreases cs.len(),
{
    if cs.len() == 0 {
        Seq::empty()
    } else {
        calls_markdown(cs.drop_last()) + call_markdown(cs.last())
    }
}

/// One message in Markdown: a heading for its role, its reasoning folded away where it has any,
/// its text where it has any, then its calls, each with the result that answered it.
pub open spec fn message_markdown(m: MessageView) -> Seq<char> {
    "## "@ + role_heading(m.0) + "\n\n"@ + match m.2 {
        Some(t) => "<details><summary>Thinking</summary>\n\n"@ + t + "\n\n</details>\n\n"@,
        None => Seq::empty(),
    } + (if m.1.len() > 0 { m.1 + "\n\n"@ } else { Seq::empty() }) + match m.3 {
        Some(cs) => calls_markdown(cs),
        None => Seq::empty(),
    }
}

/// A conversation in Markdown: its title as the heading, then its messages in order.
pub open spec fn spec_markdown(title: Seq<char>, ms: Seq<MessageView>) -> Seq<char>
    decreases ms.len(),
{
    if ms.len() == 0 {
        "# "@ + title + "\n\n"@
    } else {
        spec_markdown(title, ms.drop_last()) + message_markdown(ms.last())
    }
}

fn call_md(c: &ExportToolCall) -> (r: String)
    ensures
        r@ == call_markdown(call_view(*c)),
{
    let mut t = concat("**Tool call:** `", c.name.as_str());
    t = concat(t.as_str(), "`\n\n```json\n");
    t = concat(t.as_str(), c.arguments.as_str());
    t = concat(t.as_str(), "\n```\n\n");
    match &c.result {
        Some(r) => {
            t = concat(t.as_str(), "**Result:**\n\n```\n");
            t = concat(t.as_str(), r.as_str());
            concat(t.as_str(), "\n```\n\n")
        },
        None => {
            proof {
                reveal_strlit("");
            }
            concat(t.as_str(), "")
        },
    }
}

#[verifier::rlimit(40)]
#[verifier::spinoff_prover]
fn message_md(m: &ExportMessage) -> (r: String)
    ensures
        r@ == message_markdown(message_view(*m)),
{
    proof {
        reveal_strlit("");
        reveal_strlit("user");
        reveal_strlit("assistant");
    }
    let heading = if eq_str(m.role.as_str(), "user") {
        "User".to_string()
    } else if eq_str(m.role.as_str(), "assistant") {
        "Assistant".to_string()
    } else {
        m.role.clone()
    };
    let mut t = concat(concat("## ", heading.as_str()).as_str(), "\n\n");
    match &m.thinking {
        Some(th) => {
            t = concat(t.as_str(), "<details><summary>Thinking</summary>\n\n");
            t = concat(t.as_str(), th.as_str());
            t = concat(t.as_str(), "\n\n</details>\n\n");
        },
        None => {
            t = concat(t.as_str(), "");
        },
    }
    let ghost before_text = t@;
    if m.content.unicode_len() > 0 {
        t = concat(concat(t.as_str(), m.content.as_str()).as_str(), "\n\n");
    } else {
        t = concat(t.as_str(), "");
    }
    match &m.tool_calls {
        Some(cs) => {
            let ghost cv = calls_view(cs@);
            let ghost start = t@;
            let mut i: usize = 0;
            assert(cv.take(0) =~= Seq::<CallView>::empty());
            while i < cs.len()
                invariant
                    i <= cs@.len(),
                    cv == calls_view(cs@),
                    t@ == start + calls_markdown(cv.take(i as int)),
                decreases cs@.len() - i,
            {
                assert(cv.take(i + 1).drop_last() =~= cv.take(i as int));
                assert(cv.take(i + 1).last() == call_view(cs@[i as int]));
                t = concat(t.as_str(), call_md(&cs[i]).as_str());
                i = i + 1;
            }
            assert(cv.take(i as int) =~= cv);
            t
        },
        None => concat(t.as_str(), ""),
    }
}

/// The conversation as the Markdown document it is exported to: the title as its heading, then
/// each exported message in order, a tool's result shown with the call it answered.
pub fn markdown(title: &str, messages: &Vec<ExportMessage>) -> (r: String)
    ensures
        r@ == spec_markdown(title@, messages_view(messages@)),
{
    let ghost mv = messages_view(messages@);
    let mut t = concat(concat("# ", title).as_str(), "\n\n");
    let mut i: usize = 0;
    assert(mv.take(0) =~= Seq::<MessageView>::empty());
    while i < messages.len()
        invariant
            i <= messages@.len(),
            mv == messages_view(messages@),
            t@ == spec_markdown(title@, mv.take(i as int)),
        decreases messages@.len() - i,
    {
        assert(mv.take(i + 1).drop_last() =~= mv.take(i as int));
        assert(mv.take(i + 1).last() == message_view(messages@[i as int]));
        t = concat(t.as_str(), message_md(&messages[i]).as_str());
        i = i + 1;
    }
    assert(mv.take(i as int) =~= mv);
    t
}

} // verus!
