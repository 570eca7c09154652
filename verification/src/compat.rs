//! An OpenAI-compatible answer as it streams in: each server-sent `data` chunk, read by
//! `serde_json`, folded into the answer text, the reasoning, the finish reason and the tool calls.
//! The shell reads the stream and shows the pieces each chunk gives.
use vstd::prelude::*;
use serde_json::Value;
use vstd::string::*;

use crate::stream::{
    drain, flush, pieces_view, with_delta, CallAccumulator, CallDelta, CallParts, PieceView, StreamPiece,
    ThinkSplitter,
};
use crate::text::{concat, opt_string};

verus! {

broadcast use vstd::string::group_string_axioms;

/// A tool-call fragment of a chunk: its `index`, `id`, `function.name` and `function.arguments`,
/// each where present.
#[derive(Debug)]
pub struct ChunkCall {
    pub index: Option<u64>,
    pub id: Option<String>,
    pub name: Option<String>,
    pub arguments: Option<String>,
}

/// A chunk as the fold reads it: the first choice's `finish_reason`, and its delta's
/// `reasoning_content`, `content` and `tool_calls`.
#[derive(Debug)]
pub struct Chunk {
    pub finish_reason: Option<String>,
    pub reasoning: Option<String>,
    pub content: Option<String>,
    pub tool_calls: Option<Vec<ChunkCall>>,
}

/// The view of a tool-call fragment.
pub type ChunkCallView = (Option<u64>, Option<Seq<char>>, Option<Seq<char>>, Option<Seq<char>>);

/// The view of a chunk.
pub type ChunkView = (Option<Seq<char>>, Option<Seq<char>>, Option<Seq<char>>, Option<Seq<ChunkCallView>>);

pub open spec fn chunk_call_view(c: ChunkCall) -> ChunkCallView {
    (c.index, opt_string(c.id), opt_string(c.name), opt_string(c.arguments))
}

pub open spec fn chunk_view(c: Chunk) -> ChunkView {
    (
        opt_string(c.finish_reason),
        opt_string(c.reasoning),
        opt_string(c.content),
        match c.tool_calls {
            Some(v) => Some(v@.map_values(|t: ChunkCall| chunk_call_view(t))),
            None => None,
        },
    )
}

/// What `serde_json::from_str` reads out of a chunk's `data`: under `choices[0]`, its
/// `finish_reason`, and under its `delta` the `reasoning_content`, `content` and `tool_calls`
/// (each entry's `index`, `id`, `function.name`, `function.arguments`), each where it is present
/// with the right kind. `None` where the data is not JSON.
pub uninterp spec fn sse_chunk(data: Seq<char>) -> Option<ChunkView>;

/// `serde_json::from_str` of a chunk's data, read for the fields the fold uses.
#[verifier::external_body]
fn decode_chunk(data: &str) -> (r: Option<Chunk>)
    ensures
        match r {
            Some(c) => sse_chunk(data@) == Some(chunk_view(c)),
            None => sse_chunk(data@) is None,
        },
{
    let v: Value = serde_json::from_str(data).ok()?;
    let c = &v["choices"][0];
    let d = &c["delta"];
    let s = |x: &Value| x.as_str().map(String::from);
    Some(Chunk {
        finish_reason: s(&c["finish_reason"]),
        reasoning: s(&d["reasoning_content"]),
        content: s(&d["content"]),
        tool_calls: d["tool_calls"].as_array().map(|a| a.iter().map(|t| ChunkCall {
            index: t["index"].as_u64(), id: s(&t["id"]), name: s(&t["function"]["name"]), arguments: s(&t["function"]["arguments"]),
        }).collect()),
    })
}

/// The answer text and reasoning after the pieces: answer pieces add to the text, reasoning
/// pieces to the reasoning.
pub open spec fn fold_pieces(content: Seq<char>, thinking: Seq<char>, ps: Seq<PieceView>) -> (Seq<char>, Seq<char>)
    decreases ps.len(),
{
    if ps.len() == 0 {
        (content, thinking)
    } else {
        let prev = fold_pieces(content, thinking, ps.drop_last());
        match ps.last() {
            PieceView::Visible(t) => (prev.0 + t, prev.1),
            PieceView::Thinking(t) => (prev.0, prev.1 + t),
            PieceView::ThinkingEnd => prev,
        }
    }
}

/// The calls after a chunk's fragments, in order (an entry without an index counts as index 0).
pub open spec fn fold_calls(m: Map<u64, CallParts>, cs: Seq<ChunkCallView>) -> Map<u64, CallParts>
    decreases cs.len(),
{
    if cs.len() == 0 {
        m
    } else {
        let c = cs.last();
        with_delta(
            fold_calls(m, cs.drop_last()),
            match c.0 {
                Some(i) => i,
                None => 0,
            },
            c.1,
            c.2,
            c.3,
        )
    }
}

/// The view of an answer streaming in: the text the splitter holds back and whether a reasoning
/// block is open, the calls by index, the answer text, the reasoning and the finish reason.
pub struct CompatView {
    pub held: Seq<char>,
    pub in_think: bool,
    pub calls: Map<u64, CallParts>,
    pub content: Seq<char>,
    pub thinking: Seq<char>,
    pub finish_reason: Seq<char>,
}

/// The reasoning piece a chunk's `reasoning_content` gives: none where it is absent or empty.
pub open spec fn reasoning_pieces(reasoning: Option<Seq<char>>) -> Seq<PieceView> {
    match reasoning {
        Some(t) => if t.len() > 0 { seq![PieceView::Thinking(t)] } else { Seq::empty() },
        None => Seq::empty(),
    }
}

/// What one chunk's data does to the answer, and the pieces to show, in order: data that is not
/// JSON changes nothing; otherwise a finish reason replaces the one so far, the reasoning is shown
/// and kept, the content goes through the reasoning splitter (its answer pieces add to the text,
/// its reasoning pieces to the reasoning), and the tool-call fragments add to the calls.
pub open spec fn spec_stream_step(s: CompatView, data: Seq<char>) -> (CompatView, Seq<PieceView>) {
    match sse_chunk(data) {
        None => (s, Seq::empty()),
        Some(c) => {
            let rp = reasoning_pieces(c.1);
            let d = match c.2 {
                Some(t) => drain(s.held + t, s.in_think),
                None => (Seq::empty(), s.held, s.in_think),
            };
            let ps = rp + d.0;
            let f = fold_pieces(s.content, s.thinking, ps);
            (
                CompatView {
                    held: d.1,
                    in_think: d.2,
                    calls: match c.3 {
                        Some(cs) => fold_calls(s.calls, cs),
                        None => s.calls,
                    },
                    content: f.0,
                    thinking: f.1,
                    finish_reason: match c.0 {
                        Some(r) => r,
                        None => s.finish_reason,
                    },
                },
                ps,
            )
        },
    }
}

/// The answer text and reasoning once what the splitter holds is told.
pub open spec fn finished(v: CompatView) -> (Seq<char>, Seq<char>) {
    fold_pieces(v.content, v.thinking, flush(v.held, v.in_think))
}

/// An OpenAI-compatible answer as it streams in.
pub struct CompatStream {
    splitter: ThinkSplitter,
    calls: CallAccumulator,
    content: String,
    thinking: String,
    finish_reason: String,
}

/// A streamed answer once its stream has ended.
#[derive(Debug)]
pub struct CompatOutput {
    pub content: String,
    /// The reasoning, where it is shown and there is any.
    pub thinking: Option<String>,
    /// The calls in index order: (index, id, name, arguments text).
    pub calls: Vec<(u64, String, String, String)>,
    pub finish_reason: String,
}

impl CompatStream {
    /// The view of the answer so far.
    pub closed spec fn view(&self) -> CompatView {
        CompatView {
            held: self.splitter.held(),
            in_think: self.splitter.thinking(),
            calls: self.calls.view(),
            content: self.content@,
            thinking: self.thinking@,
            finish_reason: self.finish_reason@,
        }
    }

    /// The calls are kept in order.
    pub closed spec fn well_formed(&self) -> bool {
        self.calls.well_formed()
    }

    /// A fresh answer.
    pub fn new() -> (r: CompatStream)
        ensures
            r.well_formed(),
            r.view() == (CompatView {
                held: Seq::empty(),
                in_think: false,
                calls: Map::empty(),
                content: Seq::empty(),
                thinking: Seq::empty(),
                finish_reason: Seq::empty(),
            }),
    {
        CompatStream {
            splitter: ThinkSplitter::new(),
            calls: CallAccumulator::new(),
            content: String::new(),
            thinking: String::new(),
            finish_reason: String::new(),
        }
    }

    fn take_pieces(&mut self, ps: &Vec<StreamPiece>)
        ensures
            final(self).calls == old(self).calls,
            final(self).splitter == old(self).splitter,
            final(self).finish_reason == old(self).finish_reason,
            (final(self).content@, final(self).thinking@) == fold_pieces(old(self).content@, old(self).thinking@, pieces_view(ps@)),
    {
        let ghost pv = pieces_view(ps@);
        let mut i: usize = 0;
        while i < ps.len()
            invariant
                i <= ps@.len(),
                pv == pieces_view(ps@),
                self.calls == old(self).calls,
                self.splitter == old(self).splitter,
                self.finish_reason == old(self).finish_reason,
                (self.content@, self.thinking@) == fold_pieces(old(self).content@, old(self).thinking@, pv.take(i as int)),
            decreases ps@.len() - i,
        {
            assert(pv.take(i + 1).drop_last() =~= pv.take(i as int));
            assert(pv.take(i + 1).last() == crate::stream::piece_view(ps@[i as int]));
            match &ps[i] {
                StreamPiece::Visible(t) => {
                    self.content = concat(self.content.as_str(), t.as_str());
                },
                StreamPiece::Thinking(t) => {
                    self.thinking = concat(self.thinking.as_str(), t.as_str());
                },
                StreamPiece::ThinkingEnd => {},
            }
            i = i + 1;
        }
        assert(pv.take(i as int) =~= pv);
    }

    /// Fold one chunk's data into the answer; the pieces to show, in order.
    pub fn step(&mut self, data: &str) -> (r: Vec<StreamPiece>)
        requires
            old(self).well_formed(),
        ensures
            final(self).well_formed(),
            (final(self).view(), pieces_view(r@)) == spec_stream_step(old(self).view(), data@),
    {
        let ghost s0 = self.view();
        let chunk = match decode_chunk(data) {
            Some(c) => c,
            None => {
                let none: Vec<StreamPiece> = Vec::new();
                assert(pieces_view(none@) =~= Seq::<PieceView>::empty());
                return none;
            },
        };
        let ghost cv = chunk_view(chunk);
        let Chunk { finish_reason, reasoning, content, tool_calls } = chunk;
        if let Some(fr) = finish_reason {
            self.finish_reason = fr;
        }
        let mut out: Vec<StreamPiece> = Vec::new();
        if let Some(t) = reasoning {
            if t.unicode_len() > 0 {
                out.push(StreamPiece::Thinking(t));
            }
        }
        assert(pieces_view(out@) =~= reasoning_pieces(cv.1));
        if let Some(t) = content {
            let mut d = self.splitter.feed(t.as_str());
            let ghost dv = pieces_view(d@);
            let ghost before = pieces_view(out@);
            out.append(&mut d);
            assert(pieces_view(out@) =~= before + dv);
        } else {
            assert(pieces_view(out@) =~= pieces_view(out@) + Seq::<PieceView>::empty());
        }
        self.take_pieces(&out);
        if let Some(cs) = tool_calls {
            let ghost csv = cs@.map_values(|t: ChunkCall| chunk_call_view(t));
            let ghost m0 = self.calls.view();
            let ghost mid = self.view();
            let mut i: usize = 0;
            while i < cs.len()
                invariant
                    i <= cs@.len(),
                    csv == cs@.map_values(|t: ChunkCall| chunk_call_view(t)),
                    self.calls.well_formed(),
                    self.calls.view() == fold_calls(m0, csv.take(i as int)),
                    self.splitter.held() == mid.held,
                    self.splitter.thinking() == mid.in_think,
                    self.content@ == mid.content,
                    self.thinking@ == mid.thinking,
                    self.finish_reason@ == mid.finish_reason,
                decreases cs@.len() - i,
            {
                assert(csv.take(i + 1).drop_last() =~= csv.take(i as int));
                assert(csv.take(i + 1).last() == chunk_call_view(cs@[i as int]));
                let c = &cs[i];
                let index = match c.index {
                    Some(k) => k,
                    None => 0,
                };
                self.calls.add(
                    CallDelta {
                        index,
                        id: crate::text::clone_opt(&c.id),
                        name: crate::text::clone_opt(&c.name),
                        arguments: crate::text::clone_opt(&c.arguments),
                    },
                );
                i = i + 1;
            }
            assert(csv.take(i as int) =~= csv);
        }
        out
    }

    /// The answer once the stream has ended: what the splitter still holds is told, the text and
    /// reasoning are complete, and the reasoning is kept only where it is shown and not empty;
    /// also the pieces to show last.
    pub fn finish(self, show_thinking: bool) -> (r: (CompatOutput, Vec<StreamPiece>))
        requires
            self.well_formed(),
        ensures
            pieces_view(r.1@) == flush(self.view().held, self.view().in_think),
            r.0.content@ == finished(self.view()).0,
            opt_string(r.0.thinking) == if show_thinking && finished(self.view()).1.len() > 0 {
                Some(finished(self.view()).1)
            } else {
                None
            },
            r.0.finish_reason@ == self.view().finish_reason,
            r.0.calls@.len() == self.view().calls.dom().len(),
            forall|i: int, j: int| 0 <= i < j < r.0.calls@.len() ==> #[trigger] r.0.calls@[i].0 < #[trigger] r.0.calls@[j].0,
            forall|i: int|
                0 <= i < r.0.calls@.len() ==> #[trigger] self.view().calls.dom().contains(r.0.calls@[i].0)
                    && self.view().calls[r.0.calls@[i].0] == (r.0.calls@[i].1@, r.0.calls@[i].2@, r.0.calls@[i].3@),
    {
        let ghost v0 = self.view();
        let mut me = self;
        let tail = me.splitter.finish();
        assert(pieces_view(tail@) == flush(v0.held, v0.in_think));
        me.take_pieces(&tail);
        assert(me.calls.view() == v0.calls);
        assert((me.content@, me.thinking@) == fold_pieces(v0.content, v0.thinking, flush(v0.held, v0.in_think)));
        let calls = me.calls.calls();
        assert forall|i: int| 0 <= i < calls@.len() implies #[trigger] v0.calls.dom().contains(calls@[i].0)
            && v0.calls[calls@[i].0] == (calls@[i].1@, calls@[i].2@, calls@[i].3@) by {
            assert(me.calls.view().dom().contains(calls@[i].0));
        }
        let thinking = if show_thinking && me.thinking.unicode_len() > 0 { Some(me.thinking) } else { None };
        (CompatOutput { content: me.content, thinking, calls, finish_reason: me.finish_reason }, tail)
    }
}

} // verus!
