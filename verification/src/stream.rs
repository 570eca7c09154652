//! The streamed answer of an OpenAI-compatible server: which reasoning setting is forwarded, and
//! how inline `<think>...</think>` blocks are split out of the content tokens as they arrive.
//!
//! A tag can arrive cut across two tokens, so the text that could still be the start of a tag
//! is held back until the next token shows what it is.
use vstd::prelude::*;
use vstd::string::*;

use crate::text::{chars_of, eq_str, find, find_chars, lemma_find_range, occurs_at, slice_to_vec_range, string_of};

use crate::text::opt_string;
verus! {

broadcast use vstd::string::group_string_axioms;

/// Per-model capability flags a provider's model list reports.
#[derive(Debug, Clone, Copy, PartialEq, Eq, Structural)]
pub struct ModelCaps {
    pub vision: bool,
    pub tools: bool,
    pub reasoning: bool,
}

// ------------------------------------------------------------------ bytes and characters

/// The UTF-8 length of a text.
pub open spec fn byte_len(s: Seq<char>) -> nat {
    vstd::utf8::encode_utf8(s).len()
}

/// The UTF-8 length of one character.
pub open spec fn char_width(c: char) -> nat {
    vstd::utf8::encode_scalar(c as u32).len()
}

/// How many leading characters of `s` fit in `limit` bytes.
pub open spec fn char_cut(s: Seq<char>, limit: int) -> nat
    decreases s.len(),
{
    if s.len() == 0 || char_width(s[0]) > limit {
        0
    } else {
        1 + char_cut(s.drop_first(), limit - char_width(s[0]))
    }
}

/// Every character fits exactly when the whole text fits.
pub proof fn lemma_char_cut_all(s: Seq<char>, limit: int)
    requires
        0 <= limit,
    ensures
        char_cut(s, limit) <= s.len(),
        (char_cut(s, limit) == s.len()) == (byte_len(s) <= limit),
    decreases s.len(),
{
    if s.len() > 0 {
        assert(byte_len(s) == char_width(s[0]) + byte_len(s.drop_first()));
        if char_width(s[0]) <= limit {
            lemma_char_cut_all(s.drop_first(), limit - char_width(s[0]));
        }
    }
}

/// How many leading characters fit in `limit` bytes.
pub fn chars_within(s: &[char], limit: usize) -> (r: usize)
    ensures
        r == char_cut(s@, limit as int),
        r <= s@.len(),
{
    let mut k: usize = 0;
    let mut used: usize = 0;
    assert(s@.skip(0) =~= s@);
    while k < s.len()
        invariant
            k <= s@.len(),
            used <= limit,
            char_cut(s@, limit as int) == k + char_cut(s@.skip(k as int), limit - used),
        decreases s@.len() - k,
    {
        let w = width_of(s[k]);
        assert(s@.skip(k as int)[0] == s@[k as int]);
        if w > limit - used {
            return k;
        }
        assert(s@.skip(k as int).drop_first() =~= s@.skip(k + 1));
        used = used + w;
        k = k + 1;
    }
    k
}

/// The largest index at or below `index` (capped at the length) that starts a character of the
/// UTF-8 bytes, or 0.
pub open spec fn boundary_floor(bytes: Seq<u8>, index: int) -> int
    decreases index,
{
    if index <= 0 {
        0
    } else if index > bytes.len() {
        boundary_floor(bytes, bytes.len() as int)
    } else if vstd::utf8::is_char_boundary(bytes, index) {
        index
    } else {
        boundary_floor(bytes, index - 1)
    }
}

/// The largest byte index at or below `index` that lies on a character boundary of `s`.
pub fn char_boundary_floor(s: &str, index: usize) -> (r: usize)
    requires
        s.spec_bytes().len() <= usize::MAX,
    ensures
        r == boundary_floor(s.spec_bytes(), index as int),
{
    let n = s.len();
    let mut i = if index < n { index } else { n };
    assert(n == s.spec_bytes().len());
    assert(boundary_floor(s.spec_bytes(), index as int) == boundary_floor(s.spec_bytes(), i as int));
    while i > 0 && !s.is_char_boundary(i)
        invariant
            i <= n,
            n == s.spec_bytes().len(),
            boundary_floor(s.spec_bytes(), index as int) == boundary_floor(s.spec_bytes(), i as int),
        decreases i,
    {
        i = i - 1;
    }
    i
}

fn width_of(c: char) -> (r: usize)
    ensures
        r == char_width(c),
        1 <= r <= 4,
{
    let v = c as u32;
    if v <= 0x7F {
        1
    } else if v <= 0x7FF {
        2
    } else if v <= 0xFFFF {
        3
    } else {
        4
    }
}

/// Appending a character appends its encoding.
pub proof fn lemma_encode_push(s: Seq<char>, c: char)
    ensures
        vstd::utf8::encode_utf8(s.push(c)) == vstd::utf8::encode_utf8(s) + vstd::utf8::encode_scalar(
            c as u32,
        ),
    decreases s.len(),
{
    if s.len() == 0 {
        assert(s.push(c).drop_first() =~= Seq::<char>::empty());
        assert(s.push(c)[0] == c);
        assert(vstd::utf8::encode_utf8(Seq::<char>::empty()) =~= Seq::<u8>::empty());
        assert(vstd::utf8::encode_utf8(s) =~= Seq::<u8>::empty());
        assert(vstd::utf8::encode_utf8(s.push(c)) =~= vstd::utf8::encode_scalar(c as u32));
    } else {
        lemma_encode_push(s.drop_first(), c);
        assert(s.push(c).drop_first() =~= s.drop_first().push(c));
        assert(s.push(c)[0] == s[0]);
        assert(vstd::utf8::encode_utf8(s.push(c)) =~= vstd::utf8::encode_utf8(s) + vstd::utf8::encode_scalar(
            c as u32,
        ));
    }
}

/// How many trailing characters of `s` it takes to reach `n` bytes (all of them where they do
/// not reach it).
pub open spec fn tail_chars(s: Seq<char>, n: int) -> nat
    decreases s.len(),
{
    if n <= 0 || s.len() == 0 {
        0
    } else {
        1 + tail_chars(s.drop_last(), n - char_width(s.last()))
    }
}

/// Whether `s` is longer than `limit` bytes.
fn longer_than(s: &[char], limit: usize) -> (r: bool)
    requires
        limit <= 16,
    ensures
        r == (byte_len(s@) > limit),
{
    let mut used: usize = 0;
    let mut i: usize = 0;
    assert(s@.take(0) =~= Seq::<char>::empty());
    while i < s.len()
        invariant
            i <= s@.len(),
            used == byte_len(s@.take(i as int)),
            used <= limit,
            limit <= 16,
        decreases s@.len() - i,
    {
        let w = width_of(s[i]);
        proof {
            lemma_encode_push(s@.take(i as int), s@[i as int]);
            assert(s@.take(i + 1) =~= s@.take(i as int).push(s@[i as int]));
        }
        if used + w > limit {
            proof {
                lemma_byte_len_prefix(s@, i + 1);
            }
            return true;
        }
        used = used + w;
        i = i + 1;
    }
    assert(s@.take(i as int) =~= s@);
    false
}

/// A prefix is no longer in bytes than the whole.
pub proof fn lemma_byte_len_prefix(s: Seq<char>, k: int)
    requires
        0 <= k <= s.len(),
    ensures
        byte_len(s.take(k)) <= byte_len(s),
    decreases s.len() - k,
{
    if k < s.len() {
        lemma_byte_len_prefix(s, k + 1);
        lemma_encode_push(s.take(k), s[k]);
        assert(s.take(k + 1) =~= s.take(k).push(s[k]));
    } else {
        assert(s.take(k) =~= s);
    }
}

/// How many trailing characters it takes to reach `n` bytes.
fn chars_from_end(s: &[char], n: usize) -> (r: usize)
    requires
        n <= 16,
    ensures
        r == tail_chars(s@, n as int),
        r <= s@.len(),
{
    let mut j: usize = s.len();
    let mut acc: usize = 0;
    assert(s@.take(j as int) =~= s@);
    while j > 0 && acc < n
        invariant
            j <= s@.len(),
            acc <= n + 4,
            n <= 16,
            tail_chars(s@, n as int) == (s@.len() - j) + tail_chars(s@.take(j as int), n - acc),
        decreases j,
    {
        let w = width_of(s[j - 1]);
        assert(s@.take(j as int).last() == s@[j - 1]);
        assert(s@.take(j as int).drop_last() =~= s@.take(j - 1));
        acc = acc + w;
        j = j - 1;
    }
    s.len() - j
}

// ------------------------------------------------------------------ settings

/// Whether reasoning is shown: always, unless the user chose `off`.
pub fn show_thinking(reasoning_effort: Option<&str>) -> (r: bool)
    ensures
        r == !(reasoning_effort matches Some(e) && e@ == "off"@),
{
    match reasoning_effort {
        Some(e) => !eq_str(e, "off"),
        None => true,
    }
}

/// The effort forwarded to the server: a graded value, never the `on`/`off` toggles (which are
/// the app's own, and left to the model's default).
pub fn forwarded_effort(reasoning_effort: Option<&str>) -> (r: Option<String>)
    ensures
        match reasoning_effort {
            Some(e) => if e@ == "on"@ || e@ == "off"@ {
                r is None
            } else {
                r matches Some(f) && f@ == e@
            },
            None => r is None,
        },
{
    match reasoning_effort {
        Some(e) => if eq_str(e, "on") || eq_str(e, "off") {
            None
        } else {
            Some(e.to_string())
        },
        None => None,
    }
}

// ------------------------------------------------------------------ think tags

/// `<think>`.
pub open spec fn open_tag() -> Seq<char> {
    seq!['<', 't', 'h', 'i', 'n', 'k', '>']
}

/// `</think>`.
pub open spec fn close_tag() -> Seq<char> {
    seq!['<', '/', 't', 'h', 'i', 'n', 'k', '>']
}

/// One thing the stream tells the window.
#[derive(Debug)]
pub enum StreamPiece {
    /// Answer text.
    Visible(String),
    /// Reasoning text.
    Thinking(String),
    /// A reasoning block closed.
    ThinkingEnd,
}

/// The view of a piece.
pub enum PieceView {
    Visible(Seq<char>),
    Thinking(Seq<char>),
    ThinkingEnd,
}

/// The view of a piece.
pub open spec fn piece_view(p: StreamPiece) -> PieceView {
    match p {
        StreamPiece::Visible(t) => PieceView::Visible(t@),
        StreamPiece::Thinking(t) => PieceView::Thinking(t@),
        StreamPiece::ThinkingEnd => PieceView::ThinkingEnd,
    }
}

/// The views of pieces.
pub open spec fn pieces_view(v: Seq<StreamPiece>) -> Seq<PieceView> {
    v.map_values(|p: StreamPiece| piece_view(p))
}

/// What can be told of the pending text: inside a reasoning block, everything up to a
/// `</think>` is reasoning, the tag closes the block, and the rest is read on; without a closing
/// tag, all but the last 8 bytes (a tag's length) are told, at a character boundary. Outside,
/// everything before a `<think>` is answer text (when there is any), the tag opens a block, and
/// the rest is read on; without an opening tag, all but the last 7 bytes are told. The result is
/// the pieces, the text still held back, and whether a block is open.
pub open spec fn drain(buf: Seq<char>, in_think: bool) -> (Seq<PieceView>, Seq<char>, bool)
    decreases buf.len(),
{
    if in_think {
        let e = find(buf, close_tag());
        if e >= 0 {
            proof {
                lemma_find_range(buf, close_tag(), 0);
            }
            let r = drain(buf.skip(e + 8), false);
            (seq![PieceView::Thinking(buf.take(e)), PieceView::ThinkingEnd] + r.0, r.1, r.2)
        } else if byte_len(buf) > 8 {
            let cut = buf.len() - tail_chars(buf, 8);
            (seq![PieceView::Thinking(buf.take(cut))], buf.skip(cut), true)
        } else {
            (Seq::empty(), buf, true)
        }
    } else {
        let s = find(buf, open_tag());
        if s >= 0 {
            proof {
                lemma_find_range(buf, open_tag(), 0);
            }
            let r = drain(buf.skip(s + 7), true);
            (
                (if s > 0 {
                    seq![PieceView::Visible(buf.take(s))]
                } else {
                    Seq::empty()
                }) + r.0,
                r.1,
                r.2,
            )
        } else if byte_len(buf) > 7 {
            let cut = buf.len() - tail_chars(buf, 7);
            (seq![PieceView::Visible(buf.take(cut))], buf.skip(cut), false)
        } else {
            (Seq::empty(), buf, false)
        }
    }
}

/// What the end of the stream tells of the text still held back: reasoning (closing the block)
/// inside an unclosed block, answer text otherwise; nothing when none is held back.
pub open spec fn flush(buf: Seq<char>, in_think: bool) -> Seq<PieceView> {
    if buf.len() == 0 {
        Seq::empty()
    } else if in_think {
        seq![PieceView::Thinking(buf), PieceView::ThinkingEnd]
    } else {
        seq![PieceView::Visible(buf)]
    }
}

/// Splits a stream's content tokens into answer text and reasoning.
#[derive(Debug)]
pub struct ThinkSplitter {
    pending: Vec<char>,
    in_think: bool,
}

fn open_tag_chars() -> (r: Vec<char>)
    ensures
        r@ == open_tag(),
{
    let r = vec!['<', 't', 'h', 'i', 'n', 'k', '>'];
    assert(r@ =~= open_tag());
    r
}

fn close_tag_chars() -> (r: Vec<char>)
    ensures
        r@ == close_tag(),
{
    let r = vec!['<', '/', 't', 'h', 'i', 'n', 'k', '>'];
    assert(r@ =~= close_tag());
    r
}

impl ThinkSplitter {
    /// The text held back.
    pub closed spec fn held(&self) -> Seq<char> {
        self.pending@
    }

    /// Whether a reasoning block is open.
    pub closed spec fn thinking(&self) -> bool {
        self.in_think
    }

    /// Nothing held back, outside any block.
    pub fn new() -> (r: ThinkSplitter)
        ensures
            r.held() == Seq::<char>::empty(),
            !r.thinking(),
    {
        ThinkSplitter { pending: Vec::new(), in_think: false }
    }

    /// Take one content token: what can be told now, in order.
    pub fn feed(&mut self, token: &str) -> (r: Vec<StreamPiece>)
        ensures
            (pieces_view(r@), final(self).held(), final(self).thinking()) == drain(
                old(self).held() + token@,
                old(self).thinking(),
            ),
    {
        let tcs = chars_of(token);
        let mut buf = self.pending.clone();
        let mut i: usize = 0;
        while i < tcs.len()
            invariant
                i <= tcs@.len(),
                buf@ == old(self).pending@ + tcs@.take(i as int),
            decreases tcs@.len() - i,
        {
            buf.push(tcs[i]);
            assert(tcs@.take(i + 1) =~= tcs@.take(i as int).push(tcs@[i as int]));
            i = i + 1;
        }
        assert(tcs@.take(i as int) =~= tcs@);
        let ghost start = buf@;
        let ghost start_state = self.in_think;
        let open = open_tag_chars();
        let close = close_tag_chars();
        let mut out: Vec<StreamPiece> = Vec::new();
        let mut in_think = self.in_think;
        assert(pieces_view(out@) =~= Seq::<PieceView>::empty());
        loop
            invariant
                start == old(self).held() + token@,
                start_state == old(self).thinking(),
                open@ == open_tag(),
                close@ == close_tag(),
                ({
                    let r = drain(buf@, in_think);
                    drain(start, start_state) == (pieces_view(out@) + r.0, r.1, r.2)
                }),
            decreases buf@.len(),
        {
            let ghost before = pieces_view(out@);
            let ghost b = buf@;
            if in_think {
                match find_chars(buf.as_slice(), close.as_slice()) {
                    Some(e) => {
                        proof {
                            lemma_find_range(b, close_tag(), 0);
                            assert(occurs_at(b, close_tag(), e as int));
                        }
                        let n = buf.len();
                        assert(e + 8 <= n);
                        let thought = slice_to_vec_range(buf.as_slice(), 0, e);
                        let rest = slice_to_vec_range(buf.as_slice(), e + 8, n);
                        let t = string_of(thought.as_slice());
                        assert(t@ =~= b.take(e as int));
                        out.push(StreamPiece::Thinking(t));
                        out.push(StreamPiece::ThinkingEnd);
                        assert(pieces_view(out@) =~= before + seq![
                            PieceView::Thinking(b.take(e as int)),
                            PieceView::ThinkingEnd,
                        ]);
                        assert(rest@ =~= b.skip(e + 8));
                        buf = rest;
                        in_think = false;
                        let ghost r = drain(buf@, in_think);
                        assert(before + (seq![PieceView::Thinking(b.take(e as int)), PieceView::ThinkingEnd] + r.0)
                            =~= pieces_view(out@) + r.0);
                    },
                    None => {
                        if longer_than(buf.as_slice(), 8) {
                            let n = buf.len();
                            let cut = n - chars_from_end(buf.as_slice(), 8);
                            let thought = slice_to_vec_range(buf.as_slice(), 0, cut);
                            let rest = slice_to_vec_range(buf.as_slice(), cut, n);
                            let t = string_of(thought.as_slice());
                            assert(t@ =~= b.take(cut as int));
                            out.push(StreamPiece::Thinking(t));
                            assert(pieces_view(out@) =~= before.push(PieceView::Thinking(b.take(cut as int))));
                            assert(rest@ =~= b.skip(cut as int));
                            buf = rest;
                            self.pending = buf;
                            self.in_think = true;
                            assert(pieces_view(out@) + Seq::<PieceView>::empty() =~= pieces_view(out@));
                            return out;
                        }
                        self.pending = buf;
                        self.in_think = true;
                        assert(pieces_view(out@) + Seq::<PieceView>::empty() =~= pieces_view(out@));
                        return out;
                    },
                }
            } else {
                match find_chars(buf.as_slice(), open.as_slice()) {
                    Some(s) => {
                        proof {
                            lemma_find_range(b, open_tag(), 0);
                            assert(occurs_at(b, open_tag(), s as int));
                        }
                        let n = buf.len();
                        assert(s + 7 <= n);
                        if s > 0 {
                            let visible = slice_to_vec_range(buf.as_slice(), 0, s);
                            let v = string_of(visible.as_slice());
                            assert(v@ =~= b.take(s as int));
                            out.push(StreamPiece::Visible(v));
                            assert(pieces_view(out@) =~= before.push(PieceView::Visible(b.take(s as int))));
                        }
                        let ghost mid = pieces_view(out@);
                        let rest = slice_to_vec_range(buf.as_slice(), s + 7, n);
                        assert(rest@ =~= b.skip(s + 7));
                        buf = rest;
                        in_think = true;
                        let ghost r = drain(buf@, in_think);
                        assert(before + ((if s > 0 {
                            seq![PieceView::Visible(b.take(s as int))]
                        } else {
                            Seq::<PieceView>::empty()
                        }) + r.0) =~= mid + r.0);
                    },
                    None => {
                        if longer_than(buf.as_slice(), 7) {
                            let n = buf.len();
                            let cut = n - chars_from_end(buf.as_slice(), 7);
                            let visible = slice_to_vec_range(buf.as_slice(), 0, cut);
                            let rest = slice_to_vec_range(buf.as_slice(), cut, n);
                            let v = string_of(visible.as_slice());
                            assert(v@ =~= b.take(cut as int));
                            out.push(StreamPiece::Visible(v));
                            assert(pieces_view(out@) =~= before.push(PieceView::Visible(b.take(cut as int))));
                            assert(rest@ =~= b.skip(cut as int));
                            buf = rest;
                            self.pending = buf;
                            self.in_think = false;
                            assert(pieces_view(out@) + Seq::<PieceView>::empty() =~= pieces_view(out@));
                            return out;
                        }
                        self.pending = buf;
                        self.in_think = false;
                        assert(pieces_view(out@) + Seq::<PieceView>::empty() =~= pieces_view(out@));
                        return out;
                    },
                }
            }
        }
    }

    /// The end of the stream: whatever is still held back, and nothing held back after.
    pub fn finish(&mut self) -> (r: Vec<StreamPiece>)
        ensures
            pieces_view(r@) == flush(old(self).held(), old(self).thinking()),
            final(self).held() == Seq::<char>::empty(),
            final(self).thinking() == old(self).thinking(),
    {
        let mut out: Vec<StreamPiece> = Vec::new();
        if self.pending.len() > 0 {
            let text = string_of(self.pending.as_slice());
            if self.in_think {
                out.push(StreamPiece::Thinking(text));
                out.push(StreamPiece::ThinkingEnd);
            } else {
                out.push(StreamPiece::Visible(text));
            }
        }
        proof {
            assert(pieces_view(out@) =~= flush(old(self).held(), old(self).thinking()));
        }
        self.pending = Vec::new();
        out
    }
}

// ------------------------------------------------------------------ streamed tool calls

/// What the stream has said so far of one tool call: its id, its function name, and its
/// arguments text.
pub type CallParts = (Seq<char>, Seq<char>, Seq<char>);

/// One fragment of a streamed tool call, for the call at `index`.
#[derive(Debug)]
pub struct CallDelta {
    pub index: u64,
    pub id: Option<String>,
    pub name: Option<String>,
    pub arguments: Option<String>,
}

/// A call after one fragment: a given id or name replaces the one so far, given arguments are
/// appended to those so far.
pub open spec fn apply_delta(parts: CallParts, id: Option<Seq<char>>, name: Option<Seq<char>>, args: Option<Seq<char>>) -> CallParts {
    (
        match id {
            Some(i) => i,
            None => parts.0,
        },
        match name {
            Some(n) => n,
            None => parts.1,
        },
        match args {
            Some(a) => parts.2 + a,
            None => parts.2,
        },
    )
}

/// The calls so far, by index, after one fragment (a call not seen before starts empty).
pub open spec fn with_delta(
    m: Map<u64, CallParts>,
    index: u64,
    id: Option<Seq<char>>,
    name: Option<Seq<char>>,
    args: Option<Seq<char>>,
) -> Map<u64, CallParts> {
    let before = if m.dom().contains(index) {
        m[index]
    } else {
        (Seq::empty(), Seq::empty(), Seq::empty())
    };
    m.insert(index, apply_delta(before, id, name, args))
}

/// The streamed tool calls, assembled fragment by fragment and kept in index order.
#[derive(Debug)]
pub struct CallAccumulator {
    calls: Vec<(u64, String, String, String)>,
}

/// The view of one assembled call.
pub open spec fn entry_view(e: (u64, String, String, String)) -> (u64, CallParts) {
    (e.0, (e.1@, e.2@, e.3@))
}

/// Indices strictly increase along the list.
pub open spec fn sorted_calls(s: Seq<(u64, String, String, String)>) -> bool {
    forall|i: int, j: int| 0 <= i < j < s.len() ==> #[trigger] s[i].0 < #[trigger] s[j].0
}

/// The calls of a list, by index.
pub open spec fn calls_view(s: Seq<(u64, String, String, String)>) -> Map<u64, CallParts> {
    Map::new(
        |k: u64| exists|i: int| 0 <= i < s.len() && #[trigger] s[i].0 == k,
        |k: u64| {
            let i = choose|i: int| 0 <= i < s.len() && #[trigger] s[i].0 == k;
            entry_view(s[i]).1
        },
    )
}

/// In a sorted list, the call under an index is the one at the position holding it.
proof fn lemma_view_at(s: Seq<(u64, String, String, String)>, t: int)
    requires
        sorted_calls(s),
        0 <= t < s.len(),
    ensures
        calls_view(s).dom().contains(s[t].0),
        calls_view(s)[s[t].0] == entry_view(s[t]).1,
{
    let k = s[t].0;
    assert(calls_view(s).dom().contains(k));
    let c = choose|c: int| 0 <= c < s.len() && #[trigger] s[c].0 == k;
    if c != t {
        if c < t {
            assert(s[c].0 < s[t].0);
        } else {
            assert(s[t].0 < s[c].0);
        }
    }
}

/// Replacing the call at a position replaces the call under its index.
proof fn lemma_view_update(s: Seq<(u64, String, String, String)>, k: int, e: (u64, String, String, String))
    requires
        sorted_calls(s),
        0 <= k < s.len(),
        s[k].0 == e.0,
    ensures
        sorted_calls(s.update(k, e)),
        calls_view(s.update(k, e)) == calls_view(s).insert(e.0, entry_view(e).1),
{
    let u = s.update(k, e);
    assert forall|i: int, j: int| 0 <= i < j < u.len() implies #[trigger] u[i].0 < #[trigger] u[j].0 by {
        assert(s[i].0 < s[j].0);
    }
    let want = calls_view(s).insert(e.0, entry_view(e).1);
    assert forall|key: u64| #[trigger] calls_view(u).dom().contains(key) <==> want.dom().contains(key) by {
        if calls_view(u).dom().contains(key) {
            let i = choose|i: int| 0 <= i < u.len() && #[trigger] u[i].0 == key;
            assert(s[i].0 == key);
        }
        if want.dom().contains(key) && key != e.0 {
            let i = choose|i: int| 0 <= i < s.len() && #[trigger] s[i].0 == key;
            assert(u[i].0 == key);
        }
        if key == e.0 {
            assert(u[k].0 == key);
        }
    }
    assert forall|key: u64| #[trigger] calls_view(u).dom().contains(key) implies calls_view(u)[key] == want[key] by {
        let i = choose|i: int| 0 <= i < u.len() && #[trigger] u[i].0 == key;
        lemma_view_at(u, i);
        if i != k {
            lemma_view_at(s, i);
        }
    }
    assert(calls_view(u) =~= want);
}

/// Inserting a call at its place in the order adds it under its (new) index.
proof fn lemma_view_insert(s: Seq<(u64, String, String, String)>, k: int, e: (u64, String, String, String))
    requires
        sorted_calls(s),
        0 <= k <= s.len(),
        forall|i: int| 0 <= i < k ==> #[trigger] s[i].0 < e.0,
        k < s.len() ==> e.0 < s[k].0,
    ensures
        sorted_calls(s.insert(k, e)),
        !calls_view(s).dom().contains(e.0),
        calls_view(s.insert(k, e)) == calls_view(s).insert(e.0, entry_view(e).1),
{
    let u = s.insert(k, e);
    assert forall|i: int, j: int| 0 <= i < j < u.len() implies #[trigger] u[i].0 < #[trigger] u[j].0 by {
        if i < k && j == k {
        } else if i < k && j > k {
            assert(s[i].0 < s[j - 1].0);
        } else if i == k && j > k {
            if j - 1 > k {
                assert(s[k].0 < s[j - 1].0);
            }
        } else if i > k {
            assert(s[i - 1].0 < s[j - 1].0);
        }
    }
    if calls_view(s).dom().contains(e.0) {
        let i = choose|i: int| 0 <= i < s.len() && #[trigger] s[i].0 == e.0;
        if i >= k {
            if i > k {
                assert(s[k].0 < s[i].0);
            }
        }
    }
    let want = calls_view(s).insert(e.0, entry_view(e).1);
    assert forall|key: u64| #[trigger] calls_view(u).dom().contains(key) <==> want.dom().contains(key) by {
        if calls_view(u).dom().contains(key) && key != e.0 {
            let i = choose|i: int| 0 <= i < u.len() && #[trigger] u[i].0 == key;
            if i < k {
                assert(s[i].0 == key);
            } else if i > k {
                assert(s[i - 1].0 == key);
            }
        }
        if want.dom().contains(key) && key != e.0 {
            let i = choose|i: int| 0 <= i < s.len() && #[trigger] s[i].0 == key;
            if i < k {
                assert(u[i].0 == key);
            } else {
                assert(u[i + 1].0 == key);
            }
        }
        if key == e.0 {
            assert(u[k].0 == key);
        }
    }
    assert forall|key: u64| #[trigger] calls_view(u).dom().contains(key) implies calls_view(u)[key] == want[key] by {
        let i = choose|i: int| 0 <= i < u.len() && #[trigger] u[i].0 == key;
        lemma_view_at(u, i);
        if i < k {
            lemma_view_at(s, i);
        } else if i > k {
            lemma_view_at(s, i - 1);
        }
    }
    assert(calls_view(u) =~= want);
}

impl CallAccumulator {
    /// Indices strictly increase.
    pub closed spec fn well_formed(&self) -> bool {
        sorted_calls(self.calls@)
    }

    /// The calls so far, by index.
    pub closed spec fn view(&self) -> Map<u64, CallParts> {
        calls_view(self.calls@)
    }

    /// No calls yet.
    pub fn new() -> (r: CallAccumulator)
        ensures
            r.well_formed(),
            r.view() == Map::<u64, CallParts>::empty(),
    {
        let r = CallAccumulator { calls: Vec::new() };
        assert(r.view() =~= Map::<u64, CallParts>::empty());
        r
    }

    /// Take one fragment.
    pub fn add(&mut self, delta: CallDelta)
        requires
            old(self).well_formed(),
        ensures
            final(self).well_formed(),
            final(self).view() == with_delta(
                old(self).view(),
                delta.index,
                opt_string(delta.id),
                opt_string(delta.name),
                opt_string(delta.arguments),
            ),
    {
        let ghost before = self.calls@;
        let ghost ids = opt_string(delta.id);
        let ghost names = opt_string(delta.name);
        let ghost argss = opt_string(delta.arguments);
        let mut k: usize = 0;
        while k < self.calls.len() && self.calls[k].0 < delta.index
            invariant
                k <= self.calls@.len(),
                self.calls@ == before,
                forall|i: int| 0 <= i < k ==> #[trigger] before[i].0 < delta.index,
            decreases self.calls@.len() - k,
        {
            k = k + 1;
        }
        if k < self.calls.len() && self.calls[k].0 == delta.index {
            let (idx, old_id, old_name, old_args) = self.calls.remove(k);
            let ghost old_parts = (old_id@, old_name@, old_args@);
            let id = match delta.id {
                Some(i) => i,
                None => old_id,
            };
            let name = match delta.name {
                Some(n) => n,
                None => old_name,
            };
            let args = match delta.arguments {
                Some(a) => crate::text::concat(old_args.as_str(), a.as_str()),
                None => old_args,
            };
            let ghost e = (idx, id, name, args);
            self.calls.insert(k, (idx, id, name, args));
            proof {
                assert(self.calls@ =~= before.update(k as int, e));
                lemma_view_at(before, k as int);
                lemma_view_update(before, k as int, e);
                assert(entry_view(e).1 == apply_delta(old_parts, ids, names, argss));
            }
        } else {
            proof {
                reveal_strlit("");
            }
            let id = match delta.id {
                Some(i) => i,
                None => String::new(),
            };
            let name = match delta.name {
                Some(n) => n,
                None => String::new(),
            };
            let args = match delta.arguments {
                Some(a) => a,
                None => String::new(),
            };
            let ghost e = (delta.index, id, name, args);
            self.calls.insert(k, (delta.index, id, name, args));
            proof {
                assert(self.calls@ =~= before.insert(k as int, e));
                lemma_view_insert(before, k as int, e);
                assert(entry_view(e).1 == apply_delta((Seq::empty(), Seq::empty(), Seq::empty()), ids, names, argss));
            }
        }
    }

    /// The assembled calls in index order: (index, id, name, arguments text). Every index is
    /// there once.
    pub fn calls(&self) -> (r: Vec<(u64, String, String, String)>)
        requires
            self.well_formed(),
        ensures
            r@.len() == self.view().dom().len(),
            forall|i: int, j: int| 0 <= i < j < r@.len() ==> #[trigger] r@[i].0 < #[trigger] r@[j].0,
            forall|i: int|
                0 <= i < r@.len() ==> #[trigger] self.view().dom().contains(r@[i].0) && self.view()[r@[i].0]
                    == (r@[i].1@, r@[i].2@, r@[i].3@),
    {
        let mut out: Vec<(u64, String, String, String)> = Vec::new();
        let mut i: usize = 0;
        while i < self.calls.len()
            invariant
                i <= self.calls@.len(),
                self.well_formed(),
                out@.len() == i,
                forall|t: int|
                    0 <= t < i ==> (#[trigger] out@[t]).0 == self.calls@[t].0 && out@[t].1@ == self.calls@[t].1@
                        && out@[t].2@ == self.calls@[t].2@ && out@[t].3@ == self.calls@[t].3@,
            decreases self.calls@.len() - i,
        {
            let e = (self.calls[i].0, self.calls[i].1.clone(), self.calls[i].2.clone(), self.calls[i].3.clone());
            out.push(e);
            i = i + 1;
        }
        proof {
            let v = self.view();
            assert forall|t: int| 0 <= t < out@.len() implies #[trigger] v.dom().contains(out@[t].0) && v[out@[t].0]
                == (out@[t].1@, out@[t].2@, out@[t].3@) by {
                lemma_view_at(self.calls@, t);
            }
            assert forall|a: int, b: int| 0 <= a < b < out@.len() implies #[trigger] out@[a].0 < #[trigger] out@[b].0 by {
                assert(self.calls@[a].0 < self.calls@[b].0);
            }
            lemma_keys_len(self.calls@);
            assert(v.dom() =~= keys_of(self.calls@));
        }
        out
    }
}

/// The indices of the assembled calls.
pub open spec fn keys_of(s: Seq<(u64, String, String, String)>) -> Set<u64> {
    Set::new(|k: u64| exists|i: int| 0 <= i < s.len() && #[trigger] s[i].0 == k)
}

proof fn lemma_keys_len(s: Seq<(u64, String, String, String)>)
    requires
        forall|i: int, j: int| 0 <= i < j < s.len() ==> #[trigger] s[i].0 < #[trigger] s[j].0,
    ensures
        keys_of(s).finite(),
        keys_of(s).len() == s.len(),
    decreases s.len(),
{
    if s.len() == 0 {
        assert(keys_of(s) =~= Set::<u64>::empty());
    } else {
        let init = s.drop_last();
        lemma_keys_len(init);
        assert forall|k: u64| #[trigger] keys_of(s).contains(k) <==> keys_of(init).insert(s.last().0).contains(k) by {
            if keys_of(s).contains(k) {
                let i = choose|i: int| 0 <= i < s.len() && #[trigger] s[i].0 == k;
                if i < s.len() - 1 {
                    assert(init[i].0 == k);
                }
            }
            if keys_of(init).contains(k) {
                let i = choose|i: int| 0 <= i < init.len() && #[trigger] init[i].0 == k;
                assert(s[i].0 == k);
            }
            if k == s.last().0 {
                assert(s[s.len() - 1].0 == k);
            }
        }
        assert(keys_of(s) =~= keys_of(init).insert(s.last().0));
        if keys_of(init).contains(s.last().0) {
            let i = choose|i: int| 0 <= i < init.len() && #[trigger] init[i].0 == s.last().0;
            assert(s[i].0 < s[s.len() - 1].0);
        }
    }
}

} // verus!
