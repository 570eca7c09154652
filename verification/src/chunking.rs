//! The reasoning splitter does not care where the provider cut its tokens: whatever the cuts,
//! it tells the same answer text, the same reasoning text and the same block ends, in the same
//! order, as it would for the whole text at once.
use vstd::prelude::*;

use crate::stream::{
    byte_len, char_width, close_tag, drain, flush, lemma_encode_push, open_tag, tail_chars,
    PieceView,
};
use crate::text::{find, lemma_find_range, occurs_at};

verus! {

/// One character of answer text, one of reasoning (each by its code point), or a reasoning
/// block's end.
pub enum Told {
    Answer(u32),
    Reasoning(u32),
    BlockEnd,
}

/// A text, character by character, as answer or as reasoning.
pub open spec fn text_told(t: Seq<char>, reasoning: bool) -> Seq<Told>
    decreases t.len(),
{
    if t.len() == 0 {
        Seq::empty()
    } else {
        text_told(t.drop_last(), reasoning).push(
            if reasoning { Told::Reasoning(t.last() as u32) } else { Told::Answer(t.last() as u32) },
        )
    }
}

proof fn lemma_text_told_concat(a: Seq<char>, b: Seq<char>, reasoning: bool)
    ensures
        text_told(a + b, reasoning) == text_told(a, reasoning) + text_told(b, reasoning),
    decreases b.len(),
{
    if b.len() == 0 {
        assert(a + b =~= a);
        assert(text_told(a, reasoning) + text_told(b, reasoning) =~= text_told(a, reasoning));
    } else {
        lemma_text_told_concat(a, b.drop_last(), reasoning);
        let ab = a + b;
        assert(ab.drop_last() =~= a + b.drop_last());
        assert(ab.last() == b.last());
        let ev = if reasoning { Told::Reasoning(b.last() as u32) } else { Told::Answer(b.last() as u32) };
        assert(text_told(ab, reasoning) == text_told(ab.drop_last(), reasoning).push(ev));
        assert(text_told(b, reasoning) == text_told(b.drop_last(), reasoning).push(ev));
        assert(text_told(ab, reasoning) == (text_told(a, reasoning) + text_told(b.drop_last(), reasoning)).push(ev));
        assert((text_told(a, reasoning) + text_told(b.drop_last(), reasoning)).push(ev)
            =~= text_told(a, reasoning) + text_told(b.drop_last(), reasoning).push(ev));
    }
}

proof fn lemma_text_told_empty(t: Seq<char>, reasoning: bool)
    requires
        t.len() == 0,
    ensures
        text_told(t, reasoning) == Seq::<Told>::empty(),
{
}

proof fn lemma_told_one(p: PieceView)
    ensures
        told(seq![p]) == piece_told(p),
{
    assert(seq![p].drop_last() =~= Seq::<PieceView>::empty());
    assert(told(Seq::<PieceView>::empty()) =~= Seq::<Told>::empty());
    assert(told(seq![p]) =~= piece_told(p));
}

proof fn lemma_told_two(p: PieceView, q: PieceView)
    ensures
        told(seq![p, q]) == piece_told(p) + piece_told(q),
{
    assert(seq![p, q].drop_last() =~= seq![p]);
    lemma_told_one(p);
}

/// What one piece tells.
pub open spec fn piece_told(p: PieceView) -> Seq<Told> {
    match p {
        PieceView::Visible(t) => text_told(t, false),
        PieceView::Thinking(t) => text_told(t, true),
        PieceView::ThinkingEnd => seq![Told::BlockEnd],
    }
}

/// What a list of pieces tells, in order.
pub open spec fn told(ps: Seq<PieceView>) -> Seq<Told>
    decreases ps.len(),
{
    if ps.len() == 0 {
        Seq::empty()
    } else {
        told(ps.drop_last()) + piece_told(ps.last())
    }
}

/// What a whole text tells, read at once to its end: outside a block, the text before a
/// `<think>` is answer; inside, the text before a `</think>` is reasoning and the tag ends the
/// block; a block left open at the end ends there when it holds any text.
pub open spec fn whole_told(buf: Seq<char>, in_think: bool) -> Seq<Told>
    decreases buf.len(),
{
    if in_think {
        let e = find(buf, close_tag());
        if e >= 0 {
            proof {
                lemma_find_range(buf, close_tag(), 0);
            }
            text_told(buf.take(e), true) + seq![Told::BlockEnd] + whole_told(buf.skip(e + 8), false)
        } else if buf.len() > 0 {
            text_told(buf, true) + seq![Told::BlockEnd]
        } else {
            Seq::empty()
        }
    } else {
        let s = find(buf, open_tag());
        if s >= 0 {
            proof {
                lemma_find_range(buf, open_tag(), 0);
            }
            text_told(buf.take(s), false) + whole_told(buf.skip(s + 7), true)
        } else {
            text_told(buf, false)
        }
    }
}

/// The tokens, joined.
pub open spec fn joined(toks: Seq<Seq<char>>) -> Seq<char>
    decreases toks.len(),
{
    if toks.len() == 0 {
        Seq::empty()
    } else {
        toks[0] + joined(toks.drop_first())
    }
}

/// The pieces a splitter holding `h` (in a block or not) tells as it is fed the tokens, with
/// what it holds after.
pub open spec fn fed(h: Seq<char>, in_think: bool, toks: Seq<Seq<char>>) -> (Seq<PieceView>, Seq<char>, bool)
    decreases toks.len(),
{
    if toks.len() == 0 {
        (Seq::empty(), h, in_think)
    } else {
        let d = drain(h + toks[0], in_think);
        let r = fed(d.1, d.2, toks.drop_first());
        (d.0 + r.0, r.1, r.2)
    }
}

/// What a fresh splitter tells when fed the tokens one by one and then finished: the pieces that
/// [`crate::stream::ThinkSplitter::feed`] returns for each token in turn (its `ensures` is one
/// `drain`), then those of [`crate::stream::ThinkSplitter::finish`] (one `flush`).
pub open spec fn stream_told(toks: Seq<Seq<char>>) -> Seq<Told> {
    let r = fed(Seq::empty(), false, toks);
    told(r.0 + flush(r.1, r.2))
}

/// The tag a splitter in that mode looks for.
pub open spec fn awaited(in_think: bool) -> Seq<char> {
    if in_think { close_tag() } else { open_tag() }
}

proof fn lemma_told_concat(a: Seq<PieceView>, b: Seq<PieceView>)
    ensures
        told(a + b) == told(a) + told(b),
    decreases b.len(),
{
    if b.len() == 0 {
        assert(a + b =~= a);
    } else {
        lemma_told_concat(a, b.drop_last());
        assert((a + b).drop_last() =~= a + b.drop_last());
        assert((a + b).last() == b.last());
    }
}

proof fn lemma_width(c: char)
    ensures
        char_width(c) >= 1,
        (c as u32) <= 0x7F ==> char_width(c) == 1,
{
}

proof fn lemma_byte_len_push(s: Seq<char>, c: char)
    ensures
        byte_len(s.push(c)) == byte_len(s) + char_width(c),
{
    lemma_encode_push(s, c);
}

/// Holding back the last `n` bytes' worth of characters holds back at least `n` bytes.
proof fn lemma_tail_bytes(s: Seq<char>, n: int)
    requires
        n > 0,
        byte_len(s) >= n,
    ensures
        tail_chars(s, n) <= s.len(),
        byte_len(s.skip(s.len() - tail_chars(s, n))) >= n,
    decreases s.len(),
{
    if s.len() == 0 {
        assert(s =~= Seq::<char>::empty());
        assert(byte_len(s) == 0) by {
            assert(vstd::utf8::encode_utf8(Seq::<char>::empty()) =~= Seq::<u8>::empty());
        }
    } else {
        let p = s.drop_last();
        let c = s.last();
        assert(s =~= p.push(c));
        lemma_byte_len_push(p, c);
        lemma_width(c);
        let w = char_width(c) as int;
        if n - w <= 0 {
            assert(tail_chars(p, n - w) == 0);
            assert(s.skip(s.len() - 1) =~= Seq::<char>::empty().push(c));
            lemma_byte_len_push(Seq::<char>::empty(), c);
            assert(byte_len(Seq::<char>::empty()) == 0) by {
                assert(vstd::utf8::encode_utf8(Seq::<char>::empty()) =~= Seq::<u8>::empty());
            }
        } else {
            lemma_tail_bytes(p, n - w);
            let t = tail_chars(p, n - w);
            assert(s.skip(s.len() - (1 + t)) =~= p.skip(p.len() - t).push(c));
            lemma_byte_len_push(p.skip(p.len() - t), c);
        }
    }
}

/// Characters of one byte each take as many bytes as they are.
proof fn lemma_ascii_bytes(u: Seq<char>)
    requires
        forall|i: int| 0 <= i < u.len() ==> char_width(#[trigger] u[i]) == 1,
    ensures
        byte_len(u) == u.len(),
    decreases u.len(),
{
    if u.len() == 0 {
        assert(vstd::utf8::encode_utf8(u) =~= Seq::<u8>::empty());
    } else {
        let p = u.drop_last();
        assert(u =~= p.push(u.last()));
        assert forall|i: int| 0 <= i < p.len() implies char_width(#[trigger] p[i]) == 1 by {
            assert(p[i] == u[i]);
        }
        lemma_ascii_bytes(p);
        lemma_byte_len_push(p, u.last());
        assert(char_width(u.last()) == 1) by {
            assert(u.last() == u[u.len() - 1]);
        }
    }
}

proof fn lemma_tags_ascii()
    ensures
        forall|i: int| 0 <= i < 7 ==> char_width(#[trigger] open_tag()[i]) == 1,
        forall|i: int| 0 <= i < 8 ==> char_width(#[trigger] close_tag()[i]) == 1,
{
    assert forall|i: int| 0 <= i < 7 implies char_width(#[trigger] open_tag()[i]) == 1 by {
        lemma_width(open_tag()[i]);
    }
    assert forall|i: int| 0 <= i < 8 implies char_width(#[trigger] close_tag()[i]) == 1 by {
        lemma_width(close_tag()[i]);
    }
}

/// A tag found in the text is found at the same place once more text follows.
proof fn lemma_find_prefix(buf: Seq<char>, rest: Seq<char>, p: Seq<char>)
    requires
        find(buf, p) >= 0,
    ensures
        find(buf + rest, p) == find(buf, p),
{
    let x = buf + rest;
    lemma_find_range(buf, p, 0);
    lemma_find_range(x, p, 0);
    let e = find(buf, p);
    assert(x.subrange(e, e + p.len()) =~= buf.subrange(e, e + p.len()));
    assert(occurs_at(x, p, e));
    let f = find(x, p);
    if f < e {
        assert(x.subrange(f, f + p.len()) =~= buf.subrange(f, f + p.len()));
        assert(occurs_at(buf, p, f));
    }
}

/// Skipping a stretch where the tag does not start shifts where it is found.
proof fn lemma_find_skip(x: Seq<char>, p: Seq<char>, k: int)
    requires
        0 <= k <= x.len(),
        forall|j: int| 0 <= j < k ==> !occurs_at(x, p, j),
    ensures
        find(x, p) == -1 ==> find(x.skip(k), p) == -1,
        find(x, p) >= 0 ==> find(x.skip(k), p) == find(x, p) - k,
{
    let y = x.skip(k);
    lemma_find_range(x, p, 0);
    lemma_find_range(y, p, 0);
    assert forall|j: int| 0 <= j implies occurs_at(y, p, j) == occurs_at(x, p, j + k) by {
        if j + p.len() <= y.len() {
            assert(y.subrange(j, j + p.len()) =~= x.subrange(j + k, j + k + p.len()));
        }
    }
    let f = find(x, p);
    let g = find(y, p);
    if g >= 0 {
        assert(occurs_at(x, p, g + k));
        if f >= 0 && f < g + k {
            assert(f >= k);
            assert(occurs_at(y, p, f - k));
        }
    }
    if f >= 0 {
        assert(f >= k);
        assert(occurs_at(y, p, f - k));
    }
}

/// No tag starts before the held-back tail: one that did would either lie in the text already
/// read or reach into the tail, which holds more bytes than a tag's prefix.
proof fn lemma_no_tag_before_tail(buf: Seq<char>, rest: Seq<char>, p: Seq<char>, n: int)
    requires
        p.len() == n,
        n > 0,
        forall|i: int| 0 <= i < n ==> char_width(#[trigger] p[i]) == 1,
        find(buf, p) == -1,
        byte_len(buf) > n,
    ensures
        forall|j: int| 0 <= j < buf.len() - tail_chars(buf, n) ==> !occurs_at(buf + rest, p, j),
{
    let x = buf + rest;
    lemma_find_range(buf, p, 0);
    lemma_tail_bytes(buf, n);
    let cut = buf.len() - tail_chars(buf, n);
    assert forall|j: int| 0 <= j < cut implies !occurs_at(x, p, j) by {
        if occurs_at(x, p, j) {
            if j + n <= buf.len() {
                assert(x.subrange(j, j + n) =~= buf.subrange(j, j + n));
                assert(occurs_at(buf, p, j));
            } else {
                let tail = buf.skip(cut);
                assert forall|i: int| 0 <= i < tail.len() implies char_width(#[trigger] tail[i]) == 1 by {
                    assert(tail[i] == buf[cut + i]);
                    assert(buf[cut + i] == x[cut + i]);
                    assert(x.subrange(j, j + n)[cut + i - j] == x[cut + i]);
                    assert(p[cut + i - j] == x[cut + i]);
                }
                lemma_ascii_bytes(tail);
            }
        }
    }
}

/// No tag starts anywhere in a suffix of a text that has none.
proof fn lemma_suffix_no_tag(buf: Seq<char>, p: Seq<char>, k: int)
    requires
        0 <= k <= buf.len(),
        find(buf, p) == -1,
    ensures
        find(buf.skip(k), p) == -1,
{
    lemma_find_range(buf, p, 0);
    lemma_find_skip(buf, p, k);
}

/// What is held after a drain holds no tag of the mode it is left in.
proof fn lemma_drain_holds_no_tag(buf: Seq<char>, in_think: bool)
    ensures
        find(drain(buf, in_think).1, awaited(drain(buf, in_think).2)) == -1,
    decreases buf.len(),
{
    if in_think {
        let e = find(buf, close_tag());
        lemma_find_range(buf, close_tag(), 0);
        if e >= 0 {
            lemma_drain_holds_no_tag(buf.skip(e + 8), false);
        } else if byte_len(buf) > 8 {
            lemma_tail_bytes(buf, 8);
            lemma_suffix_no_tag(buf, close_tag(), buf.len() - tail_chars(buf, 8));
        }
    } else {
        let s = find(buf, open_tag());
        lemma_find_range(buf, open_tag(), 0);
        if s >= 0 {
            lemma_drain_holds_no_tag(buf.skip(s + 7), true);
        } else if byte_len(buf) > 7 {
            lemma_tail_bytes(buf, 7);
            lemma_suffix_no_tag(buf, open_tag(), buf.len() - tail_chars(buf, 7));
        }
    }
}

/// Telling the held-back part of a text now, or with the rest of the text, tells the same.
proof fn lemma_tail_told(buf: Seq<char>, rest: Seq<char>, in_think: bool, cut: int)
    requires
        0 < cut <= buf.len() || (0 <= cut <= buf.len() && buf.len() - cut > 0),
        forall|j: int| 0 <= j < cut ==> !occurs_at(buf + rest, awaited(in_think), j),
        buf.len() - cut > 0,
    ensures
        text_told(buf.take(cut), in_think) + whole_told(buf.skip(cut) + rest, in_think)
            == whole_told(buf + rest, in_think),
{
    let x = buf + rest;
    let y = buf.skip(cut) + rest;
    let p = awaited(in_think);
    assert(y =~= x.skip(cut));
    lemma_find_skip(x, p, cut);
    lemma_find_range(x, p, 0);
    let f = find(x, p);
    let n = p.len() as int;
    if f >= 0 {
        assert(f >= cut);
        assert(x.take(f) =~= buf.take(cut) + y.take(f - cut));
        assert(y.skip(f - cut + n) =~= x.skip(f + n));
        lemma_text_told_concat(buf.take(cut), y.take(f - cut), in_think);
        if in_think {
            assert(whole_told(y, true) == text_told(y.take(f - cut), true) + seq![Told::BlockEnd] + whole_told(y.skip(f - cut + 8), false));
            assert(whole_told(x, true) == text_told(x.take(f), true) + seq![Told::BlockEnd] + whole_told(x.skip(f + 8), false));
            assert(text_told(buf.take(cut), true) + whole_told(y, true) =~= whole_told(x, true));
        } else {
            assert(whole_told(y, false) == text_told(y.take(f - cut), false) + whole_told(y.skip(f - cut + 7), true));
            assert(whole_told(x, false) == text_told(x.take(f), false) + whole_told(x.skip(f + 7), true));
            assert(text_told(buf.take(cut), false) + whole_told(y, false) =~= whole_told(x, false));
        }
    } else {
        assert(x =~= buf.take(cut) + y);
        lemma_text_told_concat(buf.take(cut), y, in_think);
        if in_think {
            assert(y.len() > 0);
            assert(text_told(buf.take(cut), true) + whole_told(y, true) =~= whole_told(x, true));
        } else {
            assert(text_told(buf.take(cut), false) + whole_told(y, false) =~= whole_told(x, false));
        }
    }
}

/// One drain tells now exactly what the whole text would have told before what it holds back.
proof fn lemma_drain_tells(buf: Seq<char>, in_think: bool, rest: Seq<char>)
    ensures
        ({
            let d = drain(buf, in_think);
            told(d.0) + whole_told(d.1 + rest, d.2) == whole_told(buf + rest, in_think)
        }),
    decreases buf.len(),
{
    let x = buf + rest;
    lemma_tags_ascii();
    if in_think {
        let e = find(buf, close_tag());
        lemma_find_range(buf, close_tag(), 0);
        if e >= 0 {
            lemma_find_prefix(buf, rest, close_tag());
            let b2 = buf.skip(e + 8);
            lemma_drain_tells(b2, false, rest);
            let r = drain(b2, false);
            let head = seq![PieceView::Thinking(buf.take(e)), PieceView::ThinkingEnd];
            lemma_told_concat(head, r.0);
            lemma_told_two(PieceView::Thinking(buf.take(e)), PieceView::ThinkingEnd);
            assert(x.take(e) =~= buf.take(e));
            assert(x.skip(e + 8) =~= b2 + rest);
        } else if byte_len(buf) > 8 {
            lemma_no_tag_before_tail(buf, rest, close_tag(), 8);
            lemma_tail_bytes(buf, 8);
            let cut = buf.len() - tail_chars(buf, 8);
            assert(buf.skip(cut).len() > 0) by {
                if buf.skip(cut).len() == 0 {
                    assert(buf.skip(cut) =~= Seq::<char>::empty());
                    assert(vstd::utf8::encode_utf8(Seq::<char>::empty()) =~= Seq::<u8>::empty());
                }
            }
            lemma_tail_told(buf, rest, true, cut);
            lemma_told_one(PieceView::Thinking(buf.take(cut)));
        } else {
            assert(told(Seq::<PieceView>::empty()) =~= Seq::<Told>::empty());
        }
    } else {
        let s = find(buf, open_tag());
        lemma_find_range(buf, open_tag(), 0);
        if s >= 0 {
            lemma_find_prefix(buf, rest, open_tag());
            let b2 = buf.skip(s + 7);
            lemma_drain_tells(b2, true, rest);
            let r = drain(b2, true);
            let head: Seq<PieceView> = if s > 0 {
                seq![PieceView::Visible(buf.take(s))]
            } else {
                Seq::empty()
            };
            lemma_told_concat(head, r.0);
            if s > 0 {
                lemma_told_one(PieceView::Visible(buf.take(s)));
            } else {
                assert(told(head) =~= Seq::<Told>::empty());
                lemma_text_told_empty(buf.take(s), false);
            }
            assert(x.take(s) =~= buf.take(s));
            assert(x.skip(s + 7) =~= b2 + rest);
        } else if byte_len(buf) > 7 {
            lemma_no_tag_before_tail(buf, rest, open_tag(), 7);
            lemma_tail_bytes(buf, 7);
            let cut = buf.len() - tail_chars(buf, 7);
            assert(buf.skip(cut).len() > 0) by {
                if buf.skip(cut).len() == 0 {
                    assert(buf.skip(cut) =~= Seq::<char>::empty());
                    assert(vstd::utf8::encode_utf8(Seq::<char>::empty()) =~= Seq::<u8>::empty());
                }
            }
            lemma_tail_told(buf, rest, false, cut);
            lemma_told_one(PieceView::Visible(buf.take(cut)));
        } else {
            assert(told(Seq::<PieceView>::empty()) =~= Seq::<Told>::empty());
        }
    }
}

/// The end of the stream tells what the held text would have told as the text's end.
proof fn lemma_flush_tells(h: Seq<char>, in_think: bool)
    requires
        find(h, awaited(in_think)) == -1,
    ensures
        told(flush(h, in_think)) == whole_told(h, in_think),
{
    let ps = flush(h, in_think);
    if h.len() == 0 {
        assert(told(ps) =~= Seq::<Told>::empty());
        lemma_text_told_empty(h, false);
    } else if in_think {
        lemma_told_two(PieceView::Thinking(h), PieceView::ThinkingEnd);
    } else {
        lemma_told_one(PieceView::Visible(h));
    }
}

proof fn lemma_fed_tells(h: Seq<char>, in_think: bool, toks: Seq<Seq<char>>)
    requires
        find(h, awaited(in_think)) == -1,
    ensures
        ({
            let r = fed(h, in_think, toks);
            told(r.0 + flush(r.1, r.2)) == whole_told(h + joined(toks), in_think)
        }),
    decreases toks.len(),
{
    if toks.len() == 0 {
        lemma_flush_tells(h, in_think);
        assert(h + joined(toks) =~= h);
        assert(Seq::<PieceView>::empty() + flush(h, in_think) =~= flush(h, in_think));
    } else {
        let tail = toks.drop_first();
        let buf = h + toks[0];
        let d = drain(buf, in_think);
        lemma_drain_tells(buf, in_think, joined(tail));
        lemma_drain_holds_no_tag(buf, in_think);
        lemma_fed_tells(d.1, d.2, tail);
        let r = fed(d.1, d.2, tail);
        lemma_told_concat(d.0, r.0 + flush(r.1, r.2));
        assert(d.0 + r.0 + flush(r.1, r.2) =~= d.0 + (r.0 + flush(r.1, r.2)));
        assert(h + joined(toks) =~= buf + joined(tail));
    }
}

/// However the text is cut into tokens, feeding them one by one to a fresh splitter and then
/// finishing it tells the same answer text, reasoning text and block ends, in the same order,
/// as reading the whole text at once.
pub proof fn lemma_cuts_do_not_matter(toks: Seq<Seq<char>>)
    ensures
        stream_told(toks) == whole_told(joined(toks), false),
{
    assert(find(Seq::<char>::empty(), open_tag()) == -1) by {
        lemma_find_range(Seq::<char>::empty(), open_tag(), 0);
        if find(Seq::<char>::empty(), open_tag()) >= 0 {
            assert(occurs_at(Seq::<char>::empty(), open_tag(), find(Seq::<char>::empty(), open_tag())));
        }
    }
    lemma_fed_tells(Seq::empty(), false, toks);
    assert(Seq::<char>::empty() + joined(toks) =~= joined(toks));
}

/// Two ways of cutting the same text into tokens tell the same.
pub proof fn lemma_same_text_same_story(a: Seq<Seq<char>>, b: Seq<Seq<char>>)
    requires
        joined(a) == joined(b),
    ensures
        stream_told(a) == stream_told(b),
{
    lemma_cuts_do_not_matter(a);
    lemma_cuts_do_not_matter(b);
}

} // verus!
