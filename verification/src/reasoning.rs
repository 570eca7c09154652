//! Output a model stranded in the reasoning channel.
//!
//! A chat template that opens `<think>` in the prompt itself starts generation inside the
//! reasoning block, and a model that never closes it ends its turn with everything it wrote for
//! the user in the reasoning field and nothing in the content. Two things get stranded that way:
//! tool calls in the model's own XML form, which are recovered here, and the final answer,
//! which is promoted.
use vstd::prelude::*;
use vstd::string::*;

use crate::text::{
    chars_of, concat, contains, contains_text, eq_str, find_at, find_from, is_whitespace, is_ws,
    lemma_find_range, occurs_at, slice_to_vec_range, str_contains, string_of, trim, trim_bounds,
    trim_str,
};
use crate::turn::{remove_all, remove_all_chars};

verus! {

broadcast use vstd::string::group_string_axioms;

/// The text to show as a turn's answer, if its reasoning should be promoted: only when the
/// content is blank and the reasoning is not.
pub open spec fn spec_promote_stranded_answer(content: Seq<char>, thinking: Seq<char>) -> Option<
    Seq<char>,
> {
    if trim(content).len() != 0 || trim(thinking).len() == 0 {
        None
    } else {
        Some(trim(thinking))
    }
}

/// Decide whether a turn's reasoning should be shown as its answer. The whole reasoning is
/// promoted, trimmed, rather than a guess at which trailing part is the answer; `None` leaves the
/// turn alone.
pub fn promote_stranded_answer(content: &str, thinking: &str) -> (r: Option<String>)
    ensures
        match r {
            Some(s) => spec_promote_stranded_answer(content@, thinking@) == Some(s@),
            None => spec_promote_stranded_answer(content@, thinking@) is None,
        },
{
    let c = trim_str(content);
    let t = trim_str(thinking);
    if c.unicode_len() != 0 || t.unicode_len() == 0 {
        return None;
    }
    Some(t.to_string())
}


// ------------------------------------------------------------------ stranded tool calls

/// Where a tag's name ends: the first `>` or whitespace at or after `j`, or the end.
pub open spec fn name_end(s: Seq<char>, j: int) -> int
    decreases s.len() - j,
{
    if j < 0 || j >= s.len() || s[j] == '>' || is_ws(s[j]) {
        j
    } else {
        name_end(s, j + 1)
    }
}

/// The tool-call blocks from `pos` on, each as its whole text and its trimmed inside: a
/// `<tool_call>` up to the first `</tool_call>` after it, then the next block after that.
pub open spec fn tool_blocks(s: Seq<char>, pos: int) -> Seq<(Seq<char>, Seq<char>)>
    decreases s.len() + 1 - pos,
{
    let o = find_from(s, "<tool_call>"@, pos);
    let c = find_from(s, "</tool_call>"@, o + 11);
    if pos < 0 || pos > s.len() || o < pos || c < o + 11 || c + 12 > s.len() {
        Seq::empty()
    } else {
        seq![(s.subrange(o, c + 12), trim(s.subrange(o + 11, c)))] + tool_blocks(s, c + 12)
    }
}

/// The first function in a block's inside, from `from` on, as its name and its trimmed body: a
/// `<function=` with a name (no `>` or whitespace in it, not empty) closed by `>`, the body up to
/// the first `</function>` after it. A `<function=` whose name is malformed is passed over.
pub open spec fn func_match(s: Seq<char>, from: int) -> Option<(Seq<char>, Seq<char>)>
    decreases s.len() + 1 - from,
{
    let i = find_from(s, "<function="@, from);
    if from < 0 || from > s.len() || i < from || i + 10 > s.len() {
        None
    } else {
        let ne = name_end(s, i + 10);
        if ne > i + 10 && ne < s.len() && s[ne] == '>' {
            let c = find_from(s, "</function>"@, ne + 1);
            if c < ne + 1 {
                None
            } else {
                Some((s.subrange(i + 10, ne), trim(s.subrange(ne + 1, c))))
            }
        } else {
            func_match(s, i + 1)
        }
    }
}

/// The parameters in a function's body from `from` on, each as its name and its value: a
/// `<parameter=` with a well-formed name closed by `>`, then the value up to the first
/// `</parameter>`, without one newline just after the opening tag and one just before the
/// closing tag; then the next parameter after that. A malformed opening tag is passed over.
pub open spec fn params_from(s: Seq<char>, from: int) -> Seq<(Seq<char>, Seq<char>)>
    decreases s.len() + 1 - from,
{
    let i = find_from(s, "<parameter="@, from);
    if from < 0 || from > s.len() || i < from || i + 11 > s.len() {
        Seq::empty()
    } else {
        let ne = name_end(s, i + 11);
        if ne > i + 11 && ne < s.len() && s[ne] == '>' {
            let v = if ne + 1 < s.len() && s[ne + 1] == '\n' { ne + 2 } else { ne + 1 };
            let c = find_from(s, "</parameter>"@, v);
            if c < v || c + 12 > s.len() {
                Seq::empty()
            } else {
                let e = if c > v && s[c - 1] == '\n' { c - 1 } else { c };
                seq![(s.subrange(i + 11, ne), s.subrange(v, e))] + params_from(s, c + 12)
            }
        } else {
            params_from(s, i + 1)
        }
    }
}

/// The calls recovered from the first blocks, each as its tool's name and its raw parameters,
/// and the text with each recovered block removed. A block whose function names no offered tool
/// is left alone: the same XML can stand in prose.
pub open spec fn recovery(blocks: Seq<(Seq<char>, Seq<char>)>, tools: Seq<Seq<char>>, text: Seq<char>) -> (
    Seq<(Seq<char>, Seq<(Seq<char>, Seq<char>)>)>,
    Seq<char>,
)
    decreases blocks.len(),
{
    if blocks.len() == 0 {
        (Seq::empty(), text)
    } else {
        let prev = recovery(blocks.drop_last(), tools, text);
        let b = blocks.last();
        match func_match(b.1, 0) {
            Some(f) => if tools.contains(trim(f.0)) {
                (prev.0.push((trim(f.0), params_from(f.1, 0))), remove_all(prev.1, b.0))
            } else {
                prev
            },
            None => prev,
        }
    }
}

/// Removing every occurrence of a pattern never lengthens a text, and takes at least one copy of
/// the pattern out of a text that holds it.
pub proof fn lemma_remove_all_shortens(s: Seq<char>, p: Seq<char>)
    ensures
        remove_all(s, p).len() <= s.len(),
        p.len() > 0 && crate::text::contains(s, p) ==> remove_all(s, p).len() + p.len() <= s.len(),
    decreases s.len(),
{
    let k = crate::text::find(s, p);
    if p.len() > 0 && k >= 0 {
        crate::text::lemma_find_range(s, p, 0);
        lemma_remove_all_shortens(s.skip(k + p.len()), p);
    }
}

/// Each further block only ever takes text out of what is shown.
proof fn lemma_cleaning_shrinks(blocks: Seq<(Seq<char>, Seq<char>)>, tools: Seq<Seq<char>>, text: Seq<char>, j: int)
    requires
        0 <= j <= blocks.len(),
    ensures
        recovery(blocks, tools, text).1.len() <= recovery(blocks.take(j), tools, text).1.len(),
    decreases blocks.len(),
{
    if j == blocks.len() {
        assert(blocks.take(j) =~= blocks);
    } else {
        lemma_cleaning_shrinks(blocks.drop_last(), tools, text, j);
        assert(blocks.drop_last().take(j) =~= blocks.take(j));
        lemma_remove_all_shortens(recovery(blocks.drop_last(), tools, text).1, blocks.last().0);
    }
}

/// Every recovered block is taken out of the text shown as reasoning, however many calls were
/// recovered before it: where the block is still in the text when it is reached, the text finally
/// shown is shorter than the text at that point by at least the whole block.
pub proof fn lemma_recovered_blocks_are_removed(
    blocks: Seq<(Seq<char>, Seq<char>)>,
    tools: Seq<Seq<char>>,
    text: Seq<char>,
    k: int,
)
    requires
        0 <= k < blocks.len(),
        func_match(blocks[k].1, 0) matches Some(f) && tools.contains(trim(f.0)),
        blocks[k].0.len() > 0,
        crate::text::contains(recovery(blocks.take(k), tools, text).1, blocks[k].0),
    ensures
        recovery(blocks, tools, text).1.len() + blocks[k].0.len() <= recovery(blocks.take(k), tools, text).1.len(),
{
    assert(blocks.take(k + 1).drop_last() =~= blocks.take(k));
    assert(blocks.take(k + 1).last() == blocks[k]);
    lemma_remove_all_shortens(recovery(blocks.take(k), tools, text).1, blocks[k].0);
    lemma_cleaning_shrinks(blocks, tools, text, k + 1);
}

/// Recovering from more blocks never finds fewer calls.
proof fn lemma_recovery_grows(blocks: Seq<(Seq<char>, Seq<char>)>, tools: Seq<Seq<char>>, text: Seq<char>, j: int)
    requires
        0 <= j <= blocks.len(),
    ensures
        recovery(blocks.take(j), tools, text).0.len() <= recovery(blocks, tools, text).0.len(),
    decreases blocks.len(),
{
    if j == blocks.len() {
        assert(blocks.take(j) =~= blocks);
    } else {
        lemma_recovery_grows(blocks.drop_last(), tools, text, j);
        assert(blocks.drop_last().take(j) =~= blocks.take(j));
    }
}

/// A tool call recovered from the reasoning channel; each parameter's value is the raw text,
/// typed later by the tool's schema.
#[derive(Debug, Clone)]
pub struct RecoveredCall {
    pub id: String,
    pub name: String,
    pub params: Vec<(String, String)>,
}

/// The recovered calls, and the text without their blocks.
#[derive(Debug, Clone)]
pub struct Recovered {
    pub calls: Vec<RecoveredCall>,
    pub cleaned: String,
}

/// The view of raw parameters.
pub open spec fn params_view(ps: Seq<(String, String)>) -> Seq<(Seq<char>, Seq<char>)> {
    ps.map_values(|p: (String, String)| (p.0@, p.1@))
}

/// The view of a recovered call: its tool's name and its parameters.
pub open spec fn call_view(c: RecoveredCall) -> (Seq<char>, Seq<(Seq<char>, Seq<char>)>) {
    (c.name@, params_view(c.params@))
}

/// The simple text (32 hex digits, no hyphens) of the version-4 UUID that
/// `uuid::Builder::from_random_bytes` makes of sixteen random bytes.
pub uninterp spec fn uuid_v4_simple(bytes: Seq<u8>) -> Seq<char>;

/// A lowercase hexadecimal digit.
pub open spec fn is_lower_hex(c: char) -> bool {
    ('0' <= c && c <= '9') || ('a' <= c && c <= 'f')
}

/// The simple text of a version-4 UUID: 32 lowercase hex digits, the thirteenth the version `4`
/// and the seventeenth the variant (`8`, `9`, `a` or `b`).
pub open spec fn is_simple_v4(t: Seq<char>) -> bool {
    &&& t.len() == 32
    &&& forall|i: int| 0 <= i < 32 ==> is_lower_hex(#[trigger] t[i])
    &&& t[12] == '4'
    &&& (t[16] == '8' || t[16] == '9' || t[16] == 'a' || t[16] == 'b')
}

/// `uuid::Builder::from_random_bytes(..).into_uuid()` in its simple form: the version-4 UUID of
/// the sixteen bytes as 32 lowercase hex digits, with the version and variant set.
#[verifier::external_body]
fn uuid_simple(bytes: &[u8]) -> (r: String)
    requires
        bytes@.len() == 16,
    ensures
        r@ == uuid_v4_simple(bytes@),
        is_simple_v4(r@),
{
    let b: [u8; 16] = bytes.try_into().unwrap();
    uuid::Builder::from_random_bytes(b).into_uuid().simple().to_string()
}

/// A fresh random id of 32 hex digits: a version-4 UUID of sixteen bytes drawn from the system's
/// secure generator; the generator's error where it fails.
fn new_simple_id() -> (r: Result<String, String>)
    ensures
        r matches Ok(id) ==> is_simple_v4(id@),
{
    match crate::oauth::random_bytes(16) {
        Ok(b) => Ok(uuid_simple(b.as_slice())),
        Err(e) => Err(e),
    }
}

fn name_end_exec(s: &[char], j: usize) -> (r: usize)
    requires
        j <= s@.len(),
    ensures
        r as int == name_end(s@, j as int),
        j <= r <= s@.len(),
{
    let mut k = j;
    while k < s.len() && s[k] != '>' && !is_whitespace(s[k])
        invariant
            j <= k <= s@.len(),
            name_end(s@, j as int) == name_end(s@, k as int),
        decreases s@.len() - k,
    {
        k = k + 1;
    }
    k
}

fn trimmed(s: &[char], from: usize, to: usize) -> (r: Vec<char>)
    requires
        from <= to <= s@.len(),
    ensures
        r@ == trim(s@.subrange(from as int, to as int)),
{
    let part = slice_to_vec_range(s, from, to);
    let (lo, hi) = trim_bounds(part.as_slice());
    slice_to_vec_range(part.as_slice(), lo, hi)
}

/// The tool-call blocks of a text.
fn tool_blocks_exec(s: &[char]) -> (r: Vec<(Vec<char>, Vec<char>)>)
    ensures
        r@.map_values(|b: (Vec<char>, Vec<char>)| (b.0@, b.1@)) == tool_blocks(s@, 0),
{
    let open = chars_of("<tool_call>");
    let close = chars_of("</tool_call>");
    proof {
        reveal_strlit("<tool_call>");
        reveal_strlit("</tool_call>");
    }
    let n = s.len();
    let mut out: Vec<(Vec<char>, Vec<char>)> = Vec::new();
    let mut pos: usize = 0;
    loop
        invariant
            pos <= n,
            n == s@.len(),
            open@ == "<tool_call>"@,
            close@ == "</tool_call>"@,
            open@.len() == 11,
            close@.len() == 12,
            out@.map_values(|b: (Vec<char>, Vec<char>)| (b.0@, b.1@)) + tool_blocks(s@, pos as int)
                == tool_blocks(s@, 0),
        decreases n - pos,
    {
        let ghost outv = out@.map_values(|b: (Vec<char>, Vec<char>)| (b.0@, b.1@));
        proof {
            lemma_find_range(s@, open@, pos as int);
        }
        let o = match find_at(s, open.as_slice(), pos) {
            Some(o) => o,
            None => {
                assert(tool_blocks(s@, pos as int) =~= Seq::<(Seq<char>, Seq<char>)>::empty());
                assert(outv + tool_blocks(s@, pos as int) =~= outv);
                return out;
            },
        };
        proof {
            lemma_find_range(s@, close@, o + 11);
        }
        let c = match find_at(s, close.as_slice(), o + 11) {
            Some(c) => c,
            None => {
                assert(tool_blocks(s@, pos as int) =~= Seq::<(Seq<char>, Seq<char>)>::empty());
                assert(outv + tool_blocks(s@, pos as int) =~= outv);
                return out;
            },
        };
        let whole = slice_to_vec_range(s, o, c + 12);
        let inner = trimmed(s, o + 11, c);
        out.push((whole, inner));
        proof {
            let b = (s@.subrange(o as int, c + 12), trim(s@.subrange(o + 11, c as int)));
            assert(tool_blocks(s@, pos as int) == seq![b] + tool_blocks(s@, c + 12));
            assert(out@.map_values(|b: (Vec<char>, Vec<char>)| (b.0@, b.1@)) =~= outv.push(b));
            assert(outv.push(b) + tool_blocks(s@, c + 12) =~= outv + (seq![b] + tool_blocks(s@, c + 12)));
        }
        pos = c + 12;
    }
}

/// The first function of a block's inside.
fn func_match_exec(s: &[char]) -> (r: Option<(Vec<char>, Vec<char>)>)
    ensures
        match r {
            Some(f) => func_match(s@, 0) == Some((f.0@, f.1@)),
            None => func_match(s@, 0) is None,
        },
{
    let open = chars_of("<function=");
    let close = chars_of("</function>");
    proof {
        reveal_strlit("<function=");
        reveal_strlit("</function>");
    }
    let n = s.len();
    let mut from: usize = 0;
    loop
        invariant
            from <= n,
            n == s@.len(),
            open@ == "<function="@,
            close@ == "</function>"@,
            open@.len() == 10,
            close@.len() == 11,
            func_match(s@, 0) == func_match(s@, from as int),
        decreases n - from,
    {
        proof {
            lemma_find_range(s@, open@, from as int);
        }
        let i = match find_at(s, open.as_slice(), from) {
            Some(i) => i,
            None => {
                return None;
            },
        };
        let ne = name_end_exec(s, i + 10);
        if ne > i + 10 && ne < n && s[ne] == '>' {
            proof {
                lemma_find_range(s@, close@, ne + 1);
            }
            match find_at(s, close.as_slice(), ne + 1) {
                Some(c) => {
                    let name = slice_to_vec_range(s, i + 10, ne);
                    let body = trimmed(s, ne + 1, c);
                    return Some((name, body));
                },
                None => {
                    return None;
                },
            }
        }
        from = i + 1;
    }
}

/// The parameters of a function's body.
fn params_exec(s: &[char]) -> (r: Vec<(String, String)>)
    ensures
        params_view(r@) == params_from(s@, 0),
{
    let open = chars_of("<parameter=");
    let close = chars_of("</parameter>");
    proof {
        reveal_strlit("<parameter=");
        reveal_strlit("</parameter>");
    }
    let n = s.len();
    let mut out: Vec<(String, String)> = Vec::new();
    let mut from: usize = 0;
    loop
        invariant
            from <= n,
            n == s@.len(),
            open@ == "<parameter="@,
            close@ == "</parameter>"@,
            open@.len() == 11,
            close@.len() == 12,
            params_view(out@) + params_from(s@, from as int) == params_from(s@, 0),
        decreases n - from,
    {
        let ghost outv = params_view(out@);
        proof {
            lemma_find_range(s@, open@, from as int);
        }
        let i = match find_at(s, open.as_slice(), from) {
            Some(i) => i,
            None => {
                assert(outv + params_from(s@, from as int) =~= outv);
                return out;
            },
        };
        let ne = name_end_exec(s, i + 11);
        if ne > i + 11 && ne < n && s[ne] == '>' {
            let v = if ne + 1 < n && s[ne + 1] == '\n' { ne + 2 } else { ne + 1 };
            proof {
                lemma_find_range(s@, close@, v as int);
            }
            let c = match find_at(s, close.as_slice(), v) {
                Some(c) => c,
                None => {
                    assert(outv + params_from(s@, from as int) =~= outv);
                    return out;
                },
            };
            let e = if c > v && s[c - 1] == '\n' { c - 1 } else { c };
            let name = string_of(slice_to_vec_range(s, i + 11, ne).as_slice());
            let value = string_of(slice_to_vec_range(s, v, e).as_slice());
            let ghost p = (name@, value@);
            out.push((name, value));
            proof {
                assert(params_from(s@, from as int) == seq![p] + params_from(s@, c + 12));
                assert(params_view(out@) =~= outv.push(p));
                assert(outv.push(p) + params_from(s@, c + 12) =~= outv + (seq![p] + params_from(s@, c + 12)));
            }
            from = c + 12;
        } else {
            from = i + 1;
        }
    }
}

/// Recover tool calls the provider left unparsed in `text`: each `<tool_call>` block whose
/// function names one of `tools`, with its raw parameters and a fresh id (`recovered_` and 32 hex
/// digits); the text comes back without those blocks, trimmed. `None` when nothing is recovered.
/// It fails only where a call is recovered and the system's random source cannot give its id.
pub fn recover(text: &str, tools: &Vec<String>) -> (r: Result<Option<Recovered>, String>)
    ensures
        ({
            let rec = recovery(tool_blocks(text@, 0), tools.deep_view(), text@);
            match r {
                Err(_) => rec.0.len() > 0,
                Ok(None) => rec.0.len() == 0,
                Ok(Some(got)) => {
                    &&& rec.0.len() > 0
                    &&& got.calls@.map_values(|c: RecoveredCall| call_view(c)) == rec.0
                    &&& got.cleaned@ == trim(rec.1)
                    &&& forall|i: int| 0 <= i < got.calls@.len() ==> (#[trigger] got.calls@[i]).id@.len() == 42
                            && got.calls@[i].id@.take(10) == "recovered_"@ && is_simple_v4(got.calls@[i].id@.skip(10))
                },
            }
        }),
{
    let cs = chars_of(text);
    let blocks = tool_blocks_exec(cs.as_slice());
    let ghost bv = blocks@.map_values(|b: (Vec<char>, Vec<char>)| (b.0@, b.1@));
    let ghost tv = tools.deep_view();
    let mut calls: Vec<RecoveredCall> = Vec::new();
    let mut cleaned: Vec<char> = cs;
    let mut i: usize = 0;
    proof {
        reveal_strlit("recovered_");
        assert(bv.take(0) =~= Seq::<(Seq<char>, Seq<char>)>::empty());
        assert(calls@.map_values(|c: RecoveredCall| call_view(c)) =~= Seq::<(Seq<char>, Seq<(Seq<char>, Seq<char>)>)>::empty());
    }
    while i < blocks.len()
        invariant
            i <= blocks@.len(),
            bv == blocks@.map_values(|b: (Vec<char>, Vec<char>)| (b.0@, b.1@)),
            bv == tool_blocks(text@, 0),
            tv == tools.deep_view(),
            calls@.map_values(|c: RecoveredCall| call_view(c)) == recovery(bv.take(i as int), tv, text@).0,
            cleaned@ == recovery(bv.take(i as int), tv, text@).1,
            forall|k: int| 0 <= k < calls@.len() ==> (#[trigger] calls@[k]).id@.len() == 42
                && calls@[k].id@.take(10) == "recovered_"@ && is_simple_v4(calls@[k].id@.skip(10)),
        decreases blocks@.len() - i,
    {
        let ghost prev = recovery(bv.take(i as int), tv, text@);
        proof {
            assert(bv.take(i + 1).drop_last() =~= bv.take(i as int));
            assert(bv.take(i + 1).last() == bv[i as int]);
            assert(bv[i as int] == (blocks@[i as int].0@, blocks@[i as int].1@));
        }
        let b = &blocks[i];
        match func_match_exec(b.1.as_slice()) {
            Some(f) => {
                let raw_name = string_of(f.0.as_slice());
                let name = trim_str(raw_name.as_str());
                if contains_text(tools, name) {
                    let params = params_exec(f.1.as_slice());
                    proof {
                        reveal_strlit("recovered_");
                    }
                    let fresh = match new_simple_id() {
                        Ok(f) => f,
                        Err(e) => {
                            proof {
                                assert(recovery(bv.take(i + 1), tv, text@).0.len() > 0);
                                lemma_recovery_grows(bv, tv, text@, i + 1);
                                assert(bv.take(blocks@.len() as int) =~= bv);
                            }
                            return Err(e);
                        },
                    };
                    let id = concat("recovered_", fresh.as_str());
                    assert(id@.take(10) =~= "recovered_"@);
                    assert(id@.skip(10) =~= fresh@);
                    let ghost cv = calls@.map_values(|c: RecoveredCall| call_view(c));
                    let call = RecoveredCall { id, name: name.to_owned(), params };
                    calls.push(call);
                    assert(calls@.map_values(|c: RecoveredCall| call_view(c)) =~= cv.push(call_view(call)));
                    cleaned = remove_all_chars(cleaned.as_slice(), b.0.as_slice());
                }
            },
            None => {},
        }
        i = i + 1;
    }
    proof {
        assert(bv.take(blocks@.len() as int) =~= bv);
    }
    if calls.len() == 0 {
        return Ok(None);
    }
    let c = string_of(cleaned.as_slice());
    let t = trim_str(c.as_str());
    Ok(Some(Recovered { calls, cleaned: t.to_owned() }))
}

// ------------------------------------------------------------------ typing recovered arguments

/// A recovered argument, typed by the tool's schema.
#[derive(Debug, Clone, PartialEq, Eq)]
pub enum ArgValue {
    /// Text: the declared type is a string, or the value is not of its declared type.
    Text(String),
    Integer(i64),
    Bool(bool),
    /// An array or an object: its JSON text.
    Json(String),
    /// A number: the trimmed text to be read as one, and the raw text to keep where it is not.
    Number { text: String, raw: String },
}

/// The view of a typed argument.
pub enum ArgView {
    Text(Seq<char>),
    Integer(i64),
    Bool(bool),
    Json(Seq<char>),
    Number(Seq<char>, Seq<char>),
}

pub open spec fn arg_view(a: ArgValue) -> ArgView {
    match a {
        ArgValue::Text(t) => ArgView::Text(t@),
        ArgValue::Integer(n) => ArgView::Integer(n),
        ArgValue::Bool(b) => ArgView::Bool(b),
        ArgValue::Json(t) => ArgView::Json(t@),
        ArgValue::Number { text, raw } => ArgView::Number(text@, raw@),
    }
}

/// A raw value typed by its declared JSON Schema type (`string` where none is declared): an
/// integer, a boolean, an array or an object where the trimmed text is one, else the raw text.
pub open spec fn spec_coerce(raw: Seq<char>, declared: Option<Seq<char>>) -> ArgView {
    let ty = match declared {
        Some(t) => t,
        None => "string"@,
    };
    let t = trim(raw);
    if ty == "integer"@ {
        match crate::text::spec_parse_i64(t) {
            Some(n) => ArgView::Integer(n),
            None => ArgView::Text(raw),
        }
    } else if ty == "number"@ {
        ArgView::Number(t, raw)
    } else if ty == "boolean"@ {
        if t == "true"@ {
            ArgView::Bool(true)
        } else if t == "false"@ {
            ArgView::Bool(false)
        } else {
            ArgView::Text(raw)
        }
    } else if ty == "array"@ || ty == "object"@ {
        if crate::providers::json_text_parses(t) {
            ArgView::Json(t)
        } else {
            ArgView::Text(raw)
        }
    } else {
        ArgView::Text(raw)
    }
}

/// A raw value typed by its declared type.
pub fn coerce(raw: &str, declared: Option<&str>) -> (r: ArgValue)
    ensures
        arg_view(r) == spec_coerce(raw@, crate::text::opt_str(declared)),
{
    let ty: &str = match declared {
        Some(t) => t,
        None => "string",
    };
    let t = trim_str(raw);
    if eq_str(ty, "integer") {
        match crate::text::parse_i64(t) {
            Some(n) => ArgValue::Integer(n),
            None => ArgValue::Text(raw.to_string()),
        }
    } else if eq_str(ty, "number") {
        ArgValue::Number { text: t.to_string(), raw: raw.to_string() }
    } else if eq_str(ty, "boolean") {
        if eq_str(t, "true") {
            ArgValue::Bool(true)
        } else if eq_str(t, "false") {
            ArgValue::Bool(false)
        } else {
            ArgValue::Text(raw.to_string())
        }
    } else if eq_str(ty, "array") || eq_str(ty, "object") {
        if crate::providers::parses_as_json(t) {
            ArgValue::Json(t.to_string())
        } else {
            ArgValue::Text(raw.to_string())
        }
    } else {
        ArgValue::Text(raw.to_string())
    }
}

/// The type a schema declares for a property: the first entry naming it.
pub open spec fn declared_type(types: Seq<(Seq<char>, Seq<char>)>, key: Seq<char>) -> Option<Seq<char>>
    decreases types.len(),
{
    if types.len() == 0 {
        None
    } else if types[0].0 == key {
        Some(types[0].1)
    } else {
        declared_type(types.drop_first(), key)
    }
}

fn declared_type_of<'a>(types: &'a Vec<(String, String)>, key: &str) -> (r: Option<&'a str>)
    ensures
        crate::text::opt_str(r) == declared_type(crate::artifacts::string_pairs(types@), key@),
{
    let ghost tv = crate::artifacts::string_pairs(types@);
    let mut i: usize = 0;
    assert(tv.skip(0) =~= tv);
    while i < types.len()
        invariant
            i <= types@.len(),
            tv == crate::artifacts::string_pairs(types@),
            declared_type(tv, key@) == declared_type(tv.skip(i as int), key@),
        decreases types@.len() - i,
    {
        assert(tv.skip(i as int)[0] == (types@[i as int].0@, types@[i as int].1@));
        assert(tv.skip(i as int).drop_first() =~= tv.skip(i + 1));
        if eq_str(types[i].0.as_str(), key) {
            return Some(types[i].1.as_str());
        }
        i = i + 1;
    }
    None
}

/// A recovered call's arguments, each typed by the type the tool's schema declares for it
/// (`types` holds each declared property and its type).
pub fn typed_arguments(params: &Vec<(String, String)>, types: &Vec<(String, String)>) -> (r: Vec<(String, ArgValue)>)
    ensures
        r@.len() == params@.len(),
        forall|i: int|
            0 <= i < r@.len() ==> (#[trigger] r@[i]).0@ == params@[i].0@ && arg_view(r@[i].1) == spec_coerce(
                params@[i].1@,
                declared_type(crate::artifacts::string_pairs(types@), params@[i].0@),
            ),
{
    let mut out: Vec<(String, ArgValue)> = Vec::new();
    let mut i: usize = 0;
    while i < params.len()
        invariant
            i <= params@.len(),
            out@.len() == i,
            forall|k: int|
                0 <= k < i ==> (#[trigger] out@[k]).0@ == params@[k].0@ && arg_view(out@[k].1) == spec_coerce(
                    params@[k].1@,
                    declared_type(crate::artifacts::string_pairs(types@), params@[k].0@),
                ),
        decreases params@.len() - i,
    {
        let (key, raw) = (&params[i].0, &params[i].1);
        let declared = declared_type_of(types, key.as_str());
        out.push((key.clone(), coerce(raw.as_str(), declared)));
        i = i + 1;
    }
    out
}

} // verus!
