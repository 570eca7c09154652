//! Artifacts in assistant messages: `<artifact identifier="..." title="...">...</artifact>`
//! blocks that a later message may supersede.
//!
//! An artifact's tag is read as `<artifact` and one whitespace character, its attributes up to the
//! first `>`, and (for a whole block) its body up to the first `</artifact>` after that. An
//! attribute is `name="value"`, the value running to the next `"`.
use vstd::prelude::*;
use vstd::string::*;

use crate::text::{
    chars_of, find, find_at, find_from, is_whitespace, is_ws, lemma_find_range, lower, occurs_at,
    slice_to_vec_range, string_of, to_lower,
};

verus! {

broadcast use vstd::string::group_string_axioms;

/// The text that opens an artifact tag.
pub open spec fn open_mark() -> Seq<char> {
    seq!['<', 'a', 'r', 't', 'i', 'f', 'a', 'c', 't']
}

/// The text that closes an artifact block.
pub open spec fn close_mark() -> Seq<char> {
    seq!['<', '/', 'a', 'r', 't', 'i', 'f', 'a', 'c', 't', '>']
}

/// The attribute texts of the artifact opening tags in `s` from index `i` on, in order.
pub open spec fn opening_tags(s: Seq<char>, i: int) -> Seq<Seq<char>>
    decreases s.len() + 1 - i,
{
    if i < 0 {
        Seq::empty()
    } else {
        let p = find_from(s, open_mark(), i);
        proof {
            lemma_find_range(s, open_mark(), i);
        }
        if p < 0 {
            Seq::empty()
        } else if !(p + 9 < s.len() && is_ws(s[p + 9])) {
            opening_tags(s, p + 1)
        } else {
            let q = find_from(s, seq!['>'], p + 10);
            proof {
                lemma_find_range(s, seq!['>'], p + 10);
            }
            if q < 0 {
                Seq::empty()
            } else {
                seq![s.subrange(p + 10, q)] + opening_tags(s, q + 1)
            }
        }
    }
}

/// The artifact blocks in `s` from index `i` on, in order: each one's attribute text and its
/// whole text, from `<artifact` to `</artifact>`.
pub open spec fn blocks_from(s: Seq<char>, i: int) -> Seq<(Seq<char>, Seq<char>)>
    decreases s.len() + 1 - i,
{
    if i < 0 {
        Seq::empty()
    } else {
        let p = find_from(s, open_mark(), i);
        proof {
            lemma_find_range(s, open_mark(), i);
        }
        if p < 0 {
            Seq::empty()
        } else if !(p + 9 < s.len() && is_ws(s[p + 9])) {
            blocks_from(s, p + 1)
        } else {
            let q = find_from(s, seq!['>'], p + 10);
            proof {
                lemma_find_range(s, seq!['>'], p + 10);
            }
            if q < 0 {
                Seq::empty()
            } else {
                let e = find_from(s, close_mark(), q + 1);
                proof {
                    lemma_find_range(s, close_mark(), q + 1);
                }
                if e < 0 {
                    Seq::empty()
                } else {
                    seq![(s.subrange(p + 10, q), s.subrange(p, e + 11))] + blocks_from(s, e + 11)
                }
            }
        }
    }
}

fn open_mark_chars() -> (r: Vec<char>)
    ensures
        r@ == open_mark(),
{
    let r = vec!['<', 'a', 'r', 't', 'i', 'f', 'a', 'c', 't'];
    assert(r@ =~= open_mark());
    r
}

fn close_mark_chars() -> (r: Vec<char>)
    ensures
        r@ == close_mark(),
{
    let r = vec!['<', '/', 'a', 'r', 't', 'i', 'f', 'a', 'c', 't', '>'];
    assert(r@ =~= close_mark());
    r
}

/// The attribute texts of the artifact opening tags in `s`, in order.
pub fn opening_tag_attrs(s: &[char]) -> (r: Vec<Vec<char>>)
    ensures
        r.deep_view() == opening_tags(s@, 0),
{
    let open = open_mark_chars();
    let gt = vec!['>'];
    assert(gt@ =~= seq!['>']);
    let mut out: Vec<Vec<char>> = Vec::new();
    let mut i: usize = 0;
    assert(out.deep_view() + opening_tags(s@, 0) =~= opening_tags(s@, 0));
    while i <= s.len()
        invariant
            i <= s@.len() + 1,
            open@ == open_mark(),
            gt@ == seq!['>'],
            out.deep_view() + opening_tags(s@, i as int) == opening_tags(s@, 0),
        decreases s@.len() + 1 - i,
    {
        proof {
            lemma_find_range(s@, open_mark(), i as int);
        }
        match find_at(s, open.as_slice(), i) {
            None => {
                assert(opening_tags(s@, i as int) =~= Seq::<Seq<char>>::empty());
                assert(out.deep_view() =~= opening_tags(s@, 0));
                return out;
            },
            Some(p) => {
                assert(occurs_at(s@, open_mark(), p as int));
                if p + 9 < s.len() && is_whitespace(s[p + 9]) {
                    proof {
                        lemma_find_range(s@, seq!['>'], p + 10);
                    }
                    match find_at(s, gt.as_slice(), p + 10) {
                        None => {
                            assert(out.deep_view() =~= opening_tags(s@, 0));
                            return out;
                        },
                        Some(q) => {
                            assert(occurs_at(s@, seq!['>'], q as int));
                            let attrs = slice_to_vec_range(s, p + 10, q);
                            assert(attrs.deep_view() =~= attrs@);
                            let ghost before = out.deep_view();
                            out.push(attrs);
                            assert(out.deep_view() =~= before.push(s@.subrange(p + 10, q as int)));
                            assert(before + opening_tags(s@, i as int) =~= out.deep_view()
                                + opening_tags(s@, q + 1));
                            i = q + 1;
                        },
                    }
                } else {
                    i = p + 1;
                }
            },
        }
    }
    assert(opening_tags(s@, i as int) =~= Seq::<Seq<char>>::empty()) by {
        lemma_find_range(s@, open_mark(), i as int);
    }
    assert(out.deep_view() =~= opening_tags(s@, 0));
    out
}

/// The view of a list of (attributes, whole text) pairs.
pub open spec fn pairs_view(v: Seq<(Vec<char>, Vec<char>)>) -> Seq<(Seq<char>, Seq<char>)> {
    v.map_values(|p: (Vec<char>, Vec<char>)| (p.0@, p.1@))
}

/// The artifact blocks in `s`, in order: attribute text and whole text.
pub fn artifact_blocks(s: &[char]) -> (r: Vec<(Vec<char>, Vec<char>)>)
    ensures
        pairs_view(r@) == blocks_from(s@, 0),
{
    let open = open_mark_chars();
    let close = close_mark_chars();
    let gt = vec!['>'];
    assert(gt@ =~= seq!['>']);
    let mut out: Vec<(Vec<char>, Vec<char>)> = Vec::new();
    let mut i: usize = 0;
    assert(pairs_view(out@) + blocks_from(s@, 0) =~= blocks_from(s@, 0));
    while i <= s.len()
        invariant
            i <= s@.len() + 1,
            open@ == open_mark(),
            close@ == close_mark(),
            gt@ == seq!['>'],
            pairs_view(out@) + blocks_from(s@, i as int) == blocks_from(s@, 0),
        decreases s@.len() + 1 - i,
    {
        proof {
            lemma_find_range(s@, open_mark(), i as int);
        }
        match find_at(s, open.as_slice(), i) {
            None => {
                assert(pairs_view(out@) =~= blocks_from(s@, 0));
                return out;
            },
            Some(p) => {
                assert(occurs_at(s@, open_mark(), p as int));
                if p + 9 < s.len() && is_whitespace(s[p + 9]) {
                    proof {
                        lemma_find_range(s@, seq!['>'], p + 10);
                    }
                    match find_at(s, gt.as_slice(), p + 10) {
                        None => {
                            assert(pairs_view(out@) =~= blocks_from(s@, 0));
                            return out;
                        },
                        Some(q) => {
                            assert(occurs_at(s@, seq!['>'], q as int));
                            proof {
                                lemma_find_range(s@, close_mark(), q + 1);
                            }
                            match find_at(s, close.as_slice(), q + 1) {
                                None => {
                                    assert(pairs_view(out@) =~= blocks_from(s@, 0));
                                    return out;
                                },
                                Some(e) => {
                                    assert(occurs_at(s@, close_mark(), e as int));
                                    let attrs = slice_to_vec_range(s, p + 10, q);
                                    let whole = slice_to_vec_range(s, p, e + 11);
                                    let ghost before = pairs_view(out@);
                                    out.push((attrs, whole));
                                    assert(pairs_view(out@) =~= before.push(
                                        (s@.subrange(p + 10, q as int), s@.subrange(p as int, e + 11)),
                                    ));
                                    assert(before + blocks_from(s@, i as int) =~= pairs_view(out@)
                                        + blocks_from(s@, e + 11));
                                    i = e + 11;
                                },
                            }
                        },
                    }
                } else {
                    i = p + 1;
                }
            },
        }
    }
    assert(blocks_from(s@, i as int) =~= Seq::<(Seq<char>, Seq<char>)>::empty()) by {
        lemma_find_range(s@, open_mark(), i as int);
    }
    assert(pairs_view(out@) =~= blocks_from(s@, 0));
    out
}

/// The value of the attribute that `name_eq` (`name="`) opens: the text up to the next `"`; `None`
/// where the attribute is absent or unclosed.
pub open spec fn attr_value(attrs: Seq<char>, name_eq: Seq<char>) -> Option<Seq<char>> {
    let k = find(attrs, name_eq);
    if k < 0 {
        None
    } else {
        let q = find_from(attrs, seq!['"'], k + name_eq.len());
        if q < 0 {
            None
        } else {
            Some(attrs.subrange(k + name_eq.len(), q))
        }
    }
}

/// The value of an attribute in a tag's attribute text.
pub fn attribute(attrs: &[char], name_eq: &[char]) -> (r: Option<Vec<char>>)
    ensures
        match r {
            Some(v) => attr_value(attrs@, name_eq@) == Some(v@),
            None => attr_value(attrs@, name_eq@) is None,
        },
{
    let quote = vec!['"'];
    assert(quote@ =~= seq!['"']);
    let n = attrs.len();
    let m = name_eq.len();
    match find_at(attrs, name_eq, 0) {
        None => None,
        Some(k) => {
            proof {
                lemma_find_range(attrs@, name_eq@, 0);
                assert(occurs_at(attrs@, name_eq@, k as int));
            }
            assert(k + m <= n);
            let start = k + m;
            proof {
                lemma_find_range(attrs@, seq!['"'], start as int);
            }
            match find_at(attrs, quote.as_slice(), start) {
                None => None,
                Some(q) => {
                    assert(occurs_at(attrs@, seq!['"'], q as int));
                    Some(slice_to_vec_range(attrs, start, q))
                },
            }
        },
    }
}

/// `identifier="`.
pub open spec fn identifier_eq() -> Seq<char> {
    seq!['i', 'd', 'e', 'n', 't', 'i', 'f', 'i', 'e', 'r', '=', '"']
}

/// `title="`.
pub open spec fn title_eq() -> Seq<char> {
    seq!['t', 'i', 't', 'l', 'e', '=', '"']
}

fn identifier_eq_chars() -> (r: Vec<char>)
    ensures
        r@ == identifier_eq(),
{
    let r = vec!['i', 'd', 'e', 'n', 't', 'i', 'f', 'i', 'e', 'r', '=', '"'];
    assert(r@ =~= identifier_eq());
    r
}

fn title_eq_chars() -> (r: Vec<char>)
    ensures
        r@ == title_eq(),
{
    let r = vec!['t', 'i', 't', 'l', 'e', '=', '"'];
    assert(r@ =~= title_eq());
    r
}

/// What a block is known by: its identifier, or else its title lower-cased; `None` for a block
/// with neither.
pub open spec fn block_key(attrs: Seq<char>) -> Option<Seq<char>> {
    match attr_value(attrs, identifier_eq()) {
        Some(id) => Some(id),
        None => match attr_value(attrs, title_eq()) {
            Some(t) => Some(lower(t)),
            None => None,
        },
    }
}

/// Each keyed block of a message: its key and its whole text, in order; blocks with neither an
/// identifier nor a title are left out.
pub open spec fn keyed_blocks(blocks: Seq<(Seq<char>, Seq<char>)>) -> Seq<(Seq<char>, Seq<char>)>
    decreases blocks.len(),
{
    if blocks.len() == 0 {
        Seq::empty()
    } else {
        let rest = keyed_blocks(blocks.drop_last());
        match block_key(blocks.last().0) {
            Some(k) => rest.push((k, blocks.last().1)),
            None => rest,
        }
    }
}

/// The view of a list of string pairs.
pub open spec fn string_pairs(v: Seq<(String, String)>) -> Seq<(Seq<char>, Seq<char>)> {
    v.map_values(|p: (String, String)| (p.0@, p.1@))
}

/// The artifact blocks of a message, each with the key it is known by and its whole text.
pub fn extract_artifact_identifiers(content: &str) -> (r: Vec<(String, String)>)
    ensures
        string_pairs(r@) == keyed_blocks(blocks_from(content@, 0)),
{
    let cs = chars_of(content);
    let blocks = artifact_blocks(cs.as_slice());
    let ghost bv = pairs_view(blocks@);
    let id_eq = identifier_eq_chars();
    let title_eq_v = title_eq_chars();
    let mut out: Vec<(String, String)> = Vec::new();
    let mut i: usize = 0;
    assert(bv.take(0) =~= Seq::<(Seq<char>, Seq<char>)>::empty());
    while i < blocks.len()
        invariant
            i <= blocks@.len(),
            bv == pairs_view(blocks@),
            bv == blocks_from(content@, 0),
            id_eq@ == identifier_eq(),
            title_eq_v@ == title_eq(),
            string_pairs(out@) == keyed_blocks(bv.take(i as int)),
        decreases blocks@.len() - i,
    {
        let (attrs, whole) = (&blocks[i].0, &blocks[i].1);
        assert(bv[i as int] == (attrs@, whole@));
        assert(bv.take(i + 1).drop_last() =~= bv.take(i as int));
        let key: Option<String> = match attribute(attrs.as_slice(), id_eq.as_slice()) {
            Some(id) => Some(string_of(id.as_slice())),
            None => match attribute(attrs.as_slice(), title_eq_v.as_slice()) {
                Some(t) => {
                    let text = string_of(t.as_slice());
                    Some(to_lower(text.as_str()))
                },
                None => None,
            },
        };
        match key {
            Some(k) => {
                let ghost before = string_pairs(out@);
                let full = string_of(whole.as_slice());
                out.push((k, full));
                assert(string_pairs(out@) =~= before.push((k@, whole@)));
            },
            None => {},
        }
        i = i + 1;
    }
    assert(bv.take(i as int) =~= bv);
    out
}

/// The first index of `list` whose identifier is `id`, or -1.
pub open spec fn index_of_id(list: Seq<(Seq<char>, Seq<char>)>, id: Seq<char>, from: int) -> int
    decreases list.len() - from,
{
    if from < 0 || from >= list.len() {
        -1
    } else if list[from].1 == id {
        from
    } else {
        index_of_id(list, id, from + 1)
    }
}

/// `list` after a tag with `title` and `id`: an identifier already listed gets the new title in
/// place, a new one is added at the end.
pub open spec fn upsert(list: Seq<(Seq<char>, Seq<char>)>, title: Seq<char>, id: Seq<char>) -> Seq<
    (Seq<char>, Seq<char>),
> {
    let k = index_of_id(list, id, 0);
    if k >= 0 {
        list.update(k, (title, id))
    } else {
        list.push((title, id))
    }
}

/// The (title, identifier) of each tag with both, in order.
pub open spec fn titled_tags(attrs: Seq<Seq<char>>) -> Seq<(Seq<char>, Seq<char>)>
    decreases attrs.len(),
{
    if attrs.len() == 0 {
        Seq::empty()
    } else {
        let rest = titled_tags(attrs.drop_last());
        match (attr_value(attrs.last(), identifier_eq()), attr_value(attrs.last(), title_eq())) {
            (Some(id), Some(t)) => rest.push((t, id)),
            _ => rest,
        }
    }
}

/// `list` after each of `tags` in order.
pub open spec fn upsert_all(list: Seq<(Seq<char>, Seq<char>)>, tags: Seq<(Seq<char>, Seq<char>)>) -> Seq<
    (Seq<char>, Seq<char>),
>
    decreases tags.len(),
{
    if tags.len() == 0 {
        list
    } else {
        let before = upsert_all(list, tags.drop_last());
        upsert(before, tags.last().0, tags.last().1)
    }
}

/// The identified artifacts of a conversation (roles and contents, in order): each identifier
/// once, with the title of its latest tag in an assistant message, in the order identifiers first
/// appear.
pub open spec fn active_artifacts(roles: Seq<Seq<char>>, contents: Seq<Seq<char>>) -> Seq<
    (Seq<char>, Seq<char>),
>
    decreases roles.len(),
{
    if roles.len() == 0 || contents.len() != roles.len() {
        Seq::empty()
    } else {
        let before = active_artifacts(roles.drop_last(), contents.drop_last());
        if roles.last() == "assistant"@ {
            upsert_all(before, titled_tags(opening_tags(contents.last(), 0)))
        } else {
            before
        }
    }
}

/// The list after one tag.
fn upsert_tag(list: &mut Vec<(String, String)>, title: String, id: String)
    ensures
        string_pairs(final(list)@) == upsert(string_pairs(old(list)@), title@, id@),
{
    let ghost lv = string_pairs(list@);
    let mut k: usize = 0;
    assert(index_of_id(lv, id@, 0) == index_of_id(lv, id@, 0));
    while k < list.len()
        invariant
            k <= list@.len(),
            lv == string_pairs(list@),
            list@ == old(list)@,
            index_of_id(lv, id@, 0) == index_of_id(lv, id@, k as int),
        decreases list@.len() - k,
    {
        assert(lv[k as int] == (list@[k as int].0@, list@[k as int].1@));
        if crate::text::eq_str(list[k].1.as_str(), id.as_str()) {
            assert(lv[k as int].1 == id@);
            assert(index_of_id(lv, id@, k as int) == k);
            let ghost t = (title@, id@);
            list.set(k, (title, id));
            assert(string_pairs(list@) =~= lv.update(k as int, t));
            return;
        }
        k = k + 1;
    }
    let ghost t = (title@, id@);
    list.push((title, id));
    assert(string_pairs(list@) =~= lv.push(t));
}

/// The (title, identifier) of each tag of `content` with both, in order.
fn titled_tags_of(content: &str) -> (r: Vec<(String, String)>)
    ensures
        string_pairs(r@) == titled_tags(opening_tags(content@, 0)),
{
    let cs = chars_of(content);
    let tags = opening_tag_attrs(cs.as_slice());
    let ghost tv = tags.deep_view();
    let id_eq = identifier_eq_chars();
    let title_eq_v = title_eq_chars();
    let mut out: Vec<(String, String)> = Vec::new();
    let mut i: usize = 0;
    assert(tv.take(0) =~= Seq::<Seq<char>>::empty());
    while i < tags.len()
        invariant
            i <= tags@.len(),
            tv == tags.deep_view(),
            tv == opening_tags(content@, 0),
            id_eq@ == identifier_eq(),
            title_eq_v@ == title_eq(),
            string_pairs(out@) == titled_tags(tv.take(i as int)),
        decreases tags@.len() - i,
    {
        let attrs = &tags[i];
        assert(tv[i as int] == attrs@);
        assert(tv.take(i + 1).drop_last() =~= tv.take(i as int));
        let id = attribute(attrs.as_slice(), id_eq.as_slice());
        let title = attribute(attrs.as_slice(), title_eq_v.as_slice());
        match (id, title) {
            (Some(id), Some(t)) => {
                let ghost before = string_pairs(out@);
                let pair = (string_of(t.as_slice()), string_of(id.as_slice()));
                let ghost pv = (pair.0@, pair.1@);
                out.push(pair);
                assert(string_pairs(out@) =~= before.push(pv));
            },
            _ => {},
        }
        i = i + 1;
    }
    assert(tv.take(i as int) =~= tv);
    out
}

/// The view of a list of messages' roles.
pub open spec fn roles_of(msgs: Seq<crate::db::Message>) -> Seq<Seq<char>> {
    msgs.map_values(|m: crate::db::Message| m.role@)
}

/// The view of a list of messages' contents.
pub open spec fn contents_of(msgs: Seq<crate::db::Message>) -> Seq<Seq<char>> {
    msgs.map_values(|m: crate::db::Message| m.content@)
}

/// The identified artifacts of a conversation, each once as (title, identifier) with the title of
/// its latest tag in an assistant message.
pub fn collect_active_artifact_ids(msgs: &Vec<crate::db::Message>) -> (r: Vec<(String, String)>)
    ensures
        string_pairs(r@) == active_artifacts(roles_of(msgs@), contents_of(msgs@)),
{
    let ghost rs = roles_of(msgs@);
    let ghost cs = contents_of(msgs@);
    let mut out: Vec<(String, String)> = Vec::new();
    let mut i: usize = 0;
    assert(rs.take(0) =~= Seq::<Seq<char>>::empty());
    assert(string_pairs(out@) =~= Seq::<(Seq<char>, Seq<char>)>::empty());
    while i < msgs.len()
        invariant
            i <= msgs@.len(),
            rs == roles_of(msgs@),
            cs == contents_of(msgs@),
            string_pairs(out@) == active_artifacts(rs.take(i as int), cs.take(i as int)),
        decreases msgs@.len() - i,
    {
        let m = &msgs[i];
        assert(rs.take(i + 1).drop_last() =~= rs.take(i as int));
        assert(cs.take(i + 1).drop_last() =~= cs.take(i as int));
        assert(rs.take(i + 1).last() == m.role@);
        assert(cs.take(i + 1).last() == m.content@);
        if crate::text::eq_str(m.role.as_str(), "assistant") {
            let tags = titled_tags_of(m.content.as_str());
            let ghost tv = string_pairs(tags@);
            let ghost start = string_pairs(out@);
            let mut j: usize = 0;
            assert(tv.take(0) =~= Seq::<(Seq<char>, Seq<char>)>::empty());
            while j < tags.len()
                invariant
                    j <= tags@.len(),
                    tv == string_pairs(tags@),
                    string_pairs(out@) == upsert_all(start, tv.take(j as int)),
                decreases tags@.len() - j,
            {
                assert(tv[j as int] == (tags@[j as int].0@, tags@[j as int].1@));
                assert(tv.take(j + 1).drop_last() =~= tv.take(j as int));
                upsert_tag(&mut out, tags[j].0.clone(), tags[j].1.clone());
                j = j + 1;
            }
            assert(tv.take(j as int) =~= tv);
        }
        i = i + 1;
    }
    assert(rs.take(i as int) =~= rs);
    assert(cs.take(i as int) =~= cs);
    out
}

} // verus!
