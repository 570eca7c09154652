//! Ordering text the way `str`'s `Ord` does (lexicographically, character by character), and a
//! stable sort of items by a text key.
use vstd::prelude::*;

verus! {

/// `a` comes strictly before `b`: at the first character where they differ, `a`'s is smaller;
/// or `a` is a proper prefix of `b`.
pub open spec fn lex_lt(a: Seq<char>, b: Seq<char>) -> bool
    decreases a.len(),
{
    if b.len() == 0 {
        false
    } else if a.len() == 0 {
        true
    } else if a[0] != b[0] {
        (a[0] as u32) < (b[0] as u32)
    } else {
        lex_lt(a.drop_first(), b.drop_first())
    }
}

/// `a` comes before `b` or is equal to it.
pub open spec fn lex_le(a: Seq<char>, b: Seq<char>) -> bool {
    !lex_lt(b, a)
}

/// Whether `a` comes strictly before `b`.
pub fn text_lt(a: &[char], b: &[char]) -> (r: bool)
    ensures
        r == lex_lt(a@, b@),
{
    let mut i: usize = 0;
    assert(a@.skip(0) =~= a@);
    assert(b@.skip(0) =~= b@);
    while i < a.len() && i < b.len()
        invariant
            i <= a@.len(),
            i <= b@.len(),
            lex_lt(a@, b@) == lex_lt(a@.skip(i as int), b@.skip(i as int)),
        decreases a@.len() - i,
    {
        assert(a@.skip(i as int)[0] == a@[i as int]);
        assert(b@.skip(i as int)[0] == b@[i as int]);
        if a[i] != b[i] {
            return (a[i] as u32) < (b[i] as u32);
        }
        assert(a@.skip(i as int).drop_first() =~= a@.skip(i + 1));
        assert(b@.skip(i as int).drop_first() =~= b@.skip(i + 1));
        i = i + 1;
    }
    i < b.len()
}

/// `lex_lt` is irreflexive.
pub proof fn lemma_lex_irreflexive(a: Seq<char>)
    ensures
        !lex_lt(a, a),
    decreases a.len(),
{
    if a.len() > 0 {
        lemma_lex_irreflexive(a.drop_first());
    }
}

/// `lex_lt` is transitive.
pub proof fn lemma_lex_transitive(a: Seq<char>, b: Seq<char>, c: Seq<char>)
    requires
        lex_lt(a, b),
        lex_lt(b, c),
    ensures
        lex_lt(a, c),
    decreases a.len(),
{
    if a.len() > 0 && b.len() > 0 && c.len() > 0 && a[0] == b[0] && b[0] == c[0] {
        lemma_lex_transitive(a.drop_first(), b.drop_first(), c.drop_first());
    }
}

/// Any two texts are ordered one way, the other, or are equal.
pub proof fn lemma_lex_total(a: Seq<char>, b: Seq<char>)
    ensures
        lex_lt(a, b) || lex_lt(b, a) || a == b,
    decreases a.len(),
{
    if a.len() > 0 && b.len() > 0 && a[0] == b[0] {
        lemma_lex_total(a.drop_first(), b.drop_first());
        if a.drop_first() == b.drop_first() {
            assert(a.drop_first().len() == b.drop_first().len());
            assert(a.len() == b.len());
            assert forall|j: int| 0 <= j < a.len() implies a[j] == b[j] by {
                if j > 0 {
                    assert(a[j] == a.drop_first()[j - 1]);
                    assert(b[j] == b.drop_first()[j - 1]);
                }
            }
            assert(a =~= b);
        }
        assert(lex_lt(a, b) == lex_lt(a.drop_first(), b.drop_first()));
        assert(lex_lt(b, a) == lex_lt(b.drop_first(), a.drop_first()));
    } else if a.len() == 0 && b.len() == 0 {
        assert(a =~= b);
    } else if a.len() > 0 && b.len() > 0 {
        assert(a[0] != b[0]);
        vstd::utf8::char_u32_cast(a[0], a[0] as u32);
        vstd::utf8::char_u32_cast(b[0], b[0] as u32);
        assert((a[0] as u32) != (b[0] as u32));
    }
}

/// The keys of keyed items are in order (each no greater than the next).
pub open spec fn keys_sorted<T>(s: Seq<(Seq<char>, T)>) -> bool {
    forall|i: int, j: int| 0 <= i < j < s.len() ==> lex_le(#[trigger] s[i].0, #[trigger] s[j].0)
}

/// The first position whose key comes after `k`: where an item keyed `k` goes so that it follows
/// every item with an equal key.
pub open spec fn upper_bound<T>(s: Seq<(Seq<char>, T)>, k: Seq<char>, from: int) -> int
    decreases s.len() - from,
{
    if from < 0 {
        0
    } else if from >= s.len() {
        s.len() as int
    } else if lex_lt(k, s[from].0) {
        from
    } else {
        upper_bound(s, k, from + 1)
    }
}

/// Keyed items sorted by key, stably: each item in turn goes after every item already placed
/// whose key is not greater.
pub open spec fn stable_sorted<T>(s: Seq<(Seq<char>, T)>) -> Seq<(Seq<char>, T)>
    decreases s.len(),
{
    if s.len() == 0 {
        Seq::empty()
    } else {
        let before = stable_sorted(s.drop_last());
        before.insert(upper_bound(before, s.last().0, 0), s.last())
    }
}

proof fn lemma_upper_bound<T>(s: Seq<(Seq<char>, T)>, k: Seq<char>, from: int)
    requires
        0 <= from <= s.len(),
    ensures
        from <= upper_bound(s, k, from) <= s.len(),
        forall|i: int| from <= i < upper_bound(s, k, from) ==> !lex_lt(k, #[trigger] s[i].0),
        upper_bound(s, k, from) < s.len() ==> lex_lt(k, s[upper_bound(s, k, from)].0),
    decreases s.len() - from,
{
    if from < s.len() && !lex_lt(k, s[from].0) {
        lemma_upper_bound(s, k, from + 1);
    }
}

/// Inserting at the upper bound keeps the keys in order.
proof fn lemma_insert_sorted<T>(s: Seq<(Seq<char>, T)>, e: (Seq<char>, T))
    requires
        keys_sorted(s),
    ensures
        keys_sorted(s.insert(upper_bound(s, e.0, 0), e)),
{
    lemma_upper_bound(s, e.0, 0);
    let p = upper_bound(s, e.0, 0);
    let u = s.insert(p, e);
    assert forall|i: int, j: int| 0 <= i < j < u.len() implies lex_le(#[trigger] u[i].0, #[trigger] u[j].0) by {
        if i < p && j == p {
            assert(!lex_lt(e.0, s[i].0));
        } else if i == p && j > p {
            let t = s[j - 1].0;
            lemma_lex_total(e.0, t);
            if lex_lt(t, e.0) {
                if p < j - 1 {
                    assert(lex_lt(e.0, s[p].0));
                    assert(lex_le(s[p].0, t));
                    lemma_lex_total(s[p].0, t);
                    if lex_lt(s[p].0, t) {
                        lemma_lex_transitive(e.0, s[p].0, t);
                        lemma_lex_transitive(t, e.0, t);
                        lemma_lex_irreflexive(t);
                    } else {
                        lemma_lex_transitive(t, e.0, t);
                        lemma_lex_irreflexive(t);
                    }
                } else {
                    assert(lex_lt(e.0, s[p].0));
                    lemma_lex_transitive(t, e.0, t);
                    lemma_lex_irreflexive(t);
                }
            }
        } else if i < p && j > p {
            assert(lex_le(s[i].0, s[j - 1].0));
        } else if i > p {
            assert(lex_le(s[i - 1].0, s[j - 1].0));
        } else {
            assert(lex_le(s[i].0, s[j].0));
        }
    }
}

/// The stable sort puts the keys in order.
pub proof fn lemma_stable_sorted_is_sorted<T>(s: Seq<(Seq<char>, T)>)
    ensures
        keys_sorted(stable_sorted(s)),
        stable_sorted(s).len() == s.len(),
    decreases s.len(),
{
    if s.len() > 0 {
        lemma_stable_sorted_is_sorted(s.drop_last());
        let before = stable_sorted(s.drop_last());
        lemma_upper_bound(before, s.last().0, 0);
        lemma_insert_sorted(before, s.last());
    }
}

/// The stable sort keeps every item (as many times as it occurs).
pub proof fn lemma_stable_sorted_permutes<T>(s: Seq<(Seq<char>, T)>)
    ensures
        stable_sorted(s).to_multiset() == s.to_multiset(),
    decreases s.len(),
{
    broadcast use vstd::seq_lib::group_to_multiset_ensures;

    if s.len() > 0 {
        lemma_stable_sorted_permutes(s.drop_last());
        let before = stable_sorted(s.drop_last());
        lemma_stable_sorted_is_sorted(s.drop_last());
        lemma_upper_bound(before, s.last().0, 0);
        let p = upper_bound(before, s.last().0, 0);
        vstd::seq_lib::lemma_seq_union_to_multiset_commutative(before.take(p), before.skip(p));
        assert(before.insert(p, s.last()) =~= before.take(p).push(s.last()) + before.skip(p));
        assert(before =~= before.take(p) + before.skip(p));
        vstd::seq_lib::lemma_multiset_commutative(before.take(p).push(s.last()), before.skip(p));
        vstd::seq_lib::lemma_multiset_commutative(before.take(p), before.skip(p));
        assert(s =~= s.drop_last().push(s.last()));
    }
}

/// The view of keyed items whose keys are characters.
pub open spec fn keyed_view<T>(keys: Seq<Vec<char>>, items: Seq<T>) -> Seq<(Seq<char>, T)> {
    Seq::new(items.len(), |i: int| (keys[i]@, items[i]))
}

/// Items sorted stably by their keys (`keys[i]` is the key of `items[i]`).
pub fn sort_by_keys<T>(items: Vec<T>, keys: Vec<Vec<char>>) -> (r: Vec<T>)
    requires
        items@.len() == keys@.len(),
    ensures
        r@ == stable_sorted(keyed_view(keys@, items@)).map_values(|p: (Seq<char>, T)| p.1),
{
    let ghost all = keyed_view(keys@, items@);
    let total = items.len();
    let mut items = items;
    let mut keys = keys;
    let mut out: Vec<T> = Vec::new();
    let mut out_keys: Vec<Vec<char>> = Vec::new();
    let mut i: usize = 0;
    assert(all.take(0) =~= Seq::<(Seq<char>, T)>::empty());
    while items.len() > 0
        invariant
            items@.len() == keys@.len(),
            items@.len() + i == all.len(),
            all.len() == total,
            keyed_view(keys@, items@) == all.skip(i as int),
            out@.len() == out_keys@.len(),
            keyed_view(out_keys@, out@) == stable_sorted(all.take(i as int)),
        decreases items@.len(),
    {
        let ghost placed = keyed_view(out_keys@, out@);
        let ghost rest = keyed_view(keys@, items@);
        let item = items.remove(0);
        let key = keys.remove(0);
        let ghost e = (key@, item);
        proof {
            assert(rest[0] == e);
            assert(keyed_view(keys@, items@) =~= rest.drop_first());
            assert(all.skip(i as int).drop_first() =~= all.skip(i + 1));
            assert(all.take(i + 1).drop_last() =~= all.take(i as int));
            assert(all.take(i + 1).last() == all[i as int]);
            assert(all.skip(i as int)[0] == all[i as int]);
        }
        let mut p: usize = 0;
        while p < out_keys.len() && !text_lt(key.as_slice(), out_keys[p].as_slice())
            invariant
                p <= out_keys@.len(),
                out@.len() == out_keys@.len(),
                placed == keyed_view(out_keys@, out@),
                upper_bound(placed, key@, 0) == upper_bound(placed, key@, p as int),
            decreases out_keys@.len() - p,
        {
            assert(placed[p as int].0 == out_keys@[p as int]@);
            p = p + 1;
        }
        proof {
            if p < out_keys@.len() {
                assert(placed[p as int].0 == out_keys@[p as int]@);
            }
            assert(upper_bound(placed, key@, p as int) == p);
        }
        out.insert(p, item);
        out_keys.insert(p, key);
        proof {
            assert(keyed_view(out_keys@, out@) =~= placed.insert(p as int, e));
        }
        i = i + 1;
    }
    proof {
        assert(all.take(i as int) =~= all);
        assert(out@ =~= keyed_view(out_keys@, out@).map_values(|p: (Seq<char>, T)| p.1));
    }
    out
}

/// Items mapped to something else, keys kept.
pub open spec fn map_items<T, U>(s: Seq<(Seq<char>, T)>, f: spec_fn(T) -> U) -> Seq<(Seq<char>, U)> {
    s.map_values(|p: (Seq<char>, T)| (p.0, f(p.1)))
}

proof fn lemma_upper_bound_map<T, U>(s: Seq<(Seq<char>, T)>, f: spec_fn(T) -> U, k: Seq<char>, from: int)
    ensures
        upper_bound(map_items(s, f), k, from) == upper_bound(s, k, from),
    decreases s.len() - from,
{
    if 0 <= from < s.len() {
        lemma_upper_bound_map(s, f, k, from + 1);
    }
}

/// Sorting depends on the keys alone: mapping the items before sorting or after gives the same.
pub proof fn lemma_sorted_map<T, U>(s: Seq<(Seq<char>, T)>, f: spec_fn(T) -> U)
    ensures
        stable_sorted(map_items(s, f)) == map_items(stable_sorted(s), f),
    decreases s.len(),
{
    if s.len() > 0 {
        lemma_sorted_map(s.drop_last(), f);
        assert(map_items(s, f).drop_last() =~= map_items(s.drop_last(), f));
        let before = stable_sorted(s.drop_last());
        lemma_stable_sorted_is_sorted(s.drop_last());
        lemma_upper_bound(before, s.last().0, 0);
        lemma_upper_bound_map(before, f, s.last().0, 0);
        let p = upper_bound(before, s.last().0, 0);
        assert(map_items(before.insert(p, s.last()), f) =~= map_items(before, f).insert(p, (s.last().0, f(s.last().1))));
    }
}

} // verus!
