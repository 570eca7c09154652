//! A small map from strings to strings where a later insert under a key replaces the earlier
//! value, as a `HashMap<String, String>` does.
use vstd::prelude::*;
use vstd::string::*;

use crate::text::eq_str;

verus! {

broadcast use vstd::string::group_string_axioms;

/// The map that inserting `pairs` in order into an empty map gives.
pub open spec fn pairs_map(pairs: Seq<(Seq<char>, Seq<char>)>) -> Map<Seq<char>, Seq<char>>
    decreases pairs.len(),
{
    if pairs.len() == 0 {
        Map::empty()
    } else {
        pairs_map(pairs.drop_last()).insert(pairs.last().0, pairs.last().1)
    }
}

/// The view of a string pair.
pub open spec fn pair_view(p: (String, String)) -> (Seq<char>, Seq<char>) {
    (p.0@, p.1@)
}

/// The inserts made so far, oldest first.
pub open spec fn pairs_view(pairs: Seq<(String, String)>) -> Seq<(Seq<char>, Seq<char>)> {
    pairs.map_values(|p: (String, String)| pair_view(p))
}

/// The value under `key`, if any.
pub open spec fn map_lookup(m: Map<Seq<char>, Seq<char>>, key: Seq<char>) -> Option<Seq<char>> {
    if m.dom().contains(key) {
        Some(m[key])
    } else {
        None
    }
}

/// A map with a key dropped from the end of the inserts reads the same under any other key.
proof fn lemma_lookup_skips_other_key(pairs: Seq<(Seq<char>, Seq<char>)>, key: Seq<char>)
    requires
        pairs.len() > 0,
        pairs.last().0 != key,
    ensures
        map_lookup(pairs_map(pairs), key) == map_lookup(pairs_map(pairs.drop_last()), key),
{
}

/// An empty insert list gives the empty map.
pub proof fn lemma_no_pairs_no_keys(pairs: Seq<(Seq<char>, Seq<char>)>)
    ensures
        pairs.len() == 0 <==> pairs_map(pairs).dom().len() == 0,
        pairs_map(pairs).dom().finite(),
    decreases pairs.len(),
{
    if pairs.len() > 0 {
        lemma_no_pairs_no_keys(pairs.drop_last());
        assert(pairs_map(pairs).dom().contains(pairs.last().0));
    }
}

/// The inserts without those under `key`.
pub open spec fn pairs_without(pairs: Seq<(Seq<char>, Seq<char>)>, key: Seq<char>) -> Seq<
    (Seq<char>, Seq<char>),
>
    decreases pairs.len(),
{
    if pairs.len() == 0 {
        Seq::empty()
    } else if pairs.last().0 == key {
        pairs_without(pairs.drop_last(), key)
    } else {
        pairs_without(pairs.drop_last(), key).push(pairs.last())
    }
}

/// Dropping the inserts under a key drops the key from the map.
pub proof fn lemma_pairs_without(pairs: Seq<(Seq<char>, Seq<char>)>, key: Seq<char>)
    ensures
        pairs_map(pairs_without(pairs, key)) == pairs_map(pairs).remove(key),
    decreases pairs.len(),
{
    if pairs.len() == 0 {
        assert(pairs_map(pairs).remove(key) =~= Map::<Seq<char>, Seq<char>>::empty());
    } else {
        lemma_pairs_without(pairs.drop_last(), key);
        let w = pairs_without(pairs, key);
        if pairs.last().0 == key {
            assert(pairs_map(pairs).remove(key) =~= pairs_map(pairs.drop_last()).remove(key));
        } else {
            assert(w.drop_last() == pairs_without(pairs.drop_last(), key));
            assert(pairs_map(w) =~= pairs_map(pairs).remove(key));
        }
    }
}

/// Strings keyed by strings; a later value under a key replaces the earlier one.
#[derive(Debug)]
pub struct TextMap {
    pairs: Vec<(String, String)>,
}

impl TextMap {
    /// The map's contents.
    pub closed spec fn view(&self) -> Map<Seq<char>, Seq<char>> {
        pairs_map(pairs_view(self.pairs@))
    }

    /// An empty map.
    pub fn new() -> (r: TextMap)
        ensures
            r.view() == Map::<Seq<char>, Seq<char>>::empty(),
    {
        let r = TextMap { pairs: Vec::new() };
        assert(pairs_view(r.pairs@) =~= Seq::<(Seq<char>, Seq<char>)>::empty());
        r
    }

    /// Set `key` to `value`, replacing any earlier value.
    pub fn insert(&mut self, key: String, value: String)
        ensures
            final(self).view() == old(self).view().insert(key@, value@),
    {
        let ghost before = self.pairs@;
        self.pairs.push((key, value));
        assert(pairs_view(self.pairs@).drop_last() =~= pairs_view(before));
    }

    /// The value under `key`, if there is one.
    pub fn get(&self, key: &str) -> (r: Option<String>)
        ensures
            match r {
                Some(v) => map_lookup(self.view(), key@) == Some(v@),
                None => map_lookup(self.view(), key@) is None,
            },
    {
        let ghost all = pairs_view(self.pairs@);
        let mut i: usize = self.pairs.len();
        assert(all.take(i as int) =~= all);
        while i > 0
            invariant
                i <= self.pairs@.len(),
                all == pairs_view(self.pairs@),
                map_lookup(pairs_map(all), key@) == map_lookup(pairs_map(all.take(i as int)), key@),
            decreases i,
        {
            let (k, v) = &self.pairs[i - 1];
            if eq_str(k.as_str(), key) {
                proof {
                    assert(all.take(i as int).last() == all[i - 1]);
                }
                return Some(v.clone());
            }
            proof {
                assert(all.take(i as int).drop_last() =~= all.take(i - 1));
                lemma_lookup_skips_other_key(all.take(i as int), key@);
            }
            i = i - 1;
        }
        assert(all.take(0) =~= Seq::<(Seq<char>, Seq<char>)>::empty());
        None
    }

    /// The inserts made so far, oldest first; inserting them in order into an empty map gives
    /// this one.
    pub fn entries(&self) -> (r: Vec<(String, String)>)
        ensures
            pairs_map(pairs_view(r@)) == self.view(),
    {
        let mut out: Vec<(String, String)> = Vec::new();
        let mut i: usize = 0;
        while i < self.pairs.len()
            invariant
                i <= self.pairs@.len(),
                pairs_view(out@) == pairs_view(self.pairs@).take(i as int),
            decreases self.pairs@.len() - i,
        {
            let ghost before = out@;
            let k = self.pairs[i].0.clone();
            let v = self.pairs[i].1.clone();
            out.push((k, v));
            assert(out@ == before.push((k, v)));
            assert(pair_view((k, v)) == pair_view(self.pairs@[i as int]));
            assert(pairs_view(out@) =~= pairs_view(before).push(pair_view((k, v))));
            assert(pairs_view(out@) =~= pairs_view(self.pairs@).take(i + 1));
            i = i + 1;
        }
        assert(pairs_view(self.pairs@).take(i as int) =~= pairs_view(self.pairs@));
        out
    }

    /// Drop `key` and its value.
    pub fn remove(&mut self, key: &str)
        ensures
            final(self).view() == old(self).view().remove(key@),
    {
        let ghost all = pairs_view(self.pairs@);
        let mut kept: Vec<(String, String)> = Vec::new();
        let mut i: usize = 0;
        assert(all.take(0) =~= Seq::<(Seq<char>, Seq<char>)>::empty());
        while i < self.pairs.len()
            invariant
                i <= self.pairs@.len(),
                all == pairs_view(self.pairs@),
                pairs_view(kept@) == pairs_without(all.take(i as int), key@),
            decreases self.pairs@.len() - i,
        {
            assert(all[i as int] == pair_view(self.pairs@[i as int]));
            assert(all.take(i + 1).drop_last() =~= all.take(i as int));
            if !eq_str(self.pairs[i].0.as_str(), key) {
                let ghost before = pairs_view(kept@);
                let k = self.pairs[i].0.clone();
                let v = self.pairs[i].1.clone();
                kept.push((k, v));
                assert(pairs_view(kept@) =~= before.push(pair_view((k, v))));
            }
            i = i + 1;
        }
        assert(all.take(i as int) =~= all);
        proof {
            lemma_pairs_without(all, key@);
        }
        self.pairs = kept;
    }

    /// No key has a value.
    pub fn is_empty(&self) -> (r: bool)
        ensures
            r == (self.view().dom().len() == 0),
    {
        proof {
            lemma_no_pairs_no_keys(pairs_view(self.pairs@));
        }
        self.pairs.len() == 0
    }
}

} // verus!
