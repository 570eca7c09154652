//! The sidebar's file explorer over a conversation's working folder: which entries it shows and
//! in what order, which new names a rename accepts, and how large a file it opens. Reading the
//! folder, and keeping each path inside it, belong to the shell.
use vstd::prelude::*;
use vstd::string::*;

use crate::order::{keyed_view, sort_by_keys, stable_sorted};
use crate::text::{
    chars_of, concat, decimal, decimal_string, lower, starts_with, str_starts_with, to_lower,
    chars_eq,
};

verus! {

broadcast use vstd::string::group_string_axioms;

/// One entry of the explorer.
#[derive(Debug, Clone)]
pub struct FsEntry {
    pub name: String,
    pub path: String,
    pub is_dir: bool,
}

/// A hidden entry: its name starts with a dot.
pub open spec fn is_hidden(e: FsEntry) -> bool {
    starts_with(e.name@, "."@)
}

/// The entries that are not hidden, in order.
pub open spec fn visible(es: Seq<FsEntry>) -> Seq<FsEntry>
    decreases es.len(),
{
    if es.len() == 0 {
        Seq::empty()
    } else if is_hidden(es.last()) {
        visible(es.drop_last())
    } else {
        visible(es.drop_last()).push(es.last())
    }
}

fn visible_of(entries: Vec<FsEntry>) -> (r: Vec<FsEntry>)
    ensures
        r@ == visible(entries@),
{
    let ghost all = entries@;
    let mut entries = entries;
    let mut rest: Vec<FsEntry> = Vec::new();
    // Walk from the back so that each entry is moved, not copied.
    let mut kept_rev: Vec<FsEntry> = Vec::new();
    assert(all.take(all.len() as int) =~= all);
    assert(kept_rev@.reverse() =~= Seq::<FsEntry>::empty());
    assert(visible(all) =~= visible(all) + Seq::<FsEntry>::empty());
    while entries.len() > 0
        invariant
            entries@.len() <= all.len(),
            entries@ == all.take(entries@.len() as int),
            visible(all) == visible(entries@) + kept_rev@.reverse(),
        decreases entries@.len(),
    {
        let ghost n = entries@.len();
        let e = match entries.pop() {
            Some(e) => e,
            None => {
                return rest;
            },
        };
        assert(all.take(n as int).drop_last() =~= all.take(n - 1));
        assert(all.take(n as int).last() == e);
        let hidden = str_starts_with(e.name.as_str(), ".");
        if !hidden {
            let ghost before = kept_rev@;
            kept_rev.push(e);
            assert(kept_rev@.reverse() =~= seq![e] + before.reverse());
        }
        assert(entries@ =~= all.take(n - 1));
    }
    assert(visible(entries@) =~= Seq::<FsEntry>::empty());
    while kept_rev.len() > 0
        invariant
            visible(all) == rest@ + kept_rev@.reverse(),
        decreases kept_rev@.len(),
    {
        let ghost before = kept_rev@;
        let e = match kept_rev.pop() {
            Some(e) => e,
            None => {
                return rest;
            },
        };
        assert(before.reverse() =~= seq![e] + kept_rev@.reverse());
        rest.push(e);
    }
    assert(rest@ =~= visible(all));
    rest
}

/// The sort key of an entry: directories before files, then the lowered name.
pub open spec fn entry_key(e: FsEntry) -> Seq<char> {
    seq![if e.is_dir { '0' } else { '1' }] + lower(e.name@)
}

/// The keys of a list of entries.
pub open spec fn entry_keys(es: Seq<FsEntry>) -> Seq<Seq<char>> {
    es.map_values(|e: FsEntry| entry_key(e))
}

/// The view of keyed entries.
pub open spec fn keyed_entries(es: Seq<FsEntry>) -> Seq<(Seq<char>, FsEntry)> {
    es.map_values(|e: FsEntry| (entry_key(e), e))
}

/// A directory's listing: hidden entries left out, directories first, then by name without
/// regard to case; entries that compare equal keep their order.
pub open spec fn spec_listing(es: Seq<FsEntry>) -> Seq<FsEntry> {
    stable_sorted(keyed_entries(visible(es))).map_values(|p: (Seq<char>, FsEntry)| p.1)
}

/// The explorer's listing of a directory's entries.
pub fn listing(entries: Vec<FsEntry>) -> (r: Vec<FsEntry>)
    ensures
        r@ == spec_listing(entries@),
{
    let vis = visible_of(entries);
    let mut keys: Vec<Vec<char>> = Vec::new();
    let mut i: usize = 0;
    while i < vis.len()
        invariant
            i <= vis@.len(),
            keys@.len() == i,
            forall|k: int| 0 <= k < i ==> (#[trigger] keys@[k])@ == entry_key(vis@[k]),
        decreases vis@.len() - i,
    {
        let lowered = to_lower(vis[i].name.as_str());
        let mut key: Vec<char> = Vec::new();
        key.push(if vis[i].is_dir { '0' } else { '1' });
        let lc = chars_of(lowered.as_str());
        let mut j: usize = 0;
        while j < lc.len()
            invariant
                j <= lc@.len(),
                key@ == seq![if vis@[i as int].is_dir { '0' } else { '1' }] + lc@.take(j as int),
            decreases lc@.len() - j,
        {
            key.push(lc[j]);
            assert(lc@.take(j + 1) =~= lc@.take(j as int).push(lc@[j as int]));
            j = j + 1;
        }
        assert(lc@.take(lc@.len() as int) =~= lc@);
        keys.push(key);
        i = i + 1;
    }
    let ghost kv = keyed_view(keys@, vis@);
    assert(kv =~= keyed_entries(vis@));
    sort_by_keys(vis, keys)
}

/// The entries a recursive walk shows: hidden entries left out (their contents are still
/// walked), the walk's first entry (the root) skipped, five hundred at most.
pub open spec fn spec_walk_entries(es: Seq<FsEntry>) -> Seq<FsEntry> {
    let v = visible(es);
    let rest = if v.len() > 0 { v.skip(1) } else { v };
    if rest.len() > 500 { rest.take(500) } else { rest }
}

/// The explorer's flat list from a recursive walk of the working folder.
pub fn walk_entries(entries: Vec<FsEntry>) -> (r: Vec<FsEntry>)
    ensures
        r@ == spec_walk_entries(entries@),
{
    let vis = visible_of(entries);
    let ghost v = vis@;
    let mut vis = vis;
    if vis.len() > 0 {
        vis.remove(0);
        assert(vis@ =~= v.skip(1));
    }
    if vis.len() > 500 {
        vis.truncate(500);
    }
    vis
}

/// A new name a rename accepts: not empty, and free of `/`, `\` and NUL.
pub open spec fn spec_valid_new_name(name: Seq<char>) -> bool {
    name.len() > 0 && !name.contains('/') && !name.contains('\\') && !name.contains('\0')
}

/// Whether a rename's new name is acceptable; the refusal is `Invalid name`.
pub fn check_new_name(name: &str) -> (r: Result<(), String>)
    ensures
        r is Ok <==> spec_valid_new_name(name@),
        r matches Err(e) ==> e@ == "Invalid name"@,
{
    let cs = chars_of(name);
    if cs.len() == 0 {
        return Err("Invalid name".to_owned());
    }
    let mut i: usize = 0;
    while i < cs.len()
        invariant
            i <= cs@.len(),
            cs@ == name@,
            forall|k: int| 0 <= k < i ==> cs@[k] != '/' && cs@[k] != '\\' && cs@[k] != '\0',
        decreases cs@.len() - i,
    {
        let c = cs[i];
        if c == '/' || c == '\\' || c == '\0' {
            assert(name@[i as int] == c);
            return Err("Invalid name".to_owned());
        }
        i = i + 1;
    }
    assert(!name@.contains('/') && !name@.contains('\\') && !name@.contains('\0')) by {
        assert forall|k: int| 0 <= k < name@.len() implies name@[k] != '/' && name@[k] != '\\' && name@[k] != '\0' by {
            assert(cs@[k] == name@[k]);
        }
    }
    Ok(())
}

/// The largest file the explorer opens as text.
pub const MAX_TEXT_FILE: u64 = 2097152;

/// The largest file the explorer hands over as base64.
pub const MAX_BINARY_FILE: u64 = 20971520;

/// A file is refused when it is larger than the limit, naming its size and the limit in
/// megabytes.
pub open spec fn spec_size_check(len: u64, max: u64) -> Result<(), Seq<char>> {
    if len > max {
        Err("File too large ("@ + decimal(len as nat) + " bytes); max "@ + decimal((max / 1048576) as nat) + " MB"@)
    } else {
        Ok(())
    }
}

/// Whether a file of `len` bytes may be opened under a limit of `max`.
pub fn size_check(len: u64, max: u64) -> (r: Result<(), String>)
    ensures
        match r {
            Ok(()) => spec_size_check(len, max) is Ok,
            Err(e) => spec_size_check(len, max) == Err::<(), Seq<char>>(e@),
        },
{
    if len > max {
        let a = concat("File too large (", decimal_string(len).as_str());
        let b = concat(a.as_str(), " bytes); max ");
        let c = concat(b.as_str(), decimal_string(max / 1048576).as_str());
        Err(concat(c.as_str(), " MB"))
    } else {
        Ok(())
    }
}

/// A canonical path without Windows' `\\?\` extended-length prefix.
pub open spec fn spec_strip_verbatim(p: Seq<char>) -> Seq<char> {
    if starts_with(p, "\\\\?\\"@) { p.skip(4) } else { p }
}

/// Strip the `\\?\` prefix that canonicalising adds on Windows.
pub fn strip_verbatim(p: &str) -> (r: String)
    ensures
        r@ == spec_strip_verbatim(p@),
{
    proof {
        reveal_strlit("\\\\?\\");
    }
    if str_starts_with(p, "\\\\?\\") {
        let cs = chars_of(p);
        let tail = crate::text::slice_to_vec_range(cs.as_slice(), 4, cs.len());
        assert(tail@ =~= p@.skip(4));
        crate::text::string_of(tail.as_slice())
    } else {
        p.to_owned()
    }
}

} // verus!
