//! Which configured MCP servers the app starts, and where a server's command is looked for on
//! Windows (so no shell is ever asked to run it). Spawning the processes and speaking JSON-RPC to
//! them belong to the shell.
use vstd::prelude::*;
use vstd::string::*;

use crate::cli::McpServer;
use crate::text::{concat, eq_str, lower, split_char, split_chars, chars_of, string_of, to_lower};

verus! {

broadcast use vstd::string::group_string_axioms;

/// The app starts a server that is enabled, speaks stdio, and has both a command and an argument
/// list.
pub open spec fn spec_spawned(s: McpServer) -> bool {
    s.enabled && s.transport@ == "stdio"@ && s.command is Some && s.args is Some
}

/// The positions of the servers the app starts, in order.
pub open spec fn spec_spawned_servers(servers: Seq<McpServer>, n: int) -> Seq<int>
    decreases n,
{
    if n <= 0 {
        Seq::empty()
    } else {
        spec_spawned_servers(servers, n - 1) + if spec_spawned(servers[n - 1]) {
            seq![n - 1]
        } else {
            Seq::empty()
        }
    }
}

/// The positions of the configured servers the app starts, in order.
pub fn spawned_servers(servers: &Vec<McpServer>) -> (r: Vec<usize>)
    ensures
        r@.map_values(|i: usize| i as int) == spec_spawned_servers(servers@, servers@.len() as int),
{
    let mut out: Vec<usize> = Vec::new();
    let mut i: usize = 0;
    while i < servers.len()
        invariant
            i <= servers@.len(),
            out@.map_values(|i: usize| i as int) == spec_spawned_servers(servers@, i as int),
        decreases servers@.len() - i,
    {
        let s = &servers[i];
        let ghost before = out@.map_values(|i: usize| i as int);
        if s.enabled && eq_str(s.transport.as_str(), "stdio") && s.command.is_some() && s.args.is_some() {
            out.push(i);
            assert(out@.map_values(|i: usize| i as int) =~= before + seq![i as int]);
        } else {
            assert(out@.map_values(|i: usize| i as int) =~= before + Seq::<int>::empty());
        }
        i = i + 1;
    }
    out
}

/// A server the app starts speaks stdio: an `sse` server is stored and never connected, as
/// `mcp add` warns.
pub proof fn lemma_only_stdio_servers_start(servers: Seq<McpServer>, n: int)
    requires
        n <= servers.len(),
    ensures
        forall|k: int|
            0 <= k < spec_spawned_servers(servers, n).len() ==> {
                let i = #[trigger] spec_spawned_servers(servers, n)[k];
                0 <= i < n && servers[i].transport@ == "stdio"@ && servers[i].enabled
            },
    decreases n,
{
    if n > 0 {
        lemma_only_stdio_servers_start(servers, n - 1);
        let before = spec_spawned_servers(servers, n - 1);
        let all = spec_spawned_servers(servers, n);
        assert forall|k: int| 0 <= k < all.len() implies {
            let i = #[trigger] all[k];
            0 <= i < n && servers[i].transport@ == "stdio"@ && servers[i].enabled
        } by {
            if k < before.len() {
                assert(all[k] == before[k]);
            }
        }
    }
}

/// The extensions Windows tries when none is given and `PATHEXT` is unset.
pub const DEFAULT_PATHEXT: &'static str = ".COM;.EXE;.BAT;.CMD";

/// The file names a command is looked for under in each `PATH` folder, in order: the command
/// itself where it has an extension, else the command with each `PATHEXT` extension, lowered.
pub open spec fn spec_candidate_names(command: Seq<char>, has_extension: bool, pathext: Option<Seq<char>>) -> Seq<
    Seq<char>,
> {
    if has_extension {
        seq![command]
    } else {
        let exts = split_char(
            match pathext {
                Some(p) => p,
                None => DEFAULT_PATHEXT@,
            },
            ';',
        );
        exts.map_values(|e: Seq<char>| command + lower(e))
    }
}

/// The file names a command is looked for under in each `PATH` folder, in order.
pub fn candidate_names(command: &str, has_extension: bool, pathext: Option<&str>) -> (r: Vec<String>)
    ensures
        r.deep_view() == spec_candidate_names(command@, has_extension, crate::text::opt_str(pathext)),
{
    if has_extension {
        let mut v: Vec<String> = Vec::new();
        v.push(command.to_string());
        assert(v.deep_view() =~= seq![command@]);
        return v;
    }
    let list: &str = match pathext {
        Some(p) => p,
        None => DEFAULT_PATHEXT,
    };
    let cs = chars_of(list);
    let exts = split_chars(cs.as_slice(), ';');
    let ghost ev = exts.deep_view();
    let mut out: Vec<String> = Vec::new();
    let mut i: usize = 0;
    while i < exts.len()
        invariant
            i <= exts@.len(),
            ev == exts.deep_view(),
            out.deep_view() == ev.take(i as int).map_values(|e: Seq<char>| command@ + lower(e)),
        decreases exts@.len() - i,
    {
        let e = string_of(exts[i].as_slice());
        let lowered = to_lower(e.as_str());
        let ghost before = out.deep_view();
        out.push(concat(command, lowered.as_str()));
        assert(ev[i as int] == exts@[i as int]@);
        assert(out.deep_view() =~= before.push(command@ + lower(ev[i as int])));
        assert(ev.take(i + 1) =~= ev.take(i as int).push(ev[i as int]));
        assert(out.deep_view() =~= ev.take(i + 1).map_values(|e: Seq<char>| command@ + lower(e)));
        i = i + 1;
    }
    assert(ev.take(exts@.len() as int) =~= ev);
    out
}

// ------------------------------------------------------------------ the stored columns

/// The strings `serde_json::from_str::<Vec<String>>` reads out of a text; `None` where the text
/// is not a JSON array of strings.
pub uninterp spec fn json_string_list(text: Seq<char>) -> Option<Seq<Seq<char>>>;

/// The map `serde_json::from_str::<BTreeMap<String, String>>` reads out of a text; `None` where
/// the text is not a JSON object of strings.
pub uninterp spec fn json_string_map(text: Seq<char>) -> Option<Map<Seq<char>, Seq<char>>>;

/// `serde_json::from_str::<Vec<String>>`.
#[verifier::external_body]
fn parse_string_list(text: &str) -> (r: Option<Vec<String>>)
    ensures
        match r {
            Some(v) => json_string_list(text@) == Some(v.deep_view()),
            None => json_string_list(text@) is None,
        },
{
    serde_json::from_str::<Vec<String>>(text).ok()
}

/// `serde_json::from_str::<BTreeMap<String, String>>`, its entries in key order.
#[verifier::external_body]
fn parse_string_map(text: &str) -> (r: Option<Vec<(String, String)>>)
    ensures
        match r {
            Some(v) => json_string_map(text@) == Some(crate::textmap::pairs_map(crate::textmap::pairs_view(v@))),
            None => json_string_map(text@) is None,
        },
{
    serde_json::from_str::<std::collections::BTreeMap<String, String>>(text).ok().map(|m| m.into_iter().collect())
}

/// `serde_json::to_string` of a list of strings; it cannot fail for strings, and reading the text
/// back gives the list.
#[verifier::external_body]
fn string_list_json(list: &Vec<String>) -> (r: String)
    ensures
        json_string_list(r@) == Some(list.deep_view()),
{
    serde_json::to_string(list).unwrap_or_default()
}

/// `serde_json::to_string` of the `BTreeMap` the pairs make (a later pair under a key replacing
/// an earlier one); it cannot fail for string keys and values, and reading the text back gives
/// that map.
#[verifier::external_body]
fn string_map_json(pairs: &Vec<(String, String)>) -> (r: String)
    ensures
        json_string_map(r@) == Some(crate::textmap::pairs_map(crate::textmap::pairs_view(pairs@))),
{
    let m: std::collections::BTreeMap<String, String> = pairs.iter().cloned().collect();
    serde_json::to_string(&m).unwrap_or_default()
}

/// A server's stored argument list: the strings of its JSON column, `None` where the column is
/// empty or is not a JSON array of strings.
pub fn args_from_column(text: Option<&str>) -> (r: Option<Vec<String>>)
    ensures
        match r {
            Some(v) => text is Some && json_string_list(text.unwrap()@) == Some(v.deep_view()),
            None => text is None || json_string_list(text.unwrap()@) is None,
        },
{
    match text {
        Some(t) => parse_string_list(t),
        None => None,
    }
}

/// A server's stored environment: the map of its JSON column, `None` where the column is empty or
/// is not a JSON object of strings.
pub fn env_from_column(text: Option<&str>) -> (r: Option<crate::textmap::TextMap>)
    ensures
        match r {
            Some(m) => text is Some && json_string_map(text.unwrap()@) == Some(m.view()),
            None => text is None || json_string_map(text.unwrap()@) is None,
        },
{
    let t = match text {
        Some(t) => t,
        None => return None,
    };
    let pairs = match parse_string_map(t) {
        Some(p) => p,
        None => return None,
    };
    let ghost pv = crate::textmap::pairs_view(pairs@);
    let mut m = crate::textmap::TextMap::new();
    let mut i: usize = 0;
    while i < pairs.len()
        invariant
            i <= pairs@.len(),
            pv == crate::textmap::pairs_view(pairs@),
            m.view() == crate::textmap::pairs_map(pv.take(i as int)),
        decreases pairs@.len() - i,
    {
        assert(pv.take(i + 1).drop_last() =~= pv.take(i as int));
        assert(pv.take(i + 1).last() == pv[i as int]);
        m.insert(pairs[i].0.clone(), pairs[i].1.clone());
        i = i + 1;
    }
    assert(pv.take(i as int) =~= pv);
    Some(m)
}

/// The JSON column a server's argument list is stored in; reading it back gives the list.
pub fn args_column(args: &Option<Vec<String>>) -> (r: Option<String>)
    ensures
        match args {
            Some(a) => r matches Some(t) && json_string_list(t@) == Some(a.deep_view()),
            None => r is None,
        },
{
    match args {
        Some(a) => Some(string_list_json(a)),
        None => None,
    }
}

/// The JSON column a server's environment is stored in; reading it back gives the map.
pub fn env_column(env: &Option<crate::textmap::TextMap>) -> (r: Option<String>)
    ensures
        match env {
            Some(m) => r matches Some(t) && json_string_map(t@) == Some(m.view()),
            None => r is None,
        },
{
    match env {
        Some(m) => Some(string_map_json(&m.entries())),
        None => None,
    }
}

} // verus!
