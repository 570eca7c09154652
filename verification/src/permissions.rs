//! The agent-mode permission gate: which tool calls run on their own and which ask the user.
use vstd::prelude::*;
use vstd::string::*;

use crate::text::{
    chars_of, contains, eq_str, starts_with, starts_with_chars, str_contains, to_lower, lower,
};

verus! {

broadcast use vstd::string::group_string_axioms;

/// Whether a tool call may run without asking.
#[derive(Debug, Clone, Copy, PartialEq, Eq, Structural)]
pub enum PermissionResult {
    Allow,
    Ask,
}

/// The final component of a path, as `Path::file_name` returns it (`None` for a path ending in
/// `..` or a root).
pub uninterp spec fn path_file_name(p: Seq<char>) -> Option<Seq<char>>;

/// `Path::new(p).file_name()`, as a string.
#[verifier::external_body]
fn file_name_of(p: &str) -> (r: Option<String>)
    ensures
        match r {
            Some(f) => path_file_name(p@) == Some(f@),
            None => path_file_name(p@) is None,
        },
{
    std::path::Path::new(p).file_name().and_then(|n| n.to_str()).map(|n| n.to_string())
}

/// One sensitive pattern hits: a pattern starting with `.` must begin the file name, any other
/// must occur in it; either way, occurring anywhere in the lowered path also counts.
pub open spec fn pattern_hits(pat: Seq<char>, path: Seq<char>, filename: Seq<char>) -> bool {
    (if pat.len() > 0 && pat[0] == '.' {
        starts_with(filename, pat)
    } else {
        contains(filename, pat)
    }) || contains(path, pat)
}

/// The file name the permission rule looks at: the lowered path's final component, or the whole lowered path.
pub open spec fn judged_name(path: Seq<char>) -> Seq<char> {
    match path_file_name(lower(path)) {
        Some(f) => f,
        None => lower(path),
    }
}

/// A path that looks like it holds secrets: `.env`, `secret`, `credential`, `password`, `.key`,
/// `.pem`, `.p12`, `.pfx`, matched against the lowered path.
pub open spec fn spec_is_sensitive_path(path: Seq<char>) -> bool {
    let l = lower(path);
    let f = judged_name(path);
    ||| pattern_hits(".env"@, l, f)
    ||| pattern_hits("secret"@, l, f)
    ||| pattern_hits("credential"@, l, f)
    ||| pattern_hits("password"@, l, f)
    ||| pattern_hits(".key"@, l, f)
    ||| pattern_hits(".pem"@, l, f)
    ||| pattern_hits(".p12"@, l, f)
    ||| pattern_hits(".pfx"@, l, f)
}

fn hits(pat: &str, path: &str, filename: &str) -> (r: bool)
    ensures
        r == pattern_hits(pat@, path@, filename@),
{
    let p = chars_of(pat);
    let by_name = if p.len() > 0 && p[0] == '.' {
        let f = chars_of(filename);
        starts_with_chars(f.as_slice(), p.as_slice())
    } else {
        str_contains(filename, pat)
    };
    by_name || str_contains(path, pat)
}

/// Sensitive file patterns for Balanced mode, matched against the lowered path.
pub fn is_sensitive_path(path: &str) -> (r: bool)
    ensures
        r == spec_is_sensitive_path(path@),
{
    let lowered = to_lower(path);
    let l = lowered.as_str();
    let name = match file_name_of(l) {
        Some(f) => f,
        None => l.to_owned(),
    };
    let f = name.as_str();
    hits(".env", l, f) || hits("secret", l, f) || hits("credential", l, f) || hits("password", l, f)
        || hits(".key", l, f) || hits(".pem", l, f) || hits(".p12", l, f) || hits(".pfx", l, f)
}

/// The graphify tools, decided independently of the agent mode: a query is read-only and always
/// runs; a build runs when the folder's auto-build toggle is on (that toggle is the consent), and
/// asks otherwise; anything else asks.
pub open spec fn spec_graphify_permission(tool_name: Seq<char>, auto_build_consented: bool) -> PermissionResult {
    if tool_name == "graphify_query"@ {
        PermissionResult::Allow
    } else if tool_name == "graphify_build"@ && auto_build_consented {
        PermissionResult::Allow
    } else {
        PermissionResult::Ask
    }
}

/// Permission for the graphify navigation tools.
pub fn graphify_permission(tool_name: &str, auto_build_consented: bool) -> (r: PermissionResult)
    ensures
        r == spec_graphify_permission(tool_name@, auto_build_consented),
{
    if eq_str(tool_name, "graphify_query") {
        PermissionResult::Allow
    } else if eq_str(tool_name, "graphify_build") && auto_build_consented {
        PermissionResult::Allow
    } else {
        PermissionResult::Ask
    }
}

/// The permission rule. Decided before the mode, so they hold in every mode: `install_skill` runs unless its
/// payload bundles an MCP server (an unreadable payload counts as bundling one), `delete_skill`
/// always asks, and a skill-declared tool always runs. Then by mode: `cautious` asks, `autonomous`
/// runs, `balanced` runs `read_file` on a non-sensitive path, `list_dir` and `search_files` and asks
/// for the rest; any other mode asks.
pub open spec fn spec_is_permitted(
    mode: Seq<char>,
    tool_name: Seq<char>,
    path: Seq<char>,
    payload_bundles_mcp: bool,
    is_skill_tool: bool,
) -> PermissionResult {
    if tool_name == "install_skill"@ {
        if payload_bundles_mcp {
            PermissionResult::Ask
        } else {
            PermissionResult::Allow
        }
    } else if tool_name == "delete_skill"@ {
        PermissionResult::Ask
    } else if is_skill_tool {
        PermissionResult::Allow
    } else if mode == "cautious"@ {
        PermissionResult::Ask
    } else if mode == "autonomous"@ {
        PermissionResult::Allow
    } else if mode == "balanced"@ {
        if tool_name == "read_file"@ {
            if spec_is_sensitive_path(path) {
                PermissionResult::Ask
            } else {
                PermissionResult::Allow
            }
        } else if tool_name == "list_dir"@ || tool_name == "search_files"@ {
            PermissionResult::Allow
        } else {
            PermissionResult::Ask
        }
    } else {
        PermissionResult::Ask
    }
}

/// Whether a built-in tool call may run without asking. `path` is the call's `path` argument (empty
/// when absent), `payload_bundles_mcp` whether an `install_skill` payload bundles an MCP server (or
/// could not be read), and `is_skill_tool` whether the name is a skill-declared tool.
pub fn is_permitted(
    mode: &str,
    tool_name: &str,
    path: &str,
    payload_bundles_mcp: bool,
    is_skill_tool: bool,
) -> (r: PermissionResult)
    ensures
        r == spec_is_permitted(mode@, tool_name@, path@, payload_bundles_mcp, is_skill_tool),
{
    if eq_str(tool_name, "install_skill") {
        return if payload_bundles_mcp {
            PermissionResult::Ask
        } else {
            PermissionResult::Allow
        };
    }
    if eq_str(tool_name, "delete_skill") {
        return PermissionResult::Ask;
    }
    if is_skill_tool {
        return PermissionResult::Allow;
    }
    if eq_str(mode, "cautious") {
        PermissionResult::Ask
    } else if eq_str(mode, "autonomous") {
        PermissionResult::Allow
    } else if eq_str(mode, "balanced") {
        if eq_str(tool_name, "read_file") {
            if is_sensitive_path(path) {
                PermissionResult::Ask
            } else {
                PermissionResult::Allow
            }
        } else if eq_str(tool_name, "list_dir") || eq_str(tool_name, "search_files") {
            PermissionResult::Allow
        } else {
            PermissionResult::Ask
        }
    } else {
        PermissionResult::Ask
    }
}

/// The four agent modes a conversation can be set to.
pub open spec fn spec_is_valid_agent_mode(mode: Seq<char>) -> bool {
    mode == "off"@ || mode == "cautious"@ || mode == "balanced"@ || mode == "autonomous"@
}

/// `mode` is one of `off`, `cautious`, `balanced`, `autonomous`.
pub fn is_valid_agent_mode(mode: &str) -> (r: bool)
    ensures
        r == spec_is_valid_agent_mode(mode@),
{
    eq_str(mode, "off") || eq_str(mode, "cautious") || eq_str(mode, "balanced") || eq_str(
        mode,
        "autonomous",
    )
}

/// Deleting a skill asks, in every mode, whatever the call carries.
pub proof fn lemma_delete_skill_always_asks(
    mode: Seq<char>,
    path: Seq<char>,
    payload_bundles_mcp: bool,
    is_skill_tool: bool,
)
    ensures
        spec_is_permitted(mode, "delete_skill"@, path, payload_bundles_mcp, is_skill_tool)
            == PermissionResult::Ask,
{
    reveal_strlit("install_skill");
    reveal_strlit("delete_skill");
    assert("install_skill"@ != "delete_skill"@) by {
        assert("install_skill"@.len() != "delete_skill"@.len());
    }
}

/// Installing a skill is decided by its payload alone: it runs exactly when the payload bundles no
/// MCP server, in every mode.
pub proof fn lemma_install_skill_follows_payload(
    mode: Seq<char>,
    path: Seq<char>,
    payload_bundles_mcp: bool,
    is_skill_tool: bool,
)
    ensures
        (spec_is_permitted(mode, "install_skill"@, path, payload_bundles_mcp, is_skill_tool)
            == PermissionResult::Allow) == !payload_bundles_mcp,
{
}

/// The modes are ordered: whatever `cautious` runs, `balanced` runs, and whatever `balanced` runs,
/// `autonomous` runs.
pub proof fn lemma_modes_are_ordered(
    tool_name: Seq<char>,
    path: Seq<char>,
    payload_bundles_mcp: bool,
    is_skill_tool: bool,
)
    ensures
        spec_is_permitted("cautious"@, tool_name, path, payload_bundles_mcp, is_skill_tool)
            == PermissionResult::Allow ==> spec_is_permitted(
            "balanced"@,
            tool_name,
            path,
            payload_bundles_mcp,
            is_skill_tool,
        ) == PermissionResult::Allow,
        spec_is_permitted("balanced"@, tool_name, path, payload_bundles_mcp, is_skill_tool)
            == PermissionResult::Allow ==> spec_is_permitted(
            "autonomous"@,
            tool_name,
            path,
            payload_bundles_mcp,
            is_skill_tool,
        ) == PermissionResult::Allow,
{
    reveal_strlit("cautious");
    reveal_strlit("balanced");
    reveal_strlit("autonomous");
    assert("cautious"@ != "autonomous"@) by {
        assert("cautious"@.len() != "autonomous"@.len());
    }
    assert("balanced"@ != "autonomous"@) by {
        assert("balanced"@.len() != "autonomous"@.len());
    }
    assert("balanced"@ != "cautious"@) by {
        assert("balanced"@[0] != "cautious"@[0]);
    }
}

/// Outside the skill exemptions, a mode that is not one of the three gated modes (`off`, or a
/// value from a newer build) always asks.
pub proof fn lemma_unknown_mode_asks(
    mode: Seq<char>,
    tool_name: Seq<char>,
    path: Seq<char>,
    payload_bundles_mcp: bool,
    is_skill_tool: bool,
)
    requires
        mode != "cautious"@,
        mode != "balanced"@,
        mode != "autonomous"@,
        tool_name != "install_skill"@,
        !is_skill_tool,
    ensures
        spec_is_permitted(mode, tool_name, path, payload_bundles_mcp, is_skill_tool)
            == PermissionResult::Ask,
{
}

/// A graphify query always runs; a build runs exactly when the user consented through the toggle.
pub proof fn lemma_graphify_consent(auto_build_consented: bool)
    ensures
        spec_graphify_permission("graphify_query"@, auto_build_consented) == PermissionResult::Allow,
        (spec_graphify_permission("graphify_build"@, auto_build_consented) == PermissionResult::Allow)
            == auto_build_consented,
{
    reveal_strlit("graphify_query");
    reveal_strlit("graphify_build");
    assert("graphify_query"@ != "graphify_build"@) by {
        assert("graphify_query"@[9] != "graphify_build"@[9]);
    }
}

} // verus!
