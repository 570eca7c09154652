//! The headless command line: `demido-studio skill add <path>`, `demido-studio mcp add ...`.
//!
//! What a command line asks for, what a skill's frontmatter says, which options an MCP server
//! was given, and what the command prints are decided here; the folders, the database and the
//! console belong to the shell.
use vstd::prelude::*;
use vstd::string::*;

use crate::text::{
    chars_of, concat, eq_str, find, find_chars, lower, slice_to_vec_range, split_char, split_chars,
    starts_with, starts_with_chars, str_contains, string_of, strip_prefix_all, strip_prefix_all_chars,
    to_lower, trim, trim_bounds, contains,
};
use crate::textmap::TextMap;

use crate::text::opt_string;
verus! {

broadcast use vstd::string::group_string_axioms;

/// The usage text the CLI prints for `help`.
pub const HELP: &'static str = "\
Demido Studio CLI

Usage:
  demido-studio                                  launch the app
  demido-studio skill add [--convert] <path>     install a skill folder
  demido-studio skill list                       list installed skills
  demido-studio skill remove <id>                uninstall a skill
  demido-studio mcp add [opts] <name> <target>   add an MCP server
  demido-studio mcp list                         list MCP servers
  demido-studio mcp remove <name>                remove an MCP server

Skill add options:
  --convert   convert an OpenCode or other agent-tool skill: strip the YAML
              frontmatter, inline referenced files into SKILL.md, and report what
              needs a human or model pass afterwards

MCP add options:
  --transport <stdio|sse|http>   default: stdio ('http' is an alias for 'sse')
  --env KEY=VALUE                repeatable
  --disabled                     add without enabling

Examples:
  demido-studio skill add C:\\path\\to\\skill
  demido-studio mcp add --transport http docs https://example.com/mcp
  demido-studio mcp add ctx7 npx -y @upstash/context7-mcp
";

/// The view of a list of borrowed strings.
pub open spec fn strs_view(args: Seq<&str>) -> Seq<Seq<char>> {
    args.map_values(|a: &str| a@)
}

// ------------------------------------------------------------------ routing

/// Whether the first argument is one the CLI answers; anything else belongs to the window.
pub open spec fn spec_handles(first: Seq<char>) -> bool {
    first == "skill"@ || first == "mcp"@ || first == "help"@ || first == "--help"@ || first == "-h"@
}

/// Whether the first argument is one the CLI answers; anything else (webview switches, file
/// associations) belongs to the window.
pub fn handles(first: &str) -> (r: bool)
    ensures
        r == spec_handles(first@),
{
    eq_str(first, "skill") || eq_str(first, "mcp") || eq_str(first, "help") || eq_str(first, "--help")
        || eq_str(first, "-h")
}

/// What a command line asks the CLI to do. The arguments of `SkillAdd` and `McpAdd` are those
/// after the subcommand; the id or name of `SkillRemove` and `McpRemove` is the argument after it.
#[derive(Debug, Clone, Copy, PartialEq, Eq, Structural)]
pub enum Command {
    Help,
    SkillAdd,
    SkillList,
    SkillRemove,
    McpAdd,
    McpList,
    McpRemove,
}

/// The command a command line names, or the message for one it does not.
pub open spec fn spec_dispatch(args: Seq<Seq<char>>) -> Result<Command, Seq<char>> {
    let first = args[0];
    if first == "help"@ || first == "--help"@ || first == "-h"@ {
        Ok(Command::Help)
    } else if first == "skill"@ {
        if args.len() < 2 || args[1] == "list"@ {
            Ok(Command::SkillList)
        } else if args[1] == "add"@ {
            Ok(Command::SkillAdd)
        } else if args[1] == "remove"@ || args[1] == "rm"@ {
            Ok(Command::SkillRemove)
        } else {
            Err("unknown `skill` subcommand: "@ + args[1])
        }
    } else if first == "mcp"@ {
        if args.len() < 2 || args[1] == "list"@ {
            Ok(Command::McpList)
        } else if args[1] == "add"@ {
            Ok(Command::McpAdd)
        } else if args[1] == "remove"@ || args[1] == "rm"@ {
            Ok(Command::McpRemove)
        } else {
            Err("unknown `mcp` subcommand: "@ + args[1])
        }
    } else {
        Err("unknown command: "@ + first)
    }
}

/// The command a (non-empty) command line names, or the message for one it does not.
pub fn dispatch(args: &[&str]) -> (r: Result<Command, String>)
    requires
        args@.len() > 0,
    ensures
        match r {
            Ok(c) => spec_dispatch(strs_view(args@)) == Ok::<Command, Seq<char>>(c),
            Err(e) => spec_dispatch(strs_view(args@)) == Err::<Command, Seq<char>>(e@),
        },
{
    let ghost v = strs_view(args@);
    assert(v[0] == args@[0]@);
    let first = args[0];
    if eq_str(first, "help") || eq_str(first, "--help") || eq_str(first, "-h") {
        return Ok(Command::Help);
    }
    let skill = eq_str(first, "skill");
    let mcp = eq_str(first, "mcp");
    if !skill && !mcp {
        return Err(concat("unknown command: ", first));
    }
    if args.len() < 2 {
        return Ok(if skill { Command::SkillList } else { Command::McpList });
    }
    let sub = args[1];
    assert(v[1] == sub@);
    if eq_str(sub, "list") {
        Ok(if skill { Command::SkillList } else { Command::McpList })
    } else if eq_str(sub, "add") {
        Ok(if skill { Command::SkillAdd } else { Command::McpAdd })
    } else if eq_str(sub, "remove") || eq_str(sub, "rm") {
        Ok(if skill { Command::SkillRemove } else { Command::McpRemove })
    } else if skill {
        Err(concat("unknown `skill` subcommand: ", sub))
    } else {
        Err(concat("unknown `mcp` subcommand: ", sub))
    }
}

// ------------------------------------------------------------------ frontmatter

/// A quote character that frontmatter values may be wrapped in.
pub open spec fn is_quote(c: char) -> bool {
    c == '"' || c == '\''
}

/// `s` without its leading quote characters.
pub open spec fn unquote_start(s: Seq<char>) -> Seq<char>
    decreases s.len(),
{
    if s.len() > 0 && is_quote(s[0]) {
        unquote_start(s.drop_first())
    } else {
        s
    }
}

/// `s` without its trailing quote characters.
pub open spec fn unquote_end(s: Seq<char>) -> Seq<char>
    decreases s.len(),
{
    if s.len() > 0 && is_quote(s.last()) {
        unquote_end(s.drop_last())
    } else {
        s
    }
}

/// `s` with quote characters removed from both ends (`trim_matches` on `"` and `'`).
pub open spec fn unquote(s: Seq<char>) -> Seq<char> {
    unquote_end(unquote_start(s))
}

/// The entries after one frontmatter line: a `key: value` line with a non-empty value sets the
/// trimmed, lower-cased key to the trimmed value without its surrounding quotes; any other line
/// changes nothing.
pub open spec fn frontmatter_line(m: Map<Seq<char>, Seq<char>>, line: Seq<char>) -> Map<
    Seq<char>,
    Seq<char>,
> {
    let k = find(line, seq![':']);
    if k < 0 {
        m
    } else {
        let v = unquote(trim(line.skip(k + 1)));
        if v.len() == 0 {
            m
        } else {
            m.insert(lower(trim(line.take(k))), v)
        }
    }
}

/// The entries the frontmatter lines set, later lines winning.
pub open spec fn frontmatter_lines(lines: Seq<Seq<char>>) -> Map<Seq<char>, Seq<char>>
    decreases lines.len(),
{
    if lines.len() == 0 {
        Map::empty()
    } else {
        frontmatter_line(frontmatter_lines(lines.drop_last()), lines.last())
    }
}

/// A `SKILL.md` split into its frontmatter entries and the body below it. Without an opening
/// `---` and a later line that starts with `---`, there is no frontmatter and the body is the
/// whole text. The header is read line by line; the blank lines after the closing `---` are not
/// part of the body.
pub open spec fn spec_split_frontmatter(md: Seq<char>) -> (Map<Seq<char>, Seq<char>>, Seq<char>) {
    if !starts_with(md, "---"@) {
        (Map::empty(), md)
    } else {
        let after = md.skip(3);
        let end = find(after, "\n---"@);
        if end < 0 {
            (Map::empty(), md)
        } else {
            (
                frontmatter_lines(split_char(after.take(end), '\n')),
                strip_prefix_all(after.skip(end + 4), seq!['\n']),
            )
        }
    }
}

proof fn lemma_unquote_start_step(s: Seq<char>, k: int)
    requires
        0 <= k < s.len(),
        is_quote(s[k]),
    ensures
        unquote_start(s.skip(k)) == unquote_start(s.skip(k + 1)),
{
    assert(s.skip(k).drop_first() =~= s.skip(k + 1));
}

proof fn lemma_unquote_end_step(s: Seq<char>, k: int)
    requires
        0 < k <= s.len(),
        is_quote(s[k - 1]),
    ensures
        unquote_end(s.take(k)) == unquote_end(s.take(k - 1)),
{
    assert(s.take(k).drop_last() =~= s.take(k - 1));
}

/// `s` with quote characters removed from both ends.
fn unquote_chars(s: &[char]) -> (r: Vec<char>)
    ensures
        r@ == unquote(s@),
{
    let mut lo: usize = 0;
    assert(s@.skip(0) =~= s@);
    while lo < s.len() && (s[lo] == '"' || s[lo] == '\'')
        invariant
            lo <= s@.len(),
            unquote_start(s@) == unquote_start(s@.skip(lo as int)),
        decreases s@.len() - lo,
    {
        proof {
            lemma_unquote_start_step(s@, lo as int);
        }
        lo = lo + 1;
    }
    let ghost t = s@.skip(lo as int);
    assert(unquote_start(s@) == t) by {
        if t.len() > 0 {
            assert(t[0] == s@[lo as int]);
        }
    }
    let mut hi: usize = s.len();
    assert(t.take(t.len() as int) =~= t);
    while hi > lo && (s[hi - 1] == '"' || s[hi - 1] == '\'')
        invariant
            lo <= hi <= s@.len(),
            t == s@.skip(lo as int),
            unquote_end(t) == unquote_end(t.take(hi - lo)),
        decreases hi,
    {
        proof {
            assert(t[hi - lo - 1] == s@[hi - 1]);
            lemma_unquote_end_step(t, (hi - lo) as int);
        }
        hi = hi - 1;
    }
    assert(unquote_end(t.take(hi - lo)) == t.take(hi - lo)) by {
        if hi > lo {
            assert(t.take(hi - lo).last() == s@[hi - 1]);
        }
    }
    let r = slice_to_vec_range(s, lo, hi);
    assert(r@ =~= t.take(hi - lo));
    r
}

/// Apply one frontmatter line to the entries read so far.
fn read_frontmatter_line(m: &mut TextMap, line: &[char])
    ensures
        final(m).view() == frontmatter_line(old(m).view(), line@),
{
    let colon = [':'];
    let n = line.len();
    assert(colon@ =~= seq![':']);
    match find_chars(line, colon.as_slice()) {
        None => {},
        Some(k) => {
            proof {
                crate::text::lemma_find_range(line@, seq![':'], 0);
                assert(crate::text::occurs_at(line@, seq![':'], k as int));
                assert(seq![':'].len() == 1);
            }
            assert(k < n);
            let rest = slice_to_vec_range(line, k + 1, n);
            assert(rest@ =~= line@.skip(k + 1));
            let (lo, hi) = trim_bounds(rest.as_slice());
            let trimmed = slice_to_vec_range(rest.as_slice(), lo, hi);
            let v = unquote_chars(trimmed.as_slice());
            if v.len() > 0 {
                let head = slice_to_vec_range(line, 0, k);
                assert(head@ =~= line@.take(k as int));
                let (klo, khi) = trim_bounds(head.as_slice());
                let key_chars = slice_to_vec_range(head.as_slice(), klo, khi);
                let key_text = string_of(key_chars.as_slice());
                let key = to_lower(key_text.as_str());
                let value = string_of(v.as_slice());
                m.insert(key, value);
            }
        },
    }
}

/// A `SKILL.md` split into its frontmatter entries (YAML `key: value` lines between an opening
/// `---` and the next line that starts with `---`) and the body below it.
pub fn split_frontmatter(md: &str) -> (r: (TextMap, String))
    ensures
        r.0.view() == spec_split_frontmatter(md@).0,
        r.1@ == spec_split_frontmatter(md@).1,
{
    let cs = chars_of(md);
    let dashes = ['-', '-', '-'];
    proof {
        reveal_strlit("---");
    }
    assert(dashes@ =~= "---"@);
    if !starts_with_chars(cs.as_slice(), dashes.as_slice()) {
        return (TextMap::new(), md.to_string());
    }
    let after = slice_to_vec_range(cs.as_slice(), 3, cs.len());
    assert(after@ =~= md@.skip(3));
    let close = ['\n', '-', '-', '-'];
    proof {
        reveal_strlit("\n---");
    }
    assert(close@ =~= "\n---"@);
    match find_chars(after.as_slice(), close.as_slice()) {
        None => (TextMap::new(), md.to_string()),
        Some(end) => {
            proof {
                crate::text::lemma_find_range(after@, "\n---"@, 0);
            }
            let header = slice_to_vec_range(after.as_slice(), 0, end);
            assert(header@ =~= after@.take(end as int));
            let lines = split_chars(header.as_slice(), '\n');
            let ghost ls = split_char(after@.take(end as int), '\n');
            let mut m = TextMap::new();
            let mut i: usize = 0;
            assert(ls.take(0) =~= Seq::<Seq<char>>::empty());
            while i < lines.len()
                invariant
                    i <= lines@.len(),
                    lines.deep_view() == ls,
                    m.view() == frontmatter_lines(ls.take(i as int)),
                decreases lines@.len() - i,
            {
                proof {
                    assert(lines.deep_view()[i as int] == lines@[i as int]@);
                    assert(ls.take(i + 1).drop_last() =~= ls.take(i as int));
                }
                read_frontmatter_line(&mut m, lines[i].as_slice());
                i = i + 1;
            }
            assert(ls.take(ls.len() as int) =~= ls);
            let tail = slice_to_vec_range(after.as_slice(), end + 4, after.len());
            assert(tail@ =~= after@.skip(end + 4));
            let nl = ['\n'];
            assert(nl@ =~= seq!['\n']);
            let body = strip_prefix_all_chars(tail.as_slice(), nl.as_slice());
            (m, string_of(body.as_slice()))
        },
    }
}

/// The frontmatter entries of a `SKILL.md`; none where it has no frontmatter.
pub fn parse_frontmatter(md: &str) -> (r: TextMap)
    ensures
        r.view() == spec_split_frontmatter(md@).0,
{
    split_frontmatter(md).0
}

// ------------------------------------------------------------------ skills

/// A skill id that names one folder inside the skills directory: not empty, no path separator,
/// no `..`.
pub open spec fn spec_is_valid_skill_id(id: Seq<char>) -> bool {
    id.len() > 0 && !id.contains('/') && !id.contains('\\') && !contains(id, ".."@)
}

/// Whether `id` can name one folder inside the skills directory.
pub fn is_valid_skill_id(id: &str) -> (r: bool)
    ensures
        r == spec_is_valid_skill_id(id@),
{
    let cs = chars_of(id);
    if cs.len() == 0 {
        return false;
    }
    let mut i: usize = 0;
    while i < cs.len()
        invariant
            i <= cs@.len(),
            cs@ == id@,
            forall|j: int| 0 <= j < i ==> cs@[j] != '/' && cs@[j] != '\\',
        decreases cs@.len() - i,
    {
        if cs[i] == '/' || cs[i] == '\\' {
            return false;
        }
        i = i + 1;
    }
    !str_contains(id, "..")
}

/// What `skill add` was asked: whether to convert, and the folder.
pub struct SkillAddArgs {
    pub convert: bool,
    pub path: String,
}

/// The first argument not starting with `--`, if any.
pub open spec fn first_plain(args: Seq<Seq<char>>) -> Option<Seq<char>>
    decreases args.len(),
{
    if args.len() == 0 {
        None
    } else if !starts_with(args[0], "--"@) {
        Some(args[0])
    } else {
        first_plain(args.drop_first())
    }
}

/// The first option other than `--convert`, if any.
pub open spec fn first_unknown_option(args: Seq<Seq<char>>) -> Option<Seq<char>>
    decreases args.len(),
{
    if args.len() == 0 {
        None
    } else if starts_with(args[0], "--"@) && args[0] != "--convert"@ {
        Some(args[0])
    } else {
        first_unknown_option(args.drop_first())
    }
}

/// The arguments of `skill add`: an unknown option is refused first, then a missing folder.
pub open spec fn spec_skill_add_args(args: Seq<Seq<char>>) -> Result<(bool, Seq<char>), Seq<char>> {
    match first_unknown_option(args) {
        Some(bad) => Err("unknown option: "@ + bad),
        None => match first_plain(args) {
            None => Err("usage: demido-studio skill add [--convert] <path>"@),
            Some(path) => Ok((args.contains("--convert"@), path)),
        },
    }
}

/// Read the arguments of `skill add [--convert] <path>`.
pub fn parse_skill_add_args(args: &[&str]) -> (r: Result<SkillAddArgs, String>)
    ensures
        match r {
            Ok(a) => spec_skill_add_args(strs_view(args@)) == Ok::<(bool, Seq<char>), Seq<char>>(
                (a.convert, a.path@),
            ),
            Err(e) => spec_skill_add_args(strs_view(args@)) == Err::<(bool, Seq<char>), Seq<char>>(
                e@,
            ),
        },
{
    let ghost v = strs_view(args@);
    let mut convert = false;
    let mut path: Option<&str> = None;
    let mut i: usize = 0;
    assert(v.skip(0) =~= v);
    while i < args.len()
        invariant
            i <= args@.len(),
            v == strs_view(args@),
            convert == v.take(i as int).contains("--convert"@),
            first_unknown_option(v) == first_unknown_option(v.skip(i as int)),
            match path {
                None => first_plain(v) == first_plain(v.skip(i as int)),
                Some(p) => first_plain(v) == Some(p@),
            },
        decreases args@.len() - i,
    {
        let a = args[i];
        proof {
            assert(v[i as int] == a@);
            assert(v.skip(i as int).drop_first() =~= v.skip(i + 1));
            assert(v.skip(i as int)[0] == a@);
            assert(v.take(i + 1) =~= v.take(i as int).push(a@));
        }
        let dashed = crate::text::str_starts_with(a, "--");
        let is_convert = eq_str(a, "--convert");
        if dashed && !is_convert {
            return Err(concat("unknown option: ", a));
        }
        proof {
            let t0 = v.take(i as int);
            let t1 = v.take(i + 1);
            if is_convert {
                assert(t1[i as int] == "--convert"@);
            } else {
                if t1.contains("--convert"@) {
                    let j = choose|j: int| 0 <= j < t1.len() && t1[j] == "--convert"@;
                    assert(j < i);
                    assert(t0[j] == "--convert"@);
                }
                if t0.contains("--convert"@) {
                    let j = choose|j: int| 0 <= j < t0.len() && t0[j] == "--convert"@;
                    assert(t1[j] == "--convert"@);
                }
            }
        }
        if is_convert {
            convert = true;
        }
        if !dashed && path.is_none() {
            path = Some(a);
        }
        i = i + 1;
    }
    assert(v.take(i as int) =~= v);
    assert(v.skip(i as int) =~= Seq::<Seq<char>>::empty());
    match path {
        None => Err("usage: demido-studio skill add [--convert] <path>".to_string()),
        Some(p) => Ok(SkillAddArgs { convert, path: p.to_string() }),
    }
}

// ------------------------------------------------------------------ mcp

/// What `mcp add` was given.
#[derive(Debug)]
pub struct AddOpts {
    /// `stdio` or `sse` (`http` is stored as `sse`).
    pub transport: String,
    /// The `--env KEY=VALUE` pairs, a later key replacing an earlier one.
    pub env: TextMap,
    /// False after `--disabled`.
    pub enabled: bool,
    /// The name, then the server's own command line (or its url).
    pub positional: Vec<String>,
}

/// What has been read of the options so far.
pub struct OptsSeen {
    pub transport: Seq<char>,
    pub env: Map<Seq<char>, Seq<char>>,
    pub enabled: bool,
    pub positional: Seq<Seq<char>>,
}

/// The options of `mcp add`, read from argument `i` on. Options are recognised until the first
/// positional argument; after it, an argument that starts with `-` belongs to the server's own
/// command line.
pub open spec fn opts_from(args: Seq<Seq<char>>, i: int, o: OptsSeen) -> Result<OptsSeen, Seq<char>>
    decreases args.len() - i,
{
    if i < 0 || i >= args.len() {
        Ok(o)
    } else {
        let a = args[i];
        if a == "--transport"@ || a == "-t"@ {
            if i + 1 >= args.len() {
                Err("--transport needs a value"@)
            } else {
                let v = args[i + 1];
                if v == "http"@ || v == "sse"@ {
                    opts_from(args, i + 2, OptsSeen { transport: "sse"@, ..o })
                } else if v == "stdio"@ {
                    opts_from(args, i + 2, OptsSeen { transport: "stdio"@, ..o })
                } else {
                    Err("unknown transport: "@ + v)
                }
            }
        } else if a == "--env"@ || a == "-e"@ {
            if i + 1 >= args.len() {
                Err("--env needs KEY=VALUE"@)
            } else {
                let v = args[i + 1];
                let k = find(v, seq!['=']);
                if k < 0 {
                    Err("--env expects KEY=VALUE"@)
                } else {
                    opts_from(args, i + 2, OptsSeen { env: o.env.insert(v.take(k), v.skip(k + 1)), ..o })
                }
            }
        } else if a == "--disabled"@ {
            opts_from(args, i + 1, OptsSeen { enabled: false, ..o })
        } else if a.len() > 0 && a[0] == '-' && o.positional.len() == 0 {
            Err("unknown option: "@ + a)
        } else {
            opts_from(args, i + 1, OptsSeen { positional: o.positional.push(a), ..o })
        }
    }
}

/// In `key=value` where the key holds no `=`, the first `=` is the one after the key.
proof fn lemma_first_equals(key: Seq<char>, value: Seq<char>, j: int)
    requires
        0 <= j <= key.len(),
        forall|t: int| 0 <= t < key.len() ==> key[t] != '=',
    ensures
        crate::text::find_from(key + seq!['='] + value, seq!['='], j) == key.len(),
    decreases key.len() - j,
{
    let s = key + seq!['='] + value;
    if j < key.len() {
        assert(s.subrange(j, j + 1) =~= seq![key[j]]);
        assert(s.subrange(j, j + 1) != seq!['=']) by {
            if s.subrange(j, j + 1) == seq!['='] {
                assert(s.subrange(j, j + 1)[0] == key[j]);
            }
        }
        lemma_first_equals(key, value, j + 1);
    } else {
        assert(s.subrange(j, j + 1) =~= seq!['=']);
    }
}

/// `--env KEY=VALUE` sets `KEY` to `VALUE`, split at the first `=` (so the value may itself
/// hold `=`), and reading goes on after it.
pub proof fn lemma_env_splits_at_first_equals(args: Seq<Seq<char>>, i: int, o: OptsSeen, key: Seq<char>, value: Seq<char>)
    requires
        0 <= i,
        i + 1 < args.len(),
        args[i] == "--env"@ || args[i] == "-e"@,
        args[i + 1] == key + "="@ + value,
        forall|t: int| 0 <= t < key.len() ==> key[t] != '=',
    ensures
        opts_from(args, i, o) == opts_from(args, i + 2, OptsSeen { env: o.env.insert(key, value), ..o }),
{
    reveal_strlit("=");
    reveal_strlit("--env");
    reveal_strlit("-e");
    reveal_strlit("--transport");
    reveal_strlit("-t");
    assert("="@ =~= seq!['=']);
    lemma_first_equals(key, value, 0);
    let v = key + seq!['='] + value;
    assert(args[i + 1] == v);
    assert(v.take(key.len() as int) =~= key);
    assert(v.skip(key.len() as int + 1) =~= value);
    assert(args[i] != "--transport"@ && args[i] != "-t"@) by {
        if args[i] == "--env"@ {
            assert("--env"@.len() == 5 && "--transport"@.len() == 11 && "-t"@.len() == 2);
        } else {
            assert("-e"@.len() == 2 && "--transport"@.len() == 11 && "-t"@.len() == 2);
            assert("-e"@[1] != "-t"@[1]);
        }
    }
}

/// Nothing read yet: stdio, no environment, enabled, no positional arguments.
pub open spec fn opts_start() -> OptsSeen {
    OptsSeen {
        transport: "stdio"@,
        env: Map::empty(),
        enabled: true,
        positional: Seq::empty(),
    }
}

/// The options of `mcp add`, or the message for the first one that is wrong.
pub open spec fn spec_parse_add_opts(args: Seq<Seq<char>>) -> Result<OptsSeen, Seq<char>> {
    opts_from(args, 0, opts_start())
}

/// The view of read options.
pub open spec fn opts_view(o: AddOpts) -> OptsSeen {
    OptsSeen {
        transport: o.transport@,
        env: o.env.view(),
        enabled: o.enabled,
        positional: o.positional.deep_view(),
    }
}

/// Read the options of `mcp add [opts] <name> <url|command [args...]>`.
pub fn parse_add_opts(args: &[&str]) -> (r: Result<AddOpts, String>)
    ensures
        match r {
            Ok(o) => spec_parse_add_opts(strs_view(args@)) == Ok::<OptsSeen, Seq<char>>(opts_view(o)),
            Err(e) => spec_parse_add_opts(strs_view(args@)) == Err::<OptsSeen, Seq<char>>(e@),
        },
{
    let ghost v = strs_view(args@);
    let mut transport = "stdio".to_string();
    let mut env = TextMap::new();
    let mut enabled = true;
    let mut positional: Vec<String> = Vec::new();
    let mut i: usize = 0;
    proof {
        assert(positional.deep_view() =~= Seq::<Seq<char>>::empty());
    }
    while i < args.len()
        invariant
            i <= args@.len(),
            v == strs_view(args@),
            spec_parse_add_opts(v) == opts_from(
                v,
                i as int,
                OptsSeen {
                    transport: transport@,
                    env: env.view(),
                    enabled,
                    positional: positional.deep_view(),
                },
            ),
        decreases args@.len() - i,
    {
        let a = args[i];
        assert(v[i as int] == a@);
        if eq_str(a, "--transport") || eq_str(a, "-t") {
            if i + 1 >= args.len() {
                return Err("--transport needs a value".to_string());
            }
            let val = args[i + 1];
            assert(v[i + 1] == val@);
            if eq_str(val, "http") || eq_str(val, "sse") {
                transport = "sse".to_string();
            } else if eq_str(val, "stdio") {
                transport = "stdio".to_string();
            } else {
                return Err(concat("unknown transport: ", val));
            }
            i = i + 2;
        } else if eq_str(a, "--env") || eq_str(a, "-e") {
            if i + 1 >= args.len() {
                return Err("--env needs KEY=VALUE".to_string());
            }
            let val = args[i + 1];
            assert(v[i + 1] == val@);
            let cs = chars_of(val);
            let eq = ['='];
            assert(eq@ =~= seq!['=']);
            match find_chars(cs.as_slice(), eq.as_slice()) {
                None => {
                    return Err("--env expects KEY=VALUE".to_string());
                },
                Some(k) => {
                    proof {
                        crate::text::lemma_find_range(cs@, seq!['='], 0);
                        assert(crate::text::occurs_at(cs@, seq!['='], k as int));
                        assert(seq!['='].len() == 1);
                    }
                    let n = cs.len();
                    assert(k < n);
                    let key = slice_to_vec_range(cs.as_slice(), 0, k);
                    let value = slice_to_vec_range(cs.as_slice(), k + 1, n);
                    assert(key@ =~= val@.take(k as int));
                    assert(value@ =~= val@.skip(k + 1));
                    env.insert(string_of(key.as_slice()), string_of(value.as_slice()));
                },
            }
            i = i + 2;
        } else if eq_str(a, "--disabled") {
            enabled = false;
            i = i + 1;
        } else {
            let dash = a.unicode_len() > 0 && a.get_char(0) == '-';
            if dash && positional.len() == 0 {
                return Err(concat("unknown option: ", a));
            }
            let ghost before = positional.deep_view();
            positional.push(a.to_string());
            assert(positional.deep_view() =~= before.push(a@));
            i = i + 1;
        }
    }
    Ok(AddOpts { transport, env, enabled, positional })
}

/// A configured MCP server.
#[derive(Debug)]
pub struct McpServer {
    pub id: String,
    pub name: String,
    pub transport: String,
    pub command: Option<String>,
    pub args: Option<Vec<String>>,
    pub env: Option<TextMap>,
    pub url: Option<String>,
    pub enabled: bool,
    /// Set when the server came from a skill's `mcp.json` rather than the user's settings.
    pub skill_id: Option<String>,
    /// Whether this server's tools skip the agent-mode permission rule.
    pub bypass_agent_mode: bool,
}

/// The view of an optional list of strings.
pub open spec fn opt_strings(o: Option<Vec<String>>) -> Option<Seq<Seq<char>>> {
    match o {
        Some(v) => Some(v.deep_view()),
        None => None,
    }
}

/// The view of an optional map.
pub open spec fn opt_env(o: Option<TextMap>) -> Option<Map<Seq<char>, Seq<char>>> {
    match o {
        Some(m) => Some(m.view()),
        None => None,
    }
}

/// Some server in the list has this name.
pub open spec fn name_taken(servers: Seq<McpServer>, name: Seq<char>) -> bool {
    exists|i: int| 0 <= i < servers.len() && #[trigger] servers[i].name@ == name
}

/// What `mcp add` stores, before the server gets an id.
pub struct ServerPlan {
    pub name: Seq<char>,
    pub transport: Seq<char>,
    pub command: Option<Seq<char>>,
    pub args: Option<Seq<Seq<char>>>,
    pub url: Option<Seq<char>>,
    pub env: Option<Map<Seq<char>, Seq<char>>>,
    pub enabled: bool,
}

/// The server `mcp add` describes: the first positional argument names it; an `sse` server's
/// url is the next one; a stdio server's command is the next one and its arguments (if any) the
/// rest. A name with nothing after it is refused.
pub open spec fn spec_server_plan(args: Seq<Seq<char>>) -> Result<ServerPlan, Seq<char>> {
    match spec_parse_add_opts(args) {
        Err(e) => Err(e),
        Ok(o) => if o.positional.len() == 0 {
            Err("usage: demido-studio mcp add [opts] <name> <url|command [args...]>"@)
        } else if o.positional.len() == 1 {
            if o.transport == "sse"@ {
                Err("an sse/http server needs a url"@)
            } else {
                Err("a stdio server needs a command"@)
            }
        } else {
            let rest = o.positional.skip(1);
            Ok(
                ServerPlan {
                    name: o.positional[0],
                    transport: o.transport,
                    command: if o.transport == "sse"@ { None } else { Some(rest[0]) },
                    args: if o.transport == "sse"@ || rest.len() == 1 { None } else { Some(rest.skip(1)) },
                    url: if o.transport == "sse"@ { Some(rest[0]) } else { None },
                    env: if o.env.dom().len() == 0 { None } else { Some(o.env) },
                    enabled: o.enabled,
                },
            )
        },
    }
}

/// A stored server is the one a plan describes: hand-configured, gated, with an id.
pub open spec fn server_follows(s: McpServer, p: ServerPlan) -> bool {
    &&& s.name@ == p.name
    &&& s.transport@ == p.transport
    &&& opt_string(s.command) == p.command
    &&& opt_strings(s.args) == p.args
    &&& opt_string(s.url) == p.url
    &&& opt_env(s.env) == p.env
    &&& s.enabled == p.enabled
    &&& s.skill_id is None
    &&& !s.bypass_agent_mode
    &&& s.id@.len() == 36
}

/// What `mcp add` prints after storing a server.
pub open spec fn spec_added_text(name: Seq<char>, transport: Seq<char>) -> Seq<char> {
    "added MCP server '"@ + name + "' ("@ + transport + ")\n"@ + (if transport == "sse"@ {
        "warning: sse/http servers are stored but not yet connected by the app\n"@
    } else {
        Seq::empty()
    }) + "restart Demido Studio (or reopen it) to connect the server\n"@
}

/// The hyphenated text of the version-4 UUID that `uuid::Builder::from_random_bytes` makes of
/// sixteen random bytes.
pub uninterp spec fn uuid_v4_hyphenated(bytes: Seq<u8>) -> Seq<char>;

/// The hyphenated text of a version-4 UUID: lowercase hex digits in groups of 8, 4, 4, 4 and 12
/// joined by hyphens, the version `4` starting the third group and the variant (`8`, `9`, `a` or
/// `b`) starting the fourth.
pub open spec fn is_hyphenated_v4(t: Seq<char>) -> bool {
    &&& t.len() == 36
    &&& forall|i: int|
        0 <= i < 36 ==> if i == 8 || i == 13 || i == 18 || i == 23 {
            #[trigger] t[i] == '-'
        } else {
            crate::reasoning::is_lower_hex(t[i])
        }
    &&& t[14] == '4'
    &&& (t[19] == '8' || t[19] == '9' || t[19] == 'a' || t[19] == 'b')
}

/// `uuid::Builder::from_random_bytes(..).into_uuid()`, hyphenated: the version-4 UUID of the
/// sixteen bytes, with the version and variant set.
#[verifier::external_body]
fn uuid_hyphenated(bytes: &[u8]) -> (r: String)
    requires
        bytes@.len() == 16,
    ensures
        r@ == uuid_v4_hyphenated(bytes@),
        is_hyphenated_v4(r@),
{
    let b: [u8; 16] = bytes.try_into().unwrap();
    uuid::Builder::from_random_bytes(b).into_uuid().hyphenated().to_string()
}

/// A fresh random server id: a version-4 UUID of sixteen bytes drawn from the system's secure
/// generator, hyphenated; the generator's error where it fails.
fn new_server_id() -> (r: Result<String, String>)
    ensures
        r matches Ok(id) ==> is_hyphenated_v4(id@),
{
    match crate::oauth::random_bytes(16) {
        Ok(b) => Ok(uuid_hyphenated(b.as_slice())),
        Err(e) => Err(e),
    }
}

/// The name of the server at `i`.
fn name_at(servers: &Vec<McpServer>, i: usize) -> (r: &str)
    requires
        i < servers@.len(),
    ensures
        r@ == servers@[i as int].name@,
{
    servers[i].name.as_str()
}

/// `mcp add`: the servers with the new one appended, and what to print; or the message for
/// options that are wrong, a server that is not described, or a name already in use. A valid,
/// new server fails only where the system's random source cannot give its id, with that error.
pub fn mcp_add(args: &[&str], servers: Vec<McpServer>) -> (r: Result<(Vec<McpServer>, String), String>)
    ensures
        match r {
            Ok((list, out)) => spec_server_plan(strs_view(args@)) matches Ok(p) && {
                &&& !name_taken(servers@, p.name)
                &&& list@.len() == servers@.len() + 1
                &&& list@.take(servers@.len() as int) == servers@
                &&& server_follows(list@.last(), p)
                &&& out@ == spec_added_text(p.name, p.transport)
            },
            Err(e) => match spec_server_plan(strs_view(args@)) {
                Err(pe) => e@ == pe,
                Ok(p) => if name_taken(servers@, p.name) {
                    e@ == "an MCP server named '"@ + p.name + "' already exists"@
                } else {
                    // the id could not be drawn: the system's random source failed
                    true
                },
            },
        },
{
    let o = match parse_add_opts(args) {
        Ok(o) => o,
        Err(e) => return Err(e),
    };
    let AddOpts { transport, env, enabled, positional } = o;
    let ghost pos = positional.deep_view();
    if positional.len() == 0 {
        return Err("usage: demido-studio mcp add [opts] <name> <url|command [args...]>".to_string());
    }
    let sse = eq_str(transport.as_str(), "sse");
    if positional.len() == 1 {
        return Err(
            if sse {
                "an sse/http server needs a url".to_string()
            } else {
                "a stdio server needs a command".to_string()
            },
        );
    }
    let name = positional[0].clone();
    let target = positional[1].clone();
    assert(pos[0] == name@ && pos[1] == target@);
    let mut command: Option<String> = None;
    let mut cmd_args: Option<Vec<String>> = None;
    let mut url: Option<String> = None;
    if sse {
        url = Some(target);
    } else {
        command = Some(target);
        if positional.len() > 2 {
            let mut rest: Vec<String> = Vec::new();
            let mut j: usize = 2;
            while j < positional.len()
                invariant
                    2 <= j <= positional@.len(),
                    pos == positional.deep_view(),
                    rest.deep_view() == pos.subrange(2, j as int),
                decreases positional@.len() - j,
            {
                let ghost before = rest.deep_view();
                rest.push(positional[j].clone());
                assert(rest.deep_view() =~= before.push(pos[j as int]));
                assert(pos.subrange(2, j + 1) =~= before.push(pos[j as int]));
                j = j + 1;
            }
            assert(pos.skip(1).skip(1) =~= pos.subrange(2, pos.len() as int));
            cmd_args = Some(rest);
        }
    }
    let ghost plan = ServerPlan {
        name: name@,
        transport: transport@,
        command: opt_string(command),
        args: opt_strings(cmd_args),
        url: opt_string(url),
        env: if env.view().dom().len() == 0 { None } else { Some(env.view()) },
        enabled,
    };
    proof {
        let ghost v = strs_view(args@);
        assert(pos.skip(1)[0] == pos[1]);
        assert(spec_server_plan(v) == Ok::<ServerPlan, Seq<char>>(plan));
    }
    let mut i: usize = 0;
    while i < servers.len()
        invariant
            i <= servers@.len(),
            forall|j: int| 0 <= j < i ==> #[trigger] servers@[j].name@ != name@,
            spec_server_plan(strs_view(args@)) == Ok::<ServerPlan, Seq<char>>(plan),
            plan.name == name@,
        decreases servers@.len() - i,
    {
        if eq_str(name_at(&servers, i), name.as_str()) {
            assert(servers@[i as int].name@ == name@);
            return Err(concat(concat("an MCP server named '", name.as_str()).as_str(), "' already exists"));
        }
        i = i + 1;
    }
    let env_kept = if env.is_empty() { None } else { Some(env) };
    let mut out = concat(concat("added MCP server '", name.as_str()).as_str(), "' (");
    out = concat(concat(out.as_str(), transport.as_str()).as_str(), ")\n");
    if sse {
        out = concat(out.as_str(), "warning: sse/http servers are stored but not yet connected by the app\n");
    }
    out = concat(out.as_str(), "restart Demido Studio (or reopen it) to connect the server\n");
    let id = match new_server_id() {
        Ok(id) => id,
        Err(e) => return Err(e),
    };
    let mut list = servers;
    let ghost before = list@;
    list.push(
        McpServer {
            id,
            name,
            transport,
            command,
            args: cmd_args,
            env: env_kept,
            url,
            enabled,
            skill_id: None,
            bypass_agent_mode: false,
        },
    );
    assert(list@.take(before.len() as int) =~= before);
    Ok((list, out))
}

/// `parts` joined with `sep` between neighbours.
pub open spec fn join_with(parts: Seq<Seq<char>>, sep: Seq<char>) -> Seq<char>
    decreases parts.len(),
{
    if parts.len() == 0 {
        Seq::empty()
    } else if parts.len() == 1 {
        parts[0]
    } else {
        join_with(parts.drop_last(), sep) + sep + parts.last()
    }
}

/// `parts` joined with `sep` between neighbours (`slice::join`).
pub fn join_strings(parts: &Vec<String>, sep: &str) -> (r: String)
    ensures
        r@ == join_with(parts.deep_view(), sep@),
{
    let ghost ps = parts.deep_view();
    let mut out = String::new();
    let mut i: usize = 0;
    while i < parts.len()
        invariant
            i <= parts@.len(),
            ps == parts.deep_view(),
            out@ == join_with(ps.take(i as int), sep@),
        decreases parts@.len() - i,
    {
        assert(ps[i as int] == parts@[i as int]@);
        assert(ps.take(i + 1).drop_last() =~= ps.take(i as int));
        if i == 0 {
            out = parts[i].clone();
            assert(ps.take(1) =~= seq![ps[0]]);
        } else {
            out = concat(concat(out.as_str(), sep).as_str(), parts[i].as_str());
        }
        i = i + 1;
    }
    assert(ps.take(i as int) =~= ps);
    out
}

/// Where a server is reached, as `mcp list` shows it: a stdio server's command and arguments, or
/// any other server's url.
pub open spec fn server_target(s: McpServer) -> Seq<char> {
    if s.transport@ == "stdio"@ {
        (match s.command {
            Some(c) => c@,
            None => Seq::empty(),
        }) + " "@ + (match s.args {
            Some(a) => join_with(a.deep_view(), " "@),
            None => Seq::empty(),
        })
    } else {
        match s.url {
            Some(u) => u@,
            None => Seq::empty(),
        }
    }
}

/// One line of `mcp list`.
pub open spec fn server_row(s: McpServer) -> Seq<char> {
    "  "@ + s.name@ + "  ["@ + s.transport@ + "] "@ + trim(server_target(s)) + "  ("@ + (if s.enabled {
        "enabled"@
    } else {
        "disabled"@
    }) + ")"@
}

/// The rows of `mcp list`, one per server.
pub open spec fn server_rows(servers: Seq<McpServer>) -> Seq<Seq<char>> {
    servers.map_values(|s: McpServer| server_row(s))
}

/// What `mcp list` prints.
pub open spec fn spec_mcp_list(servers: Seq<McpServer>) -> Seq<char> {
    if servers.len() == 0 {
        "no MCP servers configured\n"@
    } else {
        join_with(server_rows(servers), "\n"@) + "\n"@
    }
}

/// One line of `mcp list`.
fn mcp_row(s: &McpServer) -> (r: String)
    ensures
        r@ == server_row(*s),
{
    let stdio = eq_str(s.transport.as_str(), "stdio");
    let target = if stdio {
        let cmd = match &s.command {
            Some(c) => c.clone(),
            None => String::new(),
        };
        let args = match &s.args {
            Some(a) => join_strings(a, " "),
            None => String::new(),
        };
        concat(concat(cmd.as_str(), " ").as_str(), args.as_str())
    } else {
        match &s.url {
            Some(u) => u.clone(),
            None => String::new(),
        }
    };
    let t = crate::text::trim_str(target.as_str());
    let state = if s.enabled { "enabled" } else { "disabled" };
    let mut row = concat("  ", s.name.as_str());
    row = concat(row.as_str(), "  [");
    row = concat(row.as_str(), s.transport.as_str());
    row = concat(row.as_str(), "] ");
    row = concat(row.as_str(), t);
    row = concat(row.as_str(), "  (");
    row = concat(row.as_str(), state);
    concat(row.as_str(), ")")
}

/// What `mcp list` prints for the configured servers.
pub fn mcp_list(servers: &Vec<McpServer>) -> (r: String)
    ensures
        r@ == spec_mcp_list(servers@),
{
    if servers.len() == 0 {
        return "no MCP servers configured\n".to_string();
    }
    let mut rows: Vec<String> = Vec::new();
    let mut i: usize = 0;
    while i < servers.len()
        invariant
            i <= servers@.len(),
            rows.deep_view() == server_rows(servers@.take(i as int)),
        decreases servers@.len() - i,
    {
        let ghost before = rows.deep_view();
        rows.push(mcp_row(&servers[i]));
        assert(rows.deep_view() =~= before.push(server_row(servers@[i as int])));
        assert(server_rows(servers@.take(i + 1)) =~= server_rows(servers@.take(i as int)).push(
            server_row(servers@[i as int]),
        ));
        i = i + 1;
    }
    assert(servers@.take(i as int) =~= servers@);
    let joined = join_strings(&rows, "\n");
    concat(joined.as_str(), "\n")
}

/// The servers not named `name`, in order.
pub open spec fn without_named(servers: Seq<McpServer>, name: Seq<char>) -> Seq<McpServer>
    decreases servers.len(),
{
    if servers.len() == 0 {
        Seq::empty()
    } else if servers.last().name@ == name {
        without_named(servers.drop_last(), name)
    } else {
        without_named(servers.drop_last(), name).push(servers.last())
    }
}

proof fn lemma_without_named_len(servers: Seq<McpServer>, name: Seq<char>)
    ensures
        without_named(servers, name).len() <= servers.len(),
        without_named(servers, name).len() == servers.len() <==> !name_taken(servers, name),
    decreases servers.len(),
{
    if servers.len() > 0 {
        let init = servers.drop_last();
        lemma_without_named_len(init, name);
        if name_taken(init, name) {
            let i = choose|i: int| 0 <= i < init.len() && #[trigger] init[i].name@ == name;
            assert(servers[i].name@ == name);
        }
        if name_taken(servers, name) && !name_taken(init, name) {
            let i = choose|i: int| 0 <= i < servers.len() && #[trigger] servers[i].name@ == name;
            if i < init.len() {
                assert(init[i].name@ == name);
            }
        }
        if servers.last().name@ == name {
            assert(name_taken(servers, name));
        }
    }
}

/// `mcp remove <name>`: the servers without those so named, and what to print; or the message
/// for a missing name or a name no server has.
pub fn mcp_remove(name: Option<&str>, servers: Vec<McpServer>) -> (r: Result<(Vec<McpServer>, String), String>)
    ensures
        match name {
            None => r == Err::<(Vec<McpServer>, String), String>(r->Err_0) && r->Err_0@
                == "usage: demido-studio mcp remove <name>"@,
            Some(n) => match r {
                Ok((kept, out)) => {
                    &&& name_taken(servers@, n@)
                    &&& kept@ == without_named(servers@, n@)
                    &&& out@ == "removed MCP server '"@ + n@ + "'\n"@
                },
                Err(e) => !name_taken(servers@, n@) && e@ == "no MCP server named '"@ + n@ + "'"@,
            },
        },
{
    let n = match name {
        None => return Err("usage: demido-studio mcp remove <name>".to_string()),
        Some(n) => n,
    };
    let before = servers.len();
    let ghost all = servers@;
    let mut rest = servers;
    let mut kept: Vec<McpServer> = Vec::new();
    let mut i: usize = 0;
    let mut taken: Vec<McpServer> = Vec::new();
    // Move the servers out one by one, front first.
    assert(all.skip(0) =~= all);
    while rest.len() > 0
        invariant
            rest@.len() + i == all.len(),
            all.len() == before,
            rest@ == all.skip(i as int),
            kept@ == without_named(all.take(i as int), n@),
        decreases rest@.len(),
    {
        let s = rest.remove(0);
        proof {
            assert(s == all[i as int]);
            assert(all.take(i + 1).drop_last() =~= all.take(i as int));
            assert(all.skip(i + 1) =~= all.skip(i as int).remove(0));
        }
        if eq_str(s.name.as_str(), n) {
            taken.push(s);
        } else {
            kept.push(s);
        }
        i = i + 1;
    }
    assert(all.take(i as int) =~= all);
    proof {
        lemma_without_named_len(all, n@);
    }
    if kept.len() == before {
        return Err(concat(concat("no MCP server named '", n).as_str(), "'"));
    }
    Ok((kept, concat(concat("removed MCP server '", n).as_str(), "'\n")))
}

// ------------------------------------------------------------------ skill add

/// The id a skill is installed under: the one its `skill.json` gives, or else its folder's name;
/// refused unless it names one folder.
pub fn skill_id_for(declared: Option<String>, folder: String) -> (r: Result<String, String>)
    ensures
        ({
            let id = match declared {
                Some(d) => d@,
                None => folder@,
            };
            match r {
                Ok(v) => spec_is_valid_skill_id(id) && v@ == id,
                Err(e) => !spec_is_valid_skill_id(id) && e@ == "invalid skill id: "@ + id,
            }
        }),
{
    let id = match declared {
        Some(d) => d,
        None => folder,
    };
    if is_valid_skill_id(id.as_str()) {
        Ok(id)
    } else {
        Err(concat("invalid skill id: ", id.as_str()))
    }
}

/// The id `skill remove` was given, or the message for a missing or invalid one.
pub fn skill_remove_id(id: Option<&str>) -> (r: Result<String, String>)
    ensures
        match id {
            None => r matches Err(e) && e@ == "usage: demido-studio skill remove <id>"@,
            Some(i) => match r {
                Ok(v) => spec_is_valid_skill_id(i@) && v@ == i@,
                Err(e) => !spec_is_valid_skill_id(i@) && e@ == "invalid id"@,
            },
        },
{
    match id {
        None => Err("usage: demido-studio skill remove <id>".to_string()),
        Some(i) => if is_valid_skill_id(i) {
            Ok(i.to_string())
        } else {
            Err("invalid id".to_string())
        },
    }
}

/// The view of a (path, text) list.
pub open spec fn files_view(files: Seq<(String, String)>) -> Seq<(Seq<char>, Seq<char>)> {
    files.map_values(|f: (String, String)| (f.0@, f.1@))
}

/// The section a bundled file adds to a converted `SKILL.md`.
pub open spec fn bundled_section(rel: Seq<char>, content: Seq<char>) -> Seq<char> {
    "\n\n---\n\n## Bundled file: "@ + rel + "\n\n"@ + crate::text::trim_end(content) + "\n"@
}

/// A converted `SKILL.md`: the body, then one section per referenced file, in order.
pub open spec fn spec_inlined(body: Seq<char>, files: Seq<(Seq<char>, Seq<char>)>) -> Seq<char>
    decreases files.len(),
{
    if files.len() == 0 {
        body
    } else {
        spec_inlined(body, files.drop_last()) + bundled_section(files.last().0, files.last().1)
    }
}

/// A converted `SKILL.md`: the body without its frontmatter, then each referenced file (its path
/// and its text, trailing whitespace dropped) under a heading of its own.
pub fn inline_bundled(body: &str, files: &Vec<(String, String)>) -> (r: String)
    ensures
        r@ == spec_inlined(body@, files_view(files@)),
{
    let ghost fv = files_view(files@);
    let mut out = body.to_string();
    let mut i: usize = 0;
    while i < files.len()
        invariant
            i <= files@.len(),
            fv == files_view(files@),
            out@ == spec_inlined(body@, fv.take(i as int)),
        decreases files@.len() - i,
    {
        let rel = &files[i].0;
        let content = &files[i].1;
        assert(fv[i as int] == (rel@, content@));
        assert(fv.take(i + 1).drop_last() =~= fv.take(i as int));
        let cs = chars_of(content.as_str());
        let kept = crate::text::trim_end_chars(cs.as_slice());
        let kept_text = string_of(kept.as_slice());
        out = concat(out.as_str(), "\n\n---\n\n## Bundled file: ");
        out = concat(out.as_str(), rel.as_str());
        out = concat(out.as_str(), "\n\n");
        out = concat(out.as_str(), kept_text.as_str());
        out = concat(out.as_str(), "\n");
        i = i + 1;
    }
    assert(fv.take(i as int) =~= fv);
    out
}

/// The size, in whole KiB, from which a converted `SKILL.md` draws a note: it is sent with every
/// message.
pub const LARGE_SKILL_KB: usize = 16;

/// The notes `skill add --convert` reports: the files it inlined, a `SKILL.md` of
/// [`LARGE_SKILL_KB`] KiB or more, and scripts it copied but never runs.
pub open spec fn spec_conversion_notes(refs: Seq<Seq<char>>, converted_bytes: nat, has_scripts: bool) -> Seq<
    Seq<char>,
> {
    let inlined: Seq<Seq<char>> = if refs.len() == 0 {
        Seq::empty()
    } else {
        seq![
            "inlined "@ + crate::text::decimal(refs.len()) + " referenced file(s): "@ + join_with(
                refs,
                ", "@,
            ),
        ]
    };
    let kb = converted_bytes / 1024;
    let large: Seq<Seq<char>> = if kb >= LARGE_SKILL_KB {
        seq![
            "SKILL.md is ~"@ + crate::text::decimal(kb)
                + "KB and is sent with every message — consider trimming it"@,
        ]
    } else {
        Seq::empty()
    };
    let scripts: Seq<Seq<char>> = if has_scripts {
        seq!["bundled scripts were copied but Demido never runs them automatically"@]
    } else {
        Seq::empty()
    };
    inlined + large + scripts
}

/// The notes `skill add --convert` reports, given the files it inlined, the converted text's
/// size in bytes, and whether the folder holds scripts.
pub fn conversion_notes(refs: &Vec<String>, converted_bytes: usize, has_scripts: bool) -> (r: Vec<String>)
    ensures
        r.deep_view() == spec_conversion_notes(refs.deep_view(), converted_bytes as nat, has_scripts),
{
    let mut notes: Vec<String> = Vec::new();
    let ghost n0: Seq<Seq<char>> = Seq::empty();
    assert(notes.deep_view() =~= n0);
    if refs.len() > 0 {
        let count = crate::text::decimal_string(refs.len() as u64);
        let joined = join_strings(refs, ", ");
        let mut line = concat("inlined ", count.as_str());
        line = concat(line.as_str(), " referenced file(s): ");
        line = concat(line.as_str(), joined.as_str());
        notes.push(line);
    }
    let ghost n1 = notes.deep_view();
    let kb = converted_bytes / 1024;
    if kb >= LARGE_SKILL_KB {
        let size = crate::text::decimal_string(kb as u64);
        let mut line = concat("SKILL.md is ~", size.as_str());
        line = concat(line.as_str(), "KB and is sent with every message — consider trimming it");
        notes.push(line);
    }
    let ghost n2 = notes.deep_view();
    if has_scripts {
        notes.push("bundled scripts were copied but Demido never runs them automatically".to_string());
    }
    proof {
        let s = spec_conversion_notes(refs.deep_view(), converted_bytes as nat, has_scripts);
        assert(notes.deep_view() =~= s);
    }
    notes
}

/// What `skill add` prints: what it did, each note, and for a conversion a reminder that the
/// result wants a review.
pub open spec fn spec_skill_add_report(
    replaced: bool,
    id: Seq<char>,
    dest: Seq<char>,
    notes: Seq<Seq<char>>,
    convert: bool,
) -> Seq<char> {
    (if replaced {
        "replaced"@
    } else {
        "installed"@
    }) + " skill '"@ + id + "' -> "@ + dest + "\n"@ + note_lines(notes) + (if convert {
        "  mechanical conversion only — enable the 'skill-convert' skill and ask the model\n  to review the result for trigger-style wording that assumes on-demand loading\n"@
    } else {
        Seq::empty()
    })
}

/// One `  note: ...` line per note.
pub open spec fn note_lines(notes: Seq<Seq<char>>) -> Seq<char>
    decreases notes.len(),
{
    if notes.len() == 0 {
        Seq::empty()
    } else {
        note_lines(notes.drop_last()) + "  note: "@ + notes.last() + "\n"@
    }
}

/// What `skill add` prints, given whether an installed skill was replaced, its id, where it
/// went, the notes, and whether it was converted.
pub fn skill_add_report(replaced: bool, id: &str, dest: &str, notes: &Vec<String>, convert: bool) -> (r: String)
    ensures
        r@ == spec_skill_add_report(replaced, id@, dest@, notes.deep_view(), convert),
{
    let ghost nv = notes.deep_view();
    let mut out = concat(if replaced { "replaced" } else { "installed" }, " skill '");
    out = concat(out.as_str(), id);
    out = concat(out.as_str(), "' -> ");
    out = concat(out.as_str(), dest);
    out = concat(out.as_str(), "\n");
    let ghost head = out@;
    let mut i: usize = 0;
    assert(nv.take(0) =~= Seq::<Seq<char>>::empty());
    while i < notes.len()
        invariant
            i <= notes@.len(),
            nv == notes.deep_view(),
            out@ == head + note_lines(nv.take(i as int)),
        decreases notes@.len() - i,
    {
        assert(nv[i as int] == notes@[i as int]@);
        assert(nv.take(i + 1).drop_last() =~= nv.take(i as int));
        out = concat(out.as_str(), "  note: ");
        out = concat(out.as_str(), notes[i].as_str());
        out = concat(out.as_str(), "\n");
        i = i + 1;
    }
    assert(nv.take(i as int) =~= nv);
    if convert {
        out = concat(
            out.as_str(),
            "  mechanical conversion only — enable the 'skill-convert' skill and ask the model\n  to review the result for trigger-style wording that assumes on-demand loading\n",
        );
    }
    out
}

/// Why a path cannot be installed as a skill: it is not a folder, or it has no `SKILL.md`; `None`
/// where it is a skill folder.
pub fn skill_folder_problem(path: &str, is_folder: bool, has_skill_md: bool) -> (r: Option<String>)
    ensures
        !is_folder ==> (r matches Some(e) && e@ == path@ + " is not a folder"@),
        is_folder && !has_skill_md ==> (r matches Some(e) && e@ == path@ + " has no SKILL.md — not a skill folder"@),
        is_folder && has_skill_md ==> r is None,
{
    if !is_folder {
        Some(concat(path, " is not a folder"))
    } else if !has_skill_md {
        Some(concat(path, " has no SKILL.md — not a skill folder"))
    } else {
        None
    }
}

/// What `skill remove` answers once the id is known to be valid: the line it prints where the
/// skill's folder is there to delete, else that it is not installed.
pub fn skill_remove_outcome(id: &str, installed: bool) -> (r: Result<String, String>)
    ensures
        installed ==> (r matches Ok(out) && out@ == "removed skill '"@ + id@ + "'\n"@),
        !installed ==> (r matches Err(e) && e@ == "skill '"@ + id@ + "' is not installed"@),
{
    if installed {
        Ok(concat(concat("removed skill '", id).as_str(), "'\n"))
    } else {
        Err(concat(concat("skill '", id).as_str(), "' is not installed"))
    }
}

/// The `skill.json` fields an install writes for a skill that has none.
#[derive(Debug)]
pub struct SkillMeta {
    pub id: String,
    pub name: String,
    pub description: String,
    pub version: String,
}

/// The value under `key`, or `fallback`.
pub open spec fn entry_or(m: Map<Seq<char>, Seq<char>>, key: Seq<char>, fallback: Seq<char>) -> Seq<char> {
    if m.dom().contains(key) {
        m[key]
    } else {
        fallback
    }
}

/// The `skill.json` an install writes from a skill's frontmatter: its name (else the id), its
/// description (else empty) and its version (else `0.0.0`).
pub fn synthesized_meta(id: &str, frontmatter: &TextMap) -> (r: SkillMeta)
    ensures
        r.id@ == id@,
        r.name@ == entry_or(frontmatter.view(), "name"@, id@),
        r.description@ == entry_or(frontmatter.view(), "description"@, Seq::empty()),
        r.version@ == entry_or(frontmatter.view(), "version"@, "0.0.0"@),
{
    let name = match frontmatter.get("name") {
        Some(v) => v,
        None => id.to_string(),
    };
    let description = match frontmatter.get("description") {
        Some(v) => v,
        None => String::new(),
    };
    let version = match frontmatter.get("version") {
        Some(v) => v,
        None => "0.0.0".to_string(),
    };
    SkillMeta { id: id.to_string(), name, description, version }
}

/// What `skill list` prints: one row per installed folder, or a line saying there are none.
pub fn skill_list_text(rows: &Vec<String>, dir: &str) -> (r: String)
    ensures
        r@ == if rows@.len() == 0 {
            "no skills installed in "@ + dir@ + "\n"@
        } else {
            join_with(rows.deep_view(), "\n"@) + "\n"@
        },
{
    if rows.len() == 0 {
        let out = concat("no skills installed in ", dir);
        return concat(out.as_str(), "\n");
    }
    let joined = join_strings(rows, "\n");
    concat(joined.as_str(), "\n")
}

/// The `skill list` row of a folder with a readable `skill.json`.
pub fn skill_row(id: &str, name: &str, version: &str) -> (r: String)
    ensures
        r@ == "  "@ + id@ + "  "@ + name@ + " v"@ + version@,
{
    let mut out = concat("  ", id);
    out = concat(out.as_str(), "  ");
    out = concat(out.as_str(), name);
    out = concat(out.as_str(), " v");
    concat(out.as_str(), version)
}

/// The `skill list` row of a folder without a `skill.json`, which the app does not load.
pub fn unloaded_skill_row(folder: &str) -> (r: String)
    ensures
        r@ == "  "@ + folder@ + "  (no skill.json — not loaded by the app)"@,
{
    let out = concat("  ", folder);
    concat(out.as_str(), "  (no skill.json — not loaded by the app)")
}

/// The `skill list` row of a folder whose `skill.json` does not parse.
pub fn invalid_skill_row(folder: &str, error: &str) -> (r: String)
    ensures
        r@ == "  "@ + folder@ + "  (invalid skill.json: "@ + error@ + ")"@,
{
    let mut out = concat("  ", folder);
    out = concat(out.as_str(), "  (invalid skill.json: ");
    out = concat(out.as_str(), error);
    concat(out.as_str(), ")")
}

} // verus!
