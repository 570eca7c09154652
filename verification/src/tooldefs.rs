//! The tools the app offers the model: their names, what they are for, and the JSON schema of
//! their arguments. Which of them a conversation is offered is decided in `turn`; what a call does
//! is decided by the executor, which knows every name offered here.
use vstd::prelude::*;
use vstd::string::*;

use crate::agent::{spec_google_service_for, spec_is_builtin_name};
use crate::text::eq_str;

verus! {

broadcast use vstd::string::group_string_axioms;

/// A tool as the model is offered it; its argument schema is JSON text.
#[derive(Debug, Clone)]
pub struct ToolDef {
    pub name: String,
    pub description: String,
    pub input_schema: String,
}

/// The names of some tools, in order.
pub open spec fn names_of(defs: Seq<ToolDef>) -> Seq<Seq<char>> {
    defs.map_values(|d: ToolDef| d.name@)
}

fn def(name: &str, description: &str, input_schema: &str) -> (r: ToolDef)
    ensures
        r.name@ == name@,
        r.description@ == description@,
        r.input_schema@ == input_schema@,
{
    ToolDef { name: name.to_string(), description: description.to_string(), input_schema: input_schema.to_string() }
}

/// A tool's view: its name, its description and its argument schema.
pub open spec fn def_view(d: ToolDef) -> (Seq<char>, Seq<char>, Seq<char>) {
    (d.name@, d.description@, d.input_schema@)
}

/// The views of some tools, in order.
pub open spec fn defs_view(defs: Seq<ToolDef>) -> Seq<(Seq<char>, Seq<char>, Seq<char>)> {
    defs.map_values(|d: ToolDef| def_view(d))
}

/// What the model is told `read_file` does.
pub const READ_FILE_DESCRIPTION: &'static str = "Read the full contents of a file at the given path.";

/// The JSON schema of `read_file`'s arguments.
pub const READ_FILE_SCHEMA: &'static str = r#"{"type":"object","properties":{"path":{"type":"string","description":"Path to the file (absolute or relative to working directory)"}},"required":["path"]}"#;

/// What the model is told `write_file` does.
pub const WRITE_FILE_DESCRIPTION: &'static str = "Create or overwrite a file with the given content. Creates parent directories if needed.";

/// The JSON schema of `write_file`'s arguments.
pub const WRITE_FILE_SCHEMA: &'static str = r#"{"type":"object","properties":{"path":{"type":"string","description":"Path to the file"},"content":{"type":"string","description":"Content to write"}},"required":["path","content"]}"#;

/// What the model is told `edit_file` does.
pub const EDIT_FILE_DESCRIPTION: &'static str = "Find the first occurrence of old_str in a file and replace it with new_str. Returns an error if old_str is not found.";

/// The JSON schema of `edit_file`'s arguments.
pub const EDIT_FILE_SCHEMA: &'static str = r#"{"type":"object","properties":{"path":{"type":"string","description":"Path to the file"},"old_str":{"type":"string","description":"Exact string to find (must be unique enough to identify the location)"},"new_str":{"type":"string","description":"Replacement string"}},"required":["path","old_str","new_str"]}"#;

/// What the model is told `list_dir` does.
pub const LIST_DIR_DESCRIPTION: &'static str = "List the contents of a directory, showing names, types (file/dir), and file sizes.";

/// The JSON schema of `list_dir`'s arguments.
pub const LIST_DIR_SCHEMA: &'static str = r#"{"type":"object","properties":{"path":{"type":"string","description":"Directory path (absolute or relative to working directory)"}},"required":["path"]}"#;

/// What the model is told `run_command` does.
pub const RUN_COMMAND_DESCRIPTION: &'static str = "Run a PowerShell command and return its stdout and stderr. Output is capped at 10KB.";

/// The JSON schema of `run_command`'s arguments.
pub const RUN_COMMAND_SCHEMA: &'static str = r#"{"type":"object","properties":{"command":{"type":"string","description":"PowerShell command string to execute"},"args":{"type":"array","items":{"type":"string"},"description":"Optional extra arguments appended to the command"},"cwd":{"type":"string","description":"Working directory for the command (defaults to conversation working directory)"}},"required":["command"]}"#;

/// What the model is told `search_files` does.
pub const SEARCH_FILES_DESCRIPTION: &'static str = "Search for a regex pattern across files in a directory tree. Returns matching lines with file path and line number.";

/// The JSON schema of `search_files`'s arguments.
pub const SEARCH_FILES_SCHEMA: &'static str = r#"{"type":"object","properties":{"pattern":{"type":"string","description":"Regex pattern to search for"},"path":{"type":"string","description":"Root directory to search (defaults to working directory)"},"glob":{"type":"string","description":"Glob pattern to filter files, e.g. *.rs or *.ts (default: *)"}},"required":["pattern"]}"#;

/// What the model is told `install_skill` does.
pub const INSTALL_SKILL_DESCRIPTION: &'static str = "Install a skill into Demido's own skills folder, where the app loads it from. Writes every file in one call and requires no working folder. Use this to create or replace a skill — do not hand-write skill files with write_file. 'skill.json' and 'SKILL.md' are both required, and every command 'file' declared in skill.json must be included. skill.json shape: {id, name, description, version, commands: [{name, description, file|prompt, params?}]}, where a param is {name, description?, required?, rest?} — bound positionally from the invocation and substituted into the command body as $name (also $1..$9, or $ARGUMENTS for the whole string). A skill may also define tools the *model* calls (a command is typed by the *user*) in a separate optional 'tools.json' file: {tools: [entry, ...]} where each entry has a 'type'. type 'builtin' = {type, name, description?}: surfaces a tool the app already implements, offered under its real name while the skill is enabled — only 'install_skill' and 'delete_skill' may be claimed, and skill-manager already claims both, so do not add these to another skill. type 'prompt' = {type, name, description, file|prompt, params?}: offered as 'skill_<skill id>_<tool name>' while the skill is enabled, and calling it returns its expanded body as text — nothing is executed, so a prompt tool needing a shell or a file must say so in its body and let the model use run_command or read_file. Its params take no 'rest' (a tool's arguments arrive named, not as tokens). type 'mcp' = {type, name, command, args?, env?, description?, bypassAgentMode?}: an MCP server spawned while the skill is enabled, whose own tools are offered under the skill; they obey the agent-mode permission gate unless bypassAgentMode is true. An unknown type is rejected. Names must be unique within tools.json, and a tool name and its skill's id must use only letters, digits, '_' and '-'. Declaring an mcp entry makes install_skill ask the user first, showing the command line — so only add one when the skill genuinely needs a server, and never as a way to run a command.";

/// The JSON schema of `install_skill`'s arguments.
pub const INSTALL_SKILL_SCHEMA: &'static str = r#"{"type":"object","properties":{"id":{"type":"string","description":"Skill id; becomes the folder name. Must match the id inside skill.json. No slashes."},"files":{"type":"array","description":"Every file in the skill, including skill.json and SKILL.md.","items":{"type":"object","properties":{"path":{"type":"string","description":"Path relative to the skill folder, e.g. 'SKILL.md' or 'commands/go.md'"},"content":{"type":"string","description":"Full file content"}},"required":["path","content"]}}},"required":["id","files"]}"#;

/// What the model is told `delete_skill` does.
pub const DELETE_SKILL_DESCRIPTION: &'static str = "Delete a skill from Demido's own skills folder, removing the whole folder and every file in it. Requires no working folder. This cannot be undone and always asks the user first, so only call it when removal is the actual request — to change a skill, install_skill over it instead.";

/// The JSON schema of `delete_skill`'s arguments.
pub const DELETE_SKILL_SCHEMA: &'static str = r#"{"type":"object","properties":{"id":{"type":"string","description":"Id of the skill to delete; the folder name. No slashes."}},"required":["id"]}"#;

/// What the model is told `web_search` does.
pub const WEB_SEARCH_DESCRIPTION: &'static str = "Search the web. Uses hosted Exa/Parallel search providers (optionally boosted by an API key set in Tools > Web Browsing), falling back to a DuckDuckGo scrape if both are unavailable. Returns up to 15 results with title, URL, and snippet.";

/// The JSON schema of `web_search`'s arguments.
pub const WEB_SEARCH_SCHEMA: &'static str = r#"{"type":"object","properties":{"query":{"type":"string","description":"Search query"},"page":{"type":"integer","description":"Page number, DuckDuckGo fallback only (0 = first page, default 0)","default":0}},"required":["query"]}"#;

/// What the model is told `web_fetch` does.
pub const WEB_FETCH_DESCRIPTION: &'static str = "Fetch content from a web page at the given URL, converted to the requested format. Output is truncated at 20k characters.";

/// The JSON schema of `web_fetch`'s arguments.
pub const WEB_FETCH_SCHEMA: &'static str = r#"{"type":"object","properties":{"url":{"type":"string","description":"Full URL to fetch (must be http or https)"},"format":{"type":"string","enum":["markdown","text","html"],"description":"Output format for HTML pages (default markdown)","default":"markdown"}},"required":["url"]}"#;

/// What the model is told `list_emails` does.
pub const LIST_EMAILS_DESCRIPTION: &'static str = "Search or list emails from the user's connected Gmail account. Returns subject, from, date, and snippet.";

/// The JSON schema of `list_emails`'s arguments.
pub const LIST_EMAILS_SCHEMA: &'static str = r#"{"type":"object","properties":{"query":{"type":"string","description":"Gmail search query (e.g. 'from:boss@company.com is:unread'). Empty for recent emails."},"max_results":{"type":"integer","description":"Maximum emails to return (1-20, default 10)"}}}"#;

/// What the model is told `read_email` does.
pub const READ_EMAIL_DESCRIPTION: &'static str = "Read the full body of an email by its ID (obtained from list_emails).";

/// The JSON schema of `read_email`'s arguments.
pub const READ_EMAIL_SCHEMA: &'static str = r#"{"type":"object","properties":{"id":{"type":"string","description":"The email message ID"}},"required":["id"]}"#;

/// What the model is told `list_calendar_events` does.
pub const LIST_CALENDAR_EVENTS_DESCRIPTION: &'static str = "List upcoming calendar events from the user's connected Google Calendar.";

/// The JSON schema of `list_calendar_events`'s arguments.
pub const LIST_CALENDAR_EVENTS_SCHEMA: &'static str = r#"{"type":"object","properties":{"days_ahead":{"type":"integer","description":"How many days ahead to look (default 7)"},"max_results":{"type":"integer","description":"Maximum events to return (1-50, default 20)"}}}"#;

/// What the model is told `list_contacts` does.
pub const LIST_CONTACTS_DESCRIPTION: &'static str = "Search or list contacts from the user's connected Google account.";

/// The JSON schema of `list_contacts`'s arguments.
pub const LIST_CONTACTS_SCHEMA: &'static str = r#"{"type":"object","properties":{"query":{"type":"string","description":"Search query. Empty to list all contacts."},"max_results":{"type":"integer","description":"Maximum contacts to return (1-50, default 20)"}}}"#;

/// What the model is told `read_contact` does.
pub const READ_CONTACT_DESCRIPTION: &'static str = "Read full details of a contact by their resource ID (obtained from list_contacts).";

/// The JSON schema of `read_contact`'s arguments.
pub const READ_CONTACT_SCHEMA: &'static str = r#"{"type":"object","properties":{"id":{"type":"string","description":"The contact resource name (e.g. people/c12345678)"}},"required":["id"]}"#;

/// Each builtin tool with its description and schema, in order.
pub open spec fn spec_builtin_defs() -> Seq<(Seq<char>, Seq<char>, Seq<char>)> {
    seq![
        ("read_file"@, READ_FILE_DESCRIPTION@, READ_FILE_SCHEMA@),
        ("write_file"@, WRITE_FILE_DESCRIPTION@, WRITE_FILE_SCHEMA@),
        ("edit_file"@, EDIT_FILE_DESCRIPTION@, EDIT_FILE_SCHEMA@),
        ("list_dir"@, LIST_DIR_DESCRIPTION@, LIST_DIR_SCHEMA@),
        ("run_command"@, RUN_COMMAND_DESCRIPTION@, RUN_COMMAND_SCHEMA@),
        ("search_files"@, SEARCH_FILES_DESCRIPTION@, SEARCH_FILES_SCHEMA@),
    ]
}

/// Each skills tool with its description and schema, in order.
pub open spec fn spec_skills_defs() -> Seq<(Seq<char>, Seq<char>, Seq<char>)> {
    seq![
        ("install_skill"@, INSTALL_SKILL_DESCRIPTION@, INSTALL_SKILL_SCHEMA@),
        ("delete_skill"@, DELETE_SKILL_DESCRIPTION@, DELETE_SKILL_SCHEMA@),
    ]
}

/// Each web tool with its description and schema, in order.
pub open spec fn spec_web_defs() -> Seq<(Seq<char>, Seq<char>, Seq<char>)> {
    seq![
        ("web_search"@, WEB_SEARCH_DESCRIPTION@, WEB_SEARCH_SCHEMA@),
        ("web_fetch"@, WEB_FETCH_DESCRIPTION@, WEB_FETCH_SCHEMA@),
    ]
}

/// Each google tool with its description and schema, in order.
pub open spec fn spec_google_defs() -> Seq<(Seq<char>, Seq<char>, Seq<char>)> {
    seq![
        ("list_emails"@, LIST_EMAILS_DESCRIPTION@, LIST_EMAILS_SCHEMA@),
        ("read_email"@, READ_EMAIL_DESCRIPTION@, READ_EMAIL_SCHEMA@),
        ("list_calendar_events"@, LIST_CALENDAR_EVENTS_DESCRIPTION@, LIST_CALENDAR_EVENTS_SCHEMA@),
        ("list_contacts"@, LIST_CONTACTS_DESCRIPTION@, LIST_CONTACTS_SCHEMA@),
        ("read_contact"@, READ_CONTACT_DESCRIPTION@, READ_CONTACT_SCHEMA@),
    ]
}

/// The file and command tools, offered while the agent mode is on.
pub open spec fn spec_builtin_names() -> Seq<Seq<char>> {
    seq!["read_file"@, "write_file"@, "edit_file"@, "list_dir"@, "run_command"@, "search_files"@]
}

/// The file and command tools, offered while the agent mode is on.
pub fn builtin_tool_defs() -> (r: Vec<ToolDef>)
    ensures
        names_of(r@) == spec_builtin_names(),
        defs_view(r@) == spec_builtin_defs(),
{
    let mut v: Vec<ToolDef> = Vec::new();
    v.push(def("read_file", READ_FILE_DESCRIPTION, READ_FILE_SCHEMA));
    v.push(def("write_file", WRITE_FILE_DESCRIPTION, WRITE_FILE_SCHEMA));
    v.push(def("edit_file", EDIT_FILE_DESCRIPTION, EDIT_FILE_SCHEMA));
    v.push(def("list_dir", LIST_DIR_DESCRIPTION, LIST_DIR_SCHEMA));
    v.push(def("run_command", RUN_COMMAND_DESCRIPTION, RUN_COMMAND_SCHEMA));
    v.push(def("search_files", SEARCH_FILES_DESCRIPTION, SEARCH_FILES_SCHEMA));
    assert(names_of(v@) =~= spec_builtin_names());
    assert(defs_view(v@) =~= spec_builtin_defs());
    v
}

/// The tools that manage Demido's own skills folder. They touch only the app's data, so they are
/// not tied to the agent mode; a skill surfaces them by claiming them.
pub open spec fn spec_skills_names() -> Seq<Seq<char>> {
    seq!["install_skill"@, "delete_skill"@]
}

/// The tools that manage Demido's own skills folder.
pub fn skills_tool_defs() -> (r: Vec<ToolDef>)
    ensures
        names_of(r@) == spec_skills_names(),
        defs_view(r@) == spec_skills_defs(),
{
    let mut v: Vec<ToolDef> = Vec::new();
    v.push(def("install_skill", INSTALL_SKILL_DESCRIPTION, INSTALL_SKILL_SCHEMA));
    v.push(def("delete_skill", DELETE_SKILL_DESCRIPTION, DELETE_SKILL_SCHEMA));
    assert(names_of(v@) =~= spec_skills_names());
    assert(defs_view(v@) =~= spec_skills_defs());
    v
}

/// The builtins a skill may claim in its `tools.json`: the skills tools, and nothing else.
pub fn exposable_builtin_defs() -> (r: Vec<ToolDef>)
    ensures
        names_of(r@) == spec_skills_names(),
{
    skills_tool_defs()
}

/// The tool a skill's `{"type": "builtin"}` entry names, where it may claim it.
pub fn exposable_builtin(name: &str) -> (r: Option<ToolDef>)
    ensures
        match r {
            Some(d) => d.name@ == name@ && spec_skills_names().contains(name@),
            None => !spec_skills_names().contains(name@),
        },
{
    let defs = exposable_builtin_defs();
    let ghost ns = names_of(defs@);
    let mut i: usize = 0;
    while i < defs.len()
        invariant
            i <= defs@.len(),
            ns == names_of(defs@),
            ns == spec_skills_names(),
            forall|k: int| 0 <= k < i ==> ns[k] != name@,
        decreases defs@.len() - i,
    {
        assert(ns[i as int] == defs@[i as int].name@);
        if eq_str(defs[i].name.as_str(), name) {
            assert(spec_skills_names()[i as int] == name@);
            return Some(defs[i].clone_def());
        }
        i = i + 1;
    }
    proof {
        if spec_skills_names().contains(name@) {
            let k = choose|k: int| 0 <= k < spec_skills_names().len() && spec_skills_names()[k] == name@;
            assert(ns[k] != name@);
        }
    }
    None
}

impl ToolDef {
    /// A copy of the definition.
    pub fn clone_def(&self) -> (r: ToolDef)
        ensures
            r.name@ == self.name@,
            r.description@ == self.description@,
            r.input_schema@ == self.input_schema@,
    {
        ToolDef { name: self.name.clone(), description: self.description.clone(), input_schema: self.input_schema.clone() }
    }
}

/// The web tools.
pub open spec fn spec_web_names() -> Seq<Seq<char>> {
    seq!["web_search"@, "web_fetch"@]
}

/// The web tools.
pub fn web_tool_defs() -> (r: Vec<ToolDef>)
    ensures
        names_of(r@) == spec_web_names(),
        defs_view(r@) == spec_web_defs(),
{
    let mut v: Vec<ToolDef> = Vec::new();
    v.push(def("web_search", WEB_SEARCH_DESCRIPTION, WEB_SEARCH_SCHEMA));
    v.push(def("web_fetch", WEB_FETCH_DESCRIPTION, WEB_FETCH_SCHEMA));
    assert(names_of(v@) =~= spec_web_names());
    assert(defs_view(v@) =~= spec_web_defs());
    v
}

/// The Google tools.
pub open spec fn spec_google_names() -> Seq<Seq<char>> {
    seq!["list_emails"@, "read_email"@, "list_calendar_events"@, "list_contacts"@, "read_contact"@]
}

/// The Google tools, offered for the services an account is connected for.
pub fn google_tool_defs() -> (r: Vec<ToolDef>)
    ensures
        names_of(r@) == spec_google_names(),
        defs_view(r@) == spec_google_defs(),
{
    let mut v: Vec<ToolDef> = Vec::new();
    v.push(def("list_emails", LIST_EMAILS_DESCRIPTION, LIST_EMAILS_SCHEMA));
    v.push(def("read_email", READ_EMAIL_DESCRIPTION, READ_EMAIL_SCHEMA));
    v.push(def("list_calendar_events", LIST_CALENDAR_EVENTS_DESCRIPTION, LIST_CALENDAR_EVENTS_SCHEMA));
    v.push(def("list_contacts", LIST_CONTACTS_DESCRIPTION, LIST_CONTACTS_SCHEMA));
    v.push(def("read_contact", READ_CONTACT_DESCRIPTION, READ_CONTACT_SCHEMA));
    assert(names_of(v@) =~= spec_google_names());
    assert(defs_view(v@) =~= spec_google_defs());
    v
}

/// The web and Google tools a conversation is offered: those not switched off, and the Google
/// ones only for the services of the connected accounts, in their listed order.
pub open spec fn spec_optional_names(disabled: Seq<Seq<char>>, connected: Seq<Seq<char>>) -> Seq<Seq<char>> {
    (spec_web_names() + spec_google_names()).filter(
        |n: Seq<char>| crate::turn::spec_builtin_tool_offered(n, disabled, connected),
    )
}

/// The web and Google tools a conversation is offered (the tools its enabled skills declare are
/// added by the caller).
pub fn optional_builtin_tools(disabled: &Vec<String>, connected: &Vec<String>) -> (r: Vec<ToolDef>)
    ensures
        names_of(r@) == spec_optional_names(disabled.deep_view(), connected.deep_view()),
{
    let mut all = web_tool_defs();
    let mut google = google_tool_defs();
    all.append(&mut google);
    let ghost an = names_of(all@);
    assert(an =~= spec_web_names() + spec_google_names());
    let mut out: Vec<ToolDef> = Vec::new();
    let mut i: usize = 0;
    while i < all.len()
        invariant
            i <= all@.len(),
            an == names_of(all@),
            names_of(out@) == an.take(i as int).filter(
                |n: Seq<char>| crate::turn::spec_builtin_tool_offered(n, disabled.deep_view(), connected.deep_view()),
            ),
        decreases all@.len() - i,
    {
        let ghost before = names_of(out@);
        assert(an.take(i + 1).drop_last() =~= an.take(i as int));
        reveal(Seq::filter);
        if crate::turn::builtin_tool_offered(all[i].name.as_str(), disabled, connected) {
            out.push(all[i].clone_def());
            assert(names_of(out@) =~= before.push(an[i as int]));
        }
        i = i + 1;
    }
    assert(an.take(all@.len() as int) =~= an);
    out
}

/// Every tool the app offers is one the executor handles: none is mistaken for an MCP server's.
pub proof fn lemma_offered_tools_are_ours(name: Seq<char>)
    requires
        spec_builtin_names().contains(name) || spec_skills_names().contains(name) || spec_web_names().contains(name)
            || spec_google_names().contains(name),
    ensures
        spec_is_builtin_name(name),
{
    if spec_builtin_names().contains(name) {
        let k = choose|k: int| 0 <= k < spec_builtin_names().len() && spec_builtin_names()[k] == name;
        assert(0 <= k < 6);
    } else if spec_skills_names().contains(name) {
        let k = choose|k: int| 0 <= k < spec_skills_names().len() && spec_skills_names()[k] == name;
        assert(0 <= k < 2);
    } else if spec_web_names().contains(name) {
        let k = choose|k: int| 0 <= k < spec_web_names().len() && spec_web_names()[k] == name;
        assert(0 <= k < 2);
    } else {
        let k = choose|k: int| 0 <= k < spec_google_names().len() && spec_google_names()[k] == name;
        assert(0 <= k < 5);
    }
}

/// The Google tools are exactly the tools that need a connected account: each names the service
/// it reads, and no other tool the app offers names one.
pub proof fn lemma_google_tools_need_a_service(name: Seq<char>)
    requires
        spec_builtin_names().contains(name) || spec_skills_names().contains(name) || spec_web_names().contains(name)
            || spec_google_names().contains(name),
    ensures
        spec_google_service_for(name) is Some <==> spec_google_names().contains(name),
{
    reveal_strlit("list_emails");
    reveal_strlit("read_email");
    reveal_strlit("list_calendar_events");
    reveal_strlit("list_contacts");
    reveal_strlit("read_contact");
    reveal_strlit("read_file");
    reveal_strlit("write_file");
    reveal_strlit("edit_file");
    reveal_strlit("list_dir");
    reveal_strlit("run_command");
    reveal_strlit("search_files");
    reveal_strlit("install_skill");
    reveal_strlit("delete_skill");
    reveal_strlit("web_search");
    reveal_strlit("web_fetch");
    if spec_google_names().contains(name) {
        let k = choose|k: int| 0 <= k < spec_google_names().len() && spec_google_names()[k] == name;
        assert(0 <= k < 5);
    } else if spec_builtin_names().contains(name) {
        let k = choose|k: int| 0 <= k < spec_builtin_names().len() && spec_builtin_names()[k] == name;
        assert(0 <= k < 6);
    } else if spec_skills_names().contains(name) {
        let k = choose|k: int| 0 <= k < spec_skills_names().len() && spec_skills_names()[k] == name;
        assert(0 <= k < 2);
    } else {
        let k = choose|k: int| 0 <= k < spec_web_names().len() && spec_web_names()[k] == name;
        assert(0 <= k < 2);
    }
}

/// A skill can claim none of the tools the agent mode guards: the claimable builtins and the
/// file and command tools have no name in common.
pub proof fn lemma_claims_never_reach_guarded_tools(name: Seq<char>)
    requires
        spec_skills_names().contains(name),
    ensures
        !spec_builtin_names().contains(name),
{
    reveal_strlit("read_file");
    reveal_strlit("write_file");
    reveal_strlit("edit_file");
    reveal_strlit("list_dir");
    reveal_strlit("run_command");
    reveal_strlit("search_files");
    reveal_strlit("install_skill");
    reveal_strlit("delete_skill");
    let k = choose|k: int| 0 <= k < spec_skills_names().len() && spec_skills_names()[k] == name;
    assert(0 <= k < 2);
    if spec_builtin_names().contains(name) {
        let j = choose|j: int| 0 <= j < spec_builtin_names().len() && spec_builtin_names()[j] == name;
        let b = spec_builtin_names()[j];
        assert(b.len() != name.len() || b[0] != name[0]) by {
            assert(0 <= j < 6);
            assert(0 <= k < 2);
            if k == 0 {
                assert(name.len() == 13);
            } else {
                assert(name.len() == 12 && name[0] == 'd');
            }
            if j == 5 {
                assert(b.len() == 12 && b[0] == 's');
            } else {
                assert(b.len() < 12);
            }
        }
    }
}

} // verus!
