//! The built-in tools: which names are ours, which connected service a Google tool needs, what a
//! permission prompt says about a call, and the decisions the tool loop makes around a call.
use vstd::prelude::*;
use vstd::string::*;

use crate::text::{concat, eq_str};

use crate::text::opt_str;
verus! {

broadcast use vstd::string::group_string_axioms;

/// The connected-account service a Google tool needs.
pub open spec fn spec_google_service_for(tool_name: Seq<char>) -> Option<Seq<char>> {
    if tool_name == "list_emails"@ || tool_name == "read_email"@ {
        Some("email"@)
    } else if tool_name == "list_calendar_events"@ {
        Some("calendar"@)
    } else if tool_name == "list_contacts"@ || tool_name == "read_contact"@ {
        Some("contacts"@)
    } else {
        None
    }
}

/// The connected-account service a Google tool needs, or `None` for anything that is not one.
pub fn google_service_for(tool_name: &str) -> (r: Option<&'static str>)
    ensures
        opt_str(r) == spec_google_service_for(tool_name@),
{
    if eq_str(tool_name, "list_emails") || eq_str(tool_name, "read_email") {
        Some("email")
    } else if eq_str(tool_name, "list_calendar_events") {
        Some("calendar")
    } else if eq_str(tool_name, "list_contacts") || eq_str(tool_name, "read_contact") {
        Some("contacts")
    } else {
        None
    }
}

/// The fixed built-in tool names: every name the tool executor answers itself, the code-graph
/// tools among them.
pub open spec fn spec_is_builtin_name(tool_name: Seq<char>) -> bool {
    ||| tool_name == "read_file"@
    ||| tool_name == "write_file"@
    ||| tool_name == "install_skill"@
    ||| tool_name == "delete_skill"@
    ||| tool_name == "edit_file"@
    ||| tool_name == "list_dir"@
    ||| tool_name == "run_command"@
    ||| tool_name == "search_files"@
    ||| tool_name == "web_search"@
    ||| tool_name == "web_fetch"@
    ||| tool_name == "list_emails"@
    ||| tool_name == "read_email"@
    ||| tool_name == "list_calendar_events"@
    ||| tool_name == "list_contacts"@
    ||| tool_name == "read_contact"@
    ||| tool_name == "graphify_query"@
    ||| tool_name == "graphify_build"@
}

/// Whether the tool executor handles this name (it is ours, not an MCP server's): a skill-declared
/// tool, or one of the fixed built-in names. `is_skill_tool` says whether the name is a
/// skill-declared tool.
pub fn is_builtin(tool_name: &str, is_skill_tool: bool) -> (r: bool)
    ensures
        r == (is_skill_tool || spec_is_builtin_name(tool_name@)),
{
    if is_skill_tool {
        return true;
    }
    eq_str(tool_name, "read_file") || eq_str(tool_name, "write_file") || eq_str(
        tool_name,
        "install_skill",
    ) || eq_str(tool_name, "delete_skill") || eq_str(tool_name, "edit_file") || eq_str(
        tool_name,
        "list_dir",
    ) || eq_str(tool_name, "run_command") || eq_str(tool_name, "search_files") || eq_str(
        tool_name,
        "web_search",
    ) || eq_str(tool_name, "web_fetch") || eq_str(tool_name, "list_emails") || eq_str(
        tool_name,
        "read_email",
    ) || eq_str(tool_name, "list_calendar_events") || eq_str(tool_name, "list_contacts") || eq_str(
        tool_name,
        "read_contact",
    ) || eq_str(tool_name, "graphify_query") || eq_str(tool_name, "graphify_build")
}

/// Every Google tool is a built-in.
pub proof fn lemma_google_tools_are_builtin(tool_name: Seq<char>)
    ensures
        spec_google_service_for(tool_name) is Some ==> spec_is_builtin_name(tool_name),
{
}

/// The string arguments of a tool call that a permission prompt quotes; each `None` where the
/// call's arguments hold no string under that key. `install_detail` describes the MCP server an
/// `install_skill` payload bundles, where it can be read.
#[derive(Debug, Clone, PartialEq, Eq)]
pub struct ToolCallArgs {
    pub path: Option<String>,
    pub command: Option<String>,
    pub id: Option<String>,
    pub pattern: Option<String>,
    pub install_detail: Option<String>,
}

/// A present argument, or the placeholder.
pub open spec fn or_else(o: Option<String>, d: Seq<char>) -> Seq<char> {
    match o {
        Some(s) => s@,
        None => d,
    }
}

/// What the permission prompt says about a call.
pub open spec fn spec_format_tool_description(name: Seq<char>, args: ToolCallArgs) -> Seq<char> {
    if name == "read_file"@ {
        "Read file: "@ + or_else(args.path, "?"@)
    } else if name == "write_file"@ {
        "Write file: "@ + or_else(args.path, "?"@)
    } else if name == "edit_file"@ {
        "Edit file: "@ + or_else(args.path, "?"@)
    } else if name == "list_dir"@ {
        "List directory: "@ + or_else(args.path, "."@)
    } else if name == "run_command"@ {
        "Run command: "@ + or_else(args.command, "?"@)
    } else if name == "delete_skill"@ {
        "Delete skill '"@ + or_else(args.id, "?"@)
            + "' and every file in its folder \u{2014} this cannot be undone"@
    } else if name == "install_skill"@ {
        match args.install_detail {
            Some(d) => "Install skill '"@ + or_else(args.id, "?"@)
                + "', which bundles an MCP server Demido will run on your machine:\n"@ + d@,
            None => "Install skill '"@ + or_else(args.id, "?"@) + "', which bundles an MCP server"@,
        }
    } else if name == "search_files"@ {
        "Search files: "@ + or_else(args.pattern, "?"@) + " in "@ + or_else(args.path, "."@)
    } else {
        name
    }
}

fn arg_or<'a>(o: &'a Option<String>, d: &'a str) -> (r: &'a str)
    ensures
        r@ == or_else(*o, d@),
{
    match o {
        Some(s) => s.as_str(),
        None => d,
    }
}

/// The line a permission prompt shows for a call.
pub fn format_tool_description(name: &str, args: &ToolCallArgs) -> (r: String)
    ensures
        r@ == spec_format_tool_description(name@, *args),
{
    if eq_str(name, "read_file") {
        concat("Read file: ", arg_or(&args.path, "?"))
    } else if eq_str(name, "write_file") {
        concat("Write file: ", arg_or(&args.path, "?"))
    } else if eq_str(name, "edit_file") {
        concat("Edit file: ", arg_or(&args.path, "?"))
    } else if eq_str(name, "list_dir") {
        concat("List directory: ", arg_or(&args.path, "."))
    } else if eq_str(name, "run_command") {
        concat("Run command: ", arg_or(&args.command, "?"))
    } else if eq_str(name, "delete_skill") {
        let a = concat("Delete skill '", arg_or(&args.id, "?"));
        concat(a.as_str(), "' and every file in its folder \u{2014} this cannot be undone")
    } else if eq_str(name, "install_skill") {
        let a = concat("Install skill '", arg_or(&args.id, "?"));
        match &args.install_detail {
            Some(d) => {
                let b = concat(
                    a.as_str(),
                    "', which bundles an MCP server Demido will run on your machine:\n",
                );
                concat(b.as_str(), d.as_str())
            },
            None => concat(a.as_str(), "', which bundles an MCP server"),
        }
    } else if eq_str(name, "search_files") {
        let a = concat("Search files: ", arg_or(&args.pattern, "?"));
        let b = concat(a.as_str(), " in ");
        concat(b.as_str(), arg_or(&args.path, "."))
    } else {
        name.to_owned()
    }
}

/// The tools that write or execute, and so need a working folder.
pub open spec fn spec_needs_working_folder(tool_name: Seq<char>) -> bool {
    tool_name == "write_file"@ || tool_name == "edit_file"@ || tool_name == "run_command"@
}

/// `write_file`, `edit_file` and `run_command` are unavailable without a working folder.
pub fn needs_working_folder(tool_name: &str) -> (r: bool)
    ensures
        r == spec_needs_working_folder(tool_name@),
{
    eq_str(tool_name, "write_file") || eq_str(tool_name, "edit_file") || eq_str(
        tool_name,
        "run_command",
    )
}

/// What the tool loop does with one call, before anything runs.
#[derive(Debug, Clone, Copy, PartialEq, Eq, Structural)]
pub enum CallStep {
    /// Stop was pressed: record that the tool never ran.
    Stopped,
    /// A writing tool without a working folder: tell the model to ask the user for one.
    NoFolder,
    /// Run it without asking.
    Run,
    /// Ask the user first.
    Ask,
}

/// The first decision the tool loop makes about a built-in call: a stop already observed wins;
/// then a writing tool without a working folder is refused; then the permission rule decides.
pub open spec fn spec_builtin_call_step(
    stopped: bool,
    has_working_folder: bool,
    tool_name: Seq<char>,
    permitted: crate::permissions::PermissionResult,
) -> CallStep {
    if stopped {
        CallStep::Stopped
    } else if !has_working_folder && spec_needs_working_folder(tool_name) {
        CallStep::NoFolder
    } else if permitted == crate::permissions::PermissionResult::Allow {
        CallStep::Run
    } else {
        CallStep::Ask
    }
}

/// The first decision the tool loop makes about a built-in call.
pub fn builtin_call_step(
    stopped: bool,
    has_working_folder: bool,
    tool_name: &str,
    permitted: crate::permissions::PermissionResult,
) -> (r: CallStep)
    ensures
        r == spec_builtin_call_step(stopped, has_working_folder, tool_name@, permitted),
{
    if stopped {
        CallStep::Stopped
    } else if !has_working_folder && needs_working_folder(tool_name) {
        CallStep::NoFolder
    } else {
        match permitted {
            crate::permissions::PermissionResult::Allow => CallStep::Run,
            crate::permissions::PermissionResult::Ask => CallStep::Ask,
        }
    }
}

/// What is recorded for a tool that never ran because the user pressed stop.
pub const STOPPED_RESULT: &'static str = "Stopped by the user before this tool ran. It had no effect. Do not retry it automatically \u{2014} wait for the user's next instruction.";

/// What is recorded when the user refused a call.
pub const DENIED_RESULT: &'static str = "Permission denied by user. Do not retry this action using alternative commands or methods.";

/// What the model is told when a writing tool has no working folder to write in.
pub const NO_FOLDER_RESULT: &'static str = "No working folder is set for this conversation, so write_file, edit_file and run_command are unavailable. You cannot set one yourself: cd/Set-Location will not help, and retrying will fail the same way. Stop and ask the user to pick a working folder with the folder button in the chat header. Reading (read_file, list_dir, search_files) still works, and install_skill still works because it only ever writes inside Demido's own skills folder \u{2014} if you are installing a skill, use that instead of asking for a working folder.";

/// What became of one tool call, as the shell reports it once it has dealt with the call.
#[derive(Debug, Clone)]
pub enum CallReport {
    /// The call was made; its result (or the error the shell wrote for it).
    Ran(String),
    /// A writing tool had no working folder.
    NoFolder,
    /// The user refused it.
    Denied,
    /// Stop was pressed while the user was being asked.
    Stopped,
}

/// The view of a report.
pub enum ReportView {
    Ran(Seq<char>),
    NoFolder,
    Denied,
    Stopped,
}

pub open spec fn report_view(r: CallReport) -> ReportView {
    match r {
        CallReport::Ran(t) => ReportView::Ran(t@),
        CallReport::NoFolder => ReportView::NoFolder,
        CallReport::Denied => ReportView::Denied,
        CallReport::Stopped => ReportView::Stopped,
    }
}

/// Whether a turn counts as stopped after a call: it was already, stop was seen before the call,
/// or stop came while the user was being asked.
pub open spec fn stops_after(stopped: bool, rep: ReportView) -> bool {
    stopped || rep is Stopped
}

/// The result recorded for a call: once the turn is stopped every call is answered with
/// [`STOPPED_RESULT`] (it never ran); otherwise what the report says.
pub open spec fn answer_text(stopped: bool, rep: ReportView) -> Seq<char> {
    if stops_after(stopped, rep) {
        STOPPED_RESULT@
    } else {
        match rep {
            ReportView::Ran(t) => t,
            ReportView::NoFolder => NO_FOLDER_RESULT@,
            ReportView::Denied => DENIED_RESULT@,
            ReportView::Stopped => STOPPED_RESULT@,
        }
    }
}

/// The answers a turn's tool calls get, in order: each call's id with the result recorded for it.
/// A turn stopped part-way still answers every later call, so that every recorded call has its
/// result and the conversation can be sent again.
pub struct CallAnswers {
    ids: Vec<String>,
    answers: Vec<(String, String)>,
    stopped: bool,
}

impl CallAnswers {
    /// The ids of the turn's calls, in order.
    pub closed spec fn ids(&self) -> Seq<Seq<char>> {
        self.ids.deep_view()
    }

    /// The answers so far: each call's id and its result.
    pub closed spec fn answers(&self) -> Seq<(Seq<char>, Seq<char>)> {
        self.answers@.map_values(|a: (String, String)| (a.0@, a.1@))
    }

    /// Whether stop has been seen in this turn.
    pub closed spec fn is_stopped(&self) -> bool {
        self.stopped
    }

    /// Every answer so far belongs to the call at its place.
    pub open spec fn well_formed(&self) -> bool {
        &&& self.answers().len() <= self.ids().len()
        &&& forall|i: int| 0 <= i < self.answers().len() ==> (#[trigger] self.answers()[i]).0 == self.ids()[i]
    }

    /// No call answered yet, and no stop seen.
    pub fn new(ids: Vec<String>) -> (r: CallAnswers)
        ensures
            r.well_formed(),
            r.ids() == ids.deep_view(),
            r.answers() == Seq::<(Seq<char>, Seq<char>)>::empty(),
            !r.is_stopped(),
    {
        let r = CallAnswers { ids, answers: Vec::new(), stopped: false };
        assert(r.answers() =~= Seq::<(Seq<char>, Seq<char>)>::empty());
        r
    }

    /// The first decision about the next built-in call, with stop seen in this turn, or just now.
    pub fn step(
        &self,
        cancelled: bool,
        has_working_folder: bool,
        tool_name: &str,
        permitted: crate::permissions::PermissionResult,
    ) -> (r: CallStep)
        ensures
            r == spec_builtin_call_step(self.is_stopped() || cancelled, has_working_folder, tool_name@, permitted),
    {
        builtin_call_step(self.stopped || cancelled, has_working_folder, tool_name, permitted)
    }

    /// Record what became of the next call; `cancelled` says whether stop was seen before it was
    /// dealt with. The answer goes to that call's id.
    pub fn record(&mut self, cancelled: bool, report: CallReport)
        requires
            old(self).well_formed(),
            old(self).answers().len() < old(self).ids().len(),
        ensures
            final(self).well_formed(),
            final(self).ids() == old(self).ids(),
            final(self).answers() == old(self).answers().push(
                (
                    old(self).ids()[old(self).answers().len() as int],
                    answer_text(old(self).is_stopped() || cancelled, report_view(report)),
                ),
            ),
            final(self).is_stopped() == stops_after(old(self).is_stopped() || cancelled, report_view(report)),
    {
        let ghost before = self.answers();
        let k = self.answers.len();
        let stopped = self.stopped || cancelled;
        let ghost rep = report_view(report);
        let (text, now_stopped) = match report {
            CallReport::Stopped => (STOPPED_RESULT.to_string(), true),
            CallReport::Ran(t) => if stopped { (STOPPED_RESULT.to_string(), true) } else { (t, false) },
            CallReport::NoFolder => if stopped {
                (STOPPED_RESULT.to_string(), true)
            } else {
                (NO_FOLDER_RESULT.to_string(), false)
            },
            CallReport::Denied => if stopped {
                (STOPPED_RESULT.to_string(), true)
            } else {
                (DENIED_RESULT.to_string(), false)
            },
        };
        let id = self.ids[k].clone();
        self.answers.push((id, text));
        self.stopped = now_stopped;
        assert(self.answers() =~= before.push((self.ids()[k as int], answer_text(stopped, rep))));
    }

    /// Whether every call has its answer.
    pub fn complete(&self) -> (r: bool)
        ensures
            r == (self.answers().len() == self.ids().len()),
    {
        self.answers.len() == self.ids.len()
    }

    /// Whether the turn ends here rather than going back to the model: stop was seen.
    pub fn ends_turn(&self) -> (r: bool)
        ensures
            r == self.is_stopped(),
    {
        self.stopped
    }

    /// The answers, once every call has one: exactly one per call, in the calls' order.
    pub fn into_answers(self) -> (r: Vec<(String, String)>)
        requires
            self.well_formed(),
            self.answers().len() == self.ids().len(),
        ensures
            r@.len() == self.ids().len(),
            forall|i: int| 0 <= i < r@.len() ==> (#[trigger] r@[i]).0@ == self.ids()[i] && r@[i].1@ == self.answers()[i].1,
    {
        let r = self.answers;
        proof {
            assert forall|i: int| 0 <= i < r@.len() implies (#[trigger] r@[i]).0@ == self.ids()[i] && r@[i].1@ == self.answers()[i].1 by {
                assert(self.answers()[i] == (r@[i].0@, r@[i].1@));
            }
        }
        r
    }
}

/// The answers a turn's first `n` calls get when each is recorded in turn, with whether stop was
/// seen before it (`steps[i].0`) and what became of it (`steps[i].1`), and whether the turn is
/// stopped after them: the fold of [`CallAnswers::record`].
pub open spec fn answered(ids: Seq<Seq<char>>, steps: Seq<(bool, ReportView)>, n: int) -> (
    Seq<(Seq<char>, Seq<char>)>,
    bool,
)
    decreases n,
{
    if n <= 0 {
        (Seq::empty(), false)
    } else {
        let prev = answered(ids, steps, n - 1);
        let stopped = prev.1 || steps[n - 1].0;
        (prev.0.push((ids[n - 1], answer_text(stopped, steps[n - 1].1))), stops_after(stopped, steps[n - 1].1))
    }
}

/// Whether stop is seen at call `i`: the turn was stopped before it, stop was seen before it was
/// dealt with, or stop came while the user was asked about it.
pub open spec fn stop_seen(ids: Seq<Seq<char>>, steps: Seq<(bool, ReportView)>, i: int) -> bool {
    answered(ids, steps, i).1 || steps[i].0 || steps[i].1 is Stopped
}

/// Every tool call of a turn is answered exactly once and in order, under its own id; and from
/// the call at which stop is seen on, every call is answered with [`STOPPED_RESULT`].
pub proof fn lemma_calls_answered_in_order(ids: Seq<Seq<char>>, steps: Seq<(bool, ReportView)>, n: int)
    requires
        0 <= n <= ids.len(),
        n <= steps.len(),
    ensures
        answered(ids, steps, n).0.len() == n,
        forall|i: int| 0 <= i < n ==> (#[trigger] answered(ids, steps, n).0[i]).0 == ids[i],
        forall|i: int, j: int|
            0 <= i <= j < n && #[trigger] stop_seen(ids, steps, i) ==> (
            #[trigger] answered(ids, steps, n).0[j]).1 == STOPPED_RESULT@,
    decreases n,
{
    if n > 0 {
        lemma_calls_answered_in_order(ids, steps, n - 1);
        let prev = answered(ids, steps, n - 1);
        assert forall|i: int| 0 <= i < n implies (#[trigger] answered(ids, steps, n).0[i]).0 == ids[i] by {
            if i < n - 1 {
                assert(answered(ids, steps, n).0[i] == prev.0[i]);
            }
        }
        assert forall|i: int, j: int|
            0 <= i <= j < n && #[trigger] stop_seen(ids, steps, i) implies (
            #[trigger] answered(ids, steps, n).0[j]).1 == STOPPED_RESULT@ by {
            if j < n - 1 {
                assert(answered(ids, steps, n).0[j] == prev.0[j]);
            } else {
                lemma_stopped_stays(ids, steps, i, n - 1);
            }
        }
    }
}

/// Once stop is seen at call `i`, the turn is still stopped after any later call `m`.
proof fn lemma_stopped_stays(ids: Seq<Seq<char>>, steps: Seq<(bool, ReportView)>, i: int, m: int)
    requires
        0 <= i <= m,
        m < steps.len(),
        stop_seen(ids, steps, i),
    ensures
        m > i ==> answered(ids, steps, m).1,
    decreases m - i,
{
    if m > i {
        if m - 1 > i {
            lemma_stopped_stays(ids, steps, i, m - 1);
        }
    }
}

/// Once stop is seen in a turn, every call answered after it is answered with [`STOPPED_RESULT`],
/// and the turn stays stopped.
pub proof fn lemma_stop_is_final(rep: ReportView)
    ensures
        answer_text(true, rep) == STOPPED_RESULT@,
        stops_after(true, rep),
{
}

/// How a graphify query goes given the graph's freshness and the folder's auto-build toggle.
#[derive(Debug, Clone, Copy, PartialEq, Eq, Structural)]
pub enum QueryPlan {
    /// The graph is current: query it.
    Query,
    /// Stale, and auto-build is on (the toggle is consent): refresh first, then query.
    RefreshThenQuery,
    /// Stale, and auto-build is off: query, with a warning that the answer may be stale.
    QueryWithWarning,
}

/// The freshness decision for a graphify query.
pub open spec fn spec_query_plan(stale: bool, auto_build: bool) -> QueryPlan {
    if !stale {
        QueryPlan::Query
    } else if auto_build {
        QueryPlan::RefreshThenQuery
    } else {
        QueryPlan::QueryWithWarning
    }
}

/// A stale graph is refreshed only with consent, and otherwise flagged.
pub fn query_plan(stale: bool, auto_build: bool) -> (r: QueryPlan)
    ensures
        r == spec_query_plan(stale, auto_build),
{
    if !stale {
        QueryPlan::Query
    } else if auto_build {
        QueryPlan::RefreshThenQuery
    } else {
        QueryPlan::QueryWithWarning
    }
}

/// A graph already on disk is only ever refreshed, never rebuilt from scratch.
pub fn build_is_update(requested_update: bool, graph_built: bool) -> (r: bool)
    ensures
        r == (requested_update || graph_built),
{
    requested_update || graph_built
}

// ------------------------------------------------------------------ recording a turn's calls

/// The compact JSON text `serde_json` writes of what it reads out of `text`, or `None` where the
/// text is not JSON.
pub uninterp spec fn json_compact(text: Seq<char>) -> Option<Seq<char>>;

/// `serde_json::from_str::<serde_json::Value>` and then `to_string`.
#[verifier::external_body]
fn compact_json(text: &str) -> (r: Option<String>)
    ensures
        crate::text::opt_string(r) == json_compact(text@),
{
    serde_json::from_str::<serde_json::Value>(text).ok().map(|v| v.to_string())
}

/// A call's arguments as recorded: the compact JSON of its argument text, or `{}` where that is
/// not JSON.
pub open spec fn recorded_arguments(arguments: Seq<char>) -> Seq<char> {
    match json_compact(arguments) {
        Some(t) => t,
        None => "{}"@,
    }
}

/// One call in the record, with its keys in the order `serde_json` writes an object's keys:
/// `function` (`arguments` as a JSON string, then `name`), `id`, the Gemini `thought_signature`
/// where there is one, and `type`.
pub open spec fn call_entry(c: crate::replies::ReplyCall) -> Seq<char> {
    "{\"function\":{\"arguments\":"@ + crate::providers::json_quoted(recorded_arguments(c.arguments@))
        + ",\"name\":"@ + crate::providers::json_quoted(c.name@) + "},\"id\":"@ + crate::providers::json_quoted(c.id@)
        + match c.thought_signature {
        Some(sig) => ",\"thought_signature\":"@ + crate::providers::json_quoted(sig@),
        None => Seq::empty(),
    } + ",\"type\":\"function\"}"@
}

/// The assistant message that records a turn's calls: a JSON object whose `__tool_calls__` key
/// lists each call, in order. It is kept out of the chat's view and sent back to the provider.
pub open spec fn spec_calls_record(calls: Seq<crate::replies::ReplyCall>) -> Seq<char> {
    "{\"__tool_calls__\":["@ + crate::cli::join_with(calls.map_values(|c: crate::replies::ReplyCall| call_entry(c)), ","@)
        + "]}"@
}

fn call_entry_text(c: &crate::replies::ReplyCall) -> (r: String)
    ensures
        r@ == call_entry(*c),
{
    let args = match compact_json(c.arguments.as_str()) {
        Some(t) => t,
        None => "{}".to_string(),
    };
    let mut t = concat("{\"function\":{\"arguments\":", crate::providers::quote_json(args.as_str()).as_str());
    t = concat(t.as_str(), ",\"name\":");
    t = concat(t.as_str(), crate::providers::quote_json(c.name.as_str()).as_str());
    t = concat(t.as_str(), "},\"id\":");
    t = concat(t.as_str(), crate::providers::quote_json(c.id.as_str()).as_str());
    match &c.thought_signature {
        Some(sig) => {
            t = concat(t.as_str(), ",\"thought_signature\":");
            t = concat(t.as_str(), crate::providers::quote_json(sig.as_str()).as_str());
        },
        None => {
            proof {
                reveal_strlit("");
            }
            t = concat(t.as_str(), "");
        },
    }
    concat(t.as_str(), ",\"type\":\"function\"}")
}

/// The text of the message that records a turn's calls.
pub fn calls_record(calls: &Vec<crate::replies::ReplyCall>) -> (r: String)
    ensures
        r@ == spec_calls_record(calls@),
{
    let mut entries: Vec<String> = Vec::new();
    let mut i: usize = 0;
    while i < calls.len()
        invariant
            i <= calls@.len(),
            entries.deep_view() == calls@.take(i as int).map_values(|c: crate::replies::ReplyCall| call_entry(c)),
        decreases calls@.len() - i,
    {
        let e = call_entry_text(&calls[i]);
        let ghost before = entries.deep_view();
        entries.push(e);
        assert(entries.deep_view() =~= before.push(call_entry(calls@[i as int])));
        assert(calls@.take(i + 1).map_values(|c: crate::replies::ReplyCall| call_entry(c)) =~= calls@.take(
            i as int,
        ).map_values(|c: crate::replies::ReplyCall| call_entry(c)).push(call_entry(calls@[i as int])));
        i = i + 1;
    }
    assert(calls@.take(i as int) =~= calls@);
    let body = crate::cli::join_strings(&entries, ",");
    concat(concat("{\"__tool_calls__\":[", body.as_str()).as_str(), "]}")
}

/// A message the turn stores: its role, its text, and the call it answers.
pub type StoredRow = (Seq<char>, Seq<char>, Option<Seq<char>>);

/// The messages a turn with calls stores, in order: the record of the calls, then each call's
/// answer as a `tool` message for that call's id.
pub fn turn_rows(calls: &Vec<crate::replies::ReplyCall>, answers: &Vec<(String, String)>) -> (r: Vec<(String, String, Option<String>)>)
    requires
        answers@.len() == calls@.len(),
    ensures
        r@.len() == calls@.len() + 1,
        r@[0].0@ == "assistant"@ && r@[0].1@ == spec_calls_record(calls@) && r@[0].2 is None,
        forall|i: int|
            0 <= i < calls@.len() ==> (#[trigger] r@[i + 1]).0@ == "tool"@ && r@[i + 1].1@ == answers@[i].1@
                && crate::text::opt_string(r@[i + 1].2) == Some(calls@[i].id@),
{
    let mut rows: Vec<(String, String, Option<String>)> = Vec::new();
    rows.push(("assistant".to_string(), calls_record(calls), None));
    let mut i: usize = 0;
    while i < calls.len()
        invariant
            i <= calls@.len(),
            answers@.len() == calls@.len(),
            rows@.len() == i + 1,
            rows@[0].0@ == "assistant"@ && rows@[0].1@ == spec_calls_record(calls@) && rows@[0].2 is None,
            forall|k: int|
                0 <= k < i ==> (#[trigger] rows@[k + 1]).0@ == "tool"@ && rows@[k + 1].1@ == answers@[k].1@
                    && crate::text::opt_string(rows@[k + 1].2) == Some(calls@[k].id@),
        decreases calls@.len() - i,
    {
        rows.push(("tool".to_string(), answers[i].1.clone(), Some(calls[i].id.clone())));
        i = i + 1;
    }
    rows
}

} // verus!
