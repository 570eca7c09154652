//! The rows the app keeps in its database, what is read out of them, and the schema's versions:
//! which migrations a database still needs, and when the default providers are seeded. Running
//! the SQL belongs to the shell.
use vstd::prelude::*;
use vstd::string::*;

use crate::caps::PartialCaps;
use crate::text::eq_str;

verus! {

broadcast use vstd::string::group_string_axioms;

/// A connected account (a Google login).
#[derive(Debug)]
pub struct Account {
    pub id: String,
    pub provider: String,
    pub email: String,
    pub name: String,
    pub picture: Option<String>,
    pub access_token: String,
    pub refresh_token: Option<String>,
    pub token_expiry: Option<i64>,
    pub services: Vec<String>,
}

/// A conversation.
#[derive(Debug)]
pub struct Conversation {
    pub id: String,
    pub title: String,
    pub provider_id: String,
    pub model_id: String,
    pub agent_mode: String,
    pub working_directory: Option<String>,
    pub created_at: i64,
    pub updated_at: i64,
}

/// A GGUF model file downloaded for local inference.
#[derive(Debug)]
pub struct LocalModel {
    /// Unique; `<repo>::<quant>`.
    pub id: String,
    pub repo: String,
    pub quant: String,
    pub file_path: String,
    pub size: i64,
    /// The vision projector passed to llama-server, if any.
    pub mmproj_path: Option<String>,
    /// Probed from llama-server on first load; `None` until then.
    pub caps_vision: Option<bool>,
    pub caps_tools: Option<bool>,
    pub caps_reasoning: Option<bool>,
}

impl LocalModel {
    /// What llama.cpp reported about this model, if it has ever been loaded.
    pub fn caps(&self) -> (r: PartialCaps)
        ensures
            r.vision == self.caps_vision,
            r.tools == self.caps_tools,
            r.reasoning == self.caps_reasoning,
    {
        PartialCaps { vision: self.caps_vision, tools: self.caps_tools, reasoning: self.caps_reasoning }
    }
}

/// A stored chat message.
#[derive(Debug)]
pub struct Message {
    pub id: String,
    pub conversation_id: String,
    pub role: String,
    pub content: String,
    pub tool_call_id: Option<String>,
    pub created_at: i64,
    pub token_count: Option<i64>,
    pub thinking: Option<String>,
}

/// A full-text search hit.
#[derive(Debug)]
pub struct SearchResult {
    pub conversation_id: String,
    pub snippet: String,
}

/// What the user set for one model of a provider.
#[derive(Debug)]
pub struct ModelOverride {
    pub provider_id: String,
    pub model_id: String,
    pub custom_name: Option<String>,
    pub enabled: bool,
    /// Manual capability overrides; `None` leaves the flag to detection.
    pub caps_vision: Option<bool>,
    pub caps_tools: Option<bool>,
    pub caps_reasoning: Option<bool>,
}

impl ModelOverride {
    /// The capabilities the user pinned by hand.
    pub fn caps(&self) -> (r: PartialCaps)
        ensures
            r.vision == self.caps_vision,
            r.tools == self.caps_tools,
            r.reasoning == self.caps_reasoning,
    {
        PartialCaps { vision: self.caps_vision, tools: self.caps_tools, reasoning: self.caps_reasoning }
    }
}

/// A configured model provider.
#[derive(Debug)]
pub struct Provider {
    pub id: String,
    pub name: String,
    pub provider_type: String,
    pub base_url: String,
    pub api_key_ref: Option<String>,
    pub enabled: bool,
    pub sort_order: i64,
    pub visible: bool,
}

/// The settings page, read from the key/value settings table.
#[derive(Debug)]
pub struct AppSettings {
    pub default_provider_id: String,
    pub default_model_id: String,
    pub system_prompt: String,
    pub auth_enabled: bool,
    pub context_window_limit: i64,
    pub task_provider_id: String,
    pub task_model_id: String,
    pub title_every_n_messages: i64,
}

/// A stored text, or the default where the key has no row.
pub open spec fn stored_or(v: Option<Seq<char>>, d: Seq<char>) -> Seq<char> {
    match v {
        Some(s) => s,
        None => d,
    }
}

/// A stored integer, or `fallback` where the stored text does not read as one.
pub open spec fn int_or(text: Seq<char>, fallback: i64) -> i64 {
    match crate::text::spec_parse_i64(text) {
        Some(n) => n,
        None => fallback,
    }
}

/// The text of a JSON string, as `serde_json::from_str` reads it out of `text`; `None` where the
/// text is not JSON or is JSON of another kind.
pub uninterp spec fn json_string_value(text: Seq<char>) -> Option<Seq<char>>;

/// `serde_json::from_str::<serde_json::Value>`, then `Value::as_str`.
#[verifier::external_body]
fn json_string(text: &str) -> (r: Option<String>)
    ensures
        crate::text::opt_string(r) == json_string_value(text@),
{
    serde_json::from_str::<serde_json::Value>(text).ok().and_then(|v| v.as_str().map(|s| s.to_string()))
}

/// What a setting is stored as: the front end sends each value JSON-encoded, so a JSON string is
/// stored as its text; any other value is stored as it came.
pub fn stored_setting(value: &str) -> (r: String)
    ensures
        r@ == match json_string_value(value@) {
            Some(s) => s,
            None => value@,
        },
{
    match json_string(value) {
        Some(s) => s,
        None => value.to_string(),
    }
}

fn text_or(v: Option<String>, d: &str) -> (r: String)
    ensures
        r@ == stored_or(crate::text::opt_string(v), d@),
{
    match v {
        Some(s) => s,
        None => d.to_string(),
    }
}

impl AppSettings {
    /// The settings from the stored values of their keys (`None` where a key has no row): a missing
    /// text is empty, auth is on only for `true`, the context limit defaults to 8192 and titles to
    /// every 5 messages, also where the stored text is not an integer.
    pub fn from_stored(
        default_provider_id: Option<String>,
        default_model_id: Option<String>,
        system_prompt: Option<String>,
        auth_enabled: Option<String>,
        context_window_limit: Option<String>,
        task_provider_id: Option<String>,
        task_model_id: Option<String>,
        title_every_n_messages: Option<String>,
    ) -> (r: AppSettings)
        ensures
            r.default_provider_id@ == stored_or(crate::text::opt_string(default_provider_id), Seq::empty()),
            r.default_model_id@ == stored_or(crate::text::opt_string(default_model_id), Seq::empty()),
            r.system_prompt@ == stored_or(crate::text::opt_string(system_prompt), Seq::empty()),
            r.auth_enabled == (stored_or(crate::text::opt_string(auth_enabled), "false"@) == "true"@),
            r.context_window_limit == int_or(stored_or(crate::text::opt_string(context_window_limit), "8192"@), 8192),
            r.task_provider_id@ == stored_or(crate::text::opt_string(task_provider_id), Seq::empty()),
            r.task_model_id@ == stored_or(crate::text::opt_string(task_model_id), Seq::empty()),
            r.title_every_n_messages == int_or(
                stored_or(crate::text::opt_string(title_every_n_messages), "5"@),
                5,
            ),
    {
        proof {
            reveal_strlit("");
        }
        let auth = text_or(auth_enabled, "false");
        let limit = text_or(context_window_limit, "8192");
        let every = text_or(title_every_n_messages, "5");
        AppSettings {
            default_provider_id: text_or(default_provider_id, ""),
            default_model_id: text_or(default_model_id, ""),
            system_prompt: text_or(system_prompt, ""),
            auth_enabled: eq_str(auth.as_str(), "true"),
            context_window_limit: match crate::text::parse_i64(limit.as_str()) {
                Some(n) => n,
                None => 8192,
            },
            task_provider_id: text_or(task_provider_id, ""),
            task_model_id: text_or(task_model_id, ""),
            title_every_n_messages: match crate::text::parse_i64(every.as_str()) {
                Some(n) => n,
                None => 5,
            },
        }
    }
}

// ------------------------------------------------------------------ schema

/// The first schema: conversations, messages and their full-text index, providers, settings,
/// MCP servers and model overrides.
pub const MIGRATION_1: &'static str = "
        CREATE TABLE IF NOT EXISTS conversations (
            id          TEXT PRIMARY KEY,
            title       TEXT NOT NULL DEFAULT 'New conversation',
            provider_id TEXT NOT NULL DEFAULT '',
            model_id    TEXT NOT NULL DEFAULT '',
            created_at  INTEGER NOT NULL,
            updated_at  INTEGER NOT NULL
        );

        CREATE TABLE IF NOT EXISTS messages (
            id              TEXT PRIMARY KEY,
            conversation_id TEXT NOT NULL REFERENCES conversations(id) ON DELETE CASCADE,
            role            TEXT NOT NULL,
            content         TEXT NOT NULL,
            tool_call_id    TEXT,
            created_at      INTEGER NOT NULL,
            token_count     INTEGER,
            thinking        TEXT
        );

        CREATE VIRTUAL TABLE IF NOT EXISTS messages_fts USING fts5(
            content, conversation_id UNINDEXED, message_id UNINDEXED,
            content='messages', content_rowid='rowid'
        );

        CREATE TRIGGER IF NOT EXISTS messages_ai AFTER INSERT ON messages BEGIN
            INSERT INTO messages_fts(rowid, content, conversation_id, message_id)
            VALUES (new.rowid, new.content, new.conversation_id, new.id);
        END;

        CREATE TABLE IF NOT EXISTS providers (
            id          TEXT PRIMARY KEY,
            name        TEXT NOT NULL,
            type        TEXT NOT NULL,
            base_url    TEXT NOT NULL,
            api_key_ref TEXT,
            enabled     INTEGER NOT NULL DEFAULT 1,
            sort_order  INTEGER NOT NULL DEFAULT 0,
            visible     INTEGER NOT NULL DEFAULT 0
        );

        CREATE TABLE IF NOT EXISTS settings (
            key   TEXT PRIMARY KEY,
            value TEXT NOT NULL
        );

        CREATE TABLE IF NOT EXISTS mcp_servers (
            id        TEXT PRIMARY KEY,
            name      TEXT NOT NULL,
            transport TEXT NOT NULL DEFAULT 'stdio',
            command   TEXT,
            args      TEXT,
            url       TEXT,
            enabled   INTEGER NOT NULL DEFAULT 1
        );

        CREATE TABLE IF NOT EXISTS model_overrides (
            provider_id  TEXT NOT NULL,
            model_id     TEXT NOT NULL,
            custom_name  TEXT,
            enabled      INTEGER NOT NULL DEFAULT 1,
            PRIMARY KEY (provider_id, model_id)
        );
    ";

/// The full-text index follows deletes and edits too.
pub const MIGRATION_2: &'static str = "
        CREATE TRIGGER IF NOT EXISTS messages_ad AFTER DELETE ON messages BEGIN
            INSERT INTO messages_fts(messages_fts, rowid, content, conversation_id, message_id)
            VALUES ('delete', old.rowid, old.content, old.conversation_id, old.id);
        END;

        CREATE TRIGGER IF NOT EXISTS messages_au AFTER UPDATE OF content ON messages BEGIN
            INSERT INTO messages_fts(messages_fts, rowid, content, conversation_id, message_id)
            VALUES ('delete', old.rowid, old.content, old.conversation_id, old.id);
            INSERT INTO messages_fts(rowid, content, conversation_id, message_id)
            VALUES (new.rowid, new.content, new.conversation_id, new.id);
        END;
    ";

/// OpenAI is an OpenAI-compatible provider like the others.
pub const MIGRATION_3: &'static str = "
        UPDATE providers SET type = 'openai_compat' WHERE id = 'openai' AND type = 'openai';
    ";

/// Conversations get an agent mode and a working folder.
pub const MIGRATION_4: &'static str = "
        ALTER TABLE conversations ADD COLUMN agent_mode TEXT NOT NULL DEFAULT 'off';
        ALTER TABLE conversations ADD COLUMN working_directory TEXT;
    ";

/// MCP servers get an environment.
pub const MIGRATION_5: &'static str = "
        ALTER TABLE mcp_servers ADD COLUMN env TEXT;
    ";

/// The migrations, by version: consecutive from 1, each run once, never edited.
pub open spec fn spec_migrations() -> Seq<(u32, Seq<char>)> {
    seq![(1u32, MIGRATION_1@), (2u32, MIGRATION_2@), (3u32, MIGRATION_3@), (4u32, MIGRATION_4@), (5u32, MIGRATION_5@)]
}

/// The migrations a database at schema version `current` still needs, oldest first.
pub open spec fn spec_pending(current: u32) -> Seq<(u32, Seq<char>)> {
    spec_migrations().filter(|m: (u32, Seq<char>)| m.0 > current)
}

/// The migrations a database at schema version `current` still needs, in the order they run.
pub fn pending_migrations(current: u32) -> (r: Vec<(u32, &'static str)>)
    ensures
        r@.map_values(|m: (u32, &'static str)| (m.0, m.1@)) == spec_pending(current),
{
    let all: Vec<(u32, &'static str)> = vec![
        (1, MIGRATION_1),
        (2, MIGRATION_2),
        (3, MIGRATION_3),
        (4, MIGRATION_4),
        (5, MIGRATION_5),
    ];
    let ghost av = all@.map_values(|m: (u32, &'static str)| (m.0, m.1@));
    assert(av =~= spec_migrations());
    let mut out: Vec<(u32, &'static str)> = Vec::new();
    let mut i: usize = 0;
    while i < all.len()
        invariant
            i <= all@.len(),
            av == all@.map_values(|m: (u32, &'static str)| (m.0, m.1@)),
            out@.map_values(|m: (u32, &'static str)| (m.0, m.1@)) == av.take(i as int).filter(
                |m: (u32, Seq<char>)| m.0 > current,
            ),
        decreases all@.len() - i,
    {
        let ghost before = out@.map_values(|m: (u32, &'static str)| (m.0, m.1@));
        assert(av.take(i + 1).drop_last() =~= av.take(i as int));
        reveal(Seq::filter);
        if all[i].0 > current {
            out.push(all[i]);
            assert(out@.map_values(|m: (u32, &'static str)| (m.0, m.1@)) =~= before.push(av[i as int]));
        }
        i = i + 1;
    }
    assert(av.take(all@.len() as int) =~= av);
    out
}

/// Run after the migrations on every start: an enabled provider is a visible one (a no-op once
/// set).
pub const BACKFILL_VISIBLE: &'static str = "UPDATE providers SET visible = 1 WHERE enabled = 1 AND visible = 0";

/// The providers a fresh database starts with.
pub const SEED_PROVIDERS: &'static str = "
        INSERT INTO providers (id, name, type, base_url, api_key_ref, enabled, sort_order) VALUES
            ('lmstudio', 'LM Studio', 'openai_compat', 'http://localhost:1234/v1', NULL, 1, 0),
            ('ollama',   'Ollama',    'openai_compat', 'http://localhost:11434/v1', NULL, 0, 1),
            ('openai',   'OpenAI',    'openai_compat', 'https://api.openai.com/v1', 'openai_key', 0, 2),
            ('anthropic','Anthropic', 'anthropic',     'https://api.anthropic.com', 'anthropic_key', 0, 3),
            ('groq',     'Groq',      'openai_compat', 'https://api.groq.com/openai/v1', 'groq_key', 0, 4);
    ";

/// The SQL that seeds the default providers where a database has none, and nothing where it has
/// some: a user who deleted every provider but one does not get them back.
pub fn provider_seed(provider_count: i64) -> (r: Option<&'static str>)
    ensures
        provider_count > 0 ==> r is None,
        provider_count <= 0 ==> r == Some(SEED_PROVIDERS),
{
    if provider_count > 0 {
        None
    } else {
        Some(SEED_PROVIDERS)
    }
}

} // verus!
