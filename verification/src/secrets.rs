//! The secrets file: a JSON object of named strings kept beside the database.
//!
//! Reading and writing the file belong to the shell. Here is what is done with its text: reading
//! a key out of it, and the text to write back after a key is set or removed. The JSON object is
//! serde_json's own map, held behind trusted items that say what each call does to its entries.
use vstd::prelude::*;
use vstd::string::*;

use crate::text::opt_string;
verus! {

broadcast use vstd::string::group_string_axioms;

#[verifier::external_type_specification]
#[verifier::external_body]
pub struct ExPathBuf(std::path::PathBuf);

#[verifier::external_type_specification]
#[verifier::external_body]
#[verifier::reject_recursive_types(K)]
#[verifier::reject_recursive_types(V)]
pub struct ExJsonMap<K, V>(serde_json::Map<K, V>);

#[verifier::external_type_specification]
#[verifier::external_body]
pub struct ExJsonValue(serde_json::Value);

#[verifier::external_type_specification]
#[verifier::external_body]
pub struct ExJsonError(serde_json::Error);

/// What a JSON object holds, key by key: the text of each string value, and `None` for a value of
/// any other kind.
pub uninterp spec fn object_entries(m: serde_json::Map<String, serde_json::Value>) -> Map<
    Seq<char>,
    Option<Seq<char>>,
>;

/// How deeply a JSON object nests: one level for the object itself, plus the deepest array or
/// object among its values.
pub uninterp spec fn object_depth(m: serde_json::Map<String, serde_json::Value>) -> nat;

/// The deepest nesting `serde_json::from_str` reads: its recursion limit of 128 leaves 127 levels.
pub open spec fn max_read_depth() -> nat {
    127
}

/// The entries that `serde_json::from_str` reads out of a text as a JSON object, or `None` where the
/// text is not a JSON object.
pub uninterp spec fn parsed_object(text: Seq<char>) -> Option<Map<Seq<char>, Option<Seq<char>>>>;

/// `serde_json::from_str` into a JSON object; `None` where the text does not parse as one. What
/// it reads nests no deeper than its recursion limit allows.
#[verifier::external_body]
fn parse_object(text: &str) -> (r: Option<serde_json::Map<String, serde_json::Value>>)
    ensures
        match r {
            Some(m) => parsed_object(text@) == Some(object_entries(m)) && object_depth(m) <= max_read_depth(),
            None => parsed_object(text@) is None,
        },
{
    serde_json::from_str::<serde_json::Map<String, serde_json::Value>>(text).ok()
}

/// `serde_json::Map::new`: an object with no entries.
#[verifier::external_body]
fn new_object() -> (r: serde_json::Map<String, serde_json::Value>)
    ensures
        object_entries(r) == no_entries(),
        object_depth(r) == 1,
{
    serde_json::Map::new()
}

/// `serde_json::Map::get`, keeping the value only where it is a JSON string.
#[verifier::external_body]
fn object_get_str(m: &serde_json::Map<String, serde_json::Value>, key: &str) -> (r: Option<String>)
    ensures
        opt_string(r) == entry_text(object_entries(*m), key@),
{
    m.get(key).and_then(|v| v.as_str()).map(|s| s.to_string())
}

/// `serde_json::Map::insert` of a JSON string under `key`, replacing what was there.
#[verifier::external_body]
fn object_insert_str(m: &mut serde_json::Map<String, serde_json::Value>, key: &str, value: &str)
    ensures
        object_entries(*final(m)) == object_entries(*old(m)).insert(key@, Some(value@)),
        object_depth(*final(m)) <= object_depth(*old(m)),
{
    m.insert(key.to_string(), serde_json::Value::String(value.to_string()));
}

/// `serde_json::Map::remove`: the entry under `key` is gone, the others stay.
#[verifier::external_body]
fn object_remove(m: &mut serde_json::Map<String, serde_json::Value>, key: &str)
    ensures
        object_entries(*final(m)) == object_entries(*old(m)).remove(key@),
        object_depth(*final(m)) <= object_depth(*old(m)),
{
    m.remove(key);
}

/// `serde_json::to_string_pretty` of the object. It succeeds: its documented failures are a
/// `Serialize` impl that chooses to fail or a map with keys that are not strings, and the object's
/// keys are strings, a `Value` fails only where its serializer does, and the serializer writes into
/// a `Vec<u8>`, which takes every write. The text of an object that nests no deeper than
/// `serde_json::from_str` reads is read back by it as an object with the same entries. Nothing
/// more is stated of its layout.
#[verifier::external_body]
fn object_to_pretty(m: &serde_json::Map<String, serde_json::Value>) -> (r: Result<
    String,
    serde_json::Error,
>)
    requires
        object_depth(*m) <= max_read_depth(),
    ensures
        r is Ok,
        r matches Ok(t) ==> parsed_object(t@) == Some(object_entries(*m)),
{
    serde_json::to_string_pretty(m)
}

/// An object with no entries.
pub open spec fn no_entries() -> Map<Seq<char>, Option<Seq<char>>> {
    Map::empty()
}

/// The text of the string stored under `key`, or `None` where there is none or it is not a string.
pub open spec fn entry_text(entries: Map<Seq<char>, Option<Seq<char>>>, key: Seq<char>) -> Option<
    Seq<char>,
> {
    if entries.dom().contains(key) {
        entries[key]
    } else {
        None
    }
}

/// The entries a secrets file holds: none when the file is absent or is not a JSON object.
pub open spec fn stored_entries(document: Option<Seq<char>>) -> Map<Seq<char>, Option<Seq<char>>> {
    match document {
        None => Map::empty(),
        Some(text) => match parsed_object(text) {
            Some(entries) => entries,
            None => Map::empty(),
        },
    }
}

/// Why the secrets could not be written.
#[derive(Debug, Clone, Copy, PartialEq, Eq, Structural)]
pub enum SecretsError {
    /// The object could not be written as JSON text.
    Encode,
}

/// Where the secrets live: `secrets.json` in the application's data directory.
pub struct Secrets {
    path: std::path::PathBuf,
}

impl Secrets {
    /// The file the secrets are kept in.
    pub closed spec fn file(&self) -> std::path::PathBuf {
        self.path
    }

    /// The secrets kept in `secrets.json` inside `app_data_dir`.
    pub fn new(app_data_dir: std::path::PathBuf) -> (r: Secrets)
        ensures
            r.file() == crate::tools::joined_path(app_data_dir, "secrets.json"@),
    {
        proof {
            reveal_strlit("secrets.json");
        }
        Secrets { path: crate::tools::join_path(&app_data_dir, "secrets.json") }
    }

    /// The file the secrets are kept in.
    pub fn path(&self) -> (r: &std::path::PathBuf)
        ensures
            *r == self.file(),
    {
        &self.path
    }

    /// The object in the file's text (`document`, `None` when the file is absent); an absent file
    /// or one that is not a JSON object reads as empty.
    pub fn load(document: Option<&str>) -> (r: serde_json::Map<String, serde_json::Value>)
        ensures
            object_entries(r) == stored_entries(crate::text::opt_str(document)),
            object_depth(r) <= max_read_depth(),
    {
        match document {
            None => new_object(),
            Some(text) => match parse_object(text) {
                Some(m) => m,
                None => new_object(),
            },
        }
    }

    /// The string stored under `key` in the file's text, or `None` where there is none or it is
    /// not a string.
    pub fn get(&self, document: Option<&str>, key: &str) -> (r: Option<String>)
        ensures
            opt_string(r) == entry_text(stored_entries(crate::text::opt_str(document)), key@),
    {
        let m = Self::load(document);
        object_get_str(&m, key)
    }

    /// The object after `key` is set to the string `value`, every other entry kept.
    pub fn with_entry(document: Option<&str>, key: &str, value: &str) -> (r: serde_json::Map<
        String,
        serde_json::Value,
    >)
        ensures
            object_entries(r) == stored_entries(crate::text::opt_str(document)).insert(key@, Some(value@)),
            object_depth(r) <= max_read_depth(),
    {
        let mut m = Self::load(document);
        object_insert_str(&mut m, key, value);
        m
    }

    /// The object after `key` is removed, every other entry kept.
    pub fn without_entry(document: Option<&str>, key: &str) -> (r: serde_json::Map<
        String,
        serde_json::Value,
    >)
        ensures
            object_entries(r) == stored_entries(crate::text::opt_str(document)).remove(key@),
            object_depth(r) <= max_read_depth(),
    {
        let mut m = Self::load(document);
        object_remove(&mut m, key);
        m
    }

    /// The text to write back after setting `key` to `value` (the object of
    /// [`Secrets::with_entry`], pretty-printed), which is always made: read back, it holds the
    /// entries of the file with `key` set.
    pub fn set(&self, document: Option<&str>, key: &str, value: &str) -> (r: Result<
        String,
        SecretsError,
    >)
        ensures
            r is Ok,
            r matches Ok(t) ==> stored_entries(Some(t@)) == stored_entries(crate::text::opt_str(document)).insert(
                key@,
                Some(value@),
            ),
    {
        let m = Self::with_entry(document, key, value);
        match object_to_pretty(&m) {
            Ok(text) => Ok(text),
            Err(_) => Err(SecretsError::Encode),
        }
    }

    /// The text to write back after removing `key` (the object of [`Secrets::without_entry`],
    /// pretty-printed), which is always made: read back, it holds the entries of the file without
    /// `key`.
    pub fn delete(&self, document: Option<&str>, key: &str) -> (r: Result<String, SecretsError>)
        ensures
            r is Ok,
            r matches Ok(t) ==> stored_entries(Some(t@)) == stored_entries(crate::text::opt_str(document)).remove(key@),
    {
        let m = Self::without_entry(document, key);
        match object_to_pretty(&m) {
            Ok(text) => Ok(text),
            Err(_) => Err(SecretsError::Encode),
        }
    }
}

/// A key that was just set reads back as the value it was set to, and every other key reads as it
/// did before: `written` is a text [`Secrets::set`] returned for `key` and `value` over `document`.
pub proof fn lemma_set_then_get(
    document: Option<Seq<char>>,
    key: Seq<char>,
    value: Seq<char>,
    written: Seq<char>,
    other: Seq<char>,
)
    requires
        stored_entries(Some(written)) == stored_entries(document).insert(key, Some(value)),
    ensures
        entry_text(stored_entries(Some(written)), key) == Some(value),
        other != key ==> entry_text(stored_entries(Some(written)), other) == entry_text(stored_entries(document), other),
{
}

/// A key that was just removed reads as absent, and every other key reads as it did before:
/// `written` is a text [`Secrets::delete`] returned for `key` over `document`.
pub proof fn lemma_delete_then_get(document: Option<Seq<char>>, key: Seq<char>, written: Seq<char>, other: Seq<char>)
    requires
        stored_entries(Some(written)) == stored_entries(document).remove(key),
    ensures
        entry_text(stored_entries(Some(written)), key) is None,
        other != key ==> entry_text(stored_entries(Some(written)), other) == entry_text(stored_entries(document), other),
{
}

} // verus!
