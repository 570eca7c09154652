//! Regular expressions, through the `regex` crate. What a pattern matches is the crate's to say:
//! each result is named here, as a function of the pattern and the text alone.
use vstd::prelude::*;

use crate::text::opt_string;

verus! {

/// What `Regex::new(pattern)` and then `replace(text, NoExpand(replacement))` give: the text with
/// its first match replaced by the replacement taken literally, or `None` where the pattern does
/// not compile.
pub uninterp spec fn regex_replaced(pattern: Seq<char>, text: Seq<char>, replacement: Seq<char>) -> Option<Seq<char>>;

/// What `Regex::new(pattern)`, `captures(text)` and `get(group)` give: the text of that group in
/// the first match, or `None` where the pattern does not compile, nothing matches or the group
/// took no part in the match.
pub uninterp spec fn regex_group(pattern: Seq<char>, text: Seq<char>, group: nat) -> Option<Seq<char>>;

/// `Regex::replace` with the replacement taken literally (`NoExpand`), the first match only.
#[verifier::external_body]
pub(crate) fn replace_first_match(pattern: &str, text: &str, replacement: &str) -> (r: Option<String>)
    ensures
        opt_string(r) == regex_replaced(pattern@, text@, replacement@),
{
    match regex::Regex::new(pattern) {
        Ok(re) => Some(re.replace(text, regex::NoExpand(replacement)).into_owned()),
        Err(_) => None,
    }
}

/// `Regex::captures` and then `get(group)`: the text of one group in the first match.
#[verifier::external_body]
pub(crate) fn capture_group(pattern: &str, text: &str, group: usize) -> (r: Option<String>)
    ensures
        opt_string(r) == regex_group(pattern@, text@, group as nat),
{
    match regex::Regex::new(pattern) {
        Ok(re) => re.captures(text).and_then(|c| c.get(group)).map(|m| m.as_str().to_string()),
        Err(_) => None,
    }
}

#[verifier::external_type_specification]
#[verifier::external_body]
pub struct ExRegex(regex::Regex);

/// The error text (`Display`) of `Regex::new(pattern)`, or `None` where the pattern compiles.
pub uninterp spec fn regex_error(pattern: Seq<char>) -> Option<Seq<char>>;

/// Whether the compiled `pattern` matches somewhere in `line` (`Regex::is_match`).
pub uninterp spec fn regex_is_match(pattern: Seq<char>, line: Seq<char>) -> bool;

/// The pattern a compiled regex was made from (`Regex::as_str`).
pub uninterp spec fn regex_source(re: regex::Regex) -> Seq<char>;

/// `Regex::new`: the compiled pattern, or the error's text.
#[verifier::external_body]
pub(crate) fn compile_regex(pattern: &str) -> (r: Result<regex::Regex, String>)
    ensures
        match r {
            Ok(re) => regex_error(pattern@) is None && regex_source(re) == pattern@,
            Err(e) => regex_error(pattern@) == Some(e@),
        },
{
    regex::Regex::new(pattern).map_err(|e| e.to_string())
}

/// `Regex::is_match`.
#[verifier::external_body]
pub(crate) fn is_match(re: &regex::Regex, line: &str) -> (r: bool)
    ensures
        r == regex_is_match(regex_source(*re), line@),
{
    re.is_match(line)
}

} // verus!
