//! The JSON boundary: parsing is delegated to `serde_json`, and only what the
//! library reads from a parsed document is modelled.

use vstd::prelude::*;

verus! {

/// `serde_json::Value`, a parsed JSON document. Nothing is known of a
/// document but what `string_members` names.
#[verifier::external_type_specification]
#[verifier::external_body]
pub struct ExJsonValue(serde_json::Value);

/// `serde_json::Error`, the error of `serde_json::from_str`. It is never
/// read.
#[verifier::external_type_specification]
#[verifier::external_body]
pub struct ExJsonError(serde_json::Error);

/// The string-valued members of a JSON document, by member name. A document
/// that is not an object has none.
pub uninterp spec fn string_members(value: serde_json::Value) -> Map<Seq<char>, Seq<char>>;

/// What `serde_json::from_str` makes of `text`: `None` where it reports an
/// error, otherwise the string-valued members of the document it returns.
pub uninterp spec fn parsed_string_members(text: Seq<char>) -> Option<Map<Seq<char>, Seq<char>>>;

/// Calls `serde_json::from_str` for a `serde_json::Value`. The contract only
/// claims that the outcome is a function of the text.
#[verifier::external_body]
pub(crate) fn parse_document(text: &str) -> (parsed: Result<serde_json::Value, serde_json::Error>)
    ensures
        match parsed {
            Ok(value) => parsed_string_members(text@) == Some(string_members(value)),
            Err(_) => parsed_string_members(text@) is None,
        },
{
    serde_json::from_str::<serde_json::Value>(text)
}

/// Calls `serde_json::Value::get` with a member name and keeps the member
/// only if it is a JSON string.
#[verifier::external_body]
pub(crate) fn string_member(value: &serde_json::Value, name: &str) -> (member: Option<String>)
    ensures
        match member {
            Some(text) => string_members(*value).contains_key(name@) && string_members(
                *value,
            )[name@] == text@,
            None => !string_members(*value).contains_key(name@),
        },
{
    match value.get(name) {
        Some(serde_json::Value::String(text)) => Some(text.clone()),
        Some(_) => None,
        None => None,
    }
}

/// The text of the string member `name` of the JSON document `text`, if the
/// text is a JSON document that has such a member.
pub open spec fn document_string(text: Seq<char>, name: Seq<char>) -> Option<Seq<char>> {
    match parsed_string_members(text) {
        Some(members) => if members.contains_key(name) {
            Some(members[name])
        } else {
            None
        },
        None => None,
    }
}

/// Parses `text` as JSON and returns its string member `name`.
pub fn parse_string_member(text: &str, name: &str) -> (member: Option<String>)
    ensures
        match member {
            Some(found) => document_string(text@, name@) == Some(found@),
            None => document_string(text@, name@) is None,
        },
{
    match parse_document(text) {
        Ok(value) => string_member(&value, name),
        Err(_) => None,
    }
}

} // verus!
