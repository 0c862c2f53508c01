//! JSON text, read and written by `serde_json`.

use vstd::prelude::*;

use crate::json::{opt_view, Json, JsonView};
use crate::text::opt_text;

verus! {

/// A value of `serde_json`.
#[verifier::external_type_specification]
#[verifier::external_body]
pub struct ExValue(serde_json::Value);

/// What `serde_json::from_str` makes of a text: the value that the text writes
/// or, if the text is not JSON, the words that say why.
pub uninterp spec fn json_parsed(text: Seq<char>) -> Result<JsonView, Seq<char>>;

/// The value that a text writes, if the text is JSON.
pub open spec fn json_read(text: Seq<char>) -> Option<JsonView> {
    match json_parsed(text) {
        Ok(value) => Some(value),
        Err(_) => None,
    }
}

/// The value that was read, or the words that say why there is none.
pub open spec fn parse_view(parsed: Result<Json, String>) -> Result<JsonView, Seq<char>> {
    match parsed {
        Ok(value) => Ok(value@),
        Err(words) => Err(words@),
    }
}

/// The text that `serde_json::to_string` writes for a value.
pub uninterp spec fn json_printed(value: JsonView) -> Option<Seq<char>>;

/// One variant of `serde_json::Value` for one of [`Json`]; the numbers by the
/// accessors of `serde_json::Number`.
#[verifier::external_body]
fn from_value(value: serde_json::Value) -> (json: Json)
{
    match value {
        serde_json::Value::Null => Json::Null,
        serde_json::Value::Bool(b) => Json::Bool(b),
        serde_json::Value::Number(n) => match (n.as_u64(), n.as_i64()) {
            (Some(n), _) => Json::Unsigned(n),
            (None, Some(n)) => Json::Negative(n),
            (None, None) => Json::Decimal(n.to_string()),
        },
        serde_json::Value::String(s) => Json::Text(s),
        serde_json::Value::Array(items) => Json::Array(items.into_iter().map(from_value).collect()),
        serde_json::Value::Object(fields) => Json::Object(
            fields.into_iter().map(|(key, value)| (key, from_value(value))).collect(),
        ),
    }
}

/// `serde_json::from_str` into a `serde_json::Value`: the value that the text
/// writes or, if the text is not JSON, its error as that writes itself. Either
/// depends on the text alone.
#[verifier::external_body]
pub(crate) fn parse(text: &str) -> (parsed: Result<Json, String>)
    ensures
        parse_view(parsed) == json_parsed(text@),
{
    serde_json::from_str::<serde_json::Value>(text)
        .map(from_value)
        .map_err(|error| error.to_string())
}

/// One variant of [`Json`] for one of `serde_json::Value`. The entries are
/// collected from the last to the first, so that the first of a key stays.
#[verifier::external_body]
fn to_value(json: &Json) -> (value: serde_json::Value)
{
    match json {
        Json::Null => serde_json::Value::Null,
        Json::Bool(b) => serde_json::Value::from(*b),
        Json::Unsigned(n) => serde_json::Value::from(*n),
        Json::Negative(n) => serde_json::Value::from(*n),
        Json::Decimal(s) => serde_json::from_str(s).unwrap_or_default(),
        Json::Text(s) => serde_json::Value::from(s.as_str()),
        Json::Array(items) => items.iter().map(to_value).collect(),
        Json::Object(entries) => {
            entries.iter().rev().map(|(key, value)| (key.clone(), to_value(value))).collect()
        },
    }
}

/// `serde_json::to_string` of a `serde_json::Value`: the text of the value,
/// without white space between its parts and with the keys in order.
#[verifier::external_body]
pub(crate) fn print(value: &Json) -> (text: Option<String>)
    ensures
        opt_text(text) == json_printed(value@),
{
    serde_json::to_string(&to_value(value)).ok()
}

/// Reads JSON text.
pub fn parse_json(text: &str) -> (value: Option<Json>)
    ensures
        opt_view(value) == json_read(text@),
{
    match parse(text) {
        Ok(value) => Some(value),
        Err(_) => None,
    }
}

/// Writes a value as JSON text.
pub fn print_json(value: &Json) -> (text: Option<String>)
    ensures
        opt_text(text) == json_printed(value@),
{
    print(value)
}

} // verus!
