//! JSON documents, as far as the reply of the server is read: which values
//! are objects, what their members are, which values are strings.
//!
//! Parsing and the parsed values are `serde_json`'s. Nothing in this file
//! is proved: it states what the rest of the crate takes for granted of
//! that crate.

use vstd::prelude::*;

verus! {

/// `serde_json::Value`, a parsed JSON value. Its inside is not visible to
/// the verifier: what a value holds is [`value_contents`].
#[verifier::external_type_specification]
#[verifier::external_body]
pub struct ExValue(serde_json::Value);

/// `serde_json::Map`, the members of a JSON object by their keys. Its
/// inside is not visible to the verifier: what a map holds is
/// [`object_contents`].
#[verifier::external_type_specification]
#[verifier::external_body]
#[verifier::reject_recursive_types(K)]
#[verifier::reject_recursive_types(V)]
pub struct ExObject<K, V>(serde_json::Map<K, V>);

/// `serde_json::Error`, the reason why a text is no JSON document. Its
/// inside is not visible to the verifier: its kind is [`error_fault`].
#[verifier::external_type_specification]
#[verifier::external_body]
pub struct ExParseError(serde_json::Error);

/// Model of a JSON value, as far as a reply is read.
pub enum JsonDoc {
    /// An object: its members by their keys.
    Object(Map<Seq<char>, JsonDoc>),
    /// A string.
    Text(Seq<char>),
    /// Any other value: null, a boolean, a number or an array.
    Other,
}

/// Why a text is no JSON document.
#[derive(Debug, Clone, Copy, PartialEq, Eq, Structural)]
pub enum JsonFault {
    /// The text is not syntactically valid JSON.
    Syntax,
    /// The text ends before the document does.
    UnexpectedEnd,
    /// The document does not fit the type it was read into.
    Data,
    /// The text could not be read.
    Io,
}

/// What `serde_json::from_str` makes of `text` when it reads it as a
/// `serde_json::Value`: the document, or the kind of its error.
pub uninterp spec fn parsed_json(text: Seq<char>) -> Result<JsonDoc, JsonFault>;

/// The JSON value that `value` holds.
pub uninterp spec fn value_contents(value: serde_json::Value) -> JsonDoc;

/// The members that `object` holds, by their keys.
pub uninterp spec fn object_contents(
    object: serde_json::Map<String, serde_json::Value>,
) -> Map<Seq<char>, JsonDoc>;

/// The kind of `error`, as `serde_json::Error::classify` gives it.
pub uninterp spec fn error_fault(error: serde_json::Error) -> JsonFault;

/// Calls `serde_json::from_str` to read `text` as a `serde_json::Value`.
/// Claimed: whether the text is accepted, what the value holds and of
/// which kind the error is depend on the characters of `text` alone.
#[verifier::external_body]
pub(crate) fn parse_value(text: &str) -> (parsed: Result<serde_json::Value, serde_json::Error>)
    ensures
        match parsed {
            Ok(value) => parsed_json(text@) == Ok::<JsonDoc, JsonFault>(value_contents(value)),
            Err(error) => parsed_json(text@) == Err::<JsonDoc, JsonFault>(error_fault(error)),
        },
{
    serde_json::from_str::<serde_json::Value>(text)
}

/// Calls `serde_json::Error::classify` and names its four categories in
/// this crate's terms: `Syntax`, `Eof` as `UnexpectedEnd`, `Data`, `Io`.
#[verifier::external_body]
pub(crate) fn classify_error(error: &serde_json::Error) -> (fault: JsonFault)
    ensures
        fault == error_fault(*error),
{
    match error.classify() {
        serde_json::error::Category::Syntax => JsonFault::Syntax,
        serde_json::error::Category::Eof => JsonFault::UnexpectedEnd,
        serde_json::error::Category::Data => JsonFault::Data,
        serde_json::error::Category::Io => JsonFault::Io,
    }
}

/// `serde_json::Value::as_object` returns the map of an object, and
/// `None` for every value that is no object.
pub assume_specification<'a>[ serde_json::Value::as_object ](
    value: &'a serde_json::Value,
) -> (object: Option<&'a serde_json::Map<String, serde_json::Value>>)
    ensures
        match object {
            Some(members) => value_contents(*value) == JsonDoc::Object(object_contents(*members)),
            None => !(value_contents(*value) is Object),
        },
;

/// `serde_json::Value::as_str` returns the characters of a string, and
/// `None` for every value that is no string.
pub assume_specification<'a>[ serde_json::Value::as_str ](value: &'a serde_json::Value) -> (text:
    Option<&'a str>)
    ensures
        match text {
            Some(characters) => value_contents(*value) == JsonDoc::Text(characters@),
            None => !(value_contents(*value) is Text),
        },
;

/// Calls `serde_json::Map::get` with a string slice as the key. It
/// returns the member under `key`, and `None` where the object has no
/// member under that key.
#[verifier::external_body]
pub(crate) fn member<'a>(
    object: &'a serde_json::Map<String, serde_json::Value>,
    key: &str,
) -> (found: Option<&'a serde_json::Value>)
    ensures
        match found {
            Some(value) => object_contents(*object).contains_key(key@) && object_contents(
                *object,
            )[key@] == value_contents(*value),
            None => !object_contents(*object).contains_key(key@),
        },
{
    object.get(key)
}

} // verus!
