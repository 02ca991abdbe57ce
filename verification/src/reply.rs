//! The reply interpreter: from the body of a reply to the text shown for a
//! successful upload, or to the expectation that the reply failed.
//!
//! A reply is expected to be a JSON object with a member `"result"` that
//! is an object with a member `"url"` that is a string.

use crate::config::OutputMode;
use crate::json::{
    classify_error, error_fault, member, parse_value, parsed_json, value_contents, JsonDoc,
    JsonFault,
};
use vstd::prelude::*;
use vstd::std_specs::convert::FromSpecImpl;
use vstd::string::StringExecFns;

verus! {

/// The expectation that a reply failed.
#[derive(Debug, Clone, Copy, PartialEq, Eq, Structural)]
pub enum InterpretError {
    /// The body is no JSON document.
    InvalidJson(JsonFault),
    /// The document is not an object.
    NotAnObject,
    /// The object has no member `"result"`.
    MissingResult,
    /// The member `"result"` is not an object.
    ResultNotObject,
    /// The object under `"result"` has no member `"url"`.
    MissingUrl,
    /// The member `"url"` is not a string.
    UrlNotString,
}

impl InterpretError {
    /// The message that names the failed expectation: a different one for
    /// each.
    pub open spec fn message_text(self) -> Seq<char> {
        match self {
            InterpretError::InvalidJson(fault) => match fault {
                JsonFault::Syntax => "Syntax error: response is not valid JSON"@,
                JsonFault::UnexpectedEnd => "Syntax error: response ended unexpectedly"@,
                JsonFault::Data => "Data error: response has an unexpected structure"@,
                JsonFault::Io => "IO error: response could not be read"@,
            },
            InterpretError::NotAnObject => "Response was not valid JSON"@,
            InterpretError::MissingResult => "Response did not contain a \"result\" section"@,
            InterpretError::ResultNotObject => {
                "Response's \"result\" section was not a valid JSON object"@
            },
            InterpretError::MissingUrl => {
                "Response's \"result\" section did not contain a \"url\" section"@
            },
            InterpretError::UrlNotString => {
                "Response's \"url\" section was not a valid JSON string"@
            },
        }
    }

    /// Names the failed expectation.
    pub fn message(&self) -> (text: String)
        ensures
            text@ == self.message_text(),
    {
        let text: &'static str = match self {
            InterpretError::InvalidJson(fault) => match fault {
                JsonFault::Syntax => "Syntax error: response is not valid JSON",
                JsonFault::UnexpectedEnd => "Syntax error: response ended unexpectedly",
                JsonFault::Data => "Data error: response has an unexpected structure",
                JsonFault::Io => "IO error: response could not be read",
            },
            InterpretError::NotAnObject => "Response was not valid JSON",
            InterpretError::MissingResult => "Response did not contain a \"result\" section",
            InterpretError::ResultNotObject => {
                "Response's \"result\" section was not a valid JSON object"
            },
            InterpretError::MissingUrl => {
                "Response's \"result\" section did not contain a \"url\" section"
            },
            InterpretError::UrlNotString => {
                "Response's \"url\" section was not a valid JSON string"
            },
        };
        String::from_str(text)
    }
}

impl From<serde_json::Error> for InterpretError {
    /// A body that the parser refused is invalid JSON, of the kind that
    /// the parser reports.
    fn from(error: serde_json::Error) -> (converted: InterpretError) {
        InterpretError::InvalidJson(classify_error(&error))
    }
}

impl FromSpecImpl<serde_json::Error> for InterpretError {
    open spec fn obeys_from_spec() -> bool {
        true
    }

    open spec fn from_spec(error: serde_json::Error) -> InterpretError {
        InterpretError::InvalidJson(error_fault(error))
    }
}

/// The URL that the document `reply` reports, or the first expectation
/// that it fails, from the outside in.
pub open spec fn url_of(reply: JsonDoc) -> Result<Seq<char>, InterpretError> {
    match reply {
        JsonDoc::Object(members) => if !members.contains_key("result"@) {
            Err(InterpretError::MissingResult)
        } else {
            match members["result"@] {
                JsonDoc::Object(section) => if !section.contains_key("url"@) {
                    Err(InterpretError::MissingUrl)
                } else {
                    match section["url"@] {
                        JsonDoc::Text(url) => Ok(url),
                        _ => Err(InterpretError::UrlNotString),
                    }
                },
                _ => Err(InterpretError::ResultNotObject),
            }
        },
        _ => Err(InterpretError::NotAnObject),
    }
}

/// The text shown for the upload of the file at `path` that ended at
/// `url`: path, colon, space and URL where the name is asked for, else the
/// URL alone.
pub open spec fn display_text(path: Seq<char>, url: Seq<char>, mode: OutputMode) -> Seq<char> {
    match mode {
        OutputMode::NameAndUrl => path + ": "@ + url,
        _ => url,
    }
}

/// What a reply with the body `body` means for the file at `path`, where
/// parsing the body gave `parsed`. In `Json` mode the body itself is the
/// text, whatever it holds; in the other modes the text is made from the
/// URL that the document reports.
pub open spec fn interpretation(
    path: Seq<char>,
    body: Seq<char>,
    parsed: Result<JsonDoc, JsonFault>,
    mode: OutputMode,
) -> Result<Seq<char>, InterpretError> {
    match mode {
        OutputMode::Json => Ok(body),
        _ => match parsed {
            Err(fault) => Err(InterpretError::InvalidJson(fault)),
            Ok(reply) => match url_of(reply) {
                Ok(url) => Ok(display_text(path, url, mode)),
                Err(error) => Err(error),
            },
        },
    }
}

/// The model of a text or an error: the characters of the text, or the
/// error as it is.
pub open spec fn shown_model(shown: Result<String, InterpretError>) -> Result<
    Seq<char>,
    InterpretError,
> {
    match shown {
        Ok(text) => Ok(text@),
        Err(error) => Err(error),
    }
}

/// The model of a parsing result: what the value holds, or the kind of
/// the error.
pub open spec fn parsed_model(
    parsed: Result<serde_json::Value, serde_json::Error>,
) -> Result<JsonDoc, JsonFault> {
    match parsed {
        Ok(value) => Ok(value_contents(value)),
        Err(error) => Err(error_fault(error)),
    }
}

/// Extracts the URL from a parsed reply, or names the first expectation
/// that the reply fails.
pub fn extract_url(reply: &serde_json::Value) -> (url: Result<String, InterpretError>)
    ensures
        shown_model(url) == url_of(value_contents(*reply)),
{
    let members = match reply.as_object() {
        Some(members) => members,
        None => {
            return Err(InterpretError::NotAnObject);
        },
    };
    let result = match member(members, "result") {
        Some(result) => result,
        None => {
            return Err(InterpretError::MissingResult);
        },
    };
    let section = match result.as_object() {
        Some(section) => section,
        None => {
            return Err(InterpretError::ResultNotObject);
        },
    };
    let url = match member(section, "url") {
        Some(url) => url,
        None => {
            return Err(InterpretError::MissingUrl);
        },
    };
    match url.as_str() {
        Some(text) => Ok(String::from_str(text)),
        None => Err(InterpretError::UrlNotString),
    }
}

/// Makes the text shown for a successful upload.
pub fn make_display_text(path: &str, url: String, mode: OutputMode) -> (text: String)
    ensures
        text@ == display_text(path@, url@, mode),
{
    match mode {
        OutputMode::NameAndUrl => {
            let mut text: String = String::from_str(path);
            text.append(": ");
            text.append(url.as_str());
            text
        },
        _ => url,
    }
}

/// Interprets a reply whose body has been parsed already: `parsed` is
/// what the parser made of `body`.
pub fn interpret_parsed(
    path: &str,
    body: &str,
    parsed: Result<serde_json::Value, serde_json::Error>,
    mode: OutputMode,
) -> (shown: Result<String, InterpretError>)
    ensures
        shown_model(shown) == interpretation(path@, body@, parsed_model(parsed), mode),
{
    match mode {
        OutputMode::Json => Ok(String::from_str(body)),
        _ => match parsed {
            Err(error) => Err(InterpretError::from(error)),
            Ok(reply) => match extract_url(&reply) {
                Ok(url) => Ok(make_display_text(path, url, mode)),
                Err(error) => Err(error),
            },
        },
    }
}

/// Interprets the body of a reply for the file at `path`: the text to
/// show, or the expectation that the reply failed. In `Json` mode the
/// body is not parsed and every body succeeds.
pub fn interpret(path: &str, body: &str, mode: OutputMode) -> (shown: Result<String, InterpretError>)
    ensures
        shown_model(shown) == interpretation(path@, body@, parsed_json(body@), mode),
{
    match mode {
        OutputMode::Json => Ok(String::from_str(body)),
        _ => interpret_parsed(path, body, parse_value(body), mode),
    }
}

} // verus!
