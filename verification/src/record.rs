//! Journal records: JSON documents, and the text fields read from them.

use crate::error::{Error, ErrorView};
use vstd::prelude::*;

verus! {

/// A JSON document of `serde_json`.
#[verifier::external_type_specification]
#[verifier::external_body]
pub struct ExJsonValue(serde_json::Value);

/// Whether a document is a JSON object.
pub uninterp spec fn json_is_object(doc: serde_json::Value) -> bool;

/// The members of a document that is a JSON object, by name: the text of a
/// member that is a string, `None` for a member of another type. A document
/// that is not an object has no members.
pub uninterp spec fn json_members(doc: serde_json::Value) -> Map<Seq<char>, Option<Seq<char>>>;

/// The document that a text is decoded to, or, for a text that is not one
/// JSON document, what `serde_json` says is wrong with it.
pub uninterp spec fn json_decoded(text: Seq<char>) -> Result<serde_json::Value, Seq<char>>;

/// Decodes `text` with `serde_json::from_str`, which returns the document
/// that the text writes or the fault it found; the fault is handed on as its
/// own description.
#[verifier::external_body]
fn decode(text: &str) -> (doc: Result<serde_json::Value, String>)
    ensures
        match doc {
            Ok(d) => json_decoded(text@) == Ok::<serde_json::Value, Seq<char>>(d),
            Err(fault) => json_decoded(text@) == Err::<serde_json::Value, Seq<char>>(fault@),
        },
{
    serde_json::from_str(text).map_err(|fault| fault.to_string())
}

/// `serde_json::Value::is_object` tells whether the document is an object.
pub assume_specification[ serde_json::Value::is_object ](doc: &serde_json::Value) -> (object: bool)
    ensures
        object == json_is_object(*doc),
;

/// Looks `name` up with `serde_json::Value::get`, which returns the member
/// of that name if the document is an object that has one, and copies the
/// member's text where `serde_json::Value::as_str` gives it.
#[verifier::external_body]
fn member(doc: &serde_json::Value, name: &str) -> (found: Option<Option<String>>)
    ensures
        found is Some <==> json_members(*doc).contains_key(name@),
        found matches Some(Some(text)) ==> json_members(*doc)[name@] == Some(text@),
        found matches Some(None) ==> json_members(*doc)[name@] is None,
{
    doc.get(name).map(|value| value.as_str().map(String::from))
}

/// The document that `line` writes. A line that is not one JSON document
/// fails with what the decoder says of it.
pub fn document_of_line(line: &str) -> (doc: Result<serde_json::Value, Error>)
    ensures
        match doc {
            Ok(d) => json_decoded(line@) == Ok::<serde_json::Value, Seq<char>>(d),
            Err(e) => json_decoded(line@) matches Err(fault) && e@ == ErrorView::Json(fault),
        },
{
    match decode(line) {
        Ok(d) => Ok(d),
        Err(fault) => Err(Error::Json(fault)),
    }
}

/// The name of the field that holds the time of a record.
pub const TIMESTAMP_FIELD: &'static str = "__REALTIME_TIMESTAMP";

/// The name of the field that holds the source of a record.
pub const IDENTIFIER_FIELD: &'static str = "SYSLOG_IDENTIFIER";

/// The name of the field that holds the message of a record.
pub const MESSAGE_FIELD: &'static str = "MESSAGE";

/// The text of a member that was looked up: `None` for no member of that
/// name, `Some(None)` for a member that is not a string. A record without
/// the field, or with a field that is not a string, is malformed; `label`
/// says in the failure which field it is.
pub open spec fn text_of_member(found: Option<Option<Seq<char>>>, label: Seq<char>) -> Result<
    Seq<char>,
    ErrorView,
> {
    match found {
        None => Err(ErrorView::MalformedRecord("missing "@ + label)),
        Some(None) => Err(ErrorView::MalformedRecord(label + " is not a string"@)),
        Some(Some(text)) => Ok(text),
    }
}

/// The text of the field `name` among `members`, as [`text_of_member`]
/// defines it for what is found under that name.
pub open spec fn text_field_of(
    members: Map<Seq<char>, Option<Seq<char>>>,
    name: Seq<char>,
    label: Seq<char>,
) -> Result<Seq<char>, ErrorView> {
    text_of_member(
        if members.contains_key(name) {
            Some(members[name])
        } else {
            None
        },
        label,
    )
}

/// Whether a result holds the text or the failure that `expected` describes.
pub open spec fn text_matches(
    found: Result<String, Error>,
    expected: Result<Seq<char>, ErrorView>,
) -> bool {
    match found {
        Ok(text) => expected == Ok::<Seq<char>, ErrorView>(text@),
        Err(e) => expected == Err::<Seq<char>, ErrorView>(e@),
    }
}

/// The mathematical content of a member that was looked up.
pub open spec fn member_view(found: Option<Option<String>>) -> Option<Option<Seq<char>>> {
    match found {
        None => None,
        Some(None) => Some(None),
        Some(Some(text)) => Some(Some(text@)),
    }
}

/// Reads the text of a member that was looked up, as [`text_of_member`]
/// defines it.
pub fn text_from_member(found: Option<Option<String>>, label: &str) -> (text: Result<
    String,
    Error,
>)
    ensures
        text_matches(text, text_of_member(member_view(found), label@)),
{
    match found {
        None => Err(Error::MalformedRecord(String::from_str("missing ").concat(label))),
        Some(None) => Err(
            Error::MalformedRecord(String::from_str(label).concat(" is not a string")),
        ),
        Some(Some(text)) => Ok(text),
    }
}

/// Reads the text of the field `name` of a record, as [`text_field_of`]
/// defines it.
pub fn text_field(doc: &serde_json::Value, name: &str, label: &str) -> (text: Result<String, Error>)
    ensures
        text_matches(text, text_field_of(json_members(*doc), name@, label@)),
{
    text_from_member(member(doc, name), label)
}

} // verus!
