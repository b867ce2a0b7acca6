//! Messages as JSON text. The text is read and written by `serde_json`; what
//! a tree of JSON values means as a message is decided here.

use crate::error::Error;
use crate::protocol::json::{whole_numbers, Json, JsonModel, Member};
use crate::protocol::messages::{Message, MessageModel};
use serde_json::Value;
use vstd::prelude::*;

verus! {

/// `serde_json::Value`, a JSON value as the parser builds it; nothing is
/// known of what a value holds.
#[verifier::external_type_specification]
#[verifier::external_body]
pub struct ExValue(serde_json::Value);

/// The tree that `serde_json::from_str` reads from a text, or `None` where
/// it reads none: the text is not JSON, or nests too deep.
pub uninterp spec fn parsed_json(text: Seq<char>) -> Option<JsonModel>;

/// The text that `serde_json::to_string` writes for a tree, or `None` where
/// it writes none: the tree holds a number whose text `serde_json` does not
/// read as a number, or the call fails.
pub uninterp spec fn printed_json(tree: JsonModel) -> Option<Seq<char>>;

/// Copies a `serde_json::Value` into a tree of the library, variant by
/// variant. A number that `Number::as_i64` gives as a whole number is kept as
/// one; any other is kept as the text that `Number` displays. The members of
/// an object come in the order in which `Map::iter` hands them out. Nothing
/// is claimed of the result.
#[verifier::external_body]
fn json_from_value(value: &Value) -> Json {
    match value {
        Value::Null => Json::Null,
        Value::Bool(b) => Json::Bool(*b),
        Value::Number(n) => match n.as_i64() {
            Some(i) => Json::Int(i),
            None => Json::Real(n.to_string()),
        },
        Value::String(s) => Json::Str(s.clone()),
        Value::Array(items) => Json::Array(items.iter().map(json_from_value).collect()),
        Value::Object(members) => Json::Object(
            members.iter().map(|(k, v)| Member { key: k.clone(), value: json_from_value(v) }).collect(),
        ),
    }
}

/// Copies a tree of the library into a `serde_json::Value`, variant by
/// variant. The text of a number goes through `serde_json::from_str`, asked
/// for a `Number`, and `None` stands for its failure anywhere in the tree.
/// The members of an object are put into the `Map` in their order. Nothing
/// is claimed of the result.
#[verifier::external_body]
fn json_to_value(j: &Json) -> Option<Value> {
    Some(match j {
        Json::Null => Value::Null,
        Json::Bool(b) => Value::Bool(*b),
        Json::Int(i) => Value::Number(serde_json::Number::from(*i)),
        Json::Real(s) => Value::Number(serde_json::from_str(s).ok()?),
        Json::Str(s) => Value::String(s.clone()),
        Json::Array(items) => Value::Array(items.iter().map(json_to_value).collect::<Option<_>>()?),
        Json::Object(members) => Value::Object(
            members.iter().map(|m| Some((m.key.clone(), json_to_value(&m.value)?))).collect::<Option<_>>()?,
        ),
    })
}

/// `serde_json::from_str`, asked for a `Value`; `None` stands for its
/// failure. The contract gives the tree that it reads the name `parsed_json`
/// and claims no more: that the tree depends on the text alone.
#[verifier::external_body]
fn read_text(text: &str) -> (r: Option<Json>)
    ensures
        match r {
            Some(j) => parsed_json(text@) == Some(j@),
            None => parsed_json(text@) is None,
        },
{
    match serde_json::from_str::<Value>(text) {
        Ok(value) => Some(json_from_value(&value)),
        Err(_) => None,
    }
}

/// `serde_json::to_string`, given the `Value` of a tree; `None` stands for
/// its failure, and for a tree that has no `Value`. The contract gives what
/// it writes the name `printed_json`, which claims that the outcome depends
/// on the tree alone. It claims too that a tree of whole numbers only is
/// written: such a tree has a `Value`, since only the text of a number can
/// fail to become one, and writing a `Value` fails on no path, since its
/// writer is a `Vec` and the keys of its maps are strings.
#[verifier::external_body]
fn write_text(j: &Json) -> (r: Option<String>)
    ensures
        match r {
            Some(text) => printed_json(j@) == Some(text@),
            None => printed_json(j@) is None,
        },
        whole_numbers(j@) ==> r is Some,
{
    match json_to_value(j) {
        Some(value) => serde_json::to_string(&value).ok(),
        None => None,
    }
}

/// Reads JSON text into a tree.
pub fn parse_json(text: &str) -> (r: Result<Json, Error>)
    ensures
        match r {
            Ok(j) => parsed_json(text@) == Some(j@),
            Err(e) => e == Error::MalformedMessage && parsed_json(text@) is None,
        },
{
    match read_text(text) {
        Some(j) => Ok(j),
        None => Err(Error::MalformedMessage),
    }
}

/// Writes a tree as JSON text. A tree of whole numbers only is always
/// written; one that cannot be written, such as one with a number whose
/// text is no number, is unencodable.
pub fn print_json(j: &Json) -> (r: Result<String, Error>)
    ensures
        match r {
            Ok(text) => printed_json(j@) == Some(text@),
            Err(e) => e == Error::Unencodable && printed_json(j@) is None,
        },
        whole_numbers(j@) ==> r is Ok,
{
    match write_text(j) {
        Some(text) => Ok(text),
        None => Err(Error::Unencodable),
    }
}

/// The message that a text on the wire stands for: the text must be JSON,
/// and its tree the record of a message.
pub open spec fn spec_decode_message(text: Seq<char>) -> Result<MessageModel, Error> {
    match parsed_json(text) {
        Some(tree) => MessageModel::decode(tree),
        None => Err(Error::MalformedMessage),
    }
}

/// Reads a message from a text on the wire. A text that is not JSON, or not
/// the record of a message, is malformed; one that names a type that is none
/// of the fourteen has an unknown type.
pub fn decode_message(text: &str) -> (r: Result<Message, Error>)
    ensures
        match (r, spec_decode_message(text@)) {
            (Ok(message), Ok(model)) => message@ == model,
            (Err(e), Err(expected)) => e == expected,
            _ => false,
        },
{
    match parse_json(text) {
        Ok(j) => Message::from_json(&j),
        Err(e) => Err(e),
    }
}

/// The text of a message on the wire: the text of its record, where the
/// record can be written.
pub open spec fn spec_encode_message(message: MessageModel) -> Result<Seq<char>, Error> {
    match printed_json(message.encode()) {
        Some(text) => Ok(text),
        None => Err(Error::Unencodable),
    }
}

/// Writes a message as a text for the wire. Every message is written but
/// one that carries a number kept as text that is no number.
pub fn encode_message(message: &Message) -> (r: Result<String, Error>)
    ensures
        match (r, spec_encode_message(message@)) {
            (Ok(text), Ok(expected)) => text@ == expected,
            (Err(e), Err(expected)) => e == expected,
            _ => false,
        },
        message@.whole() ==> r is Ok,
{
    let j = message.to_json();
    proof {
        if message@.whole() {
            message@.lemma_whole();
        }
    }
    print_json(&j)
}

} // verus!
