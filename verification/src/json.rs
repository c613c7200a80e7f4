//! JSON documents as values of this crate, and the calls into `serde_json`
//! that turn them into text and back.

use vstd::prelude::*;

verus! {

/// `serde_json::Value`, a JSON value as that crate holds it. Nothing is
/// claimed of what is inside.
#[verifier::external_type_specification]
#[verifier::external_body]
pub struct ExValue(serde_json::Value);

/// `serde_json::Number`, a JSON number as that crate holds it. Numbers are
/// carried through and never looked into.
#[verifier::external_type_specification]
#[verifier::external_body]
pub struct ExNumber(serde_json::Number);

/// A JSON document. Numbers are carried as `serde_json` holds them; the
/// members of an object keep the order of the document.
#[derive(Debug, PartialEq, Eq)]
pub enum Json {
    Null,
    Bool(bool),
    Number(serde_json::Number),
    Text(String),
    List(Vec<Json>),
    Object(Vec<(String, Json)>),
}

/// A JSON document as a mathematical value.
pub enum JsonDoc {
    Null,
    Bool(bool),
    Number(serde_json::Number),
    Text(Seq<char>),
    List(Seq<JsonDoc>),
    Object(Seq<(Seq<char>, JsonDoc)>),
}

impl JsonDoc {
    /// No object of the document, at any depth, has two members under one key.
    /// `serde_json` holds the members of an object in a map, so only such a
    /// document can be handed to it as it is.
    pub open spec fn distinct_keys(self) -> bool
        decreases self,
    {
        match self {
            JsonDoc::List(items) => forall|i: int|
                0 <= i < items.len() ==> (#[trigger] items[i]).distinct_keys(),
            JsonDoc::Object(members) => {
                &&& forall|i: int, j: int|
                    0 <= i < j < members.len() ==> (#[trigger] members[i]).0 != (
                    #[trigger] members[j]).0
                &&& forall|i: int|
                    0 <= i < members.len() ==> (#[trigger] members[i]).1.distinct_keys()
            },
            _ => true,
        }
    }
}

impl Json {
    /// The document as a mathematical value.
    pub open spec fn doc(self) -> JsonDoc
        decreases self,
    {
        match self {
            Json::Null => JsonDoc::Null,
            Json::Bool(flag) => JsonDoc::Bool(flag),
            Json::Number(number) => JsonDoc::Number(number),
            Json::Text(text) => JsonDoc::Text(text@),
            Json::List(items) => JsonDoc::List(
                Seq::new(
                    items@.len(),
                    |i: int|
                        if 0 <= i < items@.len() {
                            items@[i].doc()
                        } else {
                            JsonDoc::Null
                        },
                ),
            ),
            Json::Object(members) => JsonDoc::Object(
                Seq::new(
                    members@.len(),
                    |i: int|
                        if 0 <= i < members@.len() {
                            (members@[i].0@, members@[i].1.doc())
                        } else {
                            (Seq::empty(), JsonDoc::Null)
                        },
                ),
            ),
        }
    }
}

impl View for Json {
    type V = JsonDoc;

    open spec fn view(&self) -> JsonDoc {
        self.doc()
    }
}

/// What a `serde_json::Value` holds: the document that it stands for, with
/// the members of an object in the order in which the value keeps them.
pub uninterp spec fn value_doc(value: serde_json::Value) -> JsonDoc;

/// What `serde_json::from_str` makes of a text: the document it holds, or the
/// message of the error that the text is rejected with.
pub uninterp spec fn json_parse(text: Seq<char>) -> Result<JsonDoc, Seq<char>>;

/// The compact text that `serde_json::to_string` writes for a document.
pub uninterp spec fn json_text(doc: JsonDoc) -> Seq<char>;

/// The outcome of reading a value, as mathematical values.
pub open spec fn value_outcome(read: Result<serde_json::Value, String>) -> Result<
    JsonDoc,
    Seq<char>,
> {
    match read {
        Ok(value) => Ok(value_doc(value)),
        Err(message) => Err(message@),
    }
}

/// The outcome of parsing, as mathematical values.
pub open spec fn parse_outcome(parsed: Result<Json, String>) -> Result<JsonDoc, Seq<char>> {
    match parsed {
        Ok(json) => Ok(json@),
        Err(message) => Err(message@),
    }
}

/// Reads a JSON text into a value.
///
/// Calls `serde_json::from_str` for a `serde_json::Value`, and `to_string` on
/// the error if there is one. The contract claims only that the outcome is a
/// function of the text.
#[verifier::external_body]
fn from_text(text: &str) -> (read: Result<serde_json::Value, String>)
    ensures
        value_outcome(read) == json_parse(text@),
{
    match serde_json::from_str::<serde_json::Value>(text) {
        Ok(value) => Ok(value),
        Err(error) => Err(error.to_string()),
    }
}

/// Moves a `serde_json::Value` into a [`Json`], variant by variant and member
/// by member, in the order in which the value holds them.
#[verifier::external_body]
fn from_value(value: serde_json::Value) -> (json: Json)
    ensures
        json@ == value_doc(value),
{
    match value {
        serde_json::Value::Null => Json::Null,
        serde_json::Value::Bool(flag) => Json::Bool(flag),
        serde_json::Value::Number(number) => Json::Number(number),
        serde_json::Value::String(text) => Json::Text(text),
        serde_json::Value::Array(items) => Json::List(items.into_iter().map(from_value).collect()),
        serde_json::Value::Object(members) => Json::Object(
            members.into_iter().map(|(key, member)| (key, from_value(member))).collect(),
        ),
    }
}

/// Copies a [`Json`] into a `serde_json::Value`, variant by variant and member
/// by member, in order.
///
/// The members of an object are collected into `serde_json::Map`, which keeps
/// one member for each key, in the order of insertion. Where all keys of an
/// object differ, that is every member in order, which is what the contract
/// claims; of a document with a repeated key it claims nothing.
#[verifier::external_body]
fn to_value(json: &Json) -> (value: serde_json::Value)
    ensures
        json@.distinct_keys() ==> value_doc(value) == json@,
{
    match json {
        Json::Null => serde_json::Value::Null,
        Json::Bool(flag) => serde_json::Value::Bool(*flag),
        Json::Number(number) => serde_json::Value::Number(number.clone()),
        Json::Text(text) => serde_json::Value::String(text.clone()),
        Json::List(items) => serde_json::Value::Array(items.iter().map(to_value).collect()),
        Json::Object(members) => serde_json::Value::Object(
            members.iter().map(|(key, member)| (key.clone(), to_value(member))).collect(),
        ),
    }
}

/// Writes a value as compact JSON text.
///
/// Calls `serde_json::to_string`, which writes every `serde_json::Value`: its
/// keys are strings. The contract claims only that the text is a function of
/// what the value holds.
#[verifier::external_body]
fn to_text(value: &serde_json::Value) -> (text: String)
    ensures
        text@ == json_text(value_doc(*value)),
{
    serde_json::to_string(value).unwrap_or_default()
}

/// Parses a JSON text.
pub fn parse(text: &str) -> (parsed: Result<Json, String>)
    ensures
        parse_outcome(parsed) == json_parse(text@),
{
    match from_text(text) {
        Ok(value) => Ok(from_value(value)),
        Err(message) => Err(message),
    }
}

/// Writes a document as compact JSON text. The keys of each object in it
/// have to differ from each other.
pub fn render(json: &Json) -> (text: String)
    requires
        json@.distinct_keys(),
    ensures
        text@ == json_text(json@),
{
    let value = to_value(json);
    to_text(&value)
}

} // verus!
