//! JSON documents as values of the crate's own: `serde_json` parses the text, and
//! what it parsed is handed on as a [`JsonValue`], which verified code can read.
use vstd::prelude::*;

verus! {

/// A JSON value.
///
/// A number is kept as the text that stands for it. The members of an object are
/// kept in the order in which the parser hands them out.
#[derive(Debug, PartialEq, Eq)]
pub enum JsonValue {
    Null,
    Bool(bool),
    Number(String),
    Text(String),
    Array(Vec<JsonValue>),
    Object(Vec<(String, JsonValue)>),
}

/// The mathematical value of a [`JsonValue`].
pub enum JsonModel {
    Null,
    Bool(bool),
    Number(Seq<char>),
    Text(Seq<char>),
    Array(Seq<JsonModel>),
    Object(Seq<(Seq<char>, JsonModel)>),
}

impl JsonValue {
    /// The mathematical value, variant by variant.
    pub open spec fn model(self) -> JsonModel
        decreases self,
    {
        match self {
            JsonValue::Null => JsonModel::Null,
            JsonValue::Bool(b) => JsonModel::Bool(b),
            JsonValue::Number(n) => JsonModel::Number(n@),
            JsonValue::Text(s) => JsonModel::Text(s@),
            JsonValue::Array(items) => JsonModel::Array(
                Seq::new(
                    items@.len(),
                    |i: int|
                        if 0 <= i < items@.len() {
                            items@[i].model()
                        } else {
                            JsonModel::Null
                        },
                ),
            ),
            JsonValue::Object(members) => JsonModel::Object(
                Seq::new(
                    members@.len(),
                    |i: int|
                        if 0 <= i < members@.len() {
                            (members@[i].0@, members@[i].1.model())
                        } else {
                            (Seq::empty(), JsonModel::Null)
                        },
                ),
            ),
        }
    }
}

impl View for JsonValue {
    type V = JsonModel;

    open spec fn view(&self) -> JsonModel {
        self.model()
    }
}

/// What the view of an array and of an object is made of.
pub proof fn lemma_view(value: JsonValue)
    ensures
        match value {
            JsonValue::Null => value@ == JsonModel::Null,
            JsonValue::Bool(b) => value@ == JsonModel::Bool(b),
            JsonValue::Number(n) => value@ == JsonModel::Number(n@),
            JsonValue::Text(s) => value@ == JsonModel::Text(s@),
            JsonValue::Array(items) => value@ is Array && value@->Array_0.len() == items@.len()
                && forall|i: int|
                0 <= i < items@.len() ==> #[trigger] value@->Array_0[i] == items@[i]@,
            JsonValue::Object(members) => value@ is Object && value@->Object_0.len()
                == members@.len() && forall|i: int|
                0 <= i < members@.len() ==> #[trigger] value@->Object_0[i] == (
                    members@[i].0@,
                    members@[i].1@,
                ),
        },
{
}

/// The value of `serde_json`, of which Verus sees nothing but [`json_tree`].
#[verifier::external_type_specification]
#[verifier::external_body]
pub struct ExJsonValue(serde_json::Value);

/// The error of `serde_json`, of which Verus sees nothing.
#[verifier::external_type_specification]
#[verifier::external_body]
pub struct ExJsonError(serde_json::Error);

/// What a value of `serde_json` holds, as [`json_from_value`] hands it on.
pub uninterp spec fn json_tree(value: serde_json::Value) -> JsonModel;

/// The value that `serde_json::from_str` parses a text as, if it is a JSON document.
pub uninterp spec fn json_document(text: Seq<char>) -> Option<JsonModel>;

/// `serde_json::from_str` for a `serde_json::Value`: what comes back is a function
/// of the text alone.
#[verifier::external_body]
pub(crate) fn json_parse(text: &str) -> (r: Result<serde_json::Value, serde_json::Error>)
    ensures
        match r {
            Ok(value) => json_document(text@) == Some(json_tree(value)),
            Err(_) => json_document(text@) is None,
        },
{
    serde_json::from_str::<serde_json::Value>(text)
}

/// Hands a value of `serde_json` on as a [`JsonValue`]: variant by variant, a number
/// by its `to_string`, the members of an object in the order of its iterator.
#[verifier::external_body]
pub(crate) fn json_from_value(value: serde_json::Value) -> (r: JsonValue)
    ensures
        r@ == json_tree(value),
{
    match value {
        serde_json::Value::Null => JsonValue::Null,
        serde_json::Value::Bool(b) => JsonValue::Bool(b),
        serde_json::Value::Number(n) => JsonValue::Number(n.to_string()),
        serde_json::Value::String(s) => JsonValue::Text(s),
        serde_json::Value::Array(a) => JsonValue::Array(
            a.into_iter().map(json_from_value).collect(),
        ),
        serde_json::Value::Object(o) => JsonValue::Object(
            o.into_iter().map(|(k, v)| (k, json_from_value(v))).collect(),
        ),
    }
}

/// The `Display` of an error of `serde_json`, by `to_string`. What it says depends
/// on the text that failed to parse, and is not stated.
#[verifier::external_body]
pub(crate) fn json_error_message(e: &serde_json::Error) -> (r: String) {
    e.to_string()
}

} // verus!
