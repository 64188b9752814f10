//! The front matter of a note as a YAML mapping, built and rendered by `serde_yaml`.
//!
//! A mapping is an ordered list of entries. The functions here add entries to one
//! and have it rendered; which entries a note gets, and in which order, is decided
//! by their callers.
use vstd::prelude::*;
use crate::text::texts;

verus! {

/// The mapping of `serde_yaml`, of which Verus sees nothing but [`yaml_entries`].
#[verifier::external_type_specification]
#[verifier::external_body]
pub struct ExMapping(serde_yaml::Mapping);

/// The error of `serde_yaml`, of which Verus sees nothing but [`yaml_error_text`].
#[verifier::external_type_specification]
#[verifier::external_body]
pub struct ExYamlError(serde_yaml::Error);

/// The value of one entry of a front matter.
pub enum YamlValue {
    Text(Seq<char>),
    Flag(bool),
    List(Seq<Seq<char>>),
}

/// The entries that a mapping holds, each a key and its value, in the order in which
/// they are rendered. The mappings of this crate are made by [`yaml_new`] and filled
/// by the three functions that insert: their keys are strings, and their values are
/// of the three kinds of [`YamlValue`].
pub uninterp spec fn yaml_entries(m: serde_yaml::Mapping) -> Seq<(Seq<char>, YamlValue)>;

/// The YAML document that `serde_yaml::to_string` renders a mapping with the given
/// entries as, or the message of its error.
pub uninterp spec fn yaml_document(entries: Seq<(Seq<char>, YamlValue)>) -> Result<
    Seq<char>,
    Seq<char>,
>;

/// What an error of `serde_yaml` says when it is displayed.
pub uninterp spec fn yaml_error_text(e: serde_yaml::Error) -> Seq<char>;

/// Whether some entry has the key `key`.
pub open spec fn has_key(entries: Seq<(Seq<char>, YamlValue)>, key: Seq<char>) -> bool {
    exists|i: int| 0 <= i < entries.len() && (#[trigger] entries[i]).0 == key
}

/// `serde_yaml::Mapping::new`: a mapping without entries.
#[verifier::external_body]
pub(crate) fn yaml_new() -> (m: serde_yaml::Mapping)
    ensures
        yaml_entries(m) == Seq::<(Seq<char>, YamlValue)>::empty(),
{
    serde_yaml::Mapping::new()
}

/// `serde_yaml::Mapping::insert` with a string as the value: a key that the mapping
/// does not hold yet becomes its last entry.
#[verifier::external_body]
pub(crate) fn yaml_insert_text(m: &mut serde_yaml::Mapping, key: &str, value: &str)
    requires
        !has_key(yaml_entries(*old(m)), key@),
    ensures
        yaml_entries(*final(m)) == yaml_entries(*old(m)).push((key@, YamlValue::Text(value@))),
{
    m.insert(
        serde_yaml::Value::String(key.to_string()),
        serde_yaml::Value::String(value.to_string()),
    );
}

/// `serde_yaml::Mapping::insert` with a boolean as the value: a key that the mapping
/// does not hold yet becomes its last entry.
#[verifier::external_body]
pub(crate) fn yaml_insert_flag(m: &mut serde_yaml::Mapping, key: &str, value: bool)
    requires
        !has_key(yaml_entries(*old(m)), key@),
    ensures
        yaml_entries(*final(m)) == yaml_entries(*old(m)).push((key@, YamlValue::Flag(value))),
{
    m.insert(serde_yaml::Value::String(key.to_string()), serde_yaml::Value::Bool(value));
}

/// `serde_yaml::Mapping::insert` with a sequence of strings as the value: a key that
/// the mapping does not hold yet becomes its last entry.
#[verifier::external_body]
pub(crate) fn yaml_insert_list(m: &mut serde_yaml::Mapping, key: &str, items: &Vec<String>)
    requires
        !has_key(yaml_entries(*old(m)), key@),
    ensures
        yaml_entries(*final(m)) == yaml_entries(*old(m)).push(
            (key@, YamlValue::List(texts(items@))),
        ),
{
    m.insert(
        serde_yaml::Value::String(key.to_string()),
        serde_yaml::Value::Sequence(
            items.iter().map(|item| serde_yaml::Value::String(item.clone())).collect(),
        ),
    );
}

/// `serde_yaml::to_string` on a mapping: the document is a function of the entries
/// alone.
#[verifier::external_body]
pub(crate) fn yaml_to_string(m: &serde_yaml::Mapping) -> (r: Result<String, serde_yaml::Error>)
    ensures
        match r {
            Ok(text) => yaml_document(yaml_entries(*m)) == Ok::<Seq<char>, Seq<char>>(text@),
            Err(e) => yaml_document(yaml_entries(*m)) == Err::<Seq<char>, Seq<char>>(
                yaml_error_text(e),
            ),
        },
{
    serde_yaml::to_string(m)
}

/// The `Display` of an error of `serde_yaml`, by `to_string`.
#[verifier::external_body]
pub(crate) fn yaml_error_message(e: &serde_yaml::Error) -> (r: String)
    ensures
        r@ == yaml_error_text(*e),
{
    e.to_string()
}

} // verus!
