//! TOML documents, read through the toml crate.

use vstd::prelude::*;

verus! {

#[verifier::external_type_specification]
#[verifier::external_body]
pub struct ExTomlValue(toml::Value);

/// The document that the toml crate reads from `text`; `None` where it
/// rejects the text.
pub uninterp spec fn toml_document(text: Seq<char>) -> Option<toml::Value>;

/// The member of the table `value` under `key`; `None` where `value` is no
/// table or has no such member.
pub uninterp spec fn toml_member(value: toml::Value, key: Seq<char>) -> Option<toml::Value>;

/// The members of the table `value`: each key with the number under it
/// where that is an integer, and with `None` where it is anything else.
/// `None` where `value` is no table.
pub uninterp spec fn toml_integers(value: toml::Value) -> Option<Map<Seq<char>, Option<i64>>>;

/// Whether `items` lists `entries`: every key once, each with its value.
pub open spec fn lists_entries(
    items: Seq<(String, Option<i64>)>,
    entries: Map<Seq<char>, Option<i64>>,
) -> bool {
    &&& forall|i: int|
        0 <= i < items.len() ==> entries.contains_key((#[trigger] items[i]).0@)
            && entries[items[i].0@] == items[i].1
    &&& forall|key: Seq<char>| #[trigger]
        entries.contains_key(key) ==> exists|i: int|
            0 <= i < items.len() && (#[trigger] items[i]).0@ == key
    &&& forall|i: int, j: int|
        0 <= i < j < items.len() ==> (#[trigger] items[i]).0@ != (#[trigger] items[j]).0@
}

/// Calls `str::parse` for a `toml::Value`, which reads `text` as a TOML
/// document. Whether the text is accepted, and the document read from it,
/// depend on the text alone. A rejection comes back as the message that the
/// toml crate wrote for it.
#[verifier::external_body]
pub(crate) fn parse(text: &str) -> (r: Result<toml::Value, String>)
    ensures
        match r {
            Ok(doc) => toml_document(text@) == Some(doc),
            Err(_) => toml_document(text@) is None,
        },
{
    text.parse::<toml::Value>().map_err(|fault: toml::de::Error| fault.to_string())
}

/// Calls `toml::Value::get` with a string key: the member of a table under
/// that key, if there is one.
#[verifier::external_body]
pub(crate) fn member<'a>(value: &'a toml::Value, key: &str) -> (r: Option<&'a toml::Value>)
    ensures
        match r {
            Some(found) => toml_member(*value, key@) == Some(*found),
            None => toml_member(*value, key@) is None,
        },
{
    value.get(key)
}

/// Calls `toml::Value::as_table` and walks the table with `Map::iter`,
/// reading each member with `toml::Value::as_integer`. A table holds each
/// key once; the order in which the members come is left open.
#[verifier::external_body]
pub(crate) fn integer_entries(value: &toml::Value) -> (r: Option<Vec<(String, Option<i64>)>>)
    ensures
        match r {
            Some(items) => toml_integers(*value) matches Some(entries) && lists_entries(
                items@,
                entries,
            ),
            None => toml_integers(*value) is None,
        },
{
    let table = value.as_table()?;
    Some(table.iter().map(|(key, member)| (key.clone(), member.as_integer())).collect())
}

} // verus!
