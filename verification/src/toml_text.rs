//! Reading fields out of TOML documents.

use crate::document::{integer_at, list_at, member, text_at, text_reading, Tree};
use crate::reading::Reading;
use toml::Value;
use vstd::prelude::*;

verus! {

#[verifier::external_type_specification]
#[verifier::external_body]
pub struct ExTomlValue(toml::Value);

#[verifier::external_type_specification]
#[verifier::external_body]
pub struct ExTomlError(toml::de::Error);

/// What a TOML value holds.
pub uninterp spec fn toml_tree(value: Value) -> Tree;

/// What the TOML document `text` holds, or `None` where `text` is no TOML
/// document.
pub uninterp spec fn toml_document(text: Seq<char>) -> Option<Tree>;

/// What each of some TOML values holds.
pub open spec fn toml_trees(values: Seq<Value>) -> Seq<Tree> {
    values.map_values(|value: Value| toml_tree(value))
}

/// `toml::Table`'s `from_str`, reading a whole document as a table, which
/// is handed on as a `Value`. The outcome depends on the text alone, so it
/// has a name: an `Ok` carries a value that holds what `toml_document`
/// gives, and an error comes exactly where `toml_document` gives nothing.
#[verifier::external_body]
pub(crate) fn parse_toml(text: &str) -> (r: Result<Value, toml::de::Error>)
    ensures
        r matches Ok(value) ==> toml_document(text@) == Some(toml_tree(value)),
        r is Err ==> toml_document(text@) is None,
{
    match text.parse::<toml::Table>() {
        Ok(table) => Ok(Value::Table(table)),
        Err(e) => Err(e),
    }
}

/// `Value::get` with a string index: the entry of a table under `key`, and
/// nothing where the value is no table or the table has no such entry.
#[verifier::external_body]
pub(crate) fn toml_member<'a>(value: &'a Value, key: &str) -> (r: Option<&'a Value>)
    ensures
        r matches Some(part) ==> member(toml_tree(*value), key@) == Some(toml_tree(*part)),
        r is None ==> member(toml_tree(*value), key@) is None,
{
    value.get(key)
}

/// `Value::as_str`: the text of a value that is a string, and nothing of
/// any other value.
pub assume_specification<'a>[ toml::Value::as_str ](value: &'a Value) -> (r: Option<&'a str>)
    ensures
        r matches Some(text) ==> toml_tree(*value) == Tree::Text(text@),
        r is None ==> !(toml_tree(*value) is Text),
;

/// `Value::as_bool`: the truth value of a value that is a boolean, and
/// nothing of any other value.
pub assume_specification[ toml::Value::as_bool ](value: &Value) -> (r: Option<bool>)
    ensures
        r matches Some(flag) ==> toml_tree(*value) == Tree::Flag(flag),
        r is None ==> !(toml_tree(*value) is Flag),
;

/// `Value::as_integer`: the number of a value that is an integer, and
/// nothing of any other value.
pub assume_specification[ toml::Value::as_integer ](value: &Value) -> (r: Option<i64>)
    ensures
        r matches Some(number) ==> toml_tree(*value) == Tree::Integer(number),
        r is None ==> !(toml_tree(*value) is Integer),
;

/// `Value::as_array`: the items of a value that is an array, in their
/// order, and nothing of any other value.
pub assume_specification<'a>[ toml::Value::as_array ](value: &'a Value) -> (r: Option<
    &'a Vec<Value>,
>)
    ensures
        r matches Some(items) ==> toml_tree(*value) == Tree::List(toml_trees(items@)),
        r is None ==> !(toml_tree(*value) is List),
;

/// Reads the text under `key`.
pub(crate) fn read_text(value: &Value, key: &str) -> (r: Reading<String>)
    ensures
        text_reading(r) == text_at(toml_tree(*value), key@),
{
    match toml_member(value, key) {
        None => Reading::Absent,
        Some(part) => match part.as_str() {
            None => Reading::Mistyped,
            Some(text) => Reading::Found(text.to_owned()),
        },
    }
}

/// Reads the integer under `key`.
pub(crate) fn read_integer(value: &Value, key: &str) -> (r: Reading<i64>)
    ensures
        r == integer_at(toml_tree(*value), key@),
{
    match toml_member(value, key) {
        None => Reading::Absent,
        Some(part) => match part.as_integer() {
            None => Reading::Mistyped,
            Some(number) => Reading::Found(number),
        },
    }
}

/// Reads the items under `key`.
pub(crate) fn read_items<'a>(value: &'a Value, key: &str) -> (r: Reading<&'a Vec<Value>>)
    ensures
        match list_at(toml_tree(*value), key@) {
            Reading::Absent => r is Absent,
            Reading::Mistyped => r is Mistyped,
            Reading::Found(items) => r matches Reading::Found(found) && toml_trees(found@)
                == items,
        },
{
    match toml_member(value, key) {
        None => Reading::Absent,
        Some(part) => match part.as_array() {
            None => Reading::Mistyped,
            Some(items) => Reading::Found(items),
        },
    }
}

} // verus!
