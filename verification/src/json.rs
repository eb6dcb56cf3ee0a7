//! Reading fields out of JSON documents.

use crate::document::{
    list_at, member, text_at, text_in, text_option, text_reading, texts_at, texts_in, texts_reading,
    Tree,
};
use crate::reading::Reading;
use serde_json::Value;
use vstd::prelude::*;

verus! {

#[verifier::external_type_specification]
#[verifier::external_body]
pub struct ExJsonValue(serde_json::Value);

#[verifier::external_type_specification]
#[verifier::external_body]
pub struct ExJsonError(serde_json::Error);

/// What a JSON value holds.
pub uninterp spec fn json_tree(value: Value) -> Tree;

/// What the JSON document `text` holds, or `None` where `text` is no JSON
/// document.
pub uninterp spec fn json_document(text: Seq<char>) -> Option<Tree>;

/// What each of some JSON values holds.
pub open spec fn json_trees(values: Seq<Value>) -> Seq<Tree> {
    values.map_values(|value: Value| json_tree(value))
}

/// `serde_json::from_str`, reading a whole document as a `Value`. The
/// outcome depends on the text alone, so it has a name: an `Ok` carries a
/// value that holds what `json_document` gives, and an error comes exactly
/// where `json_document` gives nothing.
#[verifier::external_body]
pub(crate) fn parse_json(text: &str) -> (r: Result<Value, serde_json::Error>)
    ensures
        r matches Ok(value) ==> json_document(text@) == Some(json_tree(value)),
        r is Err ==> json_document(text@) is None,
{
    serde_json::from_str::<Value>(text)
}

/// `Value::get` with a string index: the member of an object under `key`,
/// and nothing where the value is no object or the object has no such
/// member.
#[verifier::external_body]
pub(crate) fn json_member<'a>(value: &'a Value, key: &str) -> (r: Option<&'a Value>)
    ensures
        r matches Some(part) ==> member(json_tree(*value), key@) == Some(json_tree(*part)),
        r is None ==> member(json_tree(*value), key@) is None,
{
    value.get(key)
}

/// `Value::as_str`: the text of a value that is a string, and nothing of
/// any other value.
pub assume_specification<'a>[ serde_json::Value::as_str ](value: &'a Value) -> (r: Option<
    &'a str,
>)
    ensures
        r matches Some(text) ==> json_tree(*value) == Tree::Text(text@),
        r is None ==> !(json_tree(*value) is Text),
;

/// `Value::as_array`: the items of a value that is an array, in their
/// order, and nothing of any other value.
pub assume_specification<'a>[ serde_json::Value::as_array ](value: &'a Value) -> (r: Option<
    &'a Vec<Value>,
>)
    ensures
        r matches Some(items) ==> json_tree(*value) == Tree::List(json_trees(items@)),
        r is None ==> !(json_tree(*value) is List),
;

/// `Value::as_i64`: the number of a value that is an integer which fits
/// in 64 bits with a sign, and nothing of any other value.
pub assume_specification[ serde_json::Value::as_i64 ](value: &Value) -> (r: Option<i64>)
    ensures
        r matches Some(number) ==> json_tree(*value) == Tree::Integer(number),
        r is None ==> !(json_tree(*value) is Integer),
;

/// Reads the text under `key`.
pub(crate) fn read_text(value: &Value, key: &str) -> (r: Reading<String>)
    ensures
        text_reading(r) == text_at(json_tree(*value), key@),
{
    match json_member(value, key) {
        None => Reading::Absent,
        Some(part) => match part.as_str() {
            None => Reading::Mistyped,
            Some(text) => Reading::Found(text.to_owned()),
        },
    }
}

/// Reads the items under `key`.
pub(crate) fn read_items<'a>(value: &'a Value, key: &str) -> (r: Reading<&'a Vec<Value>>)
    ensures
        match list_at(json_tree(*value), key@) {
            Reading::Absent => r is Absent,
            Reading::Mistyped => r is Mistyped,
            Reading::Found(items) => r matches Reading::Found(found) && json_trees(found@)
                == items,
        },
{
    match json_member(value, key) {
        None => Reading::Absent,
        Some(part) => match part.as_array() {
            None => Reading::Mistyped,
            Some(items) => Reading::Found(items),
        },
    }
}

/// Reads the list under `key`, and of each item its text if it is one.
pub(crate) fn read_texts(value: &Value, key: &str) -> (r: Reading<Vec<Option<String>>>)
    ensures
        texts_reading(r) == texts_at(json_tree(*value), key@),
{
    match read_items(value, key) {
        Reading::Absent => Reading::Absent,
        Reading::Mistyped => Reading::Mistyped,
        Reading::Found(items) => {
            let mut texts: Vec<Option<String>> = Vec::new();
            let mut i: usize = 0;
            while i < items.len()
                invariant
                    i <= items.len(),
                    texts@.len() == i,
                    forall|k: int|
                        0 <= k < i ==> text_option(#[trigger] texts@[k]) == text_in(
                            json_tree(items@[k]),
                        ),
                decreases items.len() - i,
            {
                texts.push(
                    match items[i].as_str() {
                        None => None,
                        Some(text) => Some(text.to_owned()),
                    },
                );
                i += 1;
            }
            proof {
                assert(texts@.map_values(|item: Option<String>| text_option(item)) =~= texts_in(
                    json_trees(items@),
                ));
            }
            Reading::Found(texts)
        },
    }
}

} // verus!
