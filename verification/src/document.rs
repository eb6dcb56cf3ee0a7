//! What a document holds, whatever notation it was written in.

use crate::reading::Reading;
use vstd::prelude::*;

verus! {

/// The content of a document, or of a part of one.
pub enum Tree {
    /// A text.
    Text(Seq<char>),
    /// An integer that fits in 64 bits.
    Integer(i64),
    /// A truth value.
    Flag(bool),
    /// A list of parts, in their order.
    List(Seq<Tree>),
    /// Parts under their names.
    Table(Map<Seq<char>, Tree>),
    /// Anything else: nothing, a date, a number that is no such integer.
    Other,
}

/// The part that a table holds under `key`. Only a table holds parts
/// under names.
pub open spec fn member(tree: Tree, key: Seq<char>) -> Option<Tree> {
    match tree {
        Tree::Table(parts) => if parts.contains_key(key) {
            Some(parts[key])
        } else {
            None
        },
        _ => None,
    }
}

/// The text that a part is, if it is one.
pub open spec fn text_in(tree: Tree) -> Option<Seq<char>> {
    match tree {
        Tree::Text(text) => Some(text),
        _ => None,
    }
}

/// The truth value that a part is, if it is one.
pub open spec fn flag_in(tree: Tree) -> Option<bool> {
    match tree {
        Tree::Flag(flag) => Some(flag),
        _ => None,
    }
}

/// The integer that a part is, if it is one.
pub open spec fn integer_in(tree: Tree) -> Option<i64> {
    match tree {
        Tree::Integer(number) => Some(number),
        _ => None,
    }
}

/// What reading the text under `key` gives.
pub open spec fn text_at(tree: Tree, key: Seq<char>) -> Reading<Seq<char>> {
    match member(tree, key) {
        None => Reading::Absent,
        Some(Tree::Text(text)) => Reading::Found(text),
        Some(_) => Reading::Mistyped,
    }
}

/// What reading the integer under `key` gives.
pub open spec fn integer_at(tree: Tree, key: Seq<char>) -> Reading<i64> {
    match member(tree, key) {
        None => Reading::Absent,
        Some(Tree::Integer(number)) => Reading::Found(number),
        Some(_) => Reading::Mistyped,
    }
}

/// What reading the list under `key` gives.
pub open spec fn list_at(tree: Tree, key: Seq<char>) -> Reading<Seq<Tree>> {
    match member(tree, key) {
        None => Reading::Absent,
        Some(Tree::List(items)) => Reading::Found(items),
        Some(_) => Reading::Mistyped,
    }
}

/// Of each part, the text that it is, if it is one.
pub open spec fn texts_in(items: Seq<Tree>) -> Seq<Option<Seq<char>>> {
    items.map_values(|item: Tree| text_in(item))
}

/// What reading the list under `key` gives, where of each item its text
/// is read if it is one.
pub open spec fn texts_at(tree: Tree, key: Seq<char>) -> Reading<Seq<Option<Seq<char>>>> {
    match list_at(tree, key) {
        Reading::Absent => Reading::Absent,
        Reading::Mistyped => Reading::Mistyped,
        Reading::Found(items) => Reading::Found(texts_in(items)),
    }
}

/// The reading of a text, as plain text.
pub open spec fn text_reading(reading: Reading<String>) -> Reading<Seq<char>> {
    match reading {
        Reading::Absent => Reading::Absent,
        Reading::Mistyped => Reading::Mistyped,
        Reading::Found(text) => Reading::Found(text@),
    }
}

/// A text that may be there, as plain text.
pub open spec fn text_option(text: Option<String>) -> Option<Seq<char>> {
    match text {
        None => None,
        Some(text) => Some(text@),
    }
}

/// The reading of a list of texts, as plain text.
pub open spec fn texts_reading(reading: Reading<Vec<Option<String>>>) -> Reading<
    Seq<Option<Seq<char>>>,
> {
    match reading {
        Reading::Absent => Reading::Absent,
        Reading::Mistyped => Reading::Mistyped,
        Reading::Found(items) => Reading::Found(
            items@.map_values(|item: Option<String>| text_option(item)),
        ),
    }
}

} // verus!
