//! What came of looking a field up in a document.

use crate::error::{Field, ModpackError};
use vstd::prelude::*;

verus! {

/// The outcome of reading one field.
#[derive(Debug, PartialEq, Eq)]
pub enum Reading<T> {
    /// The document has no such field.
    Absent,
    /// The field holds a value of another type than the one asked for.
    Mistyped,
    /// The field holds this value.
    Found(T),
}

/// The value of a field that must be there, or the error that its absence
/// or its type gives.
pub open spec fn required<T>(reading: Reading<T>, field: Field) -> Result<T, ModpackError> {
    match reading {
        Reading::Absent => Err(ModpackError::Missing(field)),
        Reading::Mistyped => Err(ModpackError::Mistyped(field)),
        Reading::Found(value) => Ok(value),
    }
}

/// Insists on a field.
pub fn require<T>(reading: Reading<T>, field: Field) -> (r: Result<T, ModpackError>)
    ensures
        r == required(reading, field),
{
    match reading {
        Reading::Absent => Err(ModpackError::Missing(field)),
        Reading::Mistyped => Err(ModpackError::Mistyped(field)),
        Reading::Found(value) => Ok(value),
    }
}

/// Every item is there.
pub open spec fn all_found<T>(items: Seq<Option<T>>) -> bool {
    forall|i: int| 0 <= i < items.len() ==> (#[trigger] items[i]) is Some
}

/// The values of a list in which every item is there.
pub open spec fn found_values<T>(items: Seq<Option<T>>) -> Seq<T> {
    items.map_values(|item: Option<T>| item->0)
}

/// The items of a list read from `field`, which must all be of the type
/// asked for.
pub open spec fn required_items<T>(items: Seq<Option<T>>, field: Field) -> Result<
    Seq<T>,
    ModpackError,
> {
    if all_found(items) {
        Ok(found_values(items))
    } else {
        Err(ModpackError::Mistyped(field))
    }
}

/// Insists on every item of a list.
pub fn require_items<T>(items: Vec<Option<T>>, field: Field) -> (r: Result<Vec<T>, ModpackError>)
    ensures
        match required_items(items@, field) {
            Ok(values) => r is Ok && r->Ok_0@ == values,
            Err(e) => r == Err::<Vec<T>, ModpackError>(e),
        },
{
    let mut out: Vec<T> = Vec::new();
    proof {
        assert(items@.subrange(0, 0) =~= Seq::<Option<T>>::empty());
        assert(out@ =~= found_values(items@.subrange(0, 0)));
    }
    for item in it: items
        invariant
            it.seq() == items@,
            all_found(items@.subrange(0, it.index())),
            out@ == found_values(items@.subrange(0, it.index())),
    {
        let ghost done = items@.subrange(0, it.index());
        let ghost next = items@.subrange(0, it.index() + 1);
        proof {
            assert(next =~= done.push(item));
        }
        match item {
            None => {
                proof {
                    assert(items@[it.index()] is None);
                }
                return Err(ModpackError::Mistyped(field));
            },
            Some(value) => {
                out.push(value);
                proof {
                    assert forall|i: int| 0 <= i < next.len() implies (#[trigger] next[i]) is Some by {
                        if i < done.len() {
                            assert(next[i] == done[i]);
                        }
                    }
                    assert(out@ =~= found_values(next));
                }
            },
        }
    }
    proof {
        assert(items@.subrange(0, items@.len() as int) =~= items@);
    }
    Ok(out)
}

} // verus!
