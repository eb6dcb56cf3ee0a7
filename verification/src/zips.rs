//! The launcher archives that are offered beside a pack.

use crate::text::{ends_with, has_prefix, has_suffix, starts_with};
use vstd::prelude::*;

verus! {

/// The name is that of a launcher archive: it begins with `prism` and ends
/// with `.zip`.
pub open spec fn is_prism_zip(name: Seq<char>) -> bool {
    has_prefix(name, "prism"@) && has_suffix(name, ".zip"@)
}

/// `is_prism_zip` as a predicate on strings.
pub open spec fn prism_zip() -> spec_fn(String) -> bool {
    |name: String| is_prism_zip(name@)
}

/// Of the names of a directory, those of the launcher archives, in their
/// order.
pub fn get_prism_zips(names: Vec<String>) -> (zips: Vec<String>)
    ensures
        zips@ == names@.filter(prism_zip()),
{
    let mut zips: Vec<String> = Vec::new();
    proof {
        assert(names@.subrange(0, 0) =~= Seq::<String>::empty());
        assert(Seq::<String>::empty().filter(prism_zip()) =~= Seq::<String>::empty()) by {
            reveal(Seq::filter);
        }
    }
    for name in it: names
        invariant
            it.seq() == names@,
            zips@ == names@.subrange(0, it.index()).filter(prism_zip()),
    {
        proof {
            let done = names@.subrange(0, it.index());
            assert(names@.subrange(0, it.index() + 1) =~= done.push(name));
            done.lemma_filter_push(name, prism_zip());
        }
        if starts_with(name.as_str(), "prism") && ends_with(name.as_str(), ".zip") {
            zips.push(name);
        }
    }
    proof {
        assert(names@.subrange(0, names@.len() as int) =~= names@);
    }
    zips
}

} // verus!
