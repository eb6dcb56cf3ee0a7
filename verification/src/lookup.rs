//! What a registry is to be asked.

use crate::record::ModpackInfo;
use vstd::prelude::*;

verus! {

/// What to do for a batch of identifiers.
#[derive(Debug, PartialEq, Eq)]
pub enum Lookup {
    /// Nothing is asked: these are the records of the batch.
    Finished(Vec<ModpackInfo>),
    /// One request for this address answers for the whole batch.
    Get { url: String },
    /// One request that sends the identifiers to this address, with the
    /// access key, answers for the whole batch.
    Post { url: String, api_key: String, mod_ids: Vec<i64> },
}

} // verus!
