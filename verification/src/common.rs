//! Query parameters shared with the HTTP query surface.
use vstd::prelude::*;

verus! {

/// A query for the latest stored readings, as the HTTP surface takes it.
#[derive(Clone, Debug)]
pub struct GetReadings {
    pub pub_id: u64,
    pub before: Option<u64>,
    pub limit: u16,
}

} // verus!
