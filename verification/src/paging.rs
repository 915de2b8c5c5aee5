//! The size of a page of a listing.

use vstd::prelude::*;

verus! {

/// The most members that one page of a listing holds.
pub const MAX_LIMIT: u32 = 30;

/// The number of members on a page where the query names none.
pub const DEFAULT_LIMIT: u32 = 10;

/// The number of members on a page: what the query names, ten where it
/// names nothing, and never more than thirty.
pub open spec fn page_size(limit: Option<u32>) -> int {
    let asked = match limit {
        Some(n) => n,
        None => DEFAULT_LIMIT,
    };
    if asked < MAX_LIMIT {
        asked as int
    } else {
        MAX_LIMIT as int
    }
}

/// The number of members that a page of the listing holds.
pub fn page_limit(limit: Option<u32>) -> (r: usize)
    ensures
        r == page_size(limit),
{
    let asked = match limit {
        Some(n) => n,
        None => DEFAULT_LIMIT,
    };
    if asked < MAX_LIMIT {
        asked as usize
    } else {
        MAX_LIMIT as usize
    }
}

} // verus!
