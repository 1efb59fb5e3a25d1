//! Random choices.

use vstd::prelude::*;

verus! {

/// `fastrand::u8` on `0..limit`: some number below `limit`. An empty range would
/// make it panic.
#[verifier::external_body]
pub(crate) fn random_u8(limit: u8) -> (r: u8)
    requires
        limit > 0,
    ensures
        r < limit,
{
    fastrand::u8(0..limit)
}

/// `fastrand::u32` on `0..limit`: some number below `limit`. An empty range would
/// make it panic.
#[verifier::external_body]
pub(crate) fn random_u32(limit: u32) -> (r: u32)
    requires
        limit > 0,
    ensures
        r < limit,
{
    fastrand::u32(0..limit)
}

/// `fastrand::usize` on `..limit`: some number below `limit`. An empty range would
/// make it panic.
#[verifier::external_body]
pub(crate) fn random_index(limit: usize) -> (r: usize)
    requires
        limit > 0,
    ensures
        r < limit,
{
    fastrand::usize(..limit)
}

} // verus!
