//! The shared operation clock.
//!
//! Every store stamps its records from a single monotonically non-decreasing
//! clock that advances by one step per mutating operation until it would
//! wrap, after which it stays put.

use vstd::prelude::*;

verus! {

/// The clock after one operation.
pub open spec fn bump(c: u64) -> u64 {
    if c < u64::MAX {
        (c + 1) as u64
    } else {
        c
    }
}

/// Advance a clock value by one operation step.
pub(crate) fn bump_clock(c: u64) -> (r: u64)
    ensures
        r == bump(c),
{
    if c < u64::MAX {
        c + 1
    } else {
        c
    }
}

} // verus!
