//! Saturating arithmetic with exact contracts.
//!
//! Quantities that no conservation law bounds (heights, tallies, running
//! totals) are added with saturation, as the platform's replay rules demand:
//! arithmetic must never panic or wrap.

use vstd::prelude::*;

verus! {

/// `a + b`, clamped to `u64::MAX`.
pub open spec fn spec_sat_add_u64(a: u64, b: u64) -> u64 {
    if a + b <= u64::MAX {
        (a + b) as u64
    } else {
        u64::MAX
    }
}

/// `a + b`, clamped to `u32::MAX`.
pub open spec fn spec_sat_add_u32(a: u32, b: u32) -> u32 {
    if a + b <= u32::MAX {
        (a + b) as u32
    } else {
        u32::MAX
    }
}

/// Saturating addition on amounts and counters.
pub fn sat_add_u64(a: u64, b: u64) -> (r: u64)
    ensures
        r == spec_sat_add_u64(a, b),
{
    if a <= u64::MAX - b {
        a + b
    } else {
        u64::MAX
    }
}

/// Saturating addition on block heights and small counters.
pub fn sat_add_u32(a: u32, b: u32) -> (r: u32)
    ensures
        r == spec_sat_add_u32(a, b),
{
    if a <= u32::MAX - b {
        a + b
    } else {
        u32::MAX
    }
}

} // verus!
