//! Saturating arithmetic, the overflow discipline of the whole core:
//! results clamp at the top of their type and never wrap.

use vstd::prelude::*;

verus! {

/// `a + b`, clamped to the block-number type.
pub open spec fn spec_sat_add64(a: u64, b: u64) -> u64 {
    if a + b > u64::MAX {
        u64::MAX
    } else {
        (a + b) as u64
    }
}

/// `x` clamped to the balance type.
pub open spec fn spec_sat128(x: int) -> int {
    if x > u128::MAX {
        u128::MAX as int
    } else {
        x
    }
}

/// `a * b`, clamped to the balance type.
pub fn sat_mul(a: u128, b: u128) -> (r: u128)
    ensures
        r == spec_sat128((a as int) * (b as int)),
{
    match a.checked_mul(b) {
        Some(x) => x,
        None => u128::MAX,
    }
}

} // verus!
