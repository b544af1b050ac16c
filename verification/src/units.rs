//! Token units.

use vstd::prelude::*;

verus! {

/// Number of indivisible token units in one whole token.
pub const NEAR: u128 = 1_000_000_000_000_000_000_000_000;

/// Gas attached to each call that crosses from one contract to another.
pub const XCC_GAS: u64 = 20_000_000_000_000;

/// A whole-token amount expressed in indivisible units, where that fits.
pub open spec fn units_of(whole: u128) -> Option<u128> {
    if whole * NEAR <= u128::MAX {
        Some((whole * NEAR) as u128)
    } else {
        None
    }
}

/// Converts an amount of whole tokens into indivisible units, or `None` when
/// the product is not representable.
pub fn to_units(whole: u128) -> (r: Option<u128>)
    ensures
        r == units_of(whole),
{
    whole.checked_mul(NEAR)
}

} // verus!
