//! Enabled fee tiers.
use vstd::prelude::*;

verus! {

/// Tick spacings must lie below this value.
pub const TICK_SPACING_MAX: u16 = 16384;

/// Fees must lie below this value, which stands for 100%.
pub const FEE_TIER_MAX: u32 = 1000000;

/// A fee amount that pools may be created with, and its tick spacing.
///
/// PDA of `[fee]`
#[derive(Clone, Copy, Debug, Default, PartialEq, Eq, Structural)]
pub struct FeeState {
    /// Bump to identify PDA
    pub bump: u8,
    /// The fee, denominated in hundredths of a bip (i.e. 1e-6)
    pub fee: u32,
    /// The spacing between ticks enforced for pools with this fee
    pub tick_spacing: u16,
}

} // verus!
