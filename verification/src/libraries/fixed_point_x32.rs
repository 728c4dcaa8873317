//! Constants of the Q32.32 fixed-point format used for square-root prices.
use vstd::prelude::*;

verus! {

/// Number of fractional bits of a Q32.32 number.
pub const RESOLUTION: u8 = 32;

/// `2^32`, the Q32.32 representation of one.
pub const Q32: u64 = 4294967296;

} // verus!
