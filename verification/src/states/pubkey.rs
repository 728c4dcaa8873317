//! Account addresses.
use vstd::prelude::*;

verus! {

/// An account address, held as its 32 bytes.
pub type Pubkey = [u8; 32];

} // verus!
