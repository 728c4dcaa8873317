//! The factory: the protocol owner.
use crate::states::pubkey::Pubkey;
use vstd::prelude::*;

verus! {

/// Holds the current owner of the factory.
///
/// # The owner can
///
/// 1. Set and collect a pool's protocol fees
/// 2. Enable a new fee amount for pool creation
/// 3. Set another address as an owner
///
/// PDA of `[]`
#[derive(Clone, Copy, Debug, Default)]
pub struct FactoryState {
    /// Bump to identify PDA
    pub bump: u8,
    /// Address of the protocol owner
    pub owner: Pubkey,
}

} // verus!
