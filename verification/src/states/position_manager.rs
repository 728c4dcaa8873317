//! State of the position manager.
use vstd::prelude::*;

verus! {

/// The position manager, which owns positions on behalf of token holders.
#[derive(Clone, Copy, Debug, Default, PartialEq, Eq, Structural)]
pub struct PositionManagerState {
    /// Bump to identify PDA
    pub bump: u8,
}

/// Initializes the position manager's state with its bump.
///
/// # Arguments
///
/// * `position_manager_state_bump` - Bump to validate the position manager state address
pub fn initialize(position_manager_state_bump: u8) -> (state: PositionManagerState)
    ensures
        state.bump == position_manager_state_bump,
{
    PositionManagerState { bump: position_manager_state_bump }
}

} // verus!
