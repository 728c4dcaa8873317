//! Oracle observations of price and liquidity.
//!
//! Instances of stored oracle data, "observations", are collected in the oracle array,
//! represented as PDAs with array index as seed.  Every pool is initialized with an oracle array
//! length of 1; anyone can pay to increase the max length of the array by initializing new
//! accounts.  Block time is partitioned in 14 second intervals: a new observation is written to
//! the next slot only when the current time lies in a later partition than the last observation.
use vstd::prelude::*;

verus! {

/// Length in seconds of an oracle time partition.
pub const OBSERVATION_PARTITION_SECONDS: u32 = 14;

/// Returns data about a specific observation index.
///
/// PDA of `[token_0, token_1, fee, index]`
#[derive(Clone, Copy, Debug, Default, PartialEq, Eq, Structural)]
pub struct ObservationState {
    /// Bump to identify PDA
    pub bump: u8,
    /// The element of the observations array stored in this account
    pub index: u16,
    /// The block timestamp of the observation
    pub block_timestamp: u32,
    /// The tick multiplied by seconds elapsed for the life of the pool as of the observation timestamp
    pub tick_cumulative: u64,
    /// The seconds per in range liquidity for the life of the pool as of the observation timestamp
    pub seconds_per_liquidity_cumulative_x32: u64,
    /// Whether the observation has been initialized and the values are safe to use
    pub initialized: bool,
}

/// The partition of block time that a timestamp falls in.
pub open spec fn partition(timestamp: u32) -> int {
    timestamp as int / 14
}

/// Whether an observation at `timestamp` goes to the next slot of the oracle array: true when
/// `timestamp` reaches the start of the partition after that of the latest observation, i.e.
/// when it lies in a later partition; otherwise the latest slot is overwritten.
pub fn writes_next_observation(latest_block_timestamp: u32, timestamp: u32) -> (next: bool)
    requires
        (latest_block_timestamp / 14 + 1) * 14 <= u32::MAX,
    ensures
        next == (partition(timestamp) > partition(latest_block_timestamp)),
{
    let next_observation_start = (latest_block_timestamp / OBSERVATION_PARTITION_SECONDS + 1)
        * OBSERVATION_PARTITION_SECONDS;
    proof {
        let p = latest_block_timestamp as int / 14;
        vstd::arithmetic::div_mod::lemma_fundamental_div_mod(timestamp as int, 14);
        vstd::arithmetic::div_mod::lemma_mod_bound(timestamp as int, 14);
    }
    timestamp >= next_observation_start
}

} // verus!
