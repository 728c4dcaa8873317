//! The pool state.
use crate::states::pubkey::Pubkey;
use vstd::prelude::*;

verus! {

/// The pool state.
///
/// PDA of `[POOL_SEED, token_0, token_1, fee]`
#[derive(Clone, Copy, Debug, Default)]
pub struct PoolState {
    /// Bump to identify PDA
    pub bump: u8,
    /// Token pair of the pool, where token_0 address < token_1 address
    pub token_0: Pubkey,
    pub token_1: Pubkey,
    /// Fee amount for swaps, denominated in hundredths of a bip (i.e. 1e-6)
    pub fee: u32,
    /// The minimum number of ticks between initialized ticks
    pub tick_spacing: u16,
    /// The currently in range liquidity available to the pool.
    /// This value has no relationship to the total liquidity across all ticks.
    pub liquidity: u64,
    /// The current price of the pool as a sqrt(token_1/token_0) Q32.32 value
    pub sqrt_price_x32: u64,
    /// The current tick of the pool, i.e. according to the last tick transition that was run.
    /// Not necessarily a multiple of tick_spacing.
    pub tick: i32,
    /// The index of the last oracle observation that was written
    pub observation_index: u16,
    /// The current maximum number of observations stored in the pool
    pub observation_cardinality: u16,
    /// The next maximum number of observations, to be updated when an observation for a
    /// mint/swap/burn is recorded
    pub observation_cardinality_next: u16,
    /// The fee growth as a Q32.32 number, i.e. fees of token_0 and token_1 collected per
    /// unit of liquidity for the entire life of the pool.
    /// These values can overflow u64
    pub fee_growth_global_0_x32: u64,
    pub fee_growth_global_1_x32: u64,
    /// The protocol's share of swap fees: the denominator for token_0 in the low 4 bits and
    /// for token_1 in the high 4 bits
    pub fee_protocol: u8,
    /// The amounts of token_0 and token_1 that are owed to the protocol.
    /// Protocol fees will never exceed u64::MAX in either token
    pub protocol_fees_token_0: u64,
    pub protocol_fees_token_1: u64,
    /// Whether the pool is currently locked to reentrancy
    pub unlocked: bool,
}

/// The packed protocol fee: `fee_protocol_1` in the high 4 bits, `fee_protocol_0` in the low 4.
pub open spec fn pack_fee_protocol(fee_protocol_0: u8, fee_protocol_1: u8) -> u8 {
    (fee_protocol_1 * 16 + fee_protocol_0) as u8
}

/// The pair `(fee_protocol_0, fee_protocol_1)` held in a packed protocol fee.
pub open spec fn unpack_fee_protocol(fee_protocol: u8) -> (u8, u8) {
    ((fee_protocol % 16) as u8, (fee_protocol / 16) as u8)
}

impl PoolState {
    /// The protocol fee denominator for token_0, stored as the rightmost 4 bits.
    pub fn get_fee_protocol_0(&self) -> (fee_protocol_0: u8)
        ensures
            fee_protocol_0 == unpack_fee_protocol(self.fee_protocol).0,
    {
        self.fee_protocol % 16
    }

    /// The protocol fee denominator for token_1, stored as the leftmost 4 bits: the value
    /// shifted right by 4 places.
    pub fn get_fee_protocol_1(&self) -> (fee_protocol_1: u8)
        ensures
            fee_protocol_1 == unpack_fee_protocol(self.fee_protocol).1,
    {
        let fee_protocol = self.fee_protocol;
        assert(fee_protocol >> 4u8 == fee_protocol / 16) by (bit_vector);
        fee_protocol >> 4
    }
}

} // verus!
