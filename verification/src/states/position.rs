//! Owed liquidity and fee growth per unit of liquidity for each position.
use crate::states::pubkey::Pubkey;
use crate::states::tick::{wrap_u64, wrapping_sub_u64};
use vstd::prelude::*;

verus! {

/// A position of an owner in a tick range of a pool.
///
/// addr: `[token_0, token_1, fee, owner, tick_lower, tick_upper]`
#[derive(Clone, Copy, Debug, Default)]
pub struct PositionState {
    pub bump: u8,
    pub token_0: Pubkey,
    pub token_1: Pubkey,
    pub fee: u32,
    pub owner: Pubkey,
    pub tick_lower: i32,
    pub tick_upper: i32,
    /// Virtual liquidity in the position the last time it was touched
    pub liquidity: u32,
    pub fee_growth_inside_0_last_x32: u64,
    pub fee_growth_inside_1_last_x32: u64,
    pub tokens_owed_0: u64,
    pub tokens_owed_1: u64,
}

impl PositionState {
    /// The liquidity after applying `liquidity_delta`.
    pub open spec fn next_liquidity(self, liquidity_delta: i32) -> int {
        self.liquidity + liquidity_delta
    }

    /// Fees owed in one token since the last update: the liquidity times the fee growth inside
    /// since then (modulo `2^64`).
    pub open spec fn fees_owed(self, fee_growth_inside_x32: u64, fee_growth_inside_last_x32: u64) -> int {
        self.liquidity * wrap_u64(fee_growth_inside_x32 - fee_growth_inside_last_x32)
    }

    /// Inputs on which `update` is defined: a poke (zero delta) needs liquidity, the new
    /// liquidity must fit in a `u32`, and the fees owed must fit in a `u64`.
    pub open spec fn can_update(
        self,
        liquidity_delta: i32,
        fee_growth_inside_0_x32: u64,
        fee_growth_inside_1_x32: u64,
    ) -> bool {
        &&& liquidity_delta == 0 ==> self.liquidity > 0
        &&& liquidity_delta > i32::MIN
        &&& 0 <= self.next_liquidity(liquidity_delta) <= u32::MAX
        &&& self.fees_owed(fee_growth_inside_0_x32, self.fee_growth_inside_0_last_x32) <= u64::MAX
        &&& self.fees_owed(fee_growth_inside_1_x32, self.fee_growth_inside_1_last_x32) <= u64::MAX
    }

    /// The position after `update`: the new liquidity, the fee growth inside recorded, and the
    /// fees owed since the last update added to the tokens owed (modulo `2^64`).
    pub open spec fn updated(
        self,
        liquidity_delta: i32,
        fee_growth_inside_0_x32: u64,
        fee_growth_inside_1_x32: u64,
    ) -> PositionState {
        PositionState {
            liquidity: self.next_liquidity(liquidity_delta) as u32,
            fee_growth_inside_0_last_x32: fee_growth_inside_0_x32,
            fee_growth_inside_1_last_x32: fee_growth_inside_1_x32,
            tokens_owed_0: wrap_u64(
                self.tokens_owed_0 + self.fees_owed(
                    fee_growth_inside_0_x32,
                    self.fee_growth_inside_0_last_x32,
                ),
            ),
            tokens_owed_1: wrap_u64(
                self.tokens_owed_1 + self.fees_owed(
                    fee_growth_inside_1_x32,
                    self.fee_growth_inside_1_last_x32,
                ),
            ),
            ..self
        }
    }

    /// Credit liquidity change and fee growth to a position.
    ///
    /// Fees owed since the last update (liquidity times fee growth inside) are added to the
    /// tokens owed; overflow of the owed amounts is acceptable, since they have to be withdrawn
    /// before reaching `u64::MAX`.
    pub fn update(
        &mut self,
        liquidity_delta: i32,
        fee_growth_inside_0_x32: u64,
        fee_growth_inside_1_x32: u64,
    )
        requires
            old(self).can_update(liquidity_delta, fee_growth_inside_0_x32, fee_growth_inside_1_x32),
        ensures
            *final(self) == old(self).updated(
                liquidity_delta,
                fee_growth_inside_0_x32,
                fee_growth_inside_1_x32,
            ),
    {
        let liquidity_next = if liquidity_delta == 0 {
            // Poke- credit fees to a position without adding more liquidity
            self.liquidity
        } else {
            if liquidity_delta > 0 {
                self.liquidity + liquidity_delta as u32
            } else {
                self.liquidity - (-liquidity_delta) as u32
            }
        };

        // Calculate accumulated Fees
        let tokens_owed_0 = (self.liquidity as u64) * wrapping_sub_u64(
            fee_growth_inside_0_x32,
            self.fee_growth_inside_0_last_x32,
        );
        let tokens_owed_1 = (self.liquidity as u64) * wrapping_sub_u64(
            fee_growth_inside_1_x32,
            self.fee_growth_inside_1_last_x32,
        );

        // Update the position
        if liquidity_delta != 0 {
            self.liquidity = liquidity_next;
        }
        self.fee_growth_inside_0_last_x32 = fee_growth_inside_0_x32;
        self.fee_growth_inside_1_last_x32 = fee_growth_inside_1_x32;

        proof {
            crate::states::tick::lemma_wrap_add(old(self).tokens_owed_0, tokens_owed_0);
            crate::states::tick::lemma_wrap_add(old(self).tokens_owed_1, tokens_owed_1);
        }
        if tokens_owed_0 > 0 || tokens_owed_1 > 0 {
            // overflow is acceptable, have to withdraw before you hit u64::MAX fees
            self.tokens_owed_0 = self.tokens_owed_0.wrapping_add(tokens_owed_0);
            self.tokens_owed_1 = self.tokens_owed_1.wrapping_add(tokens_owed_1);
        }
    }
}

/// Removing liquidity just added, with no fee growth in between, gives back the position's
/// liquidity, and the second update credits no further fees.
pub proof fn lemma_position_update_then_revert(
    position: PositionState,
    liquidity_delta: i32,
    fee_growth_inside_0_x32: u64,
    fee_growth_inside_1_x32: u64,
)
    requires
        liquidity_delta > i32::MIN,
        0 <= position.next_liquidity(liquidity_delta) <= u32::MAX,
    ensures
        ({
            let once = position.updated(
                liquidity_delta,
                fee_growth_inside_0_x32,
                fee_growth_inside_1_x32,
            );
            let twice = once.updated(
                (-liquidity_delta) as i32,
                fee_growth_inside_0_x32,
                fee_growth_inside_1_x32,
            );
            &&& twice.liquidity == position.liquidity
            &&& twice.tokens_owed_0 == once.tokens_owed_0
            &&& twice.tokens_owed_1 == once.tokens_owed_1
            &&& twice.fee_growth_inside_0_last_x32 == fee_growth_inside_0_x32
            &&& twice.fee_growth_inside_1_last_x32 == fee_growth_inside_1_x32
        }),
{
    let once = position.updated(liquidity_delta, fee_growth_inside_0_x32, fee_growth_inside_1_x32);
    vstd::arithmetic::div_mod::lemma_small_mod(0, 0x10000000000000000);
    vstd::arithmetic::div_mod::lemma_small_mod(once.tokens_owed_0 as nat, 0x10000000000000000);
    vstd::arithmetic::div_mod::lemma_small_mod(once.tokens_owed_1 as nat, 0x10000000000000000);
    assert(wrap_u64(fee_growth_inside_0_x32 - fee_growth_inside_0_x32) == 0);
    assert(once.fees_owed(fee_growth_inside_0_x32, once.fee_growth_inside_0_last_x32) == 0);
    assert(once.fees_owed(fee_growth_inside_1_x32, once.fee_growth_inside_1_last_x32) == 0);
    assert(once.liquidity == position.liquidity + liquidity_delta);
}

} // verus!
