use vstd::prelude::*;

verus! {

/// Errors returned by the pool library.
#[derive(Clone, Copy, Debug, PartialEq, Eq, Structural)]
pub enum ErrorCode {
    /// The pool is locked against reentrancy.
    LOK,
    /// Lower tick must be less than the upper tick.
    TLU,
    /// The tick is below the minimum tick.
    TLM,
    /// The tick is above the maximum tick.
    TUM,
    /// The tick is not a multiple of the tick spacing.
    TMS,
    /// Token 0 balance did not increase by the owed amount.
    M0,
    /// Token 1 balance did not increase by the owed amount.
    M1,
    /// The square-root price is outside the supported range.
    R,
    /// The tick magnitude exceeds the maximum tick.
    T,
    /// Liquidity subtraction underflowed.
    LS,
    /// Liquidity addition overflowed.
    LA,
    /// Gross liquidity of a tick exceeds the per-tick maximum.
    LO,
}

} // verus!
