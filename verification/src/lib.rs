//! Concentrated-liquidity pool arithmetic and state transitions on Q32.32 fixed-point prices.
pub mod error;
pub mod libraries;
pub mod states;
pub mod instructions;
pub mod modify_position;
pub mod swap_router;
pub mod protocol_v2;
