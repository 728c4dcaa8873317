//! Fixed-point math libraries.
pub mod bit_math;
pub mod fixed_point_x32;
pub mod full_math;
pub mod sqrt_price_math;
pub mod unsafe_math;
pub mod liquidity_math;
pub mod tick_math_x16;
pub mod tick_math;
pub mod tick_order;
