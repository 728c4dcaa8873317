//! Program account states and the operations on them.
pub mod tick_bitmap;
pub mod tick;
pub mod position;
pub mod pubkey;
pub mod factory;
pub mod fee;
pub mod oracle;
pub mod pool;
pub mod position_manager;
