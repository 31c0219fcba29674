//! A single-sided liquidity pool for a staked-token / base-token pair.
//!
//! Liquidity providers deposit base tokens and receive LP shares; traders swap
//! staked tokens for base tokens at a fixed price less a fee. All quantities
//! are fixed-point integers at [`units::SCALE`] units per whole token, and all
//! accounting is exact integer arithmetic with stated rounding.

mod fee;
pub mod fixed_point;
pub mod laws;
pub mod model;
pub mod pool;
pub mod units;

pub use units::{Error, LpTokenAmount, Percentage, Price, StakedTokenAmount, TokenAmount, SCALE};
pub use model::PoolState;
pub use pool::LpPool;
