//! Fixed-point quantities and the error kinds of the pool.

use vstd::prelude::*;

verus! {

/// Number of fixed-point units in one whole token, and in a fee of 100%.
pub const SCALE: u64 = 1_000_000;

/// An amount of base token, in fixed-point units.
#[derive(Debug, Clone, Copy, PartialEq, Eq, Structural)]
pub struct TokenAmount(pub u64);

/// An amount of staked token, in fixed-point units.
#[derive(Debug, Clone, Copy, PartialEq, Eq, Structural)]
pub struct StakedTokenAmount(pub u64);

/// An amount of LP shares, in fixed-point units.
#[derive(Debug, Clone, Copy, PartialEq, Eq, Structural)]
pub struct LpTokenAmount(pub u64);

/// Base tokens paid per staked token, in fixed-point units.
#[derive(Debug, Clone, Copy, PartialEq, Eq, Structural)]
pub struct Price(pub u64);

/// A fraction of one, in fixed-point units: `SCALE` stands for 100%.
#[derive(Debug, Clone, Copy, PartialEq, Eq, Structural)]
pub struct Percentage(pub u64);

/// Why an operation on the pool was refused.
#[derive(Debug, Clone, Copy, PartialEq, Eq, Structural)]
pub enum Error {
    /// More was asked of the pool than it holds.
    InsufficientLiquidity,
    /// An amount that must be positive was zero, a fee lay outside its band,
    /// or a fee band was given with its ends reversed.
    InvalidInput,
}

} // verus!
