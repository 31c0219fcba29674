//! The two formulas of the pool over fixed-point integers, each as a spec
//! function over `nat` and as an executable function proved equal to it.
//!
//! Amounts are `u64`; every intermediate product is taken in `u128`, so no
//! result is ever clipped: a function here returns the exact value even where
//! that value is too large for any ledger to hold.

use vstd::prelude::*;
use vstd::arithmetic::div_mod::{lemma_fundamental_div_mod, lemma_hoist_over_denominator, lemma_mod_bound};
use crate::units::SCALE;

verus! {

/// `SCALE * SCALE`: the divisor that brings the product of a staked amount, a
/// price and a fraction, each in fixed-point units, back to fixed-point units.
pub const SCALE_SQUARED: u128 = 1_000_000_000_000;

/// Half of `SCALE_SQUARED`: added before dividing, it rounds to the nearest unit.
pub const HALF_SCALE_SQUARED: u128 = 500_000_000_000;

/// `amount * numer / denom`, rounded down. Meaningful for `denom > 0`.
pub open spec fn scaled_ratio(amount: nat, numer: nat, denom: nat) -> nat
    recommends
        denom > 0,
{
    ((amount * numer) as int / denom as int) as nat
}

/// `share` is the proportional part `numer / denom` of `amount`, rounded down:
/// the largest whole number with `share * denom <= amount * numer`.
pub open spec fn is_floor_of_ratio(share: nat, amount: nat, numer: nat, denom: nat) -> bool {
    share * denom <= amount * numer < (share + 1) * denom
}

/// The base tokens paid for `staked` staked tokens at `price` after a fee of
/// `fee / SCALE` of the gross value, rounded to the nearest unit, a half
/// rounding up. A fee of the whole value or more leaves nothing to pay.
pub open spec fn swap_payout(staked: nat, price: nat, fee: nat) -> nat {
    if fee >= SCALE {
        0
    } else {
        ((staked * price * (SCALE - fee) + HALF_SCALE_SQUARED) / (SCALE_SQUARED as int)) as nat
    }
}

/// `payout` is within half a unit of `staked * price * (1 - fee / SCALE)`,
/// all three taken as fixed-point numbers.
pub open spec fn is_nearest_payout(payout: nat, staked: nat, price: nat, fee: nat) -> bool {
    let exact = staked * price * (SCALE - fee);
    2 * payout * SCALE_SQUARED - SCALE_SQUARED <= 2 * exact < 2 * payout * SCALE_SQUARED
        + SCALE_SQUARED
}

/// `scaled_ratio` is the floor of the exact ratio, and compares with `amount`
/// as `numer` compares with `denom`.
pub proof fn lemma_scaled_ratio_is_floor(amount: nat, numer: nat, denom: nat)
    requires
        denom > 0,
    ensures
        is_floor_of_ratio(scaled_ratio(amount, numer, denom), amount, numer, denom),
        numer <= denom ==> scaled_ratio(amount, numer, denom) <= amount,
        numer == denom ==> scaled_ratio(amount, numer, denom) == amount,
        numer >= denom ==> scaled_ratio(amount, numer, denom) >= amount,
{
    let x = (amount * numer) as int;
    let d = denom as int;
    let q = x / d;
    lemma_fundamental_div_mod(x, d);
    lemma_mod_bound(x, d);
    assert(q * d <= x < (q + 1) * d) by (nonlinear_arith)
        requires
            x == d * q + x % d,
            0 <= x % d < d,
    ;
    assert(q >= 0) by (nonlinear_arith)
        requires
            x < (q + 1) * d,
            x >= 0,
            d > 0,
    ;
    if numer <= denom {
        assert(q <= amount) by (nonlinear_arith)
            requires
                q * d <= amount * numer,
                numer <= d,
                d > 0,
                q >= 0,
        ;
    }
    if numer >= denom {
        assert(q >= amount) by (nonlinear_arith)
            requires
                amount * numer < (q + 1) * d,
                numer >= d,
                d > 0,
                q >= 0,
        ;
    }
}

/// Computes `amount * numer / denom`, rounded down, without overflow.
pub fn compute_scaled_ratio(amount: u64, numer: u64, denom: u64) -> (ratio: u128)
    requires
        denom > 0,
    ensures
        ratio == scaled_ratio(amount as nat, numer as nat, denom as nat),
{
    assert(amount * numer <= u64::MAX * u64::MAX) by (nonlinear_arith)
        requires
            amount <= u64::MAX,
            numer <= u64::MAX,
    ;
    let product: u128 = (amount as u128) * (numer as u128);
    product / (denom as u128)
}

/// Computes the payout of a swap, without overflow: the gross value is split
/// into whole multiples of `SCALE_SQUARED` and a remainder, and the fee is
/// taken from each part.
pub fn compute_swap_payout(staked: u64, price: u64, fee: u64) -> (payout: u128)
    ensures
        payout == swap_payout(staked as nat, price as nat, fee as nat),
{
    if fee >= SCALE {
        return 0;
    }
    assert(staked * price <= u64::MAX * u64::MAX) by (nonlinear_arith)
        requires
            staked <= u64::MAX,
            price <= u64::MAX,
    ;
    let gross: u128 = (staked as u128) * (price as u128);
    let kept: u128 = (SCALE - fee) as u128;
    let whole: u128 = gross / SCALE_SQUARED;
    let rest: u128 = gross % SCALE_SQUARED;
    assert(whole * kept <= 340282366920938463463374607 * 1_000_000) by (nonlinear_arith)
        requires
            whole <= 340282366920938463463374607,
            kept <= 1_000_000,
    ;
    assert(rest * kept <= 1_000_000_000_000 * 1_000_000) by (nonlinear_arith)
        requires
            rest <= 1_000_000_000_000,
            kept <= 1_000_000,
    ;
    let rounded: u128 = (rest * kept + HALF_SCALE_SQUARED) / SCALE_SQUARED;
    proof {
        let d = SCALE_SQUARED as int;
        lemma_fundamental_div_mod(gross as int, d);
        assert(gross * kept == (whole * kept) * d + rest * kept) by (nonlinear_arith)
            requires
                gross == d * whole + rest,
        ;
        lemma_hoist_over_denominator(rest * kept + HALF_SCALE_SQUARED, whole * kept, d as nat);
        assert(staked * price * (SCALE - fee) == gross * kept);
    }
    whole * kept + rounded
}

/// The payout is the whole number nearest to the exact net value.
pub proof fn lemma_swap_payout_is_nearest(staked: nat, price: nat, fee: nat)
    requires
        fee <= SCALE,
    ensures
        is_nearest_payout(swap_payout(staked, price, fee), staked, price, fee),
{
    if fee < SCALE {
        let x = staked * price * (SCALE - fee) + HALF_SCALE_SQUARED;
        let d = SCALE_SQUARED as int;
        lemma_fundamental_div_mod(x, d);
        lemma_mod_bound(x, d);
        assert(staked * price * (SCALE - fee) >= 0) by (nonlinear_arith)
            requires
                staked >= 0,
                price >= 0,
                SCALE - fee >= 0,
        ;
    } else {
        assert(staked * price * (SCALE - fee) == 0) by (nonlinear_arith)
            requires
                SCALE - fee == 0,
        ;
    }
}

} // verus!
