//! What holds of the model across operations: each operation keeps a pool
//! consistent, and a deposit can be taken out again.

use vstd::prelude::*;
use crate::fixed_point::{
    is_floor_of_ratio,
    is_nearest_payout,
    lemma_scaled_ratio_is_floor,
    lemma_swap_payout_is_nearest,
};
use crate::model::PoolState;
use crate::units::{Error, TokenAmount, SCALE};

verus! {

/// A pool without reserves or shares is consistent and fully backed, provided
/// its fee band is not inverted.
pub proof fn lemma_empty_is_consistent(price: nat, min_fee: nat, max_fee: nat, liquidity_target: nat)
    requires
        min_fee <= max_fee,
    ensures
        PoolState::empty(price, min_fee, max_fee, liquidity_target).consistent(),
        PoolState::empty(price, min_fee, max_fee, liquidity_target).fully_backed(),
{
}

/// A deposit mints at least one share per unit deposited, exactly one per unit
/// into a pool without shares, and leaves the pool consistent and fully backed.
pub proof fn lemma_deposit_keeps_consistent(pool: PoolState, amount: nat)
    requires
        pool.consistent(),
        amount > 0,
        pool.lp_supply > 0 ==> pool.base_reserve > 0,
    ensures
        pool.mint_for(amount) >= amount,
        pool.lp_supply == 0 ==> pool.mint_for(amount) == amount,
        pool.lp_supply > 0 ==> is_floor_of_ratio(
            pool.mint_for(amount),
            amount,
            pool.lp_supply,
            pool.base_reserve,
        ),
        pool.deposited(amount).consistent(),
        pool.deposited(amount).fully_backed(),
{
    if pool.lp_supply > 0 {
        lemma_scaled_ratio_is_floor(amount, pool.lp_supply, pool.base_reserve);
    }
}

/// Redeeming shares pays from each reserve its proportional part, rounded
/// down and never more than the reserve holds, pays both reserves out in full
/// when every share is redeemed, and leaves the pool consistent and fully backed.
pub proof fn lemma_withdraw_keeps_consistent(pool: PoolState, lp_amount: nat)
    requires
        pool.consistent(),
        pool.redeemable(lp_amount),
    ensures
        is_floor_of_ratio(pool.base_share(lp_amount), pool.base_reserve, lp_amount, pool.lp_supply),
        is_floor_of_ratio(
            pool.staked_share(lp_amount),
            pool.staked_reserve,
            lp_amount,
            pool.lp_supply,
        ),
        pool.base_share(lp_amount) <= pool.base_reserve,
        pool.staked_share(lp_amount) <= pool.staked_reserve,
        lp_amount == pool.lp_supply ==> pool.base_share(lp_amount) == pool.base_reserve
            && pool.staked_share(lp_amount) == pool.staked_reserve,
        pool.withdrawn(lp_amount).consistent(),
        pool.withdrawn(lp_amount).fully_backed(),
{
    let supply = pool.lp_supply;
    let base = pool.base_reserve;
    let staked = pool.staked_reserve;
    let base_out = pool.base_share(lp_amount);
    let staked_out = pool.staked_share(lp_amount);
    lemma_scaled_ratio_is_floor(base, lp_amount, supply);
    lemma_scaled_ratio_is_floor(staked, lp_amount, supply);
    assert(base - base_out <= supply - lp_amount) by (nonlinear_arith)
        requires
            base * lp_amount < (base_out + 1) * supply,
            0 < lp_amount <= supply,
            base <= supply,
    {
        assert((supply - lp_amount) * (supply - base) >= 0);
        assert(base * lp_amount - (lp_amount - supply + base) * supply == (supply - lp_amount)
            * (supply - base));
        assert((base_out + 1) * supply > (lp_amount - supply + base) * supply);
    }
    if lp_amount < supply {
        if base > 0 {
            assert(base_out < base) by (nonlinear_arith)
                requires
                    base_out * supply <= base * lp_amount,
                    0 < lp_amount < supply,
                    base > 0,
            ;
        } else {
            assert(staked_out < staked) by (nonlinear_arith)
                requires
                    staked_out * supply <= staked * lp_amount,
                    0 < lp_amount < supply,
                    staked > 0,
            ;
        }
    }
}

/// A swap that is carried out leaves the pool consistent. It leaves the pool
/// fully backed exactly when shares are outstanding: staked tokens swapped
/// into a pool without shares, for a payout of nothing, are claimed by no one.
pub proof fn lemma_swap_keeps_consistent(pool: PoolState, staked: nat, fee: nat)
    requires
        pool.consistent(),
        staked > 0,
        pool.payout_for(staked, fee) <= pool.base_reserve,
    ensures
        pool.swapped(staked, fee).consistent(),
        pool.swapped(staked, fee).fully_backed() <==> pool.lp_supply > 0,
{
}

/// What a swap gives and how it leaves the pool is settled by the amount
/// offered and the fee charged.
pub proof fn lemma_swap_outcome_is_settled(
    pool: PoolState,
    staked: nat,
    fee: nat,
    first: Result<TokenAmount, Error>,
    after_first: PoolState,
    second: Result<TokenAmount, Error>,
    after_second: PoolState,
)
    requires
        pool.swap_yields(staked, fee, first, after_first),
        pool.swap_yields(staked, fee, second, after_second),
    ensures
        first == second,
        after_first == after_second,
{
}

/// A swap that is carried out was charged a fee of the pool's band, and what
/// it paid is within half a unit of the net value at that fee, for every fee
/// up to the whole value. Above that the net value is negative and the swap
/// pays nothing.
pub proof fn lemma_swap_pays_net_value(
    pool: PoolState,
    staked: nat,
    fee: nat,
    received: TokenAmount,
    after: PoolState,
)
    requires
        pool.swap_yields(staked, fee, Ok::<TokenAmount, Error>(received), after),
    ensures
        pool.min_fee <= fee <= pool.max_fee,
        fee <= SCALE ==> is_nearest_payout(received.0 as nat, staked, pool.price, fee),
        fee >= SCALE ==> received.0 == 0,
        after.base_reserve + received.0 == pool.base_reserve,
        after.staked_reserve == pool.staked_reserve + staked,
        after.lp_supply == pool.lp_supply,
{
    if fee <= SCALE {
        lemma_swap_payout_is_nearest(staked, pool.price, fee);
    }
}

/// Depositing `amount` and at once redeeming the shares minted for it gives
/// `amount` back, less at most one unit lost to rounding, and nothing lost on
/// the first deposit into a pool. The shares minted are always redeemable.
/// From the staked reserve they redeem their proportional part, which is
/// nothing where the pool held no staked tokens.
pub proof fn lemma_deposit_then_withdraw(pool: PoolState, amount: nat)
    requires
        pool.consistent(),
        amount > 0,
        pool.lp_supply > 0 ==> pool.base_reserve > 0,
    ensures
        pool.deposited(amount).redeemable(pool.mint_for(amount)),
        amount - 1 <= pool.deposited(amount).base_share(pool.mint_for(amount)) <= amount,
        pool.lp_supply == 0 ==> pool.deposited(amount).base_share(pool.mint_for(amount))
            == amount,
        pool.staked_reserve == 0 ==> pool.deposited(amount).staked_share(pool.mint_for(amount))
            == 0,
{
    let minted = pool.mint_for(amount);
    let after = pool.deposited(amount);
    let returned = after.base_share(minted);
    lemma_deposit_keeps_consistent(pool, amount);
    lemma_withdraw_keeps_consistent(after, minted);
    if pool.lp_supply > 0 {
        let base = pool.base_reserve;
        let supply = pool.lp_supply;
        assert(returned <= amount) by (nonlinear_arith)
            requires
                minted * base <= amount * supply,
                returned * (supply + minted) <= (base + amount) * minted,
                supply + minted > 0,
        {
            assert((base + amount) * minted <= amount * (supply + minted));
        }
        assert(returned + 1 >= amount) by (nonlinear_arith)
            requires
                amount * supply < (minted + 1) * base,
                (base + amount) * minted < (returned + 1) * (supply + minted),
                base <= supply,
                minted >= 0,
                supply > 0,
        {
            assert((base + amount) * minted > amount * (supply + minted) - base);
            assert((amount - 1) * (supply + minted) <= amount * (supply + minted) - base);
        }
    }
}

} // verus!
