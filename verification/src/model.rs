//! The mathematical model of the pool ledger: its state as natural numbers
//! and each operation as a function from state to state.

use vstd::prelude::*;
use crate::fixed_point::{scaled_ratio, swap_payout};
use crate::units::{Error, TokenAmount};

verus! {

/// What a pool holds, in fixed-point units without machine bounds.
pub struct PoolState {
    /// Base tokens paid per staked token.
    pub price: nat,
    /// Base tokens held, from which swaps and withdrawals are paid.
    pub base_reserve: nat,
    /// Staked tokens taken in by swaps, paid out on withdrawal.
    pub staked_reserve: nat,
    /// LP shares outstanding: the claims on both reserves.
    pub lp_supply: nat,
    /// The configured target level of the base reserve. No operation reads it.
    pub liquidity_target: nat,
    /// The least fee a swap may be charged, as a fraction of `SCALE`.
    pub min_fee: nat,
    /// The greatest fee a swap may be charged, as a fraction of `SCALE`.
    pub max_fee: nat,
}

impl PoolState {
    /// A pool that holds nothing and has issued no shares.
    pub open spec fn empty(price: nat, min_fee: nat, max_fee: nat, liquidity_target: nat) -> PoolState {
        PoolState {
            price,
            base_reserve: 0,
            staked_reserve: 0,
            lp_supply: 0,
            liquidity_target,
            min_fee,
            max_fee,
        }
    }

    /// What holds of every pool, whatever was done to it: the fee band is not
    /// inverted, the base reserve does not exceed the shares outstanding, and
    /// outstanding shares are backed by at least one of the reserves.
    pub open spec fn consistent(self) -> bool {
        &&& self.min_fee <= self.max_fee
        &&& self.base_reserve <= self.lp_supply
        &&& (self.lp_supply > 0 ==> self.base_reserve > 0 || self.staked_reserve > 0)
    }

    /// No shares are outstanding exactly when both reserves are empty.
    pub open spec fn fully_backed(self) -> bool {
        self.lp_supply == 0 <==> self.base_reserve == 0 && self.staked_reserve == 0
    }

    /// `other` has the price, the fee band and the liquidity target of this
    /// pool: what is set when a pool is made and never changes after.
    pub open spec fn same_configuration(self, other: PoolState) -> bool {
        &&& self.price == other.price
        &&& self.liquidity_target == other.liquidity_target
        &&& self.min_fee == other.min_fee
        &&& self.max_fee == other.max_fee
    }

    /// Every field fits the `u64` that stores it.
    pub open spec fn fits_ledger(self) -> bool {
        &&& self.price <= u64::MAX
        &&& self.base_reserve <= u64::MAX
        &&& self.staked_reserve <= u64::MAX
        &&& self.lp_supply <= u64::MAX
        &&& self.liquidity_target <= u64::MAX
        &&& self.min_fee <= u64::MAX
        &&& self.max_fee <= u64::MAX
    }

    /// The shares minted for a deposit of `amount`: one per unit into a pool
    /// without shares, else in the proportion of shares to base reserve,
    /// rounded down. The staked reserve plays no part in it.
    pub open spec fn mint_for(self, amount: nat) -> nat {
        if self.lp_supply > 0 {
            scaled_ratio(amount, self.lp_supply, self.base_reserve)
        } else {
            amount
        }
    }

    /// A deposit of `amount` has a defined mint and the ledger can hold it.
    pub open spec fn deposit_fits(self, amount: nat) -> bool {
        &&& self.lp_supply > 0 ==> self.base_reserve > 0
        &&& self.lp_supply + self.mint_for(amount) <= u64::MAX
    }

    /// The pool after a deposit of `amount`.
    pub open spec fn deposited(self, amount: nat) -> PoolState {
        PoolState {
            base_reserve: self.base_reserve + amount,
            lp_supply: self.lp_supply + self.mint_for(amount),
            ..self
        }
    }

    /// `lp_amount` shares can be redeemed: a positive number, no more than exist.
    pub open spec fn redeemable(self, lp_amount: nat) -> bool {
        0 < lp_amount <= self.lp_supply
    }

    /// The base tokens that `lp_amount` shares redeem, rounded down.
    pub open spec fn base_share(self, lp_amount: nat) -> nat {
        scaled_ratio(self.base_reserve, lp_amount, self.lp_supply)
    }

    /// The staked tokens that `lp_amount` shares redeem, rounded down.
    pub open spec fn staked_share(self, lp_amount: nat) -> nat {
        scaled_ratio(self.staked_reserve, lp_amount, self.lp_supply)
    }

    /// The pool after `lp_amount` shares were redeemed.
    pub open spec fn withdrawn(self, lp_amount: nat) -> PoolState {
        PoolState {
            base_reserve: (self.base_reserve - self.base_share(lp_amount)) as nat,
            staked_reserve: (self.staked_reserve - self.staked_share(lp_amount)) as nat,
            lp_supply: (self.lp_supply - lp_amount) as nat,
            ..self
        }
    }

    /// `fee` lies in the closed band of fees that this pool charges.
    pub open spec fn fee_in_band(self, fee: nat) -> bool {
        self.min_fee <= fee <= self.max_fee
    }

    /// The base tokens that a swap of `staked` pays at a fee of `fee`.
    pub open spec fn payout_for(self, staked: nat, fee: nat) -> nat {
        swap_payout(staked, self.price, fee)
    }

    /// The staked reserve can take in `staked` more.
    pub open spec fn swap_fits(self, staked: nat) -> bool {
        self.staked_reserve + staked <= u64::MAX
    }

    /// The pool after a swap of `staked` staked tokens at a fee of `fee`.
    pub open spec fn swapped(self, staked: nat, fee: nat) -> PoolState {
        PoolState {
            base_reserve: (self.base_reserve - self.payout_for(staked, fee)) as nat,
            staked_reserve: self.staked_reserve + staked,
            ..self
        }
    }

    /// A swap of `staked` at a fee of `fee` gives `result` and leaves the pool
    /// as `after`. For each `staked` and `fee` exactly one `result` and one
    /// `after` qualify: the swap is refused as invalid when nothing is offered
    /// or the fee lies outside the band, refused for want of liquidity when
    /// the payout exceeds the base reserve, and carried out otherwise.
    pub open spec fn swap_yields(
        self,
        staked: nat,
        fee: nat,
        result: Result<TokenAmount, Error>,
        after: PoolState,
    ) -> bool {
        match result {
            Ok(received) => {
                &&& staked > 0
                &&& self.fee_in_band(fee)
                &&& received.0 == self.payout_for(staked, fee)
                &&& received.0 <= self.base_reserve
                &&& after == self.swapped(staked, fee)
            },
            Err(Error::InvalidInput) => {
                &&& staked == 0 || !self.fee_in_band(fee)
                &&& after == self
            },
            Err(Error::InsufficientLiquidity) => {
                &&& staked > 0
                &&& self.fee_in_band(fee)
                &&& self.payout_for(staked, fee) > self.base_reserve
                &&& after == self
            },
        }
    }
}

} // verus!
