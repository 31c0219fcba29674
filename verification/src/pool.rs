//! The pool ledger and its operations: deposit, withdrawal and swap.
//!
//! The ledger is read through its view, a [`PoolState`]; every contract here
//! is stated over that view. A failed operation changes nothing.
//!
//! Two choices are built in. The fee of a swap is drawn uniformly from the
//! pool's fee band, whatever the reserves are, or named by the caller of
//! [`LpPool::swap_with_fee`]. The liquidity target is kept as configuration:
//! no operation reads it.

use vstd::prelude::*;
use crate::fee::sample_fee;
use crate::fixed_point::{
    compute_scaled_ratio,
    compute_swap_payout,
    is_floor_of_ratio,
    is_nearest_payout,
    lemma_swap_payout_is_nearest,
};
use crate::laws::{
    lemma_deposit_keeps_consistent,
    lemma_swap_keeps_consistent,
    lemma_withdraw_keeps_consistent,
};
use crate::model::PoolState;
use crate::units::{
    Error,
    LpTokenAmount,
    Percentage,
    Price,
    StakedTokenAmount,
    TokenAmount,
    SCALE,
};

verus! {

/// A liquidity pool: a price, two reserves, the LP shares that claim them,
/// and the band of fees charged on swaps.
#[derive(Debug)]
pub struct LpPool {
    price: Price,
    token_amount: TokenAmount,
    st_token_amount: StakedTokenAmount,
    lp_token_amount: LpTokenAmount,
    liquidity_target: TokenAmount,
    min_fee: Percentage,
    max_fee: Percentage,
}

impl View for LpPool {
    type V = PoolState;

    closed spec fn view(&self) -> PoolState {
        PoolState {
            price: self.price.0 as nat,
            base_reserve: self.token_amount.0 as nat,
            staked_reserve: self.st_token_amount.0 as nat,
            lp_supply: self.lp_token_amount.0 as nat,
            liquidity_target: self.liquidity_target.0 as nat,
            min_fee: self.min_fee.0 as nat,
            max_fee: self.max_fee.0 as nat,
        }
    }
}

impl LpPool {
    /// Every pool is consistent and fits its ledger, at every moment.
    #[verifier::type_invariant]
    pub open spec fn inv(self) -> bool {
        self@.consistent() && self@.fits_ledger()
    }

    /// Creates a pool without reserves or shares. A fee band whose lower end
    /// lies above its upper end is refused as invalid; nothing else is asked
    /// of the four values.
    pub fn init(
        price: Price,
        min_fee: Percentage,
        max_fee: Percentage,
        liquidity_target: TokenAmount,
    ) -> (r: Result<LpPool, Error>)
        ensures
            match r {
                Ok(pool) => {
                    &&& min_fee.0 <= max_fee.0
                    &&& pool@ == PoolState::empty(
                        price.0 as nat,
                        min_fee.0 as nat,
                        max_fee.0 as nat,
                        liquidity_target.0 as nat,
                    )
                    &&& pool@.consistent()
                    &&& pool@.fully_backed()
                },
                Err(e) => min_fee.0 > max_fee.0 && e == Error::InvalidInput,
            },
    {
        if min_fee.0 > max_fee.0 {
            return Err(Error::InvalidInput);
        }
        Ok(
            LpPool {
                price,
                token_amount: TokenAmount(0),
                st_token_amount: StakedTokenAmount(0),
                lp_token_amount: LpTokenAmount(0),
                liquidity_target,
                min_fee,
                max_fee,
            },
        )
    }

    /// The price: base tokens paid per staked token.
    pub fn price(&self) -> (price: Price)
        ensures
            price.0 == self@.price,
    {
        self.price
    }

    /// The base tokens held.
    pub fn base_reserve(&self) -> (amount: TokenAmount)
        ensures
            amount.0 == self@.base_reserve,
    {
        self.token_amount
    }

    /// The staked tokens held.
    pub fn staked_reserve(&self) -> (amount: StakedTokenAmount)
        ensures
            amount.0 == self@.staked_reserve,
    {
        self.st_token_amount
    }

    /// The LP shares outstanding.
    pub fn lp_supply(&self) -> (amount: LpTokenAmount)
        ensures
            amount.0 == self@.lp_supply,
    {
        self.lp_token_amount
    }

    /// The configured liquidity target.
    pub fn liquidity_target(&self) -> (amount: TokenAmount)
        ensures
            amount.0 == self@.liquidity_target,
    {
        self.liquidity_target
    }

    /// The lower end of the fee band.
    pub fn min_fee(&self) -> (fee: Percentage)
        ensures
            fee.0 == self@.min_fee,
    {
        self.min_fee
    }

    /// The upper end of the fee band.
    pub fn max_fee(&self) -> (fee: Percentage)
        ensures
            fee.0 == self@.max_fee,
    {
        self.max_fee
    }

    /// Tells whether a deposit of `token_amount` has a defined mint and fits
    /// the ledger, which is what [`LpPool::add_liquidity`] asks of a
    /// positive amount.
    pub fn can_add_liquidity(&self, token_amount: TokenAmount) -> (fits: bool)
        ensures
            fits == self@.deposit_fits(token_amount.0 as nat),
    {
        proof {
            use_type_invariant(self);
        }
        let supply: u64 = self.lp_token_amount.0;
        let base: u64 = self.token_amount.0;
        if supply == 0 {
            return true;
        }
        if base == 0 {
            return false;
        }
        let minted: u128 = compute_scaled_ratio(token_amount.0, supply, base);
        let room: u64 = u64::MAX - supply;
        minted <= room as u128
    }

    /// Deposits `token_amount` base tokens and mints LP shares for them: one
    /// share per unit into a pool without shares, else
    /// `token_amount * lp_supply / base_reserve`, rounded down. Returns the
    /// shares minted.
    ///
    /// An amount of zero is refused as invalid. Asked of a positive amount:
    /// that a pool with shares holds base tokens, without which the mint is
    /// undefined, and that the new share supply fits in `u64`.
    pub fn add_liquidity(&mut self, token_amount: TokenAmount) -> (r: Result<LpTokenAmount, Error>)
        requires
            token_amount.0 > 0 ==> old(self)@.deposit_fits(token_amount.0 as nat),
        ensures
            match r {
                Ok(minted) => {
                    &&& token_amount.0 > 0
                    &&& minted.0 == old(self)@.mint_for(token_amount.0 as nat)
                    &&& final(self)@ == old(self)@.deposited(token_amount.0 as nat)
                },
                Err(e) => {
                    &&& token_amount.0 == 0
                    &&& e == Error::InvalidInput
                    &&& final(self)@ == old(self)@
                },
            },
            r matches Ok(minted) ==> {
                &&& final(self)@.base_reserve == old(self)@.base_reserve + token_amount.0
                &&& final(self)@.lp_supply == old(self)@.lp_supply + minted.0
                &&& final(self)@.staked_reserve == old(self)@.staked_reserve
                &&& minted.0 >= token_amount.0
                &&& old(self)@.lp_supply == 0 ==> minted.0 == token_amount.0
                &&& old(self)@.lp_supply > 0 ==> is_floor_of_ratio(
                    minted.0 as nat,
                    token_amount.0 as nat,
                    old(self)@.lp_supply,
                    old(self)@.base_reserve,
                )
            },
            final(self)@.same_configuration(old(self)@),
            final(self)@.consistent(),
            r is Ok ==> final(self)@.fully_backed(),
    {
        proof {
            use_type_invariant(&*self);
        }
        let amount: u64 = token_amount.0;
        if amount == 0 {
            return Err(Error::InvalidInput);
        }
        let supply: u64 = self.lp_token_amount.0;
        let base: u64 = self.token_amount.0;
        proof {
            lemma_deposit_keeps_consistent(self@, amount as nat);
        }
        let minted: u64 = if supply > 0 {
            let ratio: u128 = compute_scaled_ratio(amount, supply, base);
            ratio as u64
        } else {
            amount
        };
        *self = LpPool {
            token_amount: TokenAmount(base + amount),
            lp_token_amount: LpTokenAmount(supply + minted),
            ..*self
        };
        Ok(LpTokenAmount(minted))
    }

    /// Redeems `lp_token_amount` shares for their proportional part of each
    /// reserve, `reserve * lp_token_amount / lp_supply`, rounded down, and
    /// burns them. Returns the base tokens and the staked tokens paid out.
    ///
    /// Zero shares, or more than are outstanding, are refused for want of
    /// liquidity.
    pub fn remove_liquidity(&mut self, lp_token_amount: LpTokenAmount) -> (r: Result<
        (TokenAmount, StakedTokenAmount),
        Error,
    >)
        ensures
            match r {
                Ok((base_out, staked_out)) => {
                    &&& old(self)@.redeemable(lp_token_amount.0 as nat)
                    &&& base_out.0 == old(self)@.base_share(lp_token_amount.0 as nat)
                    &&& staked_out.0 == old(self)@.staked_share(lp_token_amount.0 as nat)
                    &&& final(self)@ == old(self)@.withdrawn(lp_token_amount.0 as nat)
                },
                Err(e) => {
                    &&& !old(self)@.redeemable(lp_token_amount.0 as nat)
                    &&& e == Error::InsufficientLiquidity
                    &&& final(self)@ == old(self)@
                },
            },
            r matches Ok((base_out, staked_out)) ==> {
                &&& is_floor_of_ratio(
                    base_out.0 as nat,
                    old(self)@.base_reserve,
                    lp_token_amount.0 as nat,
                    old(self)@.lp_supply,
                )
                &&& is_floor_of_ratio(
                    staked_out.0 as nat,
                    old(self)@.staked_reserve,
                    lp_token_amount.0 as nat,
                    old(self)@.lp_supply,
                )
                &&& final(self)@.base_reserve == old(self)@.base_reserve - base_out.0
                &&& final(self)@.staked_reserve == old(self)@.staked_reserve - staked_out.0
                &&& final(self)@.lp_supply == old(self)@.lp_supply - lp_token_amount.0
            },
            final(self)@.same_configuration(old(self)@),
            final(self)@.consistent(),
            r is Ok ==> final(self)@.fully_backed(),
    {
        proof {
            use_type_invariant(&*self);
        }
        let burned: u64 = lp_token_amount.0;
        let supply: u64 = self.lp_token_amount.0;
        if burned == 0 || burned > supply {
            return Err(Error::InsufficientLiquidity);
        }
        let base: u64 = self.token_amount.0;
        let staked: u64 = self.st_token_amount.0;
        proof {
            lemma_withdraw_keeps_consistent(self@, burned as nat);
        }
        let base_out: u64 = compute_scaled_ratio(base, burned, supply) as u64;
        let staked_out: u64 = compute_scaled_ratio(staked, burned, supply) as u64;
        *self = LpPool {
            token_amount: TokenAmount(base - base_out),
            st_token_amount: StakedTokenAmount(staked - staked_out),
            lp_token_amount: LpTokenAmount(supply - burned),
            ..*self
        };
        Ok((TokenAmount(base_out), StakedTokenAmount(staked_out)))
    }

    /// Tells whether the staked reserve can take in `staked_token_amount`
    /// more, which is what the two swaps ask of a positive amount.
    pub fn can_swap(&self, staked_token_amount: StakedTokenAmount) -> (fits: bool)
        ensures
            fits == self@.swap_fits(staked_token_amount.0 as nat),
    {
        staked_token_amount.0 <= u64::MAX - self.st_token_amount.0
    }

    /// Swaps `staked_token_amount` staked tokens for base tokens at the fee
    /// that the caller names. The payout is
    /// `staked_token_amount * price * (1 - fee)`, the three taken as
    /// fixed-point numbers, rounded to the nearest unit. Returns the payout.
    ///
    /// Refused as invalid: an amount of zero, and a fee outside the pool's
    /// band. Refused for want of liquidity: a payout above the base reserve.
    /// Asked of a positive amount: that the staked reserve with the amount
    /// added fits in `u64`.
    pub fn swap_with_fee(&mut self, staked_token_amount: StakedTokenAmount, fee: Percentage) -> (r:
        Result<TokenAmount, Error>)
        requires
            staked_token_amount.0 > 0 ==> old(self)@.swap_fits(staked_token_amount.0 as nat),
        ensures
            old(self)@.swap_yields(
                staked_token_amount.0 as nat,
                fee.0 as nat,
                r,
                final(self)@,
            ),
            r matches Ok(received) ==> {
                &&& final(self)@.base_reserve == old(self)@.base_reserve - received.0
                &&& final(self)@.staked_reserve == old(self)@.staked_reserve
                    + staked_token_amount.0
                &&& final(self)@.lp_supply == old(self)@.lp_supply
                &&& fee.0 <= SCALE ==> is_nearest_payout(
                    received.0 as nat,
                    staked_token_amount.0 as nat,
                    old(self)@.price,
                    fee.0 as nat,
                )
                &&& final(self)@.fully_backed() <==> old(self)@.lp_supply > 0
            },
            final(self)@.same_configuration(old(self)@),
            final(self)@.consistent(),
    {
        proof {
            use_type_invariant(&*self);
        }
        let staked: u64 = staked_token_amount.0;
        if staked == 0 || fee.0 < self.min_fee.0 || fee.0 > self.max_fee.0 {
            return Err(Error::InvalidInput);
        }
        let base: u64 = self.token_amount.0;
        let payout: u128 = compute_swap_payout(staked, self.price.0, fee.0);
        if payout > base as u128 {
            return Err(Error::InsufficientLiquidity);
        }
        proof {
            lemma_swap_keeps_consistent(self@, staked as nat, fee.0 as nat);
            if fee.0 <= SCALE {
                lemma_swap_payout_is_nearest(staked as nat, self@.price, fee.0 as nat);
            }
        }
        let received: u64 = payout as u64;
        *self = LpPool {
            token_amount: TokenAmount(base - received),
            st_token_amount: StakedTokenAmount(self.st_token_amount.0 + staked),
            ..*self
        };
        Ok(TokenAmount(received))
    }

    /// Swaps `staked_token_amount` staked tokens for base tokens at a fee
    /// drawn from the pool's band, each fee of the band as likely as another.
    /// Returns the payout.
    ///
    /// Which fee is drawn is not known beforehand, so the contract says that
    /// some fee of the band accounts for what happened, as
    /// [`LpPool::swap_with_fee`] would have had it. An amount of zero is
    /// refused as invalid before any fee is drawn, and nothing else is.
    /// Asked of a positive amount: that the staked reserve with the amount
    /// added fits in `u64`.
    pub fn swap(&mut self, staked_token_amount: StakedTokenAmount) -> (r: Result<TokenAmount, Error>)
        requires
            staked_token_amount.0 > 0 ==> old(self)@.swap_fits(staked_token_amount.0 as nat),
        ensures
            exists|fee: nat|
                old(self)@.fee_in_band(fee) && #[trigger] old(self)@.swap_yields(
                    staked_token_amount.0 as nat,
                    fee,
                    r,
                    final(self)@,
                ),
            r == Err::<TokenAmount, Error>(Error::InvalidInput) <==> staked_token_amount.0 == 0,
            r is Err ==> final(self)@ == old(self)@,
            r matches Ok(received) ==> {
                &&& final(self)@.base_reserve == old(self)@.base_reserve - received.0
                &&& final(self)@.staked_reserve == old(self)@.staked_reserve
                    + staked_token_amount.0
                &&& final(self)@.lp_supply == old(self)@.lp_supply
                &&& final(self)@.fully_backed() <==> old(self)@.lp_supply > 0
            },
            final(self)@.same_configuration(old(self)@),
            final(self)@.consistent(),
    {
        proof {
            use_type_invariant(&*self);
        }
        if staked_token_amount.0 == 0 {
            assert(self@.fee_in_band(self@.min_fee) && self@.swap_yields(
                0,
                self@.min_fee,
                Err(Error::InvalidInput),
                self@,
            ));
            return Err(Error::InvalidInput);
        }
        let fee: u64 = sample_fee(self.min_fee.0, self.max_fee.0);
        let r = self.swap_with_fee(staked_token_amount, Percentage(fee));
        assert(old(self)@.fee_in_band(fee as nat) && old(self)@.swap_yields(
            staked_token_amount.0 as nat,
            fee as nat,
            r,
            self@,
        ));
        r
    }
}

} // verus!
