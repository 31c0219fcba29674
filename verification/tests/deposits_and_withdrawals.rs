use lp_pool::{Error, LpPool, LpTokenAmount, Percentage, Price, StakedTokenAmount, TokenAmount};

fn fresh_pool() -> LpPool {
    LpPool::init(Price(1_500_000), Percentage(9_000), Percentage(90_000), TokenAmount(90_000_000))
        .unwrap()
}

/// A pool with 100.0 base tokens, 6.0 staked tokens and 100.0 shares.
fn traded_pool() -> LpPool {
    let mut pool = fresh_pool();
    pool.add_liquidity(TokenAmount(100_000_000)).unwrap();
    pool.swap_with_fee(StakedTokenAmount(6_000_000), Percentage(9_000)).unwrap();
    pool
}

fn reserves(pool: &LpPool) -> (u64, u64, u64) {
    (pool.base_reserve().0, pool.staked_reserve().0, pool.lp_supply().0)
}

#[test]
fn init_starts_empty_and_keeps_its_configuration() {
    let pool = fresh_pool();
    assert_eq!(reserves(&pool), (0, 0, 0));
    assert_eq!(pool.price(), Price(1_500_000));
    assert_eq!(pool.min_fee(), Percentage(9_000));
    assert_eq!(pool.max_fee(), Percentage(90_000));
    assert_eq!(pool.liquidity_target(), TokenAmount(90_000_000));
}

#[test]
fn init_refuses_an_inverted_fee_band() {
    let r = LpPool::init(Price(1_500_000), Percentage(90_001), Percentage(90_000), TokenAmount(0));
    assert_eq!(r.err(), Some(Error::InvalidInput));
}

#[test]
fn init_accepts_a_band_of_one_fee_and_zero_values() {
    let pool = LpPool::init(Price(0), Percentage(0), Percentage(0), TokenAmount(0)).unwrap();
    assert_eq!(reserves(&pool), (0, 0, 0));
    assert_eq!(pool.price(), Price(0));
}

#[test]
fn operations_leave_the_configuration_alone() {
    let mut pool = traded_pool();
    pool.add_liquidity(TokenAmount(5)).unwrap();
    pool.remove_liquidity(LpTokenAmount(3)).unwrap();
    assert_eq!(pool.price(), Price(1_500_000));
    assert_eq!(pool.min_fee(), Percentage(9_000));
    assert_eq!(pool.max_fee(), Percentage(90_000));
    assert_eq!(pool.liquidity_target(), TokenAmount(90_000_000));
}

#[test]
fn first_deposit_mints_one_share_per_unit() {
    let mut pool = fresh_pool();
    assert!(pool.can_add_liquidity(TokenAmount(100_000_000)));
    let minted = pool.add_liquidity(TokenAmount(100_000_000));
    assert_eq!(minted, Ok(LpTokenAmount(100_000_000)));
    assert_eq!(reserves(&pool), (100_000_000, 0, 100_000_000));
}

#[test]
fn first_deposit_of_one_unit() {
    let mut pool = fresh_pool();
    assert_eq!(pool.add_liquidity(TokenAmount(1)), Ok(LpTokenAmount(1)));
    assert_eq!(reserves(&pool), (1, 0, 1));
}

#[test]
fn later_deposit_mints_in_proportion_to_the_base_reserve() {
    let mut pool = traded_pool();
    assert_eq!(reserves(&pool), (91_081_000, 6_000_000, 100_000_000));
    // 10.0 * 100.0 / 91.081 = 10.979238...
    let minted = pool.add_liquidity(TokenAmount(10_000_000));
    assert_eq!(minted, Ok(LpTokenAmount(10_979_238)));
    assert_eq!(reserves(&pool), (101_081_000, 6_000_000, 110_979_238));
}

#[test]
fn deposit_into_an_untraded_pool_keeps_one_share_per_unit() {
    let mut pool = fresh_pool();
    pool.add_liquidity(TokenAmount(100_000_000)).unwrap();
    assert_eq!(pool.add_liquidity(TokenAmount(7)), Ok(LpTokenAmount(7)));
    assert_eq!(reserves(&pool), (100_000_007, 0, 100_000_007));
}

#[test]
fn deposit_ignores_the_staked_reserve() {
    // Two pools with the same base reserve and shares, one with staked tokens.
    let mut with_staked = LpPool::init(Price(0), Percentage(0), Percentage(0), TokenAmount(0)).unwrap();
    with_staked.add_liquidity(TokenAmount(50)).unwrap();
    with_staked.swap_with_fee(StakedTokenAmount(1_000), Percentage(0)).unwrap();
    let mut without = LpPool::init(Price(0), Percentage(0), Percentage(0), TokenAmount(0)).unwrap();
    without.add_liquidity(TokenAmount(50)).unwrap();
    assert_eq!(reserves(&with_staked), (50, 1_000, 50));
    assert_eq!(
        with_staked.add_liquidity(TokenAmount(20)),
        without.add_liquidity(TokenAmount(20))
    );
}

#[test]
fn deposit_of_nothing_is_invalid_and_changes_nothing() {
    let mut pool = fresh_pool();
    assert_eq!(pool.add_liquidity(TokenAmount(0)), Err(Error::InvalidInput));
    assert_eq!(reserves(&pool), (0, 0, 0));
    let mut pool = traded_pool();
    let before = reserves(&pool);
    assert_eq!(pool.add_liquidity(TokenAmount(0)), Err(Error::InvalidInput));
    assert_eq!(reserves(&pool), before);
}

#[test]
fn deposit_that_fills_the_ledger_fits() {
    let mut pool = fresh_pool();
    assert!(pool.can_add_liquidity(TokenAmount(u64::MAX)));
    assert_eq!(pool.add_liquidity(TokenAmount(u64::MAX)), Ok(LpTokenAmount(u64::MAX)));
    assert_eq!(reserves(&pool), (u64::MAX, 0, u64::MAX));
    assert!(!pool.can_add_liquidity(TokenAmount(1)));
    assert!(pool.can_add_liquidity(TokenAmount(0)));
}

#[test]
fn deposit_whose_mint_exceeds_the_ledger_does_not_fit() {
    // 100 shares on a base reserve of 1: each unit deposited mints 100 shares.
    let mut pool = LpPool::init(Price(1_000_000), Percentage(0), Percentage(0), TokenAmount(0)).unwrap();
    pool.add_liquidity(TokenAmount(100)).unwrap();
    pool.swap_with_fee(StakedTokenAmount(99), Percentage(0)).unwrap();
    assert_eq!(reserves(&pool), (1, 99, 100));
    let most: u64 = (u64::MAX - 100) / 100;
    assert!(pool.can_add_liquidity(TokenAmount(most)));
    assert!(!pool.can_add_liquidity(TokenAmount(most + 1)));
    assert_eq!(pool.add_liquidity(TokenAmount(most)), Ok(LpTokenAmount(most * 100)));
}

#[test]
fn deposit_into_a_drained_pool_does_not_fit() {
    let mut pool = LpPool::init(Price(1_000_000), Percentage(0), Percentage(0), TokenAmount(0)).unwrap();
    pool.add_liquidity(TokenAmount(100)).unwrap();
    pool.swap_with_fee(StakedTokenAmount(100), Percentage(0)).unwrap();
    assert_eq!(reserves(&pool), (0, 100, 100));
    assert!(!pool.can_add_liquidity(TokenAmount(1)));
    // Nothing deposited is refused whatever the pool holds.
    assert_eq!(pool.add_liquidity(TokenAmount(0)), Err(Error::InvalidInput));
    assert_eq!(reserves(&pool), (0, 100, 100));
}

#[test]
fn withdrawal_pays_the_proportional_part_of_both_reserves() {
    let mut pool = traded_pool();
    // A quarter of the shares: a quarter of each reserve.
    let paid = pool.remove_liquidity(LpTokenAmount(25_000_000));
    assert_eq!(paid, Ok((TokenAmount(22_770_250), StakedTokenAmount(1_500_000))));
    assert_eq!(reserves(&pool), (68_310_750, 4_500_000, 75_000_000));
}

#[test]
fn withdrawal_rounds_down() {
    let mut pool = LpPool::init(Price(1_000_000), Percentage(0), Percentage(0), TokenAmount(0)).unwrap();
    pool.add_liquidity(TokenAmount(10)).unwrap();
    pool.swap_with_fee(StakedTokenAmount(5), Percentage(0)).unwrap();
    assert_eq!(reserves(&pool), (5, 5, 10));
    // 3 of 10 shares: 1.5 of each reserve, paid as 1.
    let paid = pool.remove_liquidity(LpTokenAmount(3));
    assert_eq!(paid, Ok((TokenAmount(1), StakedTokenAmount(1))));
    assert_eq!(reserves(&pool), (4, 4, 7));
    // 1 of 7 shares: 4/7 of a unit of each reserve, paid as nothing.
    let paid = pool.remove_liquidity(LpTokenAmount(1));
    assert_eq!(paid, Ok((TokenAmount(0), StakedTokenAmount(0))));
    assert_eq!(reserves(&pool), (4, 4, 6));
}

#[test]
fn withdrawal_of_every_share_empties_the_pool() {
    let mut pool = traded_pool();
    let paid = pool.remove_liquidity(LpTokenAmount(100_000_000));
    assert_eq!(paid, Ok((TokenAmount(91_081_000), StakedTokenAmount(6_000_000))));
    assert_eq!(reserves(&pool), (0, 0, 0));
}

#[test]
fn withdrawal_burns_exactly_the_shares_given() {
    let mut pool = traded_pool();
    pool.remove_liquidity(LpTokenAmount(1)).unwrap();
    assert_eq!(pool.lp_supply(), LpTokenAmount(99_999_999));
    pool.remove_liquidity(LpTokenAmount(99_999_998)).unwrap();
    assert_eq!(pool.lp_supply(), LpTokenAmount(1));
}

#[test]
fn withdrawal_of_nothing_fails_and_changes_nothing() {
    let mut pool = traded_pool();
    let before = reserves(&pool);
    assert_eq!(pool.remove_liquidity(LpTokenAmount(0)), Err(Error::InsufficientLiquidity));
    assert_eq!(reserves(&pool), before);
}

#[test]
fn withdrawal_above_the_supply_fails_and_changes_nothing() {
    let mut pool = traded_pool();
    let before = reserves(&pool);
    assert_eq!(
        pool.remove_liquidity(LpTokenAmount(100_000_001)),
        Err(Error::InsufficientLiquidity)
    );
    assert_eq!(pool.remove_liquidity(LpTokenAmount(u64::MAX)), Err(Error::InsufficientLiquidity));
    assert_eq!(reserves(&pool), before);
}

#[test]
fn withdrawal_from_an_empty_pool_fails() {
    let mut pool = fresh_pool();
    assert_eq!(pool.remove_liquidity(LpTokenAmount(1)), Err(Error::InsufficientLiquidity));
    assert_eq!(pool.remove_liquidity(LpTokenAmount(0)), Err(Error::InsufficientLiquidity));
    assert_eq!(reserves(&pool), (0, 0, 0));
}

#[test]
fn withdrawal_with_the_largest_values_does_not_overflow() {
    let mut pool = fresh_pool();
    pool.add_liquidity(TokenAmount(u64::MAX)).unwrap();
    let paid = pool.remove_liquidity(LpTokenAmount(u64::MAX - 1));
    assert_eq!(paid, Ok((TokenAmount(u64::MAX - 1), StakedTokenAmount(0))));
    assert_eq!(reserves(&pool), (1, 0, 1));
}

#[test]
fn deposit_then_withdrawal_returns_the_deposit_on_a_first_deposit() {
    let mut pool = fresh_pool();
    let minted = pool.add_liquidity(TokenAmount(42_000_000)).unwrap();
    let paid = pool.remove_liquidity(minted);
    assert_eq!(paid, Ok((TokenAmount(42_000_000), StakedTokenAmount(0))));
    assert_eq!(reserves(&pool), (0, 0, 0));
}

#[test]
fn deposit_then_withdrawal_in_an_untraded_pool_returns_the_deposit() {
    let mut pool = fresh_pool();
    pool.add_liquidity(TokenAmount(100_000_000)).unwrap();
    pool.remove_liquidity(LpTokenAmount(33_333_333)).unwrap();
    assert_eq!(reserves(&pool), (66_666_667, 0, 66_666_667));
    let minted = pool.add_liquidity(TokenAmount(10_000_000)).unwrap();
    let paid = pool.remove_liquidity(minted);
    assert_eq!(paid, Ok((TokenAmount(10_000_000), StakedTokenAmount(0))));
}

#[test]
fn deposit_then_withdrawal_after_a_swap_loses_at_most_one_unit() {
    let mut pool = traded_pool();
    let minted = pool.add_liquidity(TokenAmount(10_000_000)).unwrap();
    assert_eq!(minted, LpTokenAmount(10_979_238));
    let (base_out, staked_out) = pool.remove_liquidity(minted).unwrap();
    // 101.081 * 10.979238 / 110.979238 = 9.99999976...
    assert_eq!(base_out, TokenAmount(9_999_999));
    // The new shares also claim their part of the staked tokens held before.
    assert_eq!(staked_out, StakedTokenAmount(593_583));
}

#[test]
fn shares_never_fall_below_the_base_reserve() {
    let mut pool = traded_pool();
    let amounts: [u64; 5] = [1, 3, 999_999, 10_000_000, 77];
    for amount in amounts {
        pool.add_liquidity(TokenAmount(amount)).unwrap();
        assert!(pool.base_reserve().0 <= pool.lp_supply().0);
        pool.remove_liquidity(LpTokenAmount(amount / 2 + 1)).unwrap();
        assert!(pool.base_reserve().0 <= pool.lp_supply().0);
    }
}
