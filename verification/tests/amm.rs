use sorosim::address::Addr;
use sorosim::amm::{div_trunc, AmmContract, AmmError};
use sorosim::arith::ArithFault;

fn addr(s: &str) -> Addr {
    Addr::new(s.to_string())
}

#[test]
fn amm_sqrt_values() {
    assert_eq!(AmmContract::sqrt(0), 0);
    assert_eq!(AmmContract::sqrt(1), 1);
    assert_eq!(AmmContract::sqrt(2), 1);
    assert_eq!(AmmContract::sqrt(3), 1);
    assert_eq!(AmmContract::sqrt(4), 2);
    assert_eq!(AmmContract::sqrt(15), 3);
    assert_eq!(AmmContract::sqrt(16), 4);
    assert_eq!(AmmContract::sqrt(2_000_000), 1414);
    assert_eq!(AmmContract::sqrt(i128::MAX - 1), 13_043_817_825_332_782_212);
    assert_eq!(AmmContract::sqrt(-5), -5);
}

#[test]
fn amm_div_trunc_rounds_toward_zero() {
    assert_eq!(div_trunc(7, 2), 3);
    assert_eq!(div_trunc(-7, 2), -3);
    assert_eq!(div_trunc(7, -2), -3);
    assert_eq!(div_trunc(-7, -2), 3);
    assert_eq!(div_trunc(i128::MIN, 1), i128::MIN);
}

#[test]
fn amm_initialize_and_tokens() {
    let mut pool = AmmContract::new();
    assert_eq!(pool.get_tokens().err(), Some(AmmError::NotInitialized));
    assert_eq!(pool.initialize(addr("A"), addr("B")), Ok(()));
    let (a, b) = pool.get_tokens().unwrap();
    assert_eq!(a.text(), "A");
    assert_eq!(b.text(), "B");
    assert_eq!(pool.initialize(addr("C"), addr("D")), Err(AmmError::AlreadyInitialized));
    assert_eq!(pool.get_reserves(), (0, 0));
}

#[test]
fn amm_first_liquidity_mints_sqrt_of_product() {
    let mut pool = AmmContract::new();
    pool.initialize(addr("A"), addr("B")).unwrap();
    let provider = addr("provider");
    assert_eq!(pool.add_liquidity(&provider, 1000, 2000), Ok(1414));
    assert_eq!(pool.get_reserves(), (1000, 2000));
    assert_eq!(pool.get_shares(&provider), 1414);
    assert_eq!(pool.get_total_shares(), 1414);
    assert_eq!(pool.get_k(), 2_000_000);
    assert_eq!(pool.get_price_a(), Ok(2));
    assert_eq!(pool.get_price_b(), Ok(0));
}

#[test]
fn amm_second_liquidity_is_proportional() {
    let mut pool = AmmContract::new();
    let p1 = addr("p1");
    let p2 = addr("p2");
    assert_eq!(pool.add_liquidity(&p1, 100, 100), Ok(100));
    // the smaller of 50 * 100 / 100 and 80 * 100 / 100
    assert_eq!(pool.add_liquidity(&p2, 50, 80), Ok(50));
    assert_eq!(pool.get_reserves(), (150, 180));
    assert_eq!(pool.get_total_shares(), 150);
}

#[test]
fn amm_add_liquidity_refusals() {
    let mut pool = AmmContract::new();
    let p = addr("p");
    assert_eq!(pool.add_liquidity(&p, 0, 5), Err(AmmError::AmountsMustBePositive));
    assert_eq!(pool.add_liquidity(&p, i128::MAX, 2), Err(AmmError::Overflow));
    pool.add_liquidity(&p, 1000, 1000).unwrap();
    assert_eq!(pool.add_liquidity(&p, 1, 1), Ok(1));
    let mut tiny = AmmContract::new();
    tiny.add_liquidity(&p, 1000, 1000).unwrap();
    tiny.swap_a_for_b(1_000_000, 0).unwrap();
    // a deposit too small to earn a whole share is refused
    assert_eq!(tiny.add_liquidity(&p, 1, 1), Err(AmmError::InsufficientLiquidity));
}

#[test]
fn amm_remove_liquidity_pays_proportionally() {
    let mut pool = AmmContract::new();
    let p = addr("p");
    pool.add_liquidity(&p, 1000, 4000).unwrap();
    assert_eq!(pool.get_total_shares(), 2000);
    assert_eq!(pool.remove_liquidity(&p, 500), Ok((250, 1000)));
    assert_eq!(pool.get_reserves(), (750, 3000));
    assert_eq!(pool.get_shares(&p), 1500);
    assert_eq!(pool.remove_liquidity(&p, 1500), Ok((750, 3000)));
    assert_eq!(pool.get_reserves(), (0, 0));
    assert_eq!(pool.get_total_shares(), 0);
}

#[test]
fn amm_remove_liquidity_refusals() {
    let mut pool = AmmContract::new();
    let p = addr("p");
    pool.add_liquidity(&p, 1000, 1000).unwrap();
    assert_eq!(pool.remove_liquidity(&p, 0), Err(AmmError::SharesMustBePositive));
    assert_eq!(pool.remove_liquidity(&p, 1001), Err(AmmError::InsufficientShares));
    assert_eq!(pool.remove_liquidity(&addr("q"), 1), Err(AmmError::InsufficientShares));
}

#[test]
fn amm_swaps_follow_constant_product() {
    let mut pool = AmmContract::new();
    let p = addr("p");
    pool.add_liquidity(&p, 1000, 2000).unwrap();
    let k0 = pool.get_k();
    // 100 * 2000 / 1100
    assert_eq!(pool.swap_a_for_b(100, 181), Ok(181));
    assert_eq!(pool.get_reserves(), (1100, 1819));
    assert!(pool.get_k() >= k0);
    let k1 = pool.get_k();
    // 200 * 1100 / 2019
    assert_eq!(pool.swap_b_for_a(200, 0), Ok(108));
    assert_eq!(pool.get_reserves(), (992, 2019));
    assert!(pool.get_k() >= k1);
}

#[test]
fn amm_swap_refusals() {
    let mut pool = AmmContract::new();
    assert_eq!(pool.swap_a_for_b(10, 0), Err(AmmError::NoLiquidity));
    assert_eq!(pool.swap_b_for_a(0, 0), Err(AmmError::AmountMustBePositive));
    assert_eq!(pool.get_price_a(), Err(AmmError::NoLiquidity));
    assert_eq!(pool.get_price_b(), Err(AmmError::NoLiquidity));
    pool.add_liquidity(&addr("p"), 1000, 2000).unwrap();
    assert_eq!(pool.swap_a_for_b(100, 182), Err(AmmError::SlippageExceeded));
    assert_eq!(pool.get_reserves(), (1000, 2000));
}

#[test]
fn amm_get_k_overflow_reads_zero() {
    let mut pool = AmmContract::new();
    pool.add_liquidity(&addr("p"), 1i128 << 62, 1i128 << 62).unwrap();
    assert_eq!(pool.get_k(), 1i128 << 124);
    pool.add_liquidity(&addr("p"), 1i128 << 63, 1i128 << 63).unwrap();
    assert_eq!(pool.get_reserves(), (3i128 << 62, 3i128 << 62));
    assert_eq!(pool.get_k(), 0);
}

#[test]
fn amm_add_then_remove_returns_no_more_than_deposited() {
    let mut pool = AmmContract::new();
    let p = addr("p");
    let q = addr("q");
    pool.add_liquidity(&p, 1000, 3000).unwrap();
    pool.swap_a_for_b(77, 0).unwrap();
    let minted = pool.add_liquidity(&q, 400, 900).unwrap();
    let (a, b) = pool.remove_liquidity(&q, minted).unwrap();
    assert!(a <= 400);
    assert!(b <= 900);
}

#[test]
fn amm_first_deposit_round_trip_returns_everything() {
    let mut pool = AmmContract::new();
    let p = addr("p");
    assert_eq!(pool.add_liquidity(&p, 1000, 2000), Ok(1414));
    assert_eq!(pool.remove_liquidity(&p, 1414), Ok((1000, 2000)));
    assert_eq!(pool.get_reserves(), (0, 0));
    assert_eq!(pool.get_shares(&p), 0);
    assert_eq!(pool.get_total_shares(), 0);
}

#[test]
fn amm_partial_removal_keeps_reserves_positive() {
    let mut pool = AmmContract::new();
    let p = addr("p");
    let minted = pool.add_liquidity(&p, 1000, 2000).unwrap();
    let (a, b) = pool.remove_liquidity(&p, minted - 1).unwrap();
    assert_eq!((a, b), (999, 1998));
    assert_eq!(pool.get_reserves(), (1, 2));
    assert_eq!(pool.get_total_shares(), 1);
}

#[test]
fn amm_error_messages() {
    assert_eq!(AmmError::SlippageExceeded.message(), "slippage exceeded");
    assert_eq!(AmmError::NoLiquidity.message(), "no liquidity");
    assert_eq!(AmmError::InsufficientShares.message(), "insufficient shares");
}

#[test]
fn amm_faults_name_the_first_overflow() {
    let mut pool = AmmContract::new();
    let p = addr("p");
    assert_eq!(pool.add_liquidity_faults(&p, 1, i128::MAX), None);
    assert_eq!(pool.add_liquidity_faults(&p, i128::MAX, 2), None);
    assert_eq!(pool.add_liquidity_faults(&p, 0, 2), None);
    pool.add_liquidity(&p, 1000, 2000).unwrap();
    assert_eq!(pool.add_liquidity_faults(&p, i128::MAX, 1), Some(ArithFault::MulOverflow));
    assert_eq!(pool.add_liquidity_faults(&p, 10, 20), None);
    assert_eq!(pool.remove_liquidity_faults(&p, 1414), None);
    assert_eq!(AmmContract::swap_faults(1, i128::MAX, 2, 0), Some(ArithFault::MulOverflow));
    assert_eq!(AmmContract::swap_faults(i128::MAX, 1, 1, 0), Some(ArithFault::AddOverflow));
    assert_eq!(AmmContract::swap_faults(-2, i128::MIN, 1, 0), Some(ArithFault::DivOverflow));
    assert_eq!(AmmContract::swap_faults(-2, 5, 2, 0), Some(ArithFault::DivByZero));
    assert_eq!(AmmContract::swap_faults(100, 200, 0, 0), None);
    assert_eq!(ArithFault::DivOverflow.message(), "attempt to divide with overflow");
    assert_eq!(ArithFault::MulOverflow.message(), "attempt to multiply with overflow");
}

#[test]
fn amm_share_total_is_sum_of_provider_shares() {
    let mut pool = AmmContract::new();
    let (p, q) = (addr("p"), addr("q"));
    pool.add_liquidity(&p, 1000, 2000).unwrap();
    pool.add_liquidity(&q, 500, 1000).unwrap();
    assert_eq!(pool.get_total_shares(), pool.get_shares(&p) + pool.get_shares(&q));
    pool.remove_liquidity(&p, 100).unwrap();
    assert_eq!(pool.get_total_shares(), pool.get_shares(&p) + pool.get_shares(&q));
}

#[test]
fn amm_sqrt_of_largest_value() {
    assert_eq!(AmmContract::sqrt(i128::MAX), 13043817825332782212);
    let mut pool = AmmContract::new();
    assert_eq!(pool.add_liquidity(&addr("p"), 1, i128::MAX), Ok(13043817825332782212));
}
