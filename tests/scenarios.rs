use cluster_lend::errors::LendingError;
use cluster_lend::fraction::Fraction;
use cluster_lend::last_update::PriceStatusFlags;
use cluster_lend::lending_market::{InitLendingMarketParams, LendingMarket};
use cluster_lend::lending_operations::{
    borrow_obligation_liquidity, deposit_obligation_collateral, deposit_reserve_liquidity,
    redeem_reserve_collateral, refresh_reserve, repay_obligation_liquidity,
    withdraw_obligation_collateral, Clock, GetPriceResult,
};
use cluster_lend::liquidation::{
    liquidate_and_redeem, liquidate_and_redeem_in_one_reserve, liquidate_obligation,
    liquidate_obligation_in_one_reserve,
};
use cluster_lend::obligation::{InitObligationParams, Obligation};
use cluster_lend::pubkey::Pubkey;
use cluster_lend::refresh::refresh_obligation;
use cluster_lend::reserve::{
    InitReserveParams, NewReserveCollateralParams, NewReserveLiquidityParams, Reserve,
    ReserveCollateral, ReserveConfig, ReserveFees, ReserveLiquidity, ReserveStatus, ALL_AMOUNT,
};
use cluster_lend::withdrawal_caps::WithdrawalCaps;

const ONE: u128 = 1 << 60;

fn key(n: u128) -> Pubkey {
    Pubkey::new(0, n)
}

fn config(ltv: u8, threshold: u8) -> ReserveConfig {
    ReserveConfig {
        status: ReserveStatus::Active,
        asset_tier: 0,
        optimal_utilization_rate: 80,
        loan_to_value_pct: ltv,
        liquidation_threshold_pct: threshold,
        min_liquidation_bonus_bps: 200,
        max_liquidation_bonus_bps: 1000,
        protocol_liquidation_fee_pct: 10,
        protocol_take_rate_pct: 0,
        bad_debt_liquidation_bonus_bps: 50,
        deleveraging_threshold_slots_per_bps: 7200,
        min_borrow_rate: 0,
        optimal_borrow_rate: 10,
        max_borrow_rate: 50,
        fees: ReserveFees { borrow_fee_wad: 0, flash_loan_fee_wad: 0, host_fee_percentage: 0 },
        deposit_limit: 1_000_000_000,
        borrow_limit: 1_000_000_000,
        borrow_factor_pct: 100,
        deposit_withdrawal_cap: WithdrawalCaps::new(0, 0, 0),
        debt_withdrawal_cap: WithdrawalCaps::new(0, 0, 0),
        max_age_price_seconds: 1_000_000,
    }
}

fn reserve(n: u128, cfg: ReserveConfig, price_bits: u128) -> Reserve {
    Reserve::new(InitReserveParams {
        current_slot: 0,
        lending_market: key(1),
        liquidity: ReserveLiquidity::new(NewReserveLiquidityParams {
            mint_pubkey: key(100 + n),
            supply_vault: key(200 + n),
            fee_vault: key(300 + n),
            mint_decimals: 0,
            market_price: Fraction::from_bits(price_bits),
        }),
        collateral: ReserveCollateral::new(NewReserveCollateralParams {
            mint_pubkey: key(400 + n),
            supply_vault: key(500 + n),
        }),
        config: cfg,
    })
}

fn clock(slot: u64) -> Clock {
    Clock { slot, unix_timestamp: 1_000 }
}

fn fresh(r: &mut Reserve, c: &Clock, price_bits: u128) {
    refresh_reserve(
        r,
        c,
        Some(GetPriceResult {
            price: Fraction::from_bits(price_bits),
            status: PriceStatusFlags::all(),
            timestamp: c.unix_timestamp,
        }),
    )
    .unwrap();
}

fn market() -> LendingMarket {
    LendingMarket::new(InitLendingMarketParams { bump_seed: 0, owner: key(9), quote_currency: [0u8; 32] })
}

fn obligation() -> Obligation {
    Obligation::new(InitObligationParams { current_slot: 0, lending_market: key(1), owner: key(8) })
}

/// A market with collateral reserve A (price 1, LTV 50%, threshold 80%), a
/// borrow reserve B (price 1) holding 10_000 of liquidity, and an obligation
/// holding 1_000 receipt tokens of A, refreshed at slot 1.
fn setup() -> (LendingMarket, Reserve, Reserve, Obligation, Clock) {
    let m = market();
    let c = clock(1);
    let mut a = reserve(1, config(50, 80), ONE);
    let mut b = reserve(2, config(50, 80), ONE);
    fresh(&mut a, &c, ONE);
    fresh(&mut b, &c, ONE);
    assert_eq!(deposit_reserve_liquidity(&mut a, &c, 1_000), Ok(1_000));
    assert_eq!(deposit_reserve_liquidity(&mut b, &c, 10_000), Ok(10_000));
    fresh(&mut a, &c, ONE);
    fresh(&mut b, &c, ONE);
    let mut o = obligation();
    deposit_obligation_collateral(&mut a, &mut o, 1, 1_000, key(11), &m).unwrap();
    fresh(&mut a, &c, ONE);
    refresh_obligation(&mut o, &m, 1, &vec![key(11)], &vec![a]).unwrap();
    (m, a, b, o, c)
}

#[test]
fn deposit_limit_scenario() {
    let c = clock(1);
    let mut cfg = config(50, 80);
    cfg.deposit_limit = 1_000_000;
    let mut r = reserve(1, cfg, ONE);
    fresh(&mut r, &c, ONE);
    assert_eq!(deposit_reserve_liquidity(&mut r, &c, 500_000), Ok(500_000));
    assert_eq!(r.liquidity.available_amount, 500_000);
    fresh(&mut r, &c, ONE);
    let before = r;
    assert_eq!(deposit_reserve_liquidity(&mut r, &c, 600_000), Err(LendingError::DepositLimitExceeded));
    assert_eq!(r, before);
}

#[test]
fn borrow_within_allowed_value_scenario() {
    let (m, mut a, mut b, mut o, c) = setup();
    assert_eq!(o.deposited_value.bits, 1_000 * ONE);
    assert_eq!(o.allowed_borrow_value.bits, 500 * ONE);
    assert_eq!(o.unhealthy_borrow_value.bits, 1_000 * (80 * ONE / 100));
    let b_before = b;
    assert_eq!(
        borrow_obligation_liquidity(&m, &mut b, &mut o, 501, &c, key(12)).err(),
        Some(LendingError::BorrowTooLarge)
    );
    assert_eq!(b, b_before);
    assert!(o.borrows.is_empty());
    let res = borrow_obligation_liquidity(&m, &mut b, &mut o, 500, &c, key(12)).unwrap();
    assert_eq!(res.receive_amount, 500);
    assert_eq!(res.borrow_fee, 0);
    assert_eq!(res.borrow_amount.bits, 500 * ONE);
    assert_eq!(b.liquidity.available_amount, 9_500);
    fresh(&mut a, &c, ONE);
    fresh(&mut b, &c, ONE);
    refresh_obligation(&mut o, &m, 1, &vec![key(11), key(12)], &vec![a, b]).unwrap();
    assert_eq!(o.borrow_factor_adjusted_debt_value.bits, 500 * ONE);
    assert_eq!(o.loan_to_value().unwrap(), Fraction::from_percent(50));
}

/// An obligation of 1_000 receipt tokens of A with 500 of B borrowed, after A's
/// price fell to 0.6, refreshed at slot 1.
fn unhealthy() -> (LendingMarket, Reserve, Reserve, Obligation, Clock) {
    let (m, mut a, mut b, mut o, c) = setup();
    borrow_obligation_liquidity(&m, &mut b, &mut o, 500, &c, key(12)).unwrap();
    let price = ONE * 6 / 10;
    fresh(&mut a, &c, price);
    fresh(&mut b, &c, ONE);
    refresh_obligation(&mut o, &m, 1, &vec![key(11), key(12)], &vec![a, b]).unwrap();
    assert!(o.borrow_factor_adjusted_debt_value.bits > o.unhealthy_borrow_value.bits);
    (m, a, b, o, c)
}

#[test]
fn liquidation_slippage_scenario() {
    let (m, mut a, mut b, mut o, c) = unhealthy();
    let (a0, b0) = (a, b);
    let (deposits0, borrows0) = (o.deposits.clone(), o.borrows.clone());
    let r = liquidate_obligation(&m, &mut b, key(12), &mut a, key(11), &mut o, &c, 100, 1_000_000_000, None);
    assert_eq!(r, Err(LendingError::LiquidationSlippageError));
    assert_eq!(a, a0);
    assert_eq!(b, b0);
    assert_eq!(o.deposits, deposits0);
    assert_eq!(o.borrows, borrows0);
    assert!(liquidate_and_redeem(&m, &mut b, key(12), &mut a, key(11), &mut o, &c, 100, 1_000_000_000, None).is_err());
    assert_eq!(a, a0);
    assert_eq!(o.deposits, deposits0);
}

#[test]
fn liquidation_takes_collateral_with_bonus() {
    let (m, mut a, mut b, mut o, c) = unhealthy();
    let res = liquidate_obligation(&m, &mut b, key(12), &mut a, key(11), &mut o, &c, 100, 1, None).unwrap();
    assert_eq!(res.repay_amount, 100);
    // 100 of debt at price 1 plus a bonus of 3.33% is 103.33 of value; at 0.6 a
    // token that is 172 receipt tokens.
    assert_eq!(res.withdraw_amount, 172);
    assert_eq!(o.deposits[0].deposited_amount, 1_000 - 172);
    assert_eq!(o.borrows[0].borrowed_amount.bits, 400 * ONE);
    assert_eq!(b.liquidity.available_amount, 9_600);
}

#[test]
fn healthy_obligation_is_not_liquidated() {
    let (m, mut a, mut b, mut o, c) = setup();
    borrow_obligation_liquidity(&m, &mut b, &mut o, 500, &c, key(12)).unwrap();
    fresh(&mut a, &c, ONE);
    fresh(&mut b, &c, ONE);
    refresh_obligation(&mut o, &m, 1, &vec![key(11), key(12)], &vec![a, b]).unwrap();
    let r = liquidate_obligation(&m, &mut b, key(12), &mut a, key(11), &mut o, &c, 100, 0, None);
    assert_eq!(r, Err(LendingError::ObligationHealthy));
    // Allowed to treat 40% as unhealthy, the same obligation (at 50%) can be liquidated.
    let res = liquidate_obligation(&m, &mut b, key(12), &mut a, key(11), &mut o, &c, 100, 0, Some(40)).unwrap();
    assert_eq!(res.repay_amount, 100);
    assert!(res.withdraw_amount >= 109 && res.withdraw_amount <= 110);
}

#[test]
fn repay_all_closes_the_debt() {
    let (m, mut a, mut b, mut o, c) = setup();
    borrow_obligation_liquidity(&m, &mut b, &mut o, 500, &c, key(12)).unwrap();
    fresh(&mut a, &c, ONE);
    fresh(&mut b, &c, ONE);
    refresh_obligation(&mut o, &m, 1, &vec![key(11), key(12)], &vec![a, b]).unwrap();
    let ltv_before = o.loan_to_value().unwrap();
    assert_eq!(repay_obligation_liquidity(&mut b, &mut o, &c, 200, key(12), &m), Ok(200));
    assert_eq!(o.borrows[0].borrowed_amount.bits, 300 * ONE);
    fresh(&mut a, &c, ONE);
    fresh(&mut b, &c, ONE);
    refresh_obligation(&mut o, &m, 1, &vec![key(11), key(12)], &vec![a, b]).unwrap();
    assert!(o.loan_to_value().unwrap().bits <= ltv_before.bits);
    assert_eq!(repay_obligation_liquidity(&mut b, &mut o, &c, ALL_AMOUNT, key(12), &m), Ok(300));
    assert!(o.borrows.is_empty());
    assert!(!o.has_debt);
    assert_eq!(b.liquidity.available_amount, 10_000);
    assert_eq!(b.liquidity.borrowed_amount.bits, 0);
}

#[test]
fn withdraw_without_debt_takes_everything() {
    let (m, a, _b, mut o, _c) = setup();
    assert_eq!(withdraw_obligation_collateral(&m, &a, &mut o, ALL_AMOUNT, 1, key(11)), Ok(1_000));
    assert!(o.deposits.is_empty());
}

#[test]
fn withdraw_with_debt_is_held_to_allowed_value() {
    let (m, mut a, mut b, mut o, c) = setup();
    borrow_obligation_liquidity(&m, &mut b, &mut o, 250, &c, key(12)).unwrap();
    fresh(&mut a, &c, ONE);
    fresh(&mut b, &c, ONE);
    refresh_obligation(&mut o, &m, 1, &vec![key(11), key(12)], &vec![a, b]).unwrap();
    // Allowed 500, debt 250: at 50% LTV, 500 of value may leave.
    assert_eq!(
        withdraw_obligation_collateral(&m, &a, &mut o, 501, 1, key(11)),
        Err(LendingError::WithdrawTooLarge)
    );
    assert_eq!(withdraw_obligation_collateral(&m, &a, &mut o, ALL_AMOUNT, 1, key(11)), Ok(500));
    assert_eq!(o.deposits[0].deposited_amount, 500);
}

#[test]
fn deposit_then_redeem_returns_no_more() {
    let c = clock(1);
    let mut r = reserve(1, config(50, 80), ONE);
    fresh(&mut r, &c, ONE);
    deposit_reserve_liquidity(&mut r, &c, 3_000).unwrap();
    // Interest-like growth: the pool holds more liquidity than receipt tokens.
    r.liquidity.available_amount = 3_500;
    fresh(&mut r, &c, ONE);
    let minted = deposit_reserve_liquidity(&mut r, &c, 777).unwrap();
    fresh(&mut r, &c, ONE);
    let back = redeem_reserve_collateral(&mut r, minted, &c, false).unwrap();
    assert!(back <= 777);
    assert_eq!(minted, 665);
    assert_eq!(back, 776);
}

#[test]
fn stale_reserve_refuses_deposit() {
    let c = clock(5);
    let mut r = reserve(1, config(50, 80), ONE);
    assert_eq!(deposit_reserve_liquidity(&mut r, &c, 10), Err(LendingError::ReserveStale));
    fresh(&mut r, &c, ONE);
    assert_eq!(deposit_reserve_liquidity(&mut r, &c, 0), Err(LendingError::InvalidAmount));
}

#[test]
fn obligation_holds_at_most_ten_reserves() {
    let m = market();
    let c = clock(1);
    let mut o = obligation();
    for i in 0..10u128 {
        let mut r = reserve(i, config(50, 80), ONE);
        fresh(&mut r, &c, ONE);
        deposit_obligation_collateral(&mut r, &mut o, 1, 5, key(1000 + i), &m).unwrap();
    }
    let mut r = reserve(99, config(50, 80), ONE);
    fresh(&mut r, &c, ONE);
    assert_eq!(
        deposit_obligation_collateral(&mut r, &mut o, 1, 5, key(2000), &m),
        Err(LendingError::ObligationReserveLimit)
    );
    assert_eq!(o.deposits.len(), 10);
    deposit_obligation_collateral(&mut r, &mut o, 1, 5, key(1003), &m).unwrap();
    assert_eq!(o.deposits[3].deposited_amount, 10);
}

#[test]
fn refresh_obligation_rejects_wrong_handles() {
    let (m, a, _b, mut o, _c) = setup();
    assert_eq!(
        refresh_obligation(&mut o, &m, 1, &vec![key(77)], &vec![a]),
        Err(LendingError::InvalidAccountInput)
    );
    assert_eq!(refresh_obligation(&mut o, &m, 1, &vec![], &vec![]), Err(LendingError::InvalidAccountInput));
    assert_eq!(refresh_obligation(&mut o, &m, 2, &vec![key(11)], &vec![a]), Err(LendingError::ReserveStale));
}

#[test]
fn borrow_needs_fresh_obligation_and_open_market() {
    let (mut m, mut a, mut b, mut o, c) = setup();
    m.borrow_disabled = 1;
    assert_eq!(
        borrow_obligation_liquidity(&m, &mut b, &mut o, 10, &c, key(12)).err(),
        Some(LendingError::BorrowingDisabled)
    );
    m.borrow_disabled = 0;
    assert_eq!(
        deposit_obligation_collateral(&mut a, &mut o, 1, 0, key(11), &m),
        Err(LendingError::InvalidAmount)
    );
    o.last_update.mark_stale();
    assert_eq!(
        borrow_obligation_liquidity(&m, &mut b, &mut o, 10, &c, key(12)).err(),
        Some(LendingError::ObligationStale)
    );
}

#[test]
fn redemption_counts_against_withdrawal_cap() {
    let c = clock(1);
    let mut cfg = config(50, 80);
    cfg.deposit_withdrawal_cap = WithdrawalCaps::new(100, 10_000, 0);
    let mut r = reserve(1, cfg, ONE);
    r.liquidity.available_amount = 1_000;
    r.collateral.mint_total_supply = 1_000;
    fresh(&mut r, &c, ONE);
    let before = r;
    assert_eq!(redeem_reserve_collateral(&mut r, 150, &c, true), Err(LendingError::WithdrawalCapReached));
    assert_eq!(r, before);
    assert_eq!(redeem_reserve_collateral(&mut r, 60, &c, true), Ok(60));
    assert_eq!(r.config.deposit_withdrawal_cap.current_total, 60);
    fresh(&mut r, &c, ONE);
    assert_eq!(redeem_reserve_collateral(&mut r, 41, &c, true), Err(LendingError::WithdrawalCapReached));
    assert_eq!(redeem_reserve_collateral(&mut r, 40, &c, true), Ok(40));
}

#[test]
fn liquidation_within_one_reserve() {
    let m = market();
    let c = clock(1);
    let mut a = reserve(1, config(50, 80), ONE);
    fresh(&mut a, &c, ONE);
    deposit_reserve_liquidity(&mut a, &c, 10_000).unwrap();
    fresh(&mut a, &c, ONE);
    let mut o = obligation();
    deposit_obligation_collateral(&mut a, &mut o, 1, 1_000, key(11), &m).unwrap();
    fresh(&mut a, &c, ONE);
    refresh_obligation(&mut o, &m, 1, &vec![key(11)], &vec![a]).unwrap();
    borrow_obligation_liquidity(&m, &mut a, &mut o, 500, &c, key(11)).unwrap();
    fresh(&mut a, &c, ONE);
    refresh_obligation(&mut o, &m, 1, &vec![key(11), key(11)], &vec![a, a]).unwrap();
    let a0 = a;
    assert_eq!(
        liquidate_obligation_in_one_reserve(&m, &mut a, key(11), &mut o, &c, 100, 0, None),
        Err(LendingError::ObligationHealthy)
    );
    assert_eq!(a, a0);
    let res = liquidate_obligation_in_one_reserve(&m, &mut a, key(11), &mut o, &c, 100, 1, Some(40)).unwrap();
    assert_eq!(res.repay_amount, 100);
    assert_eq!(a.liquidity.available_amount, 9_600);
    assert_eq!(o.borrows[0].borrowed_amount.bits, 400 * ONE);
    assert_eq!(o.deposits[0].deposited_amount, 1_000 - res.withdraw_amount);
}

#[test]
fn liquidate_and_redeem_within_one_reserve() {
    let m = market();
    let c = clock(1);
    let mut a = reserve(1, config(50, 80), ONE);
    fresh(&mut a, &c, ONE);
    deposit_reserve_liquidity(&mut a, &c, 10_000).unwrap();
    fresh(&mut a, &c, ONE);
    let mut o = obligation();
    deposit_obligation_collateral(&mut a, &mut o, 1, 1_000, key(11), &m).unwrap();
    fresh(&mut a, &c, ONE);
    refresh_obligation(&mut o, &m, 1, &vec![key(11)], &vec![a]).unwrap();
    borrow_obligation_liquidity(&m, &mut a, &mut o, 500, &c, key(11)).unwrap();
    fresh(&mut a, &c, ONE);
    refresh_obligation(&mut o, &m, 1, &vec![key(11), key(11)], &vec![a, a]).unwrap();
    let res = liquidate_and_redeem_in_one_reserve(&m, &mut a, key(11), &mut o, &c, 100, 1, Some(40)).unwrap();
    let (paid, _fee) = res.total_withdraw_liquidity_amount.unwrap();
    assert_eq!(paid, res.withdraw_collateral_amount);
    assert_eq!(a.liquidity.available_amount, 9_600 - paid);
    assert_eq!(a.collateral.mint_total_supply, 10_000 - res.withdraw_collateral_amount);
}

#[test]
fn bad_debt_gets_its_own_bonus() {
    let (m, mut a, mut b, mut o, c) = setup();
    borrow_obligation_liquidity(&m, &mut b, &mut o, 500, &c, key(12)).unwrap();
    // At a price of 0.4 the collateral is worth 400 against 500 of debt.
    fresh(&mut a, &c, ONE * 4 / 10);
    fresh(&mut b, &c, ONE);
    refresh_obligation(&mut o, &m, 1, &vec![key(11), key(12)], &vec![a, b]).unwrap();
    let res = liquidate_obligation(&m, &mut b, key(12), &mut a, key(11), &mut o, &c, 100, 0, None).unwrap();
    // The bad-debt bonus of 50 bps applies, not the clamped excess.
    assert_eq!(res.liquidation_bonus_rate, Fraction::from_bps(50));
}

#[test]
fn redeeming_more_than_exists_reports_short_liquidity() {
    let c = clock(1);
    let mut r = reserve(1, config(50, 80), ONE);
    r.liquidity.available_amount = 10;
    r.collateral.mint_total_supply = 10;
    fresh(&mut r, &c, ONE);
    let before = r;
    assert_eq!(redeem_reserve_collateral(&mut r, 20, &c, false), Err(LendingError::InsufficientLiquidity));
    assert_eq!(r, before);
}

#[test]
fn new_market_has_no_pending_owner() {
    let m = market();
    assert_eq!(m.owner, key(9));
    assert!(m.owner_cached.is_default());
}
