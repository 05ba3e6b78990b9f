use cluster_lend::errors::LendingError;
use cluster_lend::fraction::Fraction;
use cluster_lend::health::{
    post_borrow_obligation_invariants, post_deposit_obligation_invariants,
    post_withdraw_obligation_invariants,
};
use cluster_lend::lending_checks::{
    deposit_reserve_liquidity_checks, emergency_mode_disabled, process_deposit_reserve_liquidity,
};
use cluster_lend::lending_market::{InitLendingMarketParams, LendingMarket};
use cluster_lend::lending_operations::{
    flash_borrow_reserve_liquidity, flash_repay_reserve_liquidity, is_price_refresh_needed,
    is_saved_price_age_valid, Clock,
};
use cluster_lend::liquidation::calculate_protocol_liquidation_fee;
use cluster_lend::obligation::{InitObligationParams, Obligation};
use cluster_lend::processors::{init_market, update_lending_market, update_lending_market_owner};
use cluster_lend::pubkey::Pubkey;
use cluster_lend::reserve::{
    InitReserveParams, NewReserveCollateralParams, NewReserveLiquidityParams, Reserve,
    ReserveCollateral, ReserveConfig, ReserveFees, ReserveLiquidity, ReserveStatus, WAD,
};
use cluster_lend::withdrawal_caps::WithdrawalCaps;

const ONE: u128 = 1 << 60;

fn market() -> LendingMarket {
    LendingMarket::new(InitLendingMarketParams { bump_seed: 3, owner: Pubkey::new(0, 9), quote_currency: [7u8; 32] })
}

fn reserve() -> Reserve {
    Reserve::new(InitReserveParams {
        current_slot: 0,
        lending_market: Pubkey::new(0, 1),
        liquidity: ReserveLiquidity::new(NewReserveLiquidityParams {
            mint_pubkey: Pubkey::new(0, 2),
            supply_vault: Pubkey::new(0, 3),
            fee_vault: Pubkey::new(0, 4),
            mint_decimals: 0,
            market_price: Fraction::from_u64(1),
        }),
        collateral: ReserveCollateral::new(NewReserveCollateralParams {
            mint_pubkey: Pubkey::new(0, 5),
            supply_vault: Pubkey::new(0, 6),
        }),
        config: ReserveConfig {
            status: ReserveStatus::Active,
            asset_tier: 0,
            optimal_utilization_rate: 80,
            loan_to_value_pct: 50,
            liquidation_threshold_pct: 80,
            min_liquidation_bonus_bps: 200,
            max_liquidation_bonus_bps: 1000,
            protocol_liquidation_fee_pct: 10,
            protocol_take_rate_pct: 0,
            bad_debt_liquidation_bonus_bps: 50,
            deleveraging_threshold_slots_per_bps: 7200,
            min_borrow_rate: 0,
            optimal_borrow_rate: 10,
            max_borrow_rate: 50,
            fees: ReserveFees { borrow_fee_wad: 0, flash_loan_fee_wad: WAD / 1000, host_fee_percentage: 0 },
            deposit_limit: 1_000_000,
            borrow_limit: 1_000_000,
            borrow_factor_pct: 100,
            deposit_withdrawal_cap: WithdrawalCaps::new(0, 0, 0),
            debt_withdrawal_cap: WithdrawalCaps::new(0, 0, 0),
            max_age_price_seconds: 100,
        },
    })
}

fn value(bytes: &[u8]) -> [u8; 72] {
    let mut v = [0u8; 72];
    v[..bytes.len()].copy_from_slice(bytes);
    v
}

#[test]
fn market_update_modes() {
    let mut m = market();
    assert_eq!(m.global_allowed_borrow_value, 45_000_000);
    assert_eq!(update_lending_market::process(&mut m, 1, &value(&[1])), Ok(()));
    assert_eq!(m.emergency_mode, 1);
    assert_eq!(update_lending_market::process(&mut m, 1, &value(&[2])), Err(LendingError::InvalidFlag));
    assert_eq!(update_lending_market::process(&mut m, 2, &value(&[4])), Err(LendingError::InvalidFlag));
    assert_eq!(update_lending_market::process(&mut m, 2, &value(&[72])), Ok(()));
    assert_eq!(m.liquidation_max_debt_close_factor_pct, 72);
    assert_eq!(update_lending_market::process(&mut m, 4, &value(&[0x10, 0x27])), Ok(()));
    assert_eq!(m.global_allowed_borrow_value, 10_000);
    assert_eq!(update_lending_market::process(&mut m, 3, &value(&[])), Err(LendingError::InvalidFlag));
    assert_eq!(update_lending_market::process(&mut m, 7, &value(&[101])), Err(LendingError::InvalidConfig));
    assert_eq!(update_lending_market::process(&mut m, 9, &value(&[1])), Ok(()));
    assert!(m.is_borrowing_disabled());
    assert_eq!(
        update_lending_market::process(&mut m, 42, &value(&[1])),
        Err(LendingError::InvalidInstructionData)
    );
}

#[test]
fn owner_changes_in_two_steps() {
    let mut m = market();
    let mut key = [0u8; 32];
    key[15] = 1;
    key[31] = 2;
    assert_eq!(update_lending_market::process(&mut m, 0, &value(&key)), Ok(()));
    assert_eq!(m.owner_cached, Pubkey::new(1, 2));
    assert_eq!(m.owner, Pubkey::new(0, 9));
    update_lending_market_owner::process(&mut m);
    assert_eq!(m.owner, Pubkey::new(1, 2));
    init_market::process(&mut m, InitLendingMarketParams { bump_seed: 1, owner: Pubkey::new(0, 5), quote_currency: [0u8; 32] });
    assert_eq!(m.owner, Pubkey::new(0, 5));
}

#[test]
fn emergency_mode_stops_deposits() {
    let mut m = market();
    m.emergency_mode = 1;
    assert_eq!(emergency_mode_disabled(&m), Err(LendingError::GlobalEmergencyMode));
    let mut r = reserve();
    let c = Clock { slot: 1, unix_timestamp: 0 };
    assert_eq!(
        process_deposit_reserve_liquidity(&m, &mut r, &c, 10, Pubkey::new(0, 70), Pubkey::new(0, 71)),
        Err(LendingError::GlobalEmergencyMode)
    );
    m.emergency_mode = 0;
    assert_eq!(
        process_deposit_reserve_liquidity(&m, &mut r, &c, 10, Pubkey::new(0, 3), Pubkey::new(0, 71)),
        Err(LendingError::InvalidAccountInput)
    );
    assert_eq!(
        process_deposit_reserve_liquidity(&m, &mut r, &c, 10, Pubkey::new(0, 70), Pubkey::new(0, 71)),
        Ok(10)
    );
    assert_eq!(r.liquidity.available_amount, 10);
    r.config.status = ReserveStatus::Obsolete;
    assert_eq!(
        deposit_reserve_liquidity_checks(&r, Pubkey::new(0, 70), Pubkey::new(0, 71)),
        Err(LendingError::ReserveObsolete)
    );
}

#[test]
fn flash_loan_round_trip() {
    let mut r = reserve();
    r.liquidity.available_amount = 10_000;
    assert_eq!(flash_borrow_reserve_liquidity(&mut r, 20_000), Err(LendingError::InsufficientLiquidity));
    assert_eq!(flash_borrow_reserve_liquidity(&mut r, 5_000), Ok(()));
    assert_eq!(r.liquidity.available_amount, 5_000);
    assert_eq!(flash_repay_reserve_liquidity(&mut r, 5_000), Ok((5_000, 5)));
    assert_eq!(r.liquidity.available_amount, 10_000);
    assert_eq!(r.liquidity.borrowed_amount.bits, 0);
    r.config.fees.flash_loan_fee_wad = u64::MAX;
    assert_eq!(flash_borrow_reserve_liquidity(&mut r, 1), Err(LendingError::FlashLoansDisabled));
}

#[test]
fn price_age_and_refresh_trigger() {
    let mut r = reserve();
    r.liquidity.market_price_last_updated_ts = 1_000;
    let mut m = market();
    m.price_refresh_trigger_to_max_age_pct = 50;
    assert!(is_saved_price_age_valid(&r, 1_099));
    assert!(!is_saved_price_age_valid(&r, 1_100));
    assert!(!is_price_refresh_needed(&r, &m, 1_049));
    assert!(is_price_refresh_needed(&r, &m, 1_050));
}

#[test]
fn protocol_fee_is_share_of_bonus() {
    // 1_100 liquidated at a 10% bonus: the bonus part is 100; 10% of it is 10.
    assert_eq!(calculate_protocol_liquidation_fee(1_100, Fraction::from_percent(10), 10), Ok(10));
    assert_eq!(calculate_protocol_liquidation_fee(1_100, Fraction::zero(), 10), Ok(0));
}

fn obligation_with(deposited: u64, debt: u64, unhealthy: u64) -> Obligation {
    let mut o = Obligation::new(InitObligationParams { current_slot: 0, lending_market: Pubkey::new(0, 1), owner: Pubkey::new(0, 8) });
    o.deposited_value = Fraction::from_u64(deposited);
    o.borrow_factor_adjusted_debt_value = Fraction::from_u64(debt);
    o.borrowed_assets_market_value = Fraction::from_u64(debt);
    o.unhealthy_borrow_value = Fraction::from_u64(unhealthy);
    o
}

#[test]
fn health_gates_refuse_dust_and_worse_positions() {
    let r = reserve();
    let o = obligation_with(1_000, 500, 800);
    let min = Fraction::from_u64(10);
    assert_eq!(
        post_deposit_obligation_invariants(Fraction::from_u64(5), &o, &r, Fraction::zero(), min),
        Err(LendingError::NetValueRemainingTooSmall)
    );
    assert_eq!(post_deposit_obligation_invariants(Fraction::from_u64(50), &o, &r, Fraction::zero(), min), Ok(()));
    assert_eq!(
        post_borrow_obligation_invariants(Fraction::from_u64(400), &o, &r, Fraction::from_u64(500), min),
        Err(LendingError::WorseLtvBlocked)
    );
    assert_eq!(post_borrow_obligation_invariants(Fraction::from_u64(200), &o, &r, Fraction::from_u64(500), min), Ok(()));
    assert_eq!(
        post_withdraw_obligation_invariants(Fraction::from_u64(500), &o, &r, Fraction::from_u64(1_000), min),
        Err(LendingError::LiabilitiesBiggerThanAssets)
    );
    assert_eq!(
        post_withdraw_obligation_invariants(Fraction::from_u64(995), &o, &r, Fraction::from_u64(1_000), min),
        Err(LendingError::NetValueRemainingTooSmall)
    );
    assert_eq!(
        post_withdraw_obligation_invariants(Fraction::from_u64(100), &o, &r, Fraction::from_u64(1_000), min),
        Ok(())
    );
}
