use cluster_lend::errors::LendingError;
use cluster_lend::fraction::Fraction;
use cluster_lend::last_update::{LastUpdate, PriceStatusFlags};
use cluster_lend::lending_checks::{
    post_transfer_vault_balance_liquidity_reserve_checks, LendingAction,
};
use cluster_lend::lending_operations::{refresh_reserve, Clock};
use cluster_lend::pubkey::Pubkey;
use cluster_lend::reserve::{
    CollateralExchangeRate, FeeCalculation, InitReserveParams, NewReserveCollateralParams,
    NewReserveLiquidityParams, Reserve, ReserveCollateral, ReserveConfig, ReserveFees,
    ReserveLiquidity, ReserveStatus, ALL_AMOUNT, WAD,
};
use cluster_lend::withdrawal_caps::{add_to_withdrawal_accum, sub_from_withdrawal_accum, WithdrawalCaps};

const ONE: u128 = 1 << 60;

fn config() -> ReserveConfig {
    ReserveConfig {
        status: ReserveStatus::Active,
        asset_tier: 0,
        optimal_utilization_rate: 80,
        loan_to_value_pct: 50,
        liquidation_threshold_pct: 80,
        min_liquidation_bonus_bps: 200,
        max_liquidation_bonus_bps: 1000,
        protocol_liquidation_fee_pct: 10,
        protocol_take_rate_pct: 0,
        bad_debt_liquidation_bonus_bps: 50,
        deleveraging_threshold_slots_per_bps: 7200,
        min_borrow_rate: 2,
        optimal_borrow_rate: 10,
        max_borrow_rate: 50,
        fees: ReserveFees { borrow_fee_wad: 0, flash_loan_fee_wad: 0, host_fee_percentage: 0 },
        deposit_limit: 1_000_000_000,
        borrow_limit: 1_000_000_000,
        borrow_factor_pct: 100,
        deposit_withdrawal_cap: WithdrawalCaps::new(0, 0, 0),
        debt_withdrawal_cap: WithdrawalCaps::new(0, 0, 0),
        max_age_price_seconds: 60,
    }
}

fn reserve() -> Reserve {
    Reserve::new(InitReserveParams {
        current_slot: 0,
        lending_market: Pubkey::new(0, 1),
        liquidity: ReserveLiquidity::new(NewReserveLiquidityParams {
            mint_pubkey: Pubkey::new(0, 2),
            supply_vault: Pubkey::new(0, 3),
            fee_vault: Pubkey::new(0, 4),
            mint_decimals: 6,
            market_price: Fraction::from_bits(ONE),
        }),
        collateral: ReserveCollateral::new(NewReserveCollateralParams {
            mint_pubkey: Pubkey::new(0, 5),
            supply_vault: Pubkey::new(0, 6),
        }),
        config: config(),
    })
}

#[test]
fn fraction_products_and_quotients_are_exact() {
    let three = Fraction::from_u64(3);
    let half = Fraction::from_percent(50);
    assert_eq!(three.mul(half).unwrap().bits, 3 * ONE / 2);
    assert_eq!(Fraction::from_u64(1).div(three).unwrap().bits, ONE / 3);
    assert_eq!(Fraction::from_u64(7).div(Fraction::from_u64(2)).unwrap().bits, 7 * ONE / 2);
    let big = Fraction::from_bits(u128::MAX / 2);
    assert_eq!(big.mul(Fraction::from_u64(1)).unwrap(), big);
    assert_eq!(big.mul(Fraction::from_u64(4)), Err(LendingError::MathOverflow));
    assert_eq!(three.div(Fraction::zero()), Err(LendingError::MathOverflow));
    assert_eq!(Fraction::from_u64(1).sub(three), Err(LendingError::MathOverflow));
    assert_eq!(Fraction::from_u64(1).saturating_sub(three).bits, 0);
    let x = Fraction::from_bits(5 * ONE / 2);
    assert_eq!(x.to_floor(), Ok(2));
    assert_eq!(x.to_ceil(), Ok(3));
    assert_eq!(x.to_round(), Ok(3));
    assert_eq!(Fraction::from_bits(9 * ONE / 4).to_round(), Ok(2));
    assert_eq!(Fraction::from_bits(u128::MAX).to_floor(), Err(LendingError::IntegerOverflow));
}

#[test]
fn exchange_rate_conversions_round_down() {
    let rate = CollateralExchangeRate(Fraction::from_percent(50));
    assert_eq!(rate.liquidity_to_collateral(101), Ok(50));
    assert_eq!(rate.collateral_to_liquidity(50), Ok(100));
    assert_eq!(rate.decimal_liquidity_to_collateral(Fraction::from_u64(4)).unwrap().bits, 2 * ONE);
    assert_eq!(rate.decimal_collateral_to_liquidity(Fraction::from_u64(4)).unwrap().bits, 8 * ONE);
    let zero = CollateralExchangeRate(Fraction::zero());
    assert_eq!(zero.collateral_to_liquidity(1), Err(LendingError::MathOverflow));
}

#[test]
fn borrow_fees_follow_the_fee_rate() {
    let fees = ReserveFees { borrow_fee_wad: WAD / 100, flash_loan_fee_wad: WAD / 1000, host_fee_percentage: 0 };
    assert_eq!(fees.calculate_borrow_fees(Fraction::from_u64(1_000), FeeCalculation::Exclusive), Ok((10, 0)));
    assert_eq!(fees.calculate_borrow_fees(Fraction::from_u64(1_010), FeeCalculation::Inclusive), Ok((10, 0)));
    assert_eq!(fees.calculate_borrow_fees(Fraction::from_u64(10), FeeCalculation::Exclusive), Ok((1, 0)));
    assert_eq!(
        fees.calculate_borrow_fees(Fraction::from_u64(1), FeeCalculation::Exclusive),
        Err(LendingError::BorrowTooSmall)
    );
    assert_eq!(fees.calculate_flash_loan_fees(Fraction::from_u64(10_000)), Ok((10, 0)));
    let hosted = ReserveFees { host_fee_percentage: 20, ..fees };
    assert_eq!(hosted.calculate_borrow_fees(Fraction::from_u64(1_000), FeeCalculation::Exclusive), Ok((10, 2)));
    let free = ReserveFees { borrow_fee_wad: 0, ..fees };
    assert_eq!(free.calculate_borrow_fees(Fraction::from_u64(1_000), FeeCalculation::Exclusive), Ok((0, 0)));
}

#[test]
fn borrow_sizing_adds_fee_and_respects_ceiling() {
    let mut r = reserve();
    r.config.fees.borrow_fee_wad = WAD / 100;
    r.liquidity.available_amount = 1_000_000_000;
    // Six decimals at a price of one: 1_000_000 base units are worth 1.
    let res = r
        .calculate_borrow(1_000_000, Fraction::from_u64(2), Fraction::from_u64(u64::MAX))
        .unwrap();
    assert_eq!(res.receive_amount, 1_000_000);
    assert_eq!(res.borrow_fee, 10_000);
    assert_eq!(res.borrow_amount.bits, 1_010_000 * ONE);
    assert_eq!(
        r.calculate_borrow(1_000_000, Fraction::from_u64(1), Fraction::from_u64(u64::MAX)).err(),
        Some(LendingError::BorrowTooLarge)
    );
    let all = r.calculate_borrow(ALL_AMOUNT, Fraction::from_u64(1), Fraction::from_u64(u64::MAX)).unwrap();
    assert_eq!(all.borrow_amount.bits, 1_000_000 * ONE);
    assert_eq!(all.borrow_fee + all.receive_amount, 1_000_000);
}

#[test]
fn repay_sizing_settles_at_most_the_debt() {
    let r = reserve();
    let debt = Fraction::from_bits(5 * ONE / 2);
    let all = r.calculate_repay(ALL_AMOUNT, debt).unwrap();
    assert_eq!(all.settle_amount, debt);
    assert_eq!(all.repay_amount, 3);
    let part = r.calculate_repay(1, debt).unwrap();
    assert_eq!(part.settle_amount.bits, ONE);
    assert_eq!(part.repay_amount, 1);
    let over = r.calculate_repay(10, debt).unwrap();
    assert_eq!(over.settle_amount, debt);
}

#[test]
fn borrow_rate_follows_the_curve() {
    let mut r = reserve();
    assert_eq!(r.current_borrow_rate().unwrap(), Fraction::from_percent(2));
    r.liquidity.available_amount = 60;
    r.liquidity.borrowed_amount = Fraction::from_u64(40);
    // Utilization 40% is half the optimal 80%: halfway from 2% to 10%.
    let rate = r.current_borrow_rate().unwrap();
    assert!(rate.bits.abs_diff(Fraction::from_percent(6).bits) < 4);
    r.liquidity.available_amount = 10;
    r.liquidity.borrowed_amount = Fraction::from_u64(90);
    // Utilization 90%: halfway from the optimal 80% to 100%, from 10% to 50%.
    let rate = r.current_borrow_rate().unwrap();
    assert!(rate.bits.abs_diff(Fraction::from_percent(30).bits) < 4);
}

#[test]
fn interest_compounds_per_slot() {
    let mut r = reserve();
    r.liquidity.available_amount = 0;
    r.liquidity.borrowed_amount = Fraction::from_u64(1_000_000);
    r.last_update = LastUpdate { slot: 0, stale: false, price_status: 0 };
    r.accrue_interest(10).unwrap();
    assert!(r.liquidity.borrowed_amount.bits > 1_000_000 * ONE);
    assert!(r.liquidity.cumulative_borrow_rate.bits > ONE);
    r.last_update.slot = 10;
    assert_eq!(r.accrue_interest(5), Err(LendingError::MathOverflow));
    // A year of slots is compounded in logarithmically many steps.
    let mut y = reserve();
    y.liquidity.available_amount = 0;
    y.liquidity.borrowed_amount = Fraction::from_u64(1_000_000);
    y.last_update = LastUpdate { slot: 0, stale: false, price_status: 0 };
    y.accrue_interest(63_072_000).unwrap();
    // Full utilization at a 50% yearly rate compounds to about e^0.5.
    let grown = y.liquidity.borrowed_amount.to_floor().unwrap();
    assert!(grown > 1_648_000 && grown < 1_649_000);
}

#[test]
fn second_refresh_in_a_slot_changes_nothing() {
    let mut r = reserve();
    r.liquidity.available_amount = 500;
    r.liquidity.borrowed_amount = Fraction::from_u64(500);
    let c = Clock { slot: 100, unix_timestamp: 10 };
    refresh_reserve(&mut r, &c, None).unwrap();
    let once = r;
    assert!(once.liquidity.borrowed_amount.bits > 500 * ONE);
    refresh_reserve(&mut r, &c, None).unwrap();
    assert_eq!(r, once);
}

#[test]
fn old_price_clears_price_checks() {
    let mut r = reserve();
    let c = Clock { slot: 0, unix_timestamp: 1_000 };
    r.last_update.price_status = 63;
    refresh_reserve(&mut r, &c, None).unwrap();
    assert_eq!(r.last_update.price_status, 0);
    assert!(r.last_update.is_stale(0, PriceStatusFlags::all_checks()));
    assert!(!r.last_update.is_stale(0, PriceStatusFlags::none()));
}

#[test]
fn window_cap_refuses_the_call_that_passes_capacity() {
    let mut caps = WithdrawalCaps::new(1_000, 100, 0);
    assert_eq!(add_to_withdrawal_accum(&mut caps, 600, 10), Ok(()));
    assert_eq!(add_to_withdrawal_accum(&mut caps, 300, 20), Ok(()));
    assert_eq!(caps.current_total, 900);
    let before = caps;
    assert_eq!(add_to_withdrawal_accum(&mut caps, 101, 30), Err(LendingError::WithdrawalCapReached));
    assert_eq!(caps, before);
    assert_eq!(sub_from_withdrawal_accum(&mut caps, 200, 40), Ok(()));
    assert_eq!(caps.current_total, 700);
    assert_eq!(add_to_withdrawal_accum(&mut caps, 500, 150), Ok(()));
    assert_eq!(caps.current_total, 500);
    assert_eq!(caps.last_interval_start_timestamp, 150);
    let mut off = WithdrawalCaps::new(0, 100, 0);
    assert_eq!(add_to_withdrawal_accum(&mut off, u64::MAX, 10), Ok(()));
    assert_eq!(off.current_total, 0);
}

#[test]
fn vault_must_move_with_the_ledger() {
    assert_eq!(post_transfer_vault_balance_liquidity_reserve_checks(150, 120, 100, 70, LendingAction::Additive(50)), Ok(()));
    assert_eq!(post_transfer_vault_balance_liquidity_reserve_checks(50, 20, 100, 70, LendingAction::Subtractive(50)), Ok(()));
    assert_eq!(
        post_transfer_vault_balance_liquidity_reserve_checks(150, 110, 100, 70, LendingAction::Additive(50)),
        Err(LendingError::ReserveTokenBalanceMismatch)
    );
    assert_eq!(
        post_transfer_vault_balance_liquidity_reserve_checks(140, 110, 100, 70, LendingAction::Additive(50)),
        Err(LendingError::ReserveVaultBalanceMismatch)
    );
}

#[test]
fn config_validation_rejects_incoherent_settings() {
    assert_eq!(config().validate(), Ok(()));
    let mut c = config();
    c.loan_to_value_pct = 100;
    assert_eq!(c.validate(), Err(LendingError::InvalidConfig));
    let mut c = config();
    c.liquidation_threshold_pct = 40;
    assert_eq!(c.validate(), Err(LendingError::InvalidConfig));
    let mut c = config();
    c.borrow_factor_pct = 99;
    assert_eq!(c.validate(), Err(LendingError::InvalidConfig));
    let mut c = config();
    c.protocol_take_rate_pct = 101;
    assert_eq!(c.validate(), Err(LendingError::InvalidConfig));
    let mut c = config();
    c.bad_debt_liquidation_bonus_bps = 100;
    assert_eq!(c.validate(), Err(LendingError::InvalidConfig));
    let mut c = config();
    c.deleveraging_threshold_slots_per_bps = 0;
    assert_eq!(c.validate(), Err(LendingError::InvalidConfig));
}
