use vstd::prelude::*;
use crate::fraction::Fraction;
use crate::pubkey::Pubkey;

verus! {

/// Default share of a debt that one liquidation may repay, as a percentage.
pub const LIQUIDATION_CLOSE_FACTOR: u8 = 50;
/// Default loan-to-value past which a position counts as close to insolvency.
pub const CLOSE_TO_INSOLVENCY_RISKY_LTV: u8 = 95;
/// Default most debt value that one liquidation may repay.
pub const MAX_LIQUIDATABLE_VALUE_AT_ONCE: u64 = 500_000;
/// Default ceiling on the allowed borrow value of any obligation.
pub const GLOBAL_ALLOWED_BORROW_VALUE: u64 = 45_000_000;
/// Default ceiling on the unhealthy borrow value of any obligation.
pub const GLOBAL_UNHEALTHY_BORROW_VALUE: u64 = 50_000_000;
/// Default debt value below which a position is liquidated whole.
pub const LIQUIDATION_CLOSE_VALUE: u64 = 2;

/// Risk settings shared by every reserve and obligation of a market.
#[derive(Clone, Copy, Debug)]
pub struct LendingMarket {
    pub version: u64,
    pub bump_seed: u64,
    pub owner: Pubkey,
    pub owner_cached: Pubkey,
    pub quote_currency: [u8; 32],
    pub emergency_mode: u8,
    pub autodeleverage_enabled: u8,
    pub borrow_disabled: u8,
    pub price_refresh_trigger_to_max_age_pct: u8,
    pub liquidation_max_debt_close_factor_pct: u8,
    /// Loan-to-value that marks a position close to insolvency; kept with the
    /// market's settings, no liquidation rule reads it.
    pub insolvency_risk_unhealthy_ltv_pct: u8,
    pub min_full_liquidation_value_threshold: u64,
    pub max_liquidatable_debt_market_value_at_once: u64,
    pub global_unhealthy_borrow_value: u64,
    pub global_allowed_borrow_value: u64,
    /// Smallest value that a single deposit or borrow entry may keep, unless zero.
    pub min_net_value_in_obligation: Fraction,
}

/// Parameters of a new market.
#[derive(Clone, Copy, Debug)]
pub struct InitLendingMarketParams {
    pub bump_seed: u8,
    pub owner: Pubkey,
    pub quote_currency: [u8; 32],
}

/// Whether `m` is a market just set up from `params`: its owner, bump and
/// quote currency, every risk setting at its default, and no pending owner.
pub open spec fn initialized_market(m: LendingMarket, params: InitLendingMarketParams) -> bool {
    &&& m.version == crate::reserve::PROGRAM_VERSION
    &&& m.bump_seed == params.bump_seed
    &&& m.owner == params.owner
    &&& m.owner_cached == (Pubkey { hi: 0, lo: 0 })
    &&& m.quote_currency == params.quote_currency
    &&& m.emergency_mode == 0
    &&& m.autodeleverage_enabled == 0
    &&& m.borrow_disabled == 0
    &&& m.price_refresh_trigger_to_max_age_pct == 0
    &&& m.liquidation_max_debt_close_factor_pct == LIQUIDATION_CLOSE_FACTOR
    &&& m.insolvency_risk_unhealthy_ltv_pct == CLOSE_TO_INSOLVENCY_RISKY_LTV
    &&& m.min_full_liquidation_value_threshold == LIQUIDATION_CLOSE_VALUE
    &&& m.max_liquidatable_debt_market_value_at_once == MAX_LIQUIDATABLE_VALUE_AT_ONCE
    &&& m.global_allowed_borrow_value == GLOBAL_ALLOWED_BORROW_VALUE
    &&& m.global_unhealthy_borrow_value == GLOBAL_UNHEALTHY_BORROW_VALUE
    &&& m.min_net_value_in_obligation.bits == 0
}

impl LendingMarket {
    /// A market with the default risk settings.
    pub fn new(params: InitLendingMarketParams) -> (r: LendingMarket)
        ensures
            r.version == crate::reserve::PROGRAM_VERSION,
            r.bump_seed == params.bump_seed,
            r.owner == params.owner,
            r.quote_currency == params.quote_currency,
            r.emergency_mode == 0,
            r.borrow_disabled == 0,
            r.liquidation_max_debt_close_factor_pct == LIQUIDATION_CLOSE_FACTOR,
            r.global_allowed_borrow_value == GLOBAL_ALLOWED_BORROW_VALUE,
            r.global_unhealthy_borrow_value == GLOBAL_UNHEALTHY_BORROW_VALUE,
            r.min_net_value_in_obligation.bits == 0,
    {
        let mut m = LendingMarket {
            version: 0,
            bump_seed: 0,
            owner: Pubkey::default_key(),
            owner_cached: Pubkey::default_key(),
            quote_currency: [0u8; 32],
            emergency_mode: 0,
            autodeleverage_enabled: 0,
            borrow_disabled: 0,
            price_refresh_trigger_to_max_age_pct: 0,
            liquidation_max_debt_close_factor_pct: 0,
            insolvency_risk_unhealthy_ltv_pct: 0,
            min_full_liquidation_value_threshold: 0,
            max_liquidatable_debt_market_value_at_once: 0,
            global_unhealthy_borrow_value: 0,
            global_allowed_borrow_value: 0,
            min_net_value_in_obligation: Fraction::zero(),
        };
        m.init(params);
        m
    }

    /// Resets a market to the default risk settings. The pending owner is
    /// cleared: only an owner update names one.
    pub fn init(&mut self, params: InitLendingMarketParams)
        ensures
            initialized_market(*final(self), params),
    {
        self.version = crate::reserve::PROGRAM_VERSION;
        self.bump_seed = params.bump_seed as u64;
        self.owner = params.owner;
        self.owner_cached = Pubkey::default_key();
        self.quote_currency = params.quote_currency;
        self.emergency_mode = 0;
        self.autodeleverage_enabled = 0;
        self.borrow_disabled = 0;
        self.price_refresh_trigger_to_max_age_pct = 0;
        self.liquidation_max_debt_close_factor_pct = LIQUIDATION_CLOSE_FACTOR;
        self.insolvency_risk_unhealthy_ltv_pct = CLOSE_TO_INSOLVENCY_RISKY_LTV;
        self.min_full_liquidation_value_threshold = LIQUIDATION_CLOSE_VALUE;
        self.max_liquidatable_debt_market_value_at_once = MAX_LIQUIDATABLE_VALUE_AT_ONCE;
        self.global_allowed_borrow_value = GLOBAL_ALLOWED_BORROW_VALUE;
        self.global_unhealthy_borrow_value = GLOBAL_UNHEALTHY_BORROW_VALUE;
        self.min_net_value_in_obligation = Fraction::zero();
    }

    /// Whether new borrows are switched off market-wide.
    pub fn is_borrowing_disabled(&self) -> (r: bool)
        ensures
            r == (self.borrow_disabled != 0),
    {
        self.borrow_disabled != 0
    }
}

} // verus!
