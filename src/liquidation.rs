use vstd::prelude::*;
use crate::errors::LendingError;
use crate::fraction::{
    Fraction, FRACTION_ONE_SCALED, Outcome, one_scaled, whole, bps_bits, percent_bits, s_add, s_mul, s_div, s_min, s_max, s_floor, s_ceil, is_frac, is_amount,
};
use crate::lending_market::LendingMarket;
use crate::obligation::{
    Obligation, ObligationCollateral, ObligationLiquidity, loan_to_value_of, unhealthy_loan_to_value_of,
};
use crate::reserve::{
    Reserve, ReserveLiquidity, ALL_AMOUNT, exchange_rate_of, liquidity_to_collateral_of,
};
use crate::health::{
    assert_obligation_liquidatable, liquidatable_spec,
};
use crate::lending_operations::{
    Clock, refresh_reserve, refresh_reserve_spec, redeem_reserve_collateral, redeem_reserve_collateral_spec, marked_stale, stale_tracker, borrows_after_repay, deposits_after_withdraw,
};
use crate::obligation::{
    has_deposit, has_borrow, deposit_index, borrow_index, lemma_deposit_index, lemma_borrow_index, obligation_updated, same_obligation,
};
use crate::pubkey::Pubkey;

verus! {

/// Debt below this many whole units is closed out in one liquidation.
pub const LIQUIDATION_CLOSE_AMOUNT: u64 = 2;

/// How a liquidation splits: debt settled, liquidity repaid, collateral seized,
/// and the bonus paid to the liquidator.
#[derive(Clone, Copy, Debug, PartialEq, Eq, Structural)]
pub struct CalculateLiquidationResult {
    /// Debt settled, scaled.
    pub settle_amount: Fraction,
    /// Liquidity the liquidator transfers, rounded.
    pub repay_amount: u64,
    /// Receipt tokens taken from the obligation.
    pub withdraw_amount: u64,
    /// The bonus, as a share of the repaid value.
    pub liquidation_bonus_rate: Fraction,
}

/// The loan-to-value past which an obligation may be liquidated: its own
/// unhealthy loan-to-value, or the percentage the liquidation is allowed to
/// use in its place.
pub open spec fn threshold_ltv_of(o: &Obligation, ltv_override: Option<u64>) -> Outcome {
    match ltv_override {
        Some(p) => Ok(percent_bits(p as int)),
        None => unhealthy_loan_to_value_of(o),
    }
}

/// The liquidator's bonus: how far the loan-to-value has passed the unhealthy
/// loan-to-value, held between the reserve's minimum and maximum bonus. A
/// position in bad debt, whose risk-adjusted debt has reached its deposits,
/// gets the reserve's bad-debt bonus instead. A healthy obligation has none.
pub open spec fn liquidation_bonus_of(o: &Obligation, withdraw: Reserve, ltv_override: Option<u64>) -> Outcome {
    match loan_to_value_of(o) {
        Err(e) => Err(e),
        Ok(ltv) => match threshold_ltv_of(o, ltv_override) {
            Err(e) => Err(e),
            Ok(u) => if ltv <= u {
                Err(LendingError::ObligationHealthy)
            } else if ltv >= one_scaled() {
                Ok(bps_bits(withdraw.config.bad_debt_liquidation_bonus_bps as int))
            } else {
                s_max(
                    Ok(bps_bits(withdraw.config.min_liquidation_bonus_bps as int)),
                    s_min(Ok(ltv - u), Ok(bps_bits(withdraw.config.max_liquidation_bonus_bps as int))),
                )
            },
        },
    }
}

/// Debt value that one liquidation may repay: all of it below the market's
/// close-out threshold; otherwise the close factor's share of the debt value,
/// and no more than the market's most per liquidation.
pub open spec fn liquidatable_value_of(o: &Obligation, m: LendingMarket) -> Outcome {
    if o.borrowed_assets_market_value.bits < whole(m.min_full_liquidation_value_threshold as int) {
        Ok(o.borrowed_assets_market_value.bits as int)
    } else {
        s_min(
            s_mul(
                Ok(o.borrowed_assets_market_value.bits as int),
                Ok(percent_bits(m.liquidation_max_debt_close_factor_pct as int)),
            ),
            Ok(whole(m.max_liquidatable_debt_market_value_at_once as int)),
        )
    }
}

/// Most debt of an entry that one liquidation may settle: the liquidatable
/// value, taken from this entry, as a share of the entry's debt.
pub open spec fn max_liquidation_amount_of(o: &Obligation, l: ObligationLiquidity, m: LendingMarket) -> Outcome {
    s_mul(
        Ok(l.borrowed_amount.bits as int),
        s_div(
            s_min(liquidatable_value_of(o, m), Ok(l.market_value.bits as int)),
            Ok(l.market_value.bits as int),
        ),
    )
}

/// The split of a liquidation worth `lv` (bonus included) against collateral
/// worth `cmv`: when the collateral falls short all of it is seized and the
/// settled debt shrinks in proportion; otherwise the debt `amount` is settled
/// and the collateral seized in proportion.
pub open spec fn split_of(lv: int, cmv: int, amount: int, deposited: int) -> Result<(int, int, int), LendingError> {
    if lv > cmv {
        match s_mul(Ok(amount), s_div(Ok(cmv), Ok(lv))) {
            Err(e) => Err(e),
            Ok(settle) => match s_ceil(Ok(settle)) {
                Err(e) => Err(e),
                Ok(repay) => Ok((settle, repay, deposited)),
            },
        }
    } else if lv == cmv {
        match s_ceil(Ok(amount)) {
            Err(e) => Err(e),
            Ok(repay) => Ok((amount, repay, deposited)),
        }
    } else {
        match s_div(Ok(lv), Ok(cmv)) {
            Err(e) => Err(e),
            Ok(pct) => match s_floor(Ok(amount)) {
                Err(e) => Err(e),
                Ok(repay) => match s_floor(s_mul(Ok(whole(deposited)), Ok(pct))) {
                    Err(e) => Err(e),
                    Ok(w) => Ok((amount, repay, w)),
                },
            },
        }
    }
}

/// Debt settled, liquidity repaid, collateral seized and bonus of a liquidation
/// of `amount` (or all, with `ALL_AMOUNT`).
pub open spec fn calculate_liquidation_spec(
    withdraw: Reserve,
    amount: int,
    m: LendingMarket,
    o: &Obligation,
    l: ObligationLiquidity,
    c: ObligationCollateral,
    ltv_override: Option<u64>,
) -> Result<(int, int, int, int), LendingError> {
    match liquidation_bonus_of(o, withdraw, ltv_override) {
        Err(e) => Err(e),
        Ok(bonus) => match s_add(Ok(one_scaled()), Ok(bonus)) {
            Err(e) => Err(e),
            Ok(bonus_rate) => {
                let borrowed = l.borrowed_amount.bits as int;
                let max_amount = if amount == ALL_AMOUNT || borrowed <= whole(amount) {
                    borrowed
                } else {
                    whole(amount)
                };
                if borrowed < whole(LIQUIDATION_CLOSE_AMOUNT as int) {
                    match s_mul(Ok(l.market_value.bits as int), Ok(bonus_rate)) {
                        Err(e) => Err(e),
                        Ok(lv) => match split_of(
                            lv,
                            c.market_value.bits as int,
                            max_amount,
                            c.deposited_amount as int,
                        ) {
                            Err(e) => Err(e),
                            Ok((_, repay, w)) => Ok((borrowed, repay, w, bonus)),
                        },
                    }
                } else {
                    match s_min(
                        max_liquidation_amount_of(o, l, m),
                        Ok(max_amount),
                    ) {
                        Err(e) => Err(e),
                        Ok(la) => match s_mul(
                            s_mul(Ok(l.market_value.bits as int), s_div(Ok(la), Ok(borrowed))),
                            Ok(bonus_rate),
                        ) {
                            Err(e) => Err(e),
                            Ok(lv) => match split_of(
                                lv,
                                c.market_value.bits as int,
                                la,
                                c.deposited_amount as int,
                            ) {
                                Err(e) => Err(e),
                                Ok((settle, repay, w)) => Ok((settle, repay, w, bonus)),
                            },
                        },
                    }
                }
            },
        },
    }
}

fn liquidation_bonus(
    obligation: &Obligation,
    withdraw_reserve: &Reserve,
    ltv_override: Option<u64>,
) -> (r: Result<
    Fraction,
    LendingError,
>)
    ensures
        is_frac(r, liquidation_bonus_of(obligation, *withdraw_reserve, ltv_override)),
{
    let ltv = obligation.loan_to_value()?;
    let unhealthy = match ltv_override {
        Some(p) => Fraction::from_percent(p),
        None => obligation.unhealthy_loan_to_value()?,
    };
    if ltv.bits <= unhealthy.bits {
        return Err(LendingError::ObligationHealthy);
    }
    if ltv.bits >= FRACTION_ONE_SCALED {
        return Ok(Fraction::from_bps(withdraw_reserve.config.bad_debt_liquidation_bonus_bps));
    }
    let excess = Fraction { bits: ltv.bits - unhealthy.bits };
    let capped = excess.min(Fraction::from_bps(withdraw_reserve.config.max_liquidation_bonus_bps));
    Ok(Fraction::from_bps(withdraw_reserve.config.min_liquidation_bonus_bps).max(capped))
}

fn split(lv: Fraction, cmv: Fraction, amount: Fraction, deposited: u64) -> (r: Result<
    (Fraction, u64, u64),
    LendingError,
>)
    ensures
        match r {
            Ok((s, p, w)) => split_of(lv.bits as int, cmv.bits as int, amount.bits as int, deposited as int)
                == Ok::<(int, int, int), LendingError>((s.bits as int, p as int, w as int)),
            Err(e) => split_of(lv.bits as int, cmv.bits as int, amount.bits as int, deposited as int)
                == Err::<(int, int, int), LendingError>(e),
        },
{
    if lv.bits > cmv.bits {
        let settle = amount.mul(cmv.div(lv)?)?;
        let repay = settle.to_ceil()?;
        Ok((settle, repay, deposited))
    } else if lv.bits == cmv.bits {
        let repay = amount.to_ceil()?;
        Ok((amount, repay, deposited))
    } else {
        let pct = lv.div(cmv)?;
        let repay = amount.to_floor()?;
        let w = Fraction::from_u64(deposited).mul(pct)?.to_floor()?;
        Ok((amount, repay, w))
    }
}

impl Obligation {
    /// Most debt of an entry that one liquidation may settle under the
    /// market's close factor, per-liquidation cap and close-out threshold.
    pub fn max_liquidation_amount(&self, liquidity: &ObligationLiquidity, lending_market: &LendingMarket) -> (r:
        Result<Fraction, LendingError>)
        ensures
            is_frac(r, max_liquidation_amount_of(self, *liquidity, *lending_market)),
    {
        let value = if self.borrowed_assets_market_value.bits < Fraction::from_u64(
            lending_market.min_full_liquidation_value_threshold,
        ).bits {
            self.borrowed_assets_market_value
        } else {
            self.borrowed_assets_market_value.mul(
                Fraction::from_percent(lending_market.liquidation_max_debt_close_factor_pct as u64),
            )?.min(Fraction::from_u64(lending_market.max_liquidatable_debt_market_value_at_once))
        };
        let value = value.min(liquidity.market_value);
        let pct = value.div(liquidity.market_value)?;
        liquidity.borrowed_amount.mul(pct)
    }
}

impl Reserve {
    /// Sizes the liquidation of an unhealthy obligation: the debt settled on the
    /// repaid entry, the liquidity the liquidator repays, the collateral seized
    /// from the withdrawn entry, and the bonus.
    pub fn calculate_liquidation(
        &self,
        amount_to_liquidate: u64,
        lending_market: &LendingMarket,
        obligation: &Obligation,
        liquidity: &ObligationLiquidity,
        collateral: &ObligationCollateral,
        max_allowed_ltv_override_pct_opt: Option<u64>,
    ) -> (r: Result<CalculateLiquidationResult, LendingError>)
        ensures
            match r {
                Ok(c) => calculate_liquidation_spec(
                    *self,
                    amount_to_liquidate as int,
                    *lending_market,
                    obligation,
                    *liquidity,
                    *collateral,
                    max_allowed_ltv_override_pct_opt,
                ) == Ok::<(int, int, int, int), LendingError>(
                    (
                        c.settle_amount.bits as int,
                        c.repay_amount as int,
                        c.withdraw_amount as int,
                        c.liquidation_bonus_rate.bits as int,
                    ),
                ),
                Err(e) => calculate_liquidation_spec(
                    *self,
                    amount_to_liquidate as int,
                    *lending_market,
                    obligation,
                    *liquidity,
                    *collateral,
                    max_allowed_ltv_override_pct_opt,
                ) == Err::<(int, int, int, int), LendingError>(e),
            },
    {
        let bonus = liquidation_bonus(obligation, self, max_allowed_ltv_override_pct_opt)?;
        let bonus_rate = Fraction::one().add(bonus)?;
        let borrowed = liquidity.borrowed_amount;
        let max_amount = if amount_to_liquidate == ALL_AMOUNT {
            borrowed
        } else {
            Fraction::from_u64(amount_to_liquidate).min(borrowed)
        };
        if borrowed.bits < Fraction::from_u64(LIQUIDATION_CLOSE_AMOUNT).bits {
            let lv = liquidity.market_value.mul(bonus_rate)?;
            let (_, repay_amount, withdraw_amount) = split(
                lv,
                collateral.market_value,
                max_amount,
                collateral.deposited_amount,
            )?;
            Ok(
                CalculateLiquidationResult {
                    settle_amount: borrowed,
                    repay_amount,
                    withdraw_amount,
                    liquidation_bonus_rate: bonus,
                },
            )
        } else {
            let la = obligation.max_liquidation_amount(liquidity, lending_market)?.min(max_amount);
            let pct = la.div(borrowed)?;
            let lv = liquidity.market_value.mul(pct)?.mul(bonus_rate)?;
            let (settle_amount, repay_amount, withdraw_amount) = split(
                lv,
                collateral.market_value,
                la,
                collateral.deposited_amount,
            )?;
            Ok(
                CalculateLiquidationResult {
                    settle_amount,
                    repay_amount,
                    withdraw_amount,
                    liquidation_bonus_rate: bonus,
                },
            )
        }
    }
}

/// The protocol's cut of a liquidation: its share of the bonus part of the
/// liquidated amount, rounded up.
pub open spec fn protocol_liquidation_fee_of(amount: int, bonus: int, pct: int) -> Outcome {
    s_ceil(
        s_mul(
            s_div(s_mul(Ok(whole(amount)), Ok(bonus)), s_add(Ok(one_scaled()), Ok(bonus))),
            Ok(percent_bits(pct)),
        ),
    )
}

/// The protocol's cut of a liquidation of `amount_liquidated` at `bonus_rate`.
pub fn calculate_protocol_liquidation_fee(
    amount_liquidated: u64,
    bonus_rate: Fraction,
    protocol_liquidation_fee_pct: u8,
) -> (r: Result<u64, LendingError>)
    ensures
        is_amount(
            r,
            protocol_liquidation_fee_of(
                amount_liquidated as int,
                bonus_rate.bits as int,
                protocol_liquidation_fee_pct as int,
            ),
        ),
{
    let nominator = Fraction::from_u64(amount_liquidated).mul(bonus_rate)?;
    let denominator = Fraction::one().add(bonus_rate)?;
    let bonus = nominator.div(denominator)?;
    bonus.mul(Fraction::from_percent(protocol_liquidation_fee_pct as u64))?.to_ceil()
}

/// What a liquidation settled, repaid and seized.
#[derive(Clone, Copy, Debug, PartialEq, Eq, Structural)]
pub struct LiquidateObligationResult {
    pub settle_amount: Fraction,
    pub repay_amount: u64,
    /// Receipt tokens taken from the obligation.
    pub withdraw_amount: u64,
    /// Receipt tokens the reserve can pay out now, at most the amount taken.
    pub withdraw_collateral_amount: u64,
    pub liquidation_bonus_rate: Fraction,
}

/// What a liquidation followed by redemption moved.
#[derive(Clone, Copy, Debug)]
pub struct LiquidateAndRedeemResult {
    pub repay_amount: u64,
    pub withdraw_amount: u64,
    /// Liquidity redeemed for the seized collateral and the protocol's fee on it,
    /// when any collateral could be redeemed.
    pub total_withdraw_liquidity_amount: Option<(u64, u64)>,
    pub withdraw_collateral_amount: u64,
}

/// The repay reserve after the liquidator's repayment.
pub open spec fn repaid_of(rr: Reserve, repay: int, settle: int) -> Reserve {
    marked_stale(
        Reserve {
            liquidity: ReserveLiquidity {
                available_amount: (rr.liquidity.available_amount + repay) as u64,
                borrowed_amount: Fraction { bits: (rr.liquidity.borrowed_amount.bits - settle) as u128 },
                ..rr.liquidity
            },
            ..rr
        },
    )
}

/// Everything a liquidation produces: both reserves, both tables, and
/// (settled, repaid, seized, redeemable, bonus).
pub type LiquidationOutcome = (Reserve, Reserve, Seq<ObligationCollateral>, Seq<ObligationLiquidity>, (int, int, int, int, int));

/// The outcome of liquidating `amount` of the debt owed to the repay reserve
/// against collateral held in the withdraw reserve, or the first check that fails.
#[verifier::opaque]
pub open spec fn liquidate_obligation_spec(
    m: LendingMarket,
    rr: Reserve,
    rk: Pubkey,
    wr: Reserve,
    wk: Pubkey,
    o: &Obligation,
    clock: Clock,
    amount: int,
    min_acceptable: int,
    ltv_override: Option<u64>,
    same: bool,
) -> Result<LiquidationOutcome, LendingError> {
    let bs = o.borrows@;
    let ds = o.deposits@;
    let li = borrow_index(bs, rk);
    let ci = deposit_index(ds, wk);
    if wr.config.loan_to_value_pct == 0 || wr.config.liquidation_threshold_pct == 0 {
        Err(LendingError::CollateralNonLiquidatable)
    } else {
        match liquidatable_spec(rr, wr, o, amount as u64, clock.slot) {
            Err(e) => Err(e),
            Ok(_) => if bs.len() == 0 {
                Err(LendingError::ObligationBorrowsEmpty)
            } else if !has_borrow(bs, rk) {
                Err(LendingError::InvalidObligationLiquidity)
            } else if bs[li].borrow_factor_adjusted_market_value.bits == 0 {
                Err(LendingError::ObligationLiquidityEmpty)
            } else if ds.len() == 0 {
                Err(LendingError::ObligationDepositsEmpty)
            } else if !has_deposit(ds, wk) {
                Err(LendingError::InvalidObligationCollateral)
            } else if ds[ci].market_value.bits == 0 {
                Err(LendingError::ObligationCollateralEmpty)
            } else {
                match calculate_liquidation_spec(wr, amount, m, o, bs[li], ds[ci], ltv_override) {
                    Err(e) => Err(e),
                    Ok((settle, repay, withdraw, bonus)) => if repay == 0 || withdraw == 0 {
                        Err(LendingError::LiquidationTooSmall)
                    } else if rr.liquidity.available_amount + repay > u64::MAX || settle
                        > rr.liquidity.borrowed_amount.bits {
                        Err(LendingError::MathOverflow)
                    } else if settle > bs[li].borrowed_amount.bits || withdraw
                        > ds[ci].deposited_amount {
                        Err(LendingError::MathOverflow)
                    } else {
                        match refresh_reserve_spec(
                            if same {
                                repaid_of(rr, repay, settle)
                            } else {
                                wr
                            },
                            clock,
                            None,
                        ) {
                            Err(e) => Err(e),
                            Ok(wr2) => match exchange_rate_of(wr2) {
                                Err(e) => Err(e),
                                Ok(rate) => match liquidity_to_collateral_of(
                                    wr2.liquidity.available_amount as int,
                                    rate,
                                ) {
                                    Err(e) => Err(e),
                                    Ok(max_redeem) => {
                                        let wca = if withdraw <= max_redeem {
                                            withdraw
                                        } else {
                                            max_redeem
                                        };
                                        if wca < min_acceptable {
                                            Err(LendingError::LiquidationSlippageError)
                                        } else {
                                            Ok(
                                                (
                                                    repaid_of(rr, repay, settle),
                                                    wr2,
                                                    deposits_after_withdraw(ds, ci, withdraw),
                                                    borrows_after_repay(bs, li, bs[li], settle),
                                                    (settle, repay, withdraw, wca, bonus),
                                                ),
                                            )
                                        }
                                    },
                                },
                            },
                        }
                    },
                }
            },
        }
    }
}

/// The outcome of a liquidation as the executable result reports it.
pub open spec fn liquidation_result_view(res: LiquidateObligationResult) -> (int, int, int, int, int) {
    (
        res.settle_amount.bits as int,
        res.repay_amount as int,
        res.withdraw_amount as int,
        res.withdraw_collateral_amount as int,
        res.liquidation_bonus_rate.bits as int,
    )
}

fn liquidate_in(
    lending_market: &LendingMarket,
    repay_reserve: &mut Reserve,
    repay_reserve_pk: Pubkey,
    withdraw_reserve: &mut Reserve,
    withdraw_reserve_pk: Pubkey,
    obligation: &mut Obligation,
    clock: &Clock,
    liquidity_amount: u64,
    min_acceptable_received_collateral_amount: u64,
    ltv_override: Option<u64>,
    same: bool,
) -> (r: Result<LiquidateObligationResult, LendingError>)
    requires
        old(obligation).wf(),
    ensures
        final(obligation).wf(),
        match r {
            Ok(res) => liquidate_obligation_spec(
                *lending_market,
                *old(repay_reserve),
                repay_reserve_pk,
                *old(withdraw_reserve),
                withdraw_reserve_pk,
                old(obligation),
                *clock,
                liquidity_amount as int,
                min_acceptable_received_collateral_amount as int,
                ltv_override,
                same,
            ) == Ok::<LiquidationOutcome, LendingError>(
                (
                    *final(repay_reserve),
                    *final(withdraw_reserve),
                    final(obligation).deposits@,
                    final(obligation).borrows@,
                    liquidation_result_view(res),
                ),
            ) && obligation_updated(
                final(obligation),
                old(obligation),
                final(obligation).deposits@,
                final(obligation).borrows@,
                stale_tracker(old(obligation).last_update),
                final(obligation).borrows@.len() > 0,
            ),
            Err(e) => liquidate_obligation_spec(
                *lending_market,
                *old(repay_reserve),
                repay_reserve_pk,
                *old(withdraw_reserve),
                withdraw_reserve_pk,
                old(obligation),
                *clock,
                liquidity_amount as int,
                min_acceptable_received_collateral_amount as int,
                ltv_override,
                same,
            ) == Err::<LiquidationOutcome, LendingError>(e) && *final(repay_reserve)
                == *old(repay_reserve) && *final(withdraw_reserve) == *old(withdraw_reserve)
                && same_obligation(final(obligation), old(obligation)),
        },
{
    reveal(liquidate_obligation_spec);
    if withdraw_reserve.config.loan_to_value_pct == 0
        || withdraw_reserve.config.liquidation_threshold_pct == 0 {
        return Err(LendingError::CollateralNonLiquidatable);
    }
    assert_obligation_liquidatable(
        repay_reserve,
        withdraw_reserve,
        obligation,
        liquidity_amount,
        clock.slot,
    )?;
    let li = obligation.find_liquidity_in_borrows(repay_reserve_pk)?;
    proof {
        lemma_borrow_index(obligation.borrows@, repay_reserve_pk, li as int);
    }
    let liquidity = obligation.borrows[li];
    if liquidity.borrow_factor_adjusted_market_value.bits == 0 {
        return Err(LendingError::ObligationLiquidityEmpty);
    }
    let ci = obligation.find_collateral_in_deposits(withdraw_reserve_pk)?;
    proof {
        lemma_deposit_index(obligation.deposits@, withdraw_reserve_pk, ci as int);
    }
    let collateral = obligation.deposits[ci];
    if collateral.market_value.bits == 0 {
        return Err(LendingError::ObligationCollateralEmpty);
    }
    let calc = withdraw_reserve.calculate_liquidation(
        liquidity_amount,
        lending_market,
        obligation,
        &liquidity,
        &collateral,
        ltv_override,
    )?;
    if calc.repay_amount == 0 || calc.withdraw_amount == 0 {
        return Err(LendingError::LiquidationTooSmall);
    }
    let mut repaid = *repay_reserve;
    repaid.liquidity.repay(calc.repay_amount, calc.settle_amount)?;
    repaid.last_update.mark_stale();
    if calc.settle_amount.bits > liquidity.borrowed_amount.bits || calc.withdraw_amount
        > collateral.deposited_amount {
        return Err(LendingError::MathOverflow);
    }
    let mut withdrawn = if same {
        repaid
    } else {
        *withdraw_reserve
    };
    refresh_reserve(&mut withdrawn, clock, None)?;
    let rate = withdrawn.collateral_exchange_rate()?;
    let max_redeemable = rate.liquidity_to_collateral(withdrawn.liquidity.available_amount)?;
    let withdraw_collateral_amount = if calc.withdraw_amount <= max_redeemable {
        calc.withdraw_amount
    } else {
        max_redeemable
    };
    if withdraw_collateral_amount < min_acceptable_received_collateral_amount {
        return Err(LendingError::LiquidationSlippageError);
    }
    let ghost bs0 = obligation.borrows@;
    let ghost ds0 = obligation.deposits@;
    let repaid_ok = obligation.repay(calc.settle_amount, li);
    assert(repaid_ok is Ok);
    let withdrew_ok = obligation.withdraw(calc.withdraw_amount, ci);
    assert(withdrew_ok is Ok);
    proof {
        assert(obligation.deposits@ =~= deposits_after_withdraw(ds0, ci as int, calc.withdraw_amount as int));
        assert(obligation.borrows@ =~= borrows_after_repay(bs0, li as int, liquidity, calc.settle_amount.bits as int));
    }
    obligation.has_debt = obligation.borrows.len() > 0;
    obligation.last_update.mark_stale();
    *repay_reserve = repaid;
    *withdraw_reserve = withdrawn;
    Ok(
        LiquidateObligationResult {
            settle_amount: calc.settle_amount,
            repay_amount: calc.repay_amount,
            withdraw_amount: calc.withdraw_amount,
            withdraw_collateral_amount,
            liquidation_bonus_rate: calc.liquidation_bonus_rate,
        },
    )
}

/// Liquidates part of an unhealthy obligation: the liquidator repays debt owed
/// to the repay reserve and takes collateral, with a bonus, from the withdraw
/// reserve. With `max_allowed_ltv_override_pct_opt` the obligation counts as
/// unhealthy past that loan-to-value instead of its own unhealthy one. The
/// withdraw reserve is refreshed, and the collateral it can pay out must reach
/// `min_acceptable_received_collateral_amount`. The two reserves are distinct
/// records; `liquidate_obligation_in_one_reserve` covers debt and collateral in
/// one reserve. Nothing changes on failure.
pub fn liquidate_obligation(
    lending_market: &LendingMarket,
    repay_reserve: &mut Reserve,
    repay_reserve_pk: Pubkey,
    withdraw_reserve: &mut Reserve,
    withdraw_reserve_pk: Pubkey,
    obligation: &mut Obligation,
    clock: &Clock,
    liquidity_amount: u64,
    min_acceptable_received_collateral_amount: u64,
    max_allowed_ltv_override_pct_opt: Option<u64>,
) -> (r: Result<LiquidateObligationResult, LendingError>)
    requires
        old(obligation).wf(),
    ensures
        final(obligation).wf(),
        match r {
            Ok(res) => liquidate_obligation_spec(
                *lending_market,
                *old(repay_reserve),
                repay_reserve_pk,
                *old(withdraw_reserve),
                withdraw_reserve_pk,
                old(obligation),
                *clock,
                liquidity_amount as int,
                min_acceptable_received_collateral_amount as int,
                max_allowed_ltv_override_pct_opt,
                false,
            ) == Ok::<LiquidationOutcome, LendingError>(
                (
                    *final(repay_reserve),
                    *final(withdraw_reserve),
                    final(obligation).deposits@,
                    final(obligation).borrows@,
                    liquidation_result_view(res),
                ),
            ) && obligation_updated(
                final(obligation),
                old(obligation),
                final(obligation).deposits@,
                final(obligation).borrows@,
                stale_tracker(old(obligation).last_update),
                final(obligation).borrows@.len() > 0,
            ),
            Err(e) => liquidate_obligation_spec(
                *lending_market,
                *old(repay_reserve),
                repay_reserve_pk,
                *old(withdraw_reserve),
                withdraw_reserve_pk,
                old(obligation),
                *clock,
                liquidity_amount as int,
                min_acceptable_received_collateral_amount as int,
                max_allowed_ltv_override_pct_opt,
                false,
            ) == Err::<LiquidationOutcome, LendingError>(e) && *final(repay_reserve)
                == *old(repay_reserve) && *final(withdraw_reserve) == *old(withdraw_reserve)
                && same_obligation(final(obligation), old(obligation)),
        },
{
    liquidate_in(
        lending_market,
        repay_reserve,
        repay_reserve_pk,
        withdraw_reserve,
        withdraw_reserve_pk,
        obligation,
        clock,
        liquidity_amount,
        min_acceptable_received_collateral_amount,
        max_allowed_ltv_override_pct_opt,
        false,
    )
}

/// Liquidates an obligation whose repaid debt and seized collateral are in the
/// same reserve: the repayment lands first, and the collateral the reserve can
/// pay out is judged on the reserve as repaid. Nothing changes on failure.
pub fn liquidate_obligation_in_one_reserve(
    lending_market: &LendingMarket,
    reserve: &mut Reserve,
    reserve_pk: Pubkey,
    obligation: &mut Obligation,
    clock: &Clock,
    liquidity_amount: u64,
    min_acceptable_received_collateral_amount: u64,
    max_allowed_ltv_override_pct_opt: Option<u64>,
) -> (r: Result<LiquidateObligationResult, LendingError>)
    requires
        old(obligation).wf(),
    ensures
        final(obligation).wf(),
        match r {
            Ok(res) => (liquidate_obligation_spec(
                *lending_market,
                *old(reserve),
                reserve_pk,
                *old(reserve),
                reserve_pk,
                old(obligation),
                *clock,
                liquidity_amount as int,
                min_acceptable_received_collateral_amount as int,
                max_allowed_ltv_override_pct_opt,
                true,
            ) matches Ok(out) && *final(reserve) == out.1 && final(obligation).deposits@ == out.2
                && final(obligation).borrows@ == out.3 && liquidation_result_view(res) == out.4)
                && obligation_updated(
                final(obligation),
                old(obligation),
                final(obligation).deposits@,
                final(obligation).borrows@,
                stale_tracker(old(obligation).last_update),
                final(obligation).borrows@.len() > 0,
            ),
            Err(e) => liquidate_obligation_spec(
                *lending_market,
                *old(reserve),
                reserve_pk,
                *old(reserve),
                reserve_pk,
                old(obligation),
                *clock,
                liquidity_amount as int,
                min_acceptable_received_collateral_amount as int,
                max_allowed_ltv_override_pct_opt,
                true,
            ) == Err::<LiquidationOutcome, LendingError>(e) && *final(reserve) == *old(reserve)
                && same_obligation(final(obligation), old(obligation)),
        },
{
    let mut repaid = *reserve;
    let mut withdrawn = *reserve;
    let res = liquidate_in(
        lending_market,
        &mut repaid,
        reserve_pk,
        &mut withdrawn,
        reserve_pk,
        obligation,
        clock,
        liquidity_amount,
        min_acceptable_received_collateral_amount,
        max_allowed_ltv_override_pct_opt,
        true,
    )?;
    *reserve = withdrawn;
    Ok(res)
}

/// Redemption after a liquidation: the withdraw reserve after the seized
/// collateral is redeemed, with the liquidity paid out and the protocol's fee,
/// or nothing when no collateral could be redeemed.
pub open spec fn post_liquidate_redeem_spec(
    wr: Reserve,
    wca: int,
    bonus: int,
    clock: Clock,
) -> Result<(Reserve, Option<(int, int)>), LendingError> {
    if wca == 0 {
        Ok((wr, None))
    } else {
        match redeem_reserve_collateral_spec(wr, wca, clock, false) {
            Err(e) => Err(e),
            Ok((wr2, l)) => match protocol_liquidation_fee_of(
                l,
                bonus,
                wr.config.protocol_liquidation_fee_pct as int,
            ) {
                Err(e) => Err(e),
                Ok(fee) => Ok((wr2, Some((l, fee)))),
            },
        }
    }
}

/// Redeems the collateral seized in a liquidation and returns the liquidity paid
/// out with the protocol's fee on it. Nothing changes on failure.
pub fn post_liquidate_redeem(
    withdraw_reserve: &mut Reserve,
    withdraw_collateral_amount: u64,
    liquidation_bonus_rate: Fraction,
    clock: &Clock,
) -> (r: Result<Option<(u64, u64)>, LendingError>)
    ensures
        match r {
            Ok(v) => post_liquidate_redeem_spec(
                *old(withdraw_reserve),
                withdraw_collateral_amount as int,
                liquidation_bonus_rate.bits as int,
                *clock,
            ) == Ok::<(Reserve, Option<(int, int)>), LendingError>(
                (
                    *final(withdraw_reserve),
                    match v {
                        Some((l, f)) => Some((l as int, f as int)),
                        None => None,
                    },
                ),
            ),
            Err(e) => post_liquidate_redeem_spec(
                *old(withdraw_reserve),
                withdraw_collateral_amount as int,
                liquidation_bonus_rate.bits as int,
                *clock,
            ) == Err::<(Reserve, Option<(int, int)>), LendingError>(e) && *final(withdraw_reserve)
                == *old(withdraw_reserve),
        },
{
    if withdraw_collateral_amount == 0 {
        return Ok(None);
    }
    let mut updated = *withdraw_reserve;
    let liquidity_amount = redeem_reserve_collateral(
        &mut updated,
        withdraw_collateral_amount,
        clock,
        false,
    )?;
    let protocol_fee = calculate_protocol_liquidation_fee(
        liquidity_amount,
        liquidation_bonus_rate,
        withdraw_reserve.config.protocol_liquidation_fee_pct,
    )?;
    *withdraw_reserve = updated;
    Ok(Some((liquidity_amount, protocol_fee)))
}

/// Two obligations that hold the same data liquidate alike.
proof fn lemma_liquidation_same_data(
    m: LendingMarket,
    rr: Reserve,
    rk: Pubkey,
    wr: Reserve,
    wk: Pubkey,
    a: &Obligation,
    b: &Obligation,
    clock: Clock,
    amount: int,
    min_acceptable: int,
    ltv_override: Option<u64>,
    same: bool,
)
    requires
        same_obligation(a, b),
    ensures
        liquidate_obligation_spec(m, rr, rk, wr, wk, a, clock, amount, min_acceptable, ltv_override, same)
            == liquidate_obligation_spec(m, rr, rk, wr, wk, b, clock, amount, min_acceptable, ltv_override, same),
{
    reveal(liquidate_obligation_spec);
}

/// What a liquidation and redemption report, as integers.
pub open spec fn redeem_result_view(v: Option<(u64, u64)>) -> Option<(int, int)> {
    match v {
        Some((l, f)) => Some((l as int, f as int)),
        None => None,
    }
}

/// Liquidates and then redeems the seized collateral from the withdraw reserve,
/// all or nothing.
pub fn liquidate_and_redeem(
    lending_market: &LendingMarket,
    repay_reserve: &mut Reserve,
    repay_reserve_pk: Pubkey,
    withdraw_reserve: &mut Reserve,
    withdraw_reserve_pk: Pubkey,
    obligation: &mut Obligation,
    clock: &Clock,
    liquidity_amount: u64,
    min_acceptable_received_collateral_amount: u64,
    max_allowed_ltv_override_pct_opt: Option<u64>,
) -> (r: Result<LiquidateAndRedeemResult, LendingError>)
    requires
        old(obligation).wf(),
    ensures
        final(obligation).wf(),
        match r {
            Ok(res) => (liquidate_obligation_spec(
                *lending_market,
                *old(repay_reserve),
                repay_reserve_pk,
                *old(withdraw_reserve),
                withdraw_reserve_pk,
                old(obligation),
                *clock,
                liquidity_amount as int,
                min_acceptable_received_collateral_amount as int,
                max_allowed_ltv_override_pct_opt,
                false,
            ) matches Ok(out) && *final(repay_reserve) == out.0 && final(obligation).deposits@
                == out.2 && final(obligation).borrows@ == out.3 && res.repay_amount == out.4.1
                && res.withdraw_amount == out.4.2 && res.withdraw_collateral_amount == out.4.3
                && post_liquidate_redeem_spec(out.1, out.4.3, out.4.4, *clock) == Ok::<
                (Reserve, Option<(int, int)>),
                LendingError,
            >((*final(withdraw_reserve), redeem_result_view(res.total_withdraw_liquidity_amount)))),
            Err(e) => *final(repay_reserve) == *old(repay_reserve) && *final(withdraw_reserve)
                == *old(withdraw_reserve) && same_obligation(final(obligation), old(obligation))
                && match liquidate_obligation_spec(
                *lending_market,
                *old(repay_reserve),
                repay_reserve_pk,
                *old(withdraw_reserve),
                withdraw_reserve_pk,
                old(obligation),
                *clock,
                liquidity_amount as int,
                min_acceptable_received_collateral_amount as int,
                max_allowed_ltv_override_pct_opt,
                false,
            ) {
                Err(le) => e == le,
                Ok(out) => post_liquidate_redeem_spec(out.1, out.4.3, out.4.4, *clock) == Err::<
                    (Reserve, Option<(int, int)>),
                    LendingError,
                >(e),
            },
        },
{
    let mut repaid = *repay_reserve;
    let mut withdrawn = *withdraw_reserve;
    let mut ob = obligation.duplicate();
    proof {
        lemma_liquidation_same_data(
            *lending_market,
            *repay_reserve,
            repay_reserve_pk,
            *withdraw_reserve,
            withdraw_reserve_pk,
            &ob,
            obligation,
            *clock,
            liquidity_amount as int,
            min_acceptable_received_collateral_amount as int,
            max_allowed_ltv_override_pct_opt,
            false,
        );
    }
    let res = liquidate_in(
        lending_market,
        &mut repaid,
        repay_reserve_pk,
        &mut withdrawn,
        withdraw_reserve_pk,
        &mut ob,
        clock,
        liquidity_amount,
        min_acceptable_received_collateral_amount,
        max_allowed_ltv_override_pct_opt,
        false,
    )?;
    let ghost out: LiquidationOutcome = (
        repaid,
        withdrawn,
        ob.deposits@,
        ob.borrows@,
        liquidation_result_view(res),
    );
    let total = post_liquidate_redeem(
        &mut withdrawn,
        res.withdraw_collateral_amount,
        res.liquidation_bonus_rate,
        clock,
    )?;
    *repay_reserve = repaid;
    *withdraw_reserve = withdrawn;
    *obligation = ob;
    assert(*final(repay_reserve) == out.0 && final(obligation).deposits@ == out.2
        && final(obligation).borrows@ == out.3);
    Ok(
        LiquidateAndRedeemResult {
            repay_amount: res.repay_amount,
            withdraw_amount: res.withdraw_amount,
            total_withdraw_liquidity_amount: total,
            withdraw_collateral_amount: res.withdraw_collateral_amount,
        },
    )
}

/// Liquidates and then redeems, all or nothing, when the repaid debt and the
/// seized collateral are in the same reserve.
pub fn liquidate_and_redeem_in_one_reserve(
    lending_market: &LendingMarket,
    reserve: &mut Reserve,
    reserve_pk: Pubkey,
    obligation: &mut Obligation,
    clock: &Clock,
    liquidity_amount: u64,
    min_acceptable_received_collateral_amount: u64,
    max_allowed_ltv_override_pct_opt: Option<u64>,
) -> (r: Result<LiquidateAndRedeemResult, LendingError>)
    requires
        old(obligation).wf(),
    ensures
        final(obligation).wf(),
        match r {
            Ok(res) => (liquidate_obligation_spec(
                *lending_market,
                *old(reserve),
                reserve_pk,
                *old(reserve),
                reserve_pk,
                old(obligation),
                *clock,
                liquidity_amount as int,
                min_acceptable_received_collateral_amount as int,
                max_allowed_ltv_override_pct_opt,
                true,
            ) matches Ok(out) && final(obligation).deposits@ == out.2 && final(obligation).borrows@
                == out.3 && res.repay_amount == out.4.1 && res.withdraw_amount == out.4.2
                && res.withdraw_collateral_amount == out.4.3 && post_liquidate_redeem_spec(
                out.1,
                out.4.3,
                out.4.4,
                *clock,
            ) == Ok::<(Reserve, Option<(int, int)>), LendingError>(
                (*final(reserve), redeem_result_view(res.total_withdraw_liquidity_amount)),
            )),
            Err(e) => *final(reserve) == *old(reserve) && same_obligation(final(obligation), old(obligation))
                && match liquidate_obligation_spec(
                *lending_market,
                *old(reserve),
                reserve_pk,
                *old(reserve),
                reserve_pk,
                old(obligation),
                *clock,
                liquidity_amount as int,
                min_acceptable_received_collateral_amount as int,
                max_allowed_ltv_override_pct_opt,
                true,
            ) {
                Err(le) => e == le,
                Ok(out) => post_liquidate_redeem_spec(out.1, out.4.3, out.4.4, *clock) == Err::<
                    (Reserve, Option<(int, int)>),
                    LendingError,
                >(e),
            },
        },
{
    let mut repaid = *reserve;
    let mut withdrawn = *reserve;
    let mut ob = obligation.duplicate();
    proof {
        lemma_liquidation_same_data(
            *lending_market,
            *reserve,
            reserve_pk,
            *reserve,
            reserve_pk,
            &ob,
            obligation,
            *clock,
            liquidity_amount as int,
            min_acceptable_received_collateral_amount as int,
            max_allowed_ltv_override_pct_opt,
            true,
        );
    }
    let res = liquidate_in(
        lending_market,
        &mut repaid,
        reserve_pk,
        &mut withdrawn,
        reserve_pk,
        &mut ob,
        clock,
        liquidity_amount,
        min_acceptable_received_collateral_amount,
        max_allowed_ltv_override_pct_opt,
        true,
    )?;
    let ghost out: LiquidationOutcome = (
        repaid,
        withdrawn,
        ob.deposits@,
        ob.borrows@,
        liquidation_result_view(res),
    );
    let total = post_liquidate_redeem(
        &mut withdrawn,
        res.withdraw_collateral_amount,
        res.liquidation_bonus_rate,
        clock,
    )?;
    *reserve = withdrawn;
    *obligation = ob;
    assert(final(obligation).deposits@ == out.2 && final(obligation).borrows@ == out.3);
    Ok(
        LiquidateAndRedeemResult {
            repay_amount: res.repay_amount,
            withdraw_amount: res.withdraw_amount,
            total_withdraw_liquidity_amount: total,
            withdraw_collateral_amount: res.withdraw_collateral_amount,
        },
    )
}

} // verus!
