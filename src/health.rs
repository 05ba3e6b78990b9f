use vstd::prelude::*;
use crate::errors::LendingError;
use crate::fraction::{
    Fraction, s_add, s_sub, s_div, s_mul, percent_bits,
};
use crate::last_update::{
    PriceStatusFlags, ALL_CHECKS_BITS, LIQUIDATION_CHECKS_BITS, stale_at,
};
use crate::lending_operations::{
    market_value_of, calculate_market_value_from_liquidity_amount,
};
use crate::obligation::{
    Obligation, loan_to_value_of, unhealthy_loan_to_value_of,
};
use crate::reserve::Reserve;

verus! {

/// Whether a single entry's value is dust: above zero but below the market's minimum.
pub open spec fn is_dust(value: int, min_net: int) -> bool {
    value > 0 && value < min_net
}

/// Checks after a deposit of `amount` (liquidity, scaled) into an entry worth
/// `collateral_mv`: no dust entry, and no worse loan-to-value once the
/// obligation holds value.
pub open spec fn post_deposit_spec(
    amount: int,
    o: &Obligation,
    r: Reserve,
    collateral_mv: int,
    min_net: int,
) -> Result<(), LendingError> {
    match market_value_of(r, amount) {
        Err(e) => Err(e),
        Ok(mv) => match s_add(Ok(o.deposited_value.bits as int), Ok(mv)) {
            Err(e) => Err(e),
            Ok(total) => match s_add(Ok(collateral_mv), Ok(mv)) {
                Err(e) => Err(e),
                Ok(ncm) => if is_dust(ncm, min_net) {
                    Err(LendingError::NetValueRemainingTooSmall)
                } else if o.deposited_value.bits != 0 {
                    match s_div(Ok(o.borrow_factor_adjusted_debt_value.bits as int), Ok(total)) {
                        Err(e) => Err(e),
                        Ok(new_ltv) => match loan_to_value_of(o) {
                            Err(e) => Err(e),
                            Ok(ltv) => if new_ltv > ltv {
                                Err(LendingError::WorseLtvBlocked)
                            } else {
                                Ok(())
                            },
                        },
                    }
                } else {
                    Ok(())
                },
            },
        },
    }
}

/// Checks after a withdrawal of `amount` (liquidity, scaled) from an entry worth
/// `collateral_mv`: no dust entry, liabilities below the remaining assets, and
/// loan-to-value within the unhealthy threshold.
pub open spec fn post_withdraw_spec(
    amount: int,
    o: &Obligation,
    r: Reserve,
    collateral_mv: int,
    min_net: int,
) -> Result<(), LendingError> {
    match market_value_of(r, amount) {
        Err(e) => Err(e),
        Ok(mv) => match s_sub(Ok(o.deposited_value.bits as int), Ok(mv)) {
            Err(e) => Err(e),
            Ok(total) => {
                let entry = if collateral_mv != 0 {
                    match s_sub(Ok(collateral_mv), Ok(mv)) {
                        Err(e) => Err(e),
                        Ok(ncm) => if is_dust(ncm, min_net) {
                            Err(LendingError::NetValueRemainingTooSmall)
                        } else {
                            Ok(())
                        },
                    }
                } else {
                    Ok(())
                };
                match entry {
                    Err(e) => Err(e),
                    Ok(_) => if total != 0 {
                        if o.borrowed_assets_market_value.bits >= total {
                            Err(LendingError::LiabilitiesBiggerThanAssets)
                        } else {
                            match s_div(
                                Ok(o.borrow_factor_adjusted_debt_value.bits as int),
                                Ok(total),
                            ) {
                                Err(e) => Err(e),
                                Ok(new_ltv) => match unhealthy_loan_to_value_of(o) {
                                    Err(e) => Err(e),
                                    Ok(u) => if new_ltv > u {
                                        Err(LendingError::WorseLtvBlocked)
                                    } else {
                                        Ok(())
                                    },
                                },
                            }
                        }
                    } else {
                        Ok(())
                    },
                }
            },
        },
    }
}

/// Checks after a borrow of `amount` (scaled) on an entry worth `liquidity_mv`:
/// no dust entry, risk-adjusted loan-to-value within the unhealthy threshold,
/// and liabilities below assets.
pub open spec fn post_borrow_spec(
    amount: int,
    o: &Obligation,
    r: Reserve,
    liquidity_mv: int,
    min_net: int,
) -> Result<(), LendingError> {
    match market_value_of(r, amount) {
        Err(e) => Err(e),
        Ok(mv) => match s_add(
            Ok(o.borrow_factor_adjusted_debt_value.bits as int),
            s_mul(Ok(mv), Ok(percent_bits(r.config.borrow_factor_pct as int))),
        ) {
            Err(e) => Err(e),
            Ok(new_bf) => match s_add(Ok(o.borrowed_assets_market_value.bits as int), Ok(mv)) {
                Err(e) => Err(e),
                Ok(new_debt) => match s_add(Ok(liquidity_mv), Ok(mv)) {
                    Err(e) => Err(e),
                    Ok(nlm) => if is_dust(nlm, min_net) {
                        Err(LendingError::NetValueRemainingTooSmall)
                    } else {
                        match s_div(Ok(new_bf), Ok(o.deposited_value.bits as int)) {
                            Err(e) => Err(e),
                            Ok(new_ltv) => match unhealthy_loan_to_value_of(o) {
                                Err(e) => Err(e),
                                Ok(u) => if new_ltv > u {
                                    Err(LendingError::WorseLtvBlocked)
                                } else if new_debt >= o.deposited_value.bits {
                                    Err(LendingError::LiabilitiesBiggerThanAssets)
                                } else {
                                    Ok(())
                                },
                            },
                        }
                    },
                },
            },
        },
    }
}

/// The risk-adjusted debt value left after a repay worth `mv`, at least zero.
pub open spec fn debt_after_repay(o: &Obligation, mv_bf: int) -> int {
    if o.borrow_factor_adjusted_debt_value.bits >= mv_bf {
        o.borrow_factor_adjusted_debt_value.bits - mv_bf
    } else {
        0
    }
}

/// Checks after a repay of `amount` (scaled) on an entry worth `liquidity_mv`:
/// no dust entry, and no worse loan-to-value.
pub open spec fn post_repay_spec(
    amount: int,
    o: &Obligation,
    r: Reserve,
    liquidity_mv: int,
    min_net: int,
) -> Result<(), LendingError> {
    match market_value_of(r, amount) {
        Err(e) => Err(e),
        Ok(mv) => match s_mul(Ok(mv), Ok(percent_bits(r.config.borrow_factor_pct as int))) {
            Err(e) => Err(e),
            Ok(mv_bf) => {
                let new_bf = debt_after_repay(o, mv_bf);
                let nlm = if liquidity_mv >= mv {
                    liquidity_mv - mv
                } else {
                    0
                };
                if liquidity_mv != 0 && is_dust(nlm, min_net) {
                    Err(LendingError::NetValueRemainingTooSmall)
                } else if o.deposited_value.bits > 0 {
                    match s_div(Ok(new_bf), Ok(o.deposited_value.bits as int)) {
                        Err(e) => Err(e),
                        Ok(new_ltv) => match loan_to_value_of(o) {
                            Err(e) => Err(e),
                            Ok(ltv) => if new_ltv > ltv {
                                Err(LendingError::WorseLtvBlocked)
                            } else {
                                Ok(())
                            },
                        },
                    }
                } else {
                    Ok(())
                }
            },
        },
    }
}

/// Rejects a deposit that would leave a dust entry or a worse loan-to-value.
pub fn post_deposit_obligation_invariants(
    amount: Fraction,
    obligation: &Obligation,
    reserve: &Reserve,
    collateral_asset_mv: Fraction,
    min_accepted_net_value: Fraction,
) -> (r: Result<(), LendingError>)
    ensures
        r == post_deposit_spec(
            amount.bits as int,
            obligation,
            *reserve,
            collateral_asset_mv.bits as int,
            min_accepted_net_value.bits as int,
        ),
{
    let asset_mv = calculate_market_value_from_liquidity_amount(reserve, amount)?;
    let new_total_deposited_mv = obligation.deposited_value.add(asset_mv)?;
    let new_collateral_asset_mv = collateral_asset_mv.add(asset_mv)?;
    if new_collateral_asset_mv.bits > 0 && new_collateral_asset_mv.bits
        < min_accepted_net_value.bits {
        return Err(LendingError::NetValueRemainingTooSmall);
    }
    if obligation.deposited_value.bits != 0 {
        let new_ltv = obligation.borrow_factor_adjusted_debt_value.div(new_total_deposited_mv)?;
        let ltv = obligation.loan_to_value()?;
        if new_ltv.bits > ltv.bits {
            return Err(LendingError::WorseLtvBlocked);
        }
    }
    Ok(())
}

/// Rejects a withdrawal that would leave a dust entry, liabilities at or above
/// assets, or a loan-to-value past the unhealthy threshold.
pub fn post_withdraw_obligation_invariants(
    amount: Fraction,
    obligation: &Obligation,
    reserve: &Reserve,
    collateral_asset_mv: Fraction,
    min_accepted_net_value: Fraction,
) -> (r: Result<(), LendingError>)
    ensures
        r == post_withdraw_spec(
            amount.bits as int,
            obligation,
            *reserve,
            collateral_asset_mv.bits as int,
            min_accepted_net_value.bits as int,
        ),
{
    let asset_mv = calculate_market_value_from_liquidity_amount(reserve, amount)?;
    let new_total_deposited_mv = obligation.deposited_value.sub(asset_mv)?;
    if collateral_asset_mv.bits != 0 {
        let new_collateral_asset_mv = collateral_asset_mv.sub(asset_mv)?;
        if new_collateral_asset_mv.bits > 0 && new_collateral_asset_mv.bits
            < min_accepted_net_value.bits {
            return Err(LendingError::NetValueRemainingTooSmall);
        }
    }
    if new_total_deposited_mv.bits != 0 {
        if obligation.borrowed_assets_market_value.bits >= new_total_deposited_mv.bits {
            return Err(LendingError::LiabilitiesBiggerThanAssets);
        }
        let new_ltv = obligation.borrow_factor_adjusted_debt_value.div(new_total_deposited_mv)?;
        let unhealthy_ltv = obligation.unhealthy_loan_to_value()?;
        if new_ltv.bits > unhealthy_ltv.bits {
            return Err(LendingError::WorseLtvBlocked);
        }
    }
    Ok(())
}

/// Rejects a borrow that would leave a dust entry, a risk-adjusted
/// loan-to-value past the unhealthy threshold, or liabilities at or above assets.
pub fn post_borrow_obligation_invariants(
    amount: Fraction,
    obligation: &Obligation,
    reserve: &Reserve,
    liquidity_asset_mv: Fraction,
    min_accepted_net_value: Fraction,
) -> (r: Result<(), LendingError>)
    ensures
        r == post_borrow_spec(
            amount.bits as int,
            obligation,
            *reserve,
            liquidity_asset_mv.bits as int,
            min_accepted_net_value.bits as int,
        ),
{
    let asset_mv = calculate_market_value_from_liquidity_amount(reserve, amount)?;
    let borrow_factor = Fraction::from_percent(reserve.config.borrow_factor_pct);
    let new_total_bf_debt_mv = obligation.borrow_factor_adjusted_debt_value.add(
        asset_mv.mul(borrow_factor)?,
    )?;
    let new_total_no_bf_debt_mv = obligation.borrowed_assets_market_value.add(asset_mv)?;
    let new_liquidity_asset_mv = liquidity_asset_mv.add(asset_mv)?;
    if new_liquidity_asset_mv.bits > 0 && new_liquidity_asset_mv.bits
        < min_accepted_net_value.bits {
        return Err(LendingError::NetValueRemainingTooSmall);
    }
    let new_ltv = new_total_bf_debt_mv.div(obligation.deposited_value)?;
    let unhealthy_ltv = obligation.unhealthy_loan_to_value()?;
    if new_ltv.bits > unhealthy_ltv.bits {
        return Err(LendingError::WorseLtvBlocked);
    }
    if new_total_no_bf_debt_mv.bits >= obligation.deposited_value.bits {
        return Err(LendingError::LiabilitiesBiggerThanAssets);
    }
    Ok(())
}

/// Rejects a repay that would leave a dust entry or a worse loan-to-value.
pub fn post_repay_obligation_invariants(
    amount: Fraction,
    obligation: &Obligation,
    reserve: &Reserve,
    liquidity_asset_mv: Fraction,
    min_accepted_net_value: Fraction,
) -> (r: Result<(), LendingError>)
    ensures
        r == post_repay_spec(
            amount.bits as int,
            obligation,
            *reserve,
            liquidity_asset_mv.bits as int,
            min_accepted_net_value.bits as int,
        ),
{
    let asset_mv = calculate_market_value_from_liquidity_amount(reserve, amount)?;
    let borrow_factor = Fraction::from_percent(reserve.config.borrow_factor_pct);
    let asset_mv_bf = asset_mv.mul(borrow_factor)?;
    let new_total_bf_debt_mv = obligation.borrow_factor_adjusted_debt_value.saturating_sub(
        asset_mv_bf,
    );
    if liquidity_asset_mv.bits != 0 {
        let new_liquidity_asset_mv = liquidity_asset_mv.saturating_sub(asset_mv);
        if new_liquidity_asset_mv.bits > 0 && new_liquidity_asset_mv.bits
            < min_accepted_net_value.bits {
            return Err(LendingError::NetValueRemainingTooSmall);
        }
    }
    if obligation.deposited_value.bits > 0 {
        let new_ltv = new_total_bf_debt_mv.div(obligation.deposited_value)?;
        let ltv = obligation.loan_to_value()?;
        if new_ltv.bits > ltv.bits {
            return Err(LendingError::WorseLtvBlocked);
        }
    }
    Ok(())
}

/// Which of the obligation checks before a borrow fails first, if any.
pub open spec fn fully_refreshed_spec(o: &Obligation, slot: u64) -> Result<(), LendingError> {
    if stale_at(o.last_update, slot, ALL_CHECKS_BITS) {
        Err(LendingError::ObligationStale)
    } else if o.deposits@.len() == 0 {
        Err(LendingError::ObligationDepositsEmpty)
    } else if o.deposited_value.bits == 0 {
        Err(LendingError::ObligationDepositsZero)
    } else {
        Ok(())
    }
}

/// Requires a fresh obligation, with every price check, that holds collateral of
/// some value.
pub fn check_obligation_fully_refreshed_and_not_null(obligation: &Obligation, slot: u64) -> (r:
    Result<(), LendingError>)
    ensures
        r == fully_refreshed_spec(obligation, slot),
{
    if obligation.last_update.is_stale(slot, PriceStatusFlags::all_checks()) {
        return Err(LendingError::ObligationStale);
    }
    if obligation.deposits_empty() {
        return Err(LendingError::ObligationDepositsEmpty);
    }
    if obligation.deposited_value.bits == 0 {
        return Err(LendingError::ObligationDepositsZero);
    }
    Ok(())
}

/// Which of the checks before a liquidation fails first, if any.
pub open spec fn liquidatable_spec(
    repay_reserve: Reserve,
    withdraw_reserve: Reserve,
    o: &Obligation,
    amount: u64,
    slot: u64,
) -> Result<(), LendingError> {
    if amount == 0 {
        Err(LendingError::InvalidAmount)
    } else if stale_at(repay_reserve.last_update, slot, LIQUIDATION_CHECKS_BITS) {
        Err(LendingError::ReserveStale)
    } else if stale_at(withdraw_reserve.last_update, slot, LIQUIDATION_CHECKS_BITS) {
        Err(LendingError::ReserveStale)
    } else if stale_at(o.last_update, slot, LIQUIDATION_CHECKS_BITS) {
        Err(LendingError::ObligationStale)
    } else if o.deposited_value.bits == 0 {
        Err(LendingError::ObligationDepositsZero)
    } else if o.borrow_factor_adjusted_debt_value.bits == 0 {
        Err(LendingError::ObligationBorrowsZero)
    } else {
        Ok(())
    }
}

/// Requires a non-zero amount, both reserves and the obligation fresh with the
/// liquidation price checks, and an obligation with collateral and debt.
pub fn assert_obligation_liquidatable(
    repay_reserve: &Reserve,
    withdraw_reserve: &Reserve,
    obligation: &Obligation,
    liquidity_amount: u64,
    slot: u64,
) -> (r: Result<(), LendingError>)
    ensures
        r == liquidatable_spec(*repay_reserve, *withdraw_reserve, obligation, liquidity_amount, slot),
{
    if liquidity_amount == 0 {
        return Err(LendingError::InvalidAmount);
    }
    if repay_reserve.last_update.is_stale(slot, PriceStatusFlags::liquidation_checks()) {
        return Err(LendingError::ReserveStale);
    }
    if withdraw_reserve.last_update.is_stale(slot, PriceStatusFlags::liquidation_checks()) {
        return Err(LendingError::ReserveStale);
    }
    if obligation.last_update.is_stale(slot, PriceStatusFlags::liquidation_checks()) {
        return Err(LendingError::ObligationStale);
    }
    if obligation.deposited_value.bits == 0 {
        return Err(LendingError::ObligationDepositsZero);
    }
    if obligation.borrow_factor_adjusted_debt_value.bits == 0 {
        return Err(LendingError::ObligationBorrowsZero);
    }
    Ok(())
}

} // verus!
