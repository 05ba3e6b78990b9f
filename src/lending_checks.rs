use vstd::prelude::*;
use crate::errors::LendingError;
use crate::lending_market::LendingMarket;
use crate::lending_operations::{
    Clock, refresh_reserve, refresh_reserve_spec, deposit_reserve_liquidity,
    deposit_reserve_liquidity_spec,
};
use crate::pubkey::Pubkey;
use crate::reserve::{Reserve, ReserveConfig, ReserveStatus, PROGRAM_VERSION, config_valid};

verus! {

/// Direction and size of a transfer into or out of a reserve's liquidity vault.
#[derive(Clone, Copy, Debug, PartialEq, Eq, Structural)]
pub enum LendingAction {
    Additive(u64),
    Subtractive(u64),
}

/// Which check of the vault against the ledger fails first, if any: the
/// untracked part of the vault must not move, and both the vault and the
/// available liquidity must move by exactly the transfer.
pub open spec fn vault_check_spec(
    final_vault: int,
    final_available: int,
    initial_vault: int,
    initial_available: int,
    action: LendingAction,
) -> Result<(), LendingError> {
    if initial_vault - initial_available != final_vault - final_available {
        Err(LendingError::ReserveTokenBalanceMismatch)
    } else {
        let delta: int = match action {
            LendingAction::Additive(a) => a as int,
            LendingAction::Subtractive(a) => -(a as int),
        };
        if initial_vault + delta != final_vault {
            Err(LendingError::ReserveVaultBalanceMismatch)
        } else if initial_available + delta != final_available {
            Err(LendingError::ReserveAccountingMismatch)
        } else {
            Ok(())
        }
    }
}

/// Holds the ledger to the vault after a transfer: the vault and the available
/// liquidity must each have moved by exactly the amount transferred.
pub fn post_transfer_vault_balance_liquidity_reserve_checks(
    final_reserve_vault_balance: u64,
    final_reserve_available_liquidity: u64,
    initial_reserve_vault_balance: u64,
    initial_reserve_available_liquidity: u64,
    action_type: LendingAction,
) -> (r: Result<(), LendingError>)
    ensures
        r == vault_check_spec(
            final_reserve_vault_balance as int,
            final_reserve_available_liquidity as int,
            initial_reserve_vault_balance as int,
            initial_reserve_available_liquidity as int,
            action_type,
        ),
{
    let pre_diff = initial_reserve_vault_balance as i128 - initial_reserve_available_liquidity as i128;
    let post_diff = final_reserve_vault_balance as i128 - final_reserve_available_liquidity as i128;
    if pre_diff != post_diff {
        return Err(LendingError::ReserveTokenBalanceMismatch);
    }
    let delta: i128 = match action_type {
        LendingAction::Additive(a) => a as i128,
        LendingAction::Subtractive(a) => -(a as i128),
    };
    if initial_reserve_vault_balance as i128 + delta != final_reserve_vault_balance as i128 {
        return Err(LendingError::ReserveVaultBalanceMismatch);
    }
    if initial_reserve_available_liquidity as i128 + delta != final_reserve_available_liquidity as i128 {
        return Err(LendingError::ReserveAccountingMismatch);
    }
    Ok(())
}

/// Refuses every user action while the market is in emergency mode.
pub fn emergency_mode_disabled(lending_market: &LendingMarket) -> (r: Result<(), LendingError>)
    ensures
        r is Ok <==> lending_market.emergency_mode == 0,
        r is Err ==> r == Err::<(), LendingError>(LendingError::GlobalEmergencyMode),
{
    if lending_market.emergency_mode > 0 {
        return Err(LendingError::GlobalEmergencyMode);
    }
    Ok(())
}

/// Checks a reserve configuration.
pub fn validate_reserve_config(config: &ReserveConfig) -> (r: Result<(), LendingError>)
    ensures
        r is Ok <==> config_valid(*config),
        r is Err ==> r == Err::<(), LendingError>(LendingError::InvalidConfig),
{
    config.validate()
}

/// Which account check before a deposit of liquidity fails first, if any.
pub open spec fn deposit_reserve_liquidity_checks_spec(r: Reserve, source: Pubkey, destination: Pubkey) -> Result<
    (),
    LendingError,
> {
    if r.liquidity.supply_vault == source || r.collateral.supply_vault == destination {
        Err(LendingError::InvalidAccountInput)
    } else if r.config.status == ReserveStatus::Obsolete {
        Err(LendingError::ReserveObsolete)
    } else if r.version != PROGRAM_VERSION {
        Err(LendingError::ReserveDeprecated)
    } else {
        Ok(())
    }
}

/// The user's accounts must not be the reserve's own vaults, and the reserve
/// must be current and not obsolete.
pub fn deposit_reserve_liquidity_checks(
    reserve: &Reserve,
    user_source_liquidity: Pubkey,
    user_destination_collateral: Pubkey,
) -> (r: Result<(), LendingError>)
    ensures
        r == deposit_reserve_liquidity_checks_spec(
            *reserve,
            user_source_liquidity,
            user_destination_collateral,
        ),
{
    if reserve.liquidity.supply_vault == user_source_liquidity {
        return Err(LendingError::InvalidAccountInput);
    }
    if reserve.collateral.supply_vault == user_destination_collateral {
        return Err(LendingError::InvalidAccountInput);
    }
    if reserve.config.status == ReserveStatus::Obsolete {
        return Err(LendingError::ReserveObsolete);
    }
    if reserve.version != PROGRAM_VERSION {
        return Err(LendingError::ReserveDeprecated);
    }
    Ok(())
}

/// The user's accounts must not be the reserve's own vaults, and the reserve
/// must be current.
pub fn redeem_reserve_collateral_checks(
    reserve: &Reserve,
    user_source_collateral: Pubkey,
    user_destination_liquidity: Pubkey,
) -> (r: Result<(), LendingError>)
    ensures
        r == (if reserve.collateral.supply_vault == user_source_collateral
            || reserve.liquidity.supply_vault == user_destination_liquidity {
            Err(LendingError::InvalidAccountInput)
        } else if reserve.version != PROGRAM_VERSION {
            Err(LendingError::ReserveDeprecated)
        } else {
            Ok(())
        }),
{
    if reserve.collateral.supply_vault == user_source_collateral {
        return Err(LendingError::InvalidAccountInput);
    }
    if reserve.liquidity.supply_vault == user_destination_liquidity {
        return Err(LendingError::InvalidAccountInput);
    }
    if reserve.version != PROGRAM_VERSION {
        return Err(LendingError::ReserveDeprecated);
    }
    Ok(())
}

/// The destination must not be the reserve's vault, and the reserve must be
/// current and not obsolete.
pub fn borrow_obligation_liquidity_checks(borrow_reserve: &Reserve, user_destination_liquidity: Pubkey) -> (r:
    Result<(), LendingError>)
    ensures
        r == (if borrow_reserve.liquidity.supply_vault == user_destination_liquidity {
            Err(LendingError::InvalidAccountInput)
        } else if borrow_reserve.config.status == ReserveStatus::Obsolete {
            Err(LendingError::ReserveObsolete)
        } else if borrow_reserve.version != PROGRAM_VERSION {
            Err(LendingError::ReserveDeprecated)
        } else {
            Ok(())
        }),
{
    if borrow_reserve.liquidity.supply_vault == user_destination_liquidity {
        return Err(LendingError::InvalidAccountInput);
    }
    if borrow_reserve.config.status == ReserveStatus::Obsolete {
        return Err(LendingError::ReserveObsolete);
    }
    if borrow_reserve.version != PROGRAM_VERSION {
        return Err(LendingError::ReserveDeprecated);
    }
    Ok(())
}

/// The source must not be the reserve's collateral vault, and the reserve must
/// be current and not obsolete.
pub fn deposit_obligation_collateral_checks(deposit_reserve: &Reserve, user_source_collateral: Pubkey) -> (r:
    Result<(), LendingError>)
    ensures
        r == (if deposit_reserve.collateral.supply_vault == user_source_collateral {
            Err(LendingError::InvalidAccountInput)
        } else if deposit_reserve.config.status == ReserveStatus::Obsolete {
            Err(LendingError::ReserveObsolete)
        } else if deposit_reserve.version != PROGRAM_VERSION {
            Err(LendingError::ReserveDeprecated)
        } else {
            Ok(())
        }),
{
    if deposit_reserve.collateral.supply_vault == user_source_collateral {
        return Err(LendingError::InvalidAccountInput);
    }
    if deposit_reserve.config.status == ReserveStatus::Obsolete {
        return Err(LendingError::ReserveObsolete);
    }
    if deposit_reserve.version != PROGRAM_VERSION {
        return Err(LendingError::ReserveDeprecated);
    }
    Ok(())
}

/// The reserve must be current, and the destination must not be its collateral vault.
pub fn withdraw_obligation_collateral_checks(
    withdraw_reserve: &Reserve,
    user_destination_collateral: Pubkey,
) -> (r: Result<(), LendingError>)
    ensures
        r == (if withdraw_reserve.version != PROGRAM_VERSION {
            Err(LendingError::ReserveDeprecated)
        } else if withdraw_reserve.collateral.supply_vault == user_destination_collateral {
            Err(LendingError::InvalidAccountInput)
        } else {
            Ok(())
        }),
{
    if withdraw_reserve.version != PROGRAM_VERSION {
        return Err(LendingError::ReserveDeprecated);
    }
    if withdraw_reserve.collateral.supply_vault == user_destination_collateral {
        return Err(LendingError::InvalidAccountInput);
    }
    Ok(())
}

/// The source must not be the reserve's vault, and the reserve must be current.
pub fn repay_obligation_liquidity_checks(repay_reserve: &Reserve, user_source_liquidity: Pubkey) -> (r:
    Result<(), LendingError>)
    ensures
        r == (if repay_reserve.liquidity.supply_vault == user_source_liquidity {
            Err(LendingError::InvalidAccountInput)
        } else if repay_reserve.version != PROGRAM_VERSION {
            Err(LendingError::ReserveDeprecated)
        } else {
            Ok(())
        }),
{
    if repay_reserve.liquidity.supply_vault == user_source_liquidity {
        return Err(LendingError::InvalidAccountInput);
    }
    if repay_reserve.version != PROGRAM_VERSION {
        return Err(LendingError::ReserveDeprecated);
    }
    Ok(())
}

/// Neither reserve's vaults may be the liquidator's accounts, and both reserves
/// must be current.
pub fn liquidate_obligation_checks(
    repay_reserve: &Reserve,
    withdraw_reserve: &Reserve,
    user_source_liquidity: Pubkey,
    user_destination_collateral: Pubkey,
) -> (r: Result<(), LendingError>)
    ensures
        r == (if repay_reserve.liquidity.supply_vault == user_source_liquidity
            || repay_reserve.collateral.supply_vault == user_destination_collateral {
            Err(LendingError::InvalidAccountInput)
        } else if repay_reserve.version != PROGRAM_VERSION {
            Err(LendingError::ReserveDeprecated)
        } else if withdraw_reserve.liquidity.supply_vault == user_source_liquidity
            || withdraw_reserve.collateral.supply_vault == user_destination_collateral {
            Err(LendingError::InvalidAccountInput)
        } else if withdraw_reserve.version != PROGRAM_VERSION {
            Err(LendingError::ReserveDeprecated)
        } else {
            Ok(())
        }),
{
    if repay_reserve.liquidity.supply_vault == user_source_liquidity {
        return Err(LendingError::InvalidAccountInput);
    }
    if repay_reserve.collateral.supply_vault == user_destination_collateral {
        return Err(LendingError::InvalidAccountInput);
    }
    if repay_reserve.version != PROGRAM_VERSION {
        return Err(LendingError::ReserveDeprecated);
    }
    if withdraw_reserve.liquidity.supply_vault == user_source_liquidity {
        return Err(LendingError::InvalidAccountInput);
    }
    if withdraw_reserve.collateral.supply_vault == user_destination_collateral {
        return Err(LendingError::InvalidAccountInput);
    }
    if withdraw_reserve.version != PROGRAM_VERSION {
        return Err(LendingError::ReserveDeprecated);
    }
    Ok(())
}

/// Available liquidity of both reserves before a liquidation.
pub fn initial_liquidation_reserve_liquidity_available_amount(
    repay_reserve: &Reserve,
    withdraw_reserve: &Reserve,
) -> (r: (u64, u64))
    ensures
        r == (repay_reserve.liquidity.available_amount, withdraw_reserve.liquidity.available_amount),
{
    (repay_reserve.liquidity.available_amount, withdraw_reserve.liquidity.available_amount)
}

/// The reserve and receipt tokens after the deposit instruction's own work:
/// amount and emergency check, account checks, refresh, deposit.
pub open spec fn process_deposit_spec(
    m: LendingMarket,
    r: Reserve,
    clock: Clock,
    amount: int,
    source: Pubkey,
    destination: Pubkey,
) -> Result<(Reserve, int), LendingError> {
    if amount == 0 {
        Err(LendingError::InvalidAmount)
    } else if m.emergency_mode != 0 {
        Err(LendingError::GlobalEmergencyMode)
    } else {
        match deposit_reserve_liquidity_checks_spec(r, source, destination) {
            Err(e) => Err(e),
            Ok(_) => match refresh_reserve_spec(r, clock, None) {
                Err(e) => Err(e),
                Ok(r1) => deposit_reserve_liquidity_spec(r1, clock, amount),
            },
        }
    }
}

/// The deposit instruction up to the token transfers: checks the accounts,
/// refreshes the reserve and records the deposit, returning the receipt tokens
/// to mint. The caller moves the tokens and then holds the vault to the ledger
/// with `post_transfer_vault_balance_liquidity_reserve_checks`. Nothing changes
/// on failure.
pub fn process_deposit_reserve_liquidity(
    lending_market: &LendingMarket,
    reserve: &mut Reserve,
    clock: &Clock,
    liquidity_amount: u64,
    user_source_liquidity: Pubkey,
    user_destination_collateral: Pubkey,
) -> (r: Result<u64, LendingError>)
    ensures
        match r {
            Ok(c) => process_deposit_spec(
                *lending_market,
                *old(reserve),
                *clock,
                liquidity_amount as int,
                user_source_liquidity,
                user_destination_collateral,
            ) == Ok::<(Reserve, int), LendingError>((*final(reserve), c as int)),
            Err(e) => process_deposit_spec(
                *lending_market,
                *old(reserve),
                *clock,
                liquidity_amount as int,
                user_source_liquidity,
                user_destination_collateral,
            ) == Err::<(Reserve, int), LendingError>(e) && *final(reserve) == *old(reserve),
        },
{
    if liquidity_amount == 0 {
        return Err(LendingError::InvalidAmount);
    }
    emergency_mode_disabled(lending_market)?;
    deposit_reserve_liquidity_checks(reserve, user_source_liquidity, user_destination_collateral)?;
    let mut updated = *reserve;
    refresh_reserve(&mut updated, clock, None)?;
    let collateral_amount = deposit_reserve_liquidity(&mut updated, clock, liquidity_amount)?;
    *reserve = updated;
    Ok(collateral_amount)
}

} // verus!
