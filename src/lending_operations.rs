use vstd::prelude::*;
use crate::errors::LendingError;
use crate::fraction::{
    Fraction, Outcome, whole, s_add, s_div, s_mul, is_frac,
};
use crate::last_update::{
    LastUpdate, PriceStatusFlags, stale_at,
};
use crate::pubkey::Pubkey;
use crate::reserve::{
    Reserve, ReserveConfig, ReserveLiquidity, ten_pow, ten_pow_of, total_supply_of, accrue_interest_spec, deposit_liquidity_spec, redeem_collateral_spec, fees_spec, FeeCalculation,
};
use crate::health::{
    post_deposit_obligation_invariants, post_deposit_spec, post_borrow_obligation_invariants, post_borrow_spec, post_repay_obligation_invariants, post_repay_spec, post_withdraw_obligation_invariants, post_withdraw_spec, check_obligation_fully_refreshed_and_not_null, fully_refreshed_spec,
};
use crate::lending_market::LendingMarket;
use crate::obligation::{
    Obligation, ObligationCollateral, ObligationLiquidity, MAX_OBLIGATION_RESERVES, has_deposit, deposit_index, has_borrow, borrow_index, lemma_deposit_index, lemma_borrow_index, obligation_updated, remaining_borrow_value_of, accrued_debt_of, max_withdraw_value_of,
};
use crate::fraction::s_div as frac_div;
use crate::reserve::{
    exchange_rate_of, calculate_borrow_spec, calculate_repay_spec, CalculateBorrowResult, ReserveStatus, ALL_AMOUNT,
};
use crate::last_update::ALL_CHECKS_BITS;
use crate::fraction::{
    s_floor, s_fit, s_min,
};
use crate::withdrawal_caps::{
    add_to_withdrawal_accum, sub_from_withdrawal_accum, add_to_accum_spec, sub_from_accum_spec,
};

verus! {

/// The logical clock of an operation.
#[derive(Clone, Copy, Debug, PartialEq, Eq, Structural)]
pub struct Clock {
    pub slot: u64,
    pub unix_timestamp: u64,
}

/// A price resolved from a feed, with the checks it passed.
#[derive(Clone, Copy, Debug, PartialEq, Eq, Structural)]
pub struct GetPriceResult {
    pub price: Fraction,
    pub status: PriceStatusFlags,
    pub timestamp: u64,
}

/// Whether the stored price is younger than its maximum age at `current_ts`.
pub open spec fn saved_price_age_valid(r: Reserve, current_ts: u64) -> bool {
    (if current_ts >= r.liquidity.market_price_last_updated_ts {
        current_ts - r.liquidity.market_price_last_updated_ts
    } else {
        0
    }) < r.config.max_age_price_seconds
}

/// A reserve marked changed since its last refresh.
pub open spec fn marked_stale(r: Reserve) -> Reserve {
    Reserve { last_update: LastUpdate { stale: true, ..r.last_update }, ..r }
}

/// The reserve after a refresh at `clock`, with or without a new price.
pub open spec fn refresh_reserve_spec(r: Reserve, clock: Clock, price: Option<GetPriceResult>) -> Result<
    Reserve,
    LendingError,
> {
    match accrue_interest_spec(r, clock.slot) {
        Err(e) => Err(e),
        Ok(a) => {
            let (liquidity, status) = match price {
                Some(p) => (
                    ReserveLiquidity {
                        market_price: p.price,
                        market_price_last_updated_ts: p.timestamp,
                        ..a.liquidity
                    },
                    p.status.bits,
                ),
                None => (
                    a.liquidity,
                    if !saved_price_age_valid(r, clock.unix_timestamp) {
                        0u8
                    } else {
                        a.last_update.price_status
                    },
                ),
            };
            Ok(
                Reserve {
                    liquidity,
                    last_update: LastUpdate { slot: clock.slot, stale: false, price_status: status },
                    ..a
                },
            )
        },
    }
}

/// The reserve after a deposit of liquidity, and the receipt tokens minted.
pub open spec fn deposit_reserve_liquidity_spec(r: Reserve, clock: Clock, amount: int) -> Result<
    (Reserve, int),
    LendingError,
> {
    if amount == 0 {
        Err(LendingError::InvalidAmount)
    } else if stale_at(r.last_update, clock.slot, 0) {
        Err(LendingError::ReserveStale)
    } else {
        match s_add(Ok(whole(amount)), total_supply_of(r.liquidity)) {
            Err(e) => Err(e),
            Ok(t) => if t > whole(r.config.deposit_limit as int) {
                Err(LendingError::DepositLimitExceeded)
            } else {
                match sub_from_accum_spec(
                    r.config.deposit_withdrawal_cap,
                    amount,
                    clock.unix_timestamp,
                ) {
                    Err(e) => Err(e),
                    Ok(caps) => match deposit_liquidity_spec(
                        Reserve {
                            config: ReserveConfig { deposit_withdrawal_cap: caps, ..r.config },
                            ..r
                        },
                        amount,
                    ) {
                        Err(e) => Err(e),
                        Ok((r2, c)) => Ok((marked_stale(r2), c)),
                    },
                }
            },
        }
    }
}

/// The reserve after receipt tokens are redeemed, and the liquidity paid out.
pub open spec fn redeem_reserve_collateral_spec(
    r: Reserve,
    amount: int,
    clock: Clock,
    add_to_caps: bool,
) -> Result<(Reserve, int), LendingError> {
    if amount == 0 {
        Err(LendingError::InvalidAmount)
    } else if stale_at(r.last_update, clock.slot, 0) {
        Err(LendingError::ReserveStale)
    } else {
        match redeem_collateral_spec(r, amount) {
            Err(e) => Err(e),
            Ok((r2, l)) => {
                let r3 = marked_stale(r2);
                if add_to_caps {
                    match add_to_accum_spec(
                        r3.config.deposit_withdrawal_cap,
                        l,
                        clock.unix_timestamp,
                    ) {
                        Err(e) => Err(e),
                        Ok(caps) => Ok(
                            (
                                Reserve {
                                    config: ReserveConfig { deposit_withdrawal_cap: caps, ..r3.config },
                                    ..r3
                                },
                                l,
                            ),
                        ),
                    }
                } else {
                    Ok((r3, l))
                }
            },
        }
    }
}

/// Value in the quote currency of a scaled amount of a reserve's liquidity.
pub open spec fn market_value_of(r: Reserve, amount: int) -> Outcome {
    match ten_pow_of(r.liquidity.mint_decimals as nat) {
        Err(e) => Err(e),
        Ok(d) => s_div(s_mul(Ok(amount), Ok(r.liquidity.market_price.bits as int)), Ok(whole(d))),
    }
}

/// Accrues interest up to the clock's slot, stores a new price if one is given,
/// and marks the reserve fresh. Without a new price, a stored price older than
/// its maximum age leaves the reserve with no price checks passed.
pub fn refresh_reserve(reserve: &mut Reserve, clock: &Clock, price: Option<GetPriceResult>) -> (r:
    Result<(), LendingError>)
    ensures
        match r {
            Ok(_) => refresh_reserve_spec(*old(reserve), *clock, price) == Ok::<
                Reserve,
                LendingError,
            >(*final(reserve)),
            Err(e) => refresh_reserve_spec(*old(reserve), *clock, price) == Err::<
                Reserve,
                LendingError,
            >(e) && *final(reserve) == *old(reserve),
        },
{
    let slot = clock.slot;
    let age_valid = is_saved_price_age_valid(reserve, clock.unix_timestamp);
    reserve.accrue_interest(slot)?;
    let price_status = match price {
        Some(p) => {
            reserve.liquidity.market_price = p.price;
            reserve.liquidity.market_price_last_updated_ts = p.timestamp;
            Some(p.status)
        },
        None => if !age_valid {
            Some(PriceStatusFlags::empty())
        } else {
            None
        },
    };
    reserve.last_update.update_slot(slot, price_status);
    Ok(())
}

/// Whether the stored price is younger than its maximum age.
pub fn is_saved_price_age_valid(reserve: &Reserve, current_ts: u64) -> (r: bool)
    ensures
        r == saved_price_age_valid(*reserve, current_ts),
{
    current_ts.saturating_sub(reserve.liquidity.market_price_last_updated_ts)
        < reserve.config.max_age_price_seconds
}

/// Whether the stored price has reached the market's share of its maximum age,
/// past which a refresh is due.
pub fn is_price_refresh_needed(
    reserve: &Reserve,
    market: &crate::lending_market::LendingMarket,
    current_ts: u64,
) -> (r: bool)
    ensures
        r == ((if current_ts >= reserve.liquidity.market_price_last_updated_ts {
            current_ts - reserve.liquidity.market_price_last_updated_ts
        } else {
            0
        }) >= reserve.config.max_age_price_seconds * market.price_refresh_trigger_to_max_age_pct
            / 100),
{
    let age = current_ts.saturating_sub(reserve.liquidity.market_price_last_updated_ts);
    assert(reserve.config.max_age_price_seconds * market.price_refresh_trigger_to_max_age_pct
        <= u128::MAX) by (nonlinear_arith)
        requires
            reserve.config.max_age_price_seconds <= u64::MAX,
            market.price_refresh_trigger_to_max_age_pct <= 255,
    ;
    let trigger = (reserve.config.max_age_price_seconds as u128)
        * (market.price_refresh_trigger_to_max_age_pct as u128) / 100;
    (age as u128) >= trigger
}

/// Deposits liquidity into a fresh reserve and returns the receipt tokens to
/// mint. Fails on a zero amount, a stale reserve, or a total supply that
/// would pass the deposit limit. Nothing changes on failure.
pub fn deposit_reserve_liquidity(reserve: &mut Reserve, clock: &Clock, liquidity_amount: u64) -> (r:
    Result<u64, LendingError>)
    ensures
        match r {
            Ok(c) => deposit_reserve_liquidity_spec(
                *old(reserve),
                *clock,
                liquidity_amount as int,
            ) == Ok::<(Reserve, int), LendingError>((*final(reserve), c as int)),
            Err(e) => deposit_reserve_liquidity_spec(
                *old(reserve),
                *clock,
                liquidity_amount as int,
            ) == Err::<(Reserve, int), LendingError>(e) && *final(reserve) == *old(reserve),
        },
{
    if liquidity_amount == 0 {
        return Err(LendingError::InvalidAmount);
    }
    if reserve.last_update.is_stale(clock.slot, PriceStatusFlags::none()) {
        return Err(LendingError::ReserveStale);
    }
    let supply = reserve.liquidity.total_supply()?;
    let new_supply = Fraction::from_u64(liquidity_amount).add(supply)?;
    if new_supply.bits > Fraction::from_u64(reserve.config.deposit_limit).bits {
        return Err(LendingError::DepositLimitExceeded);
    }
    let mut updated = *reserve;
    sub_from_withdrawal_accum(
        &mut updated.config.deposit_withdrawal_cap,
        liquidity_amount,
        clock.unix_timestamp,
    )?;
    let collateral_amount = updated.deposit_liquidity(liquidity_amount)?;
    updated.last_update.mark_stale();
    *reserve = updated;
    Ok(collateral_amount)
}

/// Redeems receipt tokens from a fresh reserve and returns the liquidity to pay
/// out, counting it against the deposit withdrawal limit when asked. Nothing
/// changes on failure.
pub fn redeem_reserve_collateral(
    reserve: &mut Reserve,
    collateral_amount: u64,
    clock: &Clock,
    add_amount_to_withdrawal_caps: bool,
) -> (r: Result<u64, LendingError>)
    ensures
        match r {
            Ok(l) => redeem_reserve_collateral_spec(
                *old(reserve),
                collateral_amount as int,
                *clock,
                add_amount_to_withdrawal_caps,
            ) == Ok::<(Reserve, int), LendingError>((*final(reserve), l as int)),
            Err(e) => redeem_reserve_collateral_spec(
                *old(reserve),
                collateral_amount as int,
                *clock,
                add_amount_to_withdrawal_caps,
            ) == Err::<(Reserve, int), LendingError>(e) && *final(reserve) == *old(reserve),
        },
{
    if collateral_amount == 0 {
        return Err(LendingError::InvalidAmount);
    }
    if reserve.last_update.is_stale(clock.slot, PriceStatusFlags::none()) {
        return Err(LendingError::ReserveStale);
    }
    let mut updated = *reserve;
    let liquidity_amount = updated.redeem_collateral(collateral_amount)?;
    updated.last_update.mark_stale();
    if add_amount_to_withdrawal_caps {
        add_to_withdrawal_accum(
            &mut updated.config.deposit_withdrawal_cap,
            liquidity_amount,
            clock.unix_timestamp,
        )?;
    }
    *reserve = updated;
    Ok(liquidity_amount)
}

/// Value in the quote currency of an amount of a reserve's liquidity.
pub fn calculate_market_value_from_liquidity_amount(reserve: &Reserve, liquidity_amount: Fraction) -> (r:
    Result<Fraction, LendingError>)
    ensures
        is_frac(r, market_value_of(*reserve, liquidity_amount.bits as int)),
{
    let decimals = ten_pow(reserve.liquidity.mint_decimals)?;
    liquidity_amount.mul(reserve.liquidity.market_price)?.div(Fraction::from_u64(decimals))
}

/// Lends liquidity out for the span of one transaction. Fails when flash loans
/// are switched off for the reserve or liquidity is short; nothing changes then.
pub fn flash_borrow_reserve_liquidity(reserve: &mut Reserve, liquidity_amount: u64) -> (r: Result<
    (),
    LendingError,
>)
    ensures
        match r {
            Ok(_) => old(reserve).config.fees.flash_loan_fee_wad != 0xFFFF_FFFF_FFFF_FFFFu64
                && liquidity_amount <= old(reserve).liquidity.available_amount
                && *final(reserve) == marked_stale(
                Reserve {
                    liquidity: ReserveLiquidity {
                        available_amount: (old(reserve).liquidity.available_amount
                            - liquidity_amount) as u64,
                        borrowed_amount: Fraction {
                            bits: (old(reserve).liquidity.borrowed_amount.bits + whole(
                                liquidity_amount as int,
                            )) as u128,
                        },
                        ..old(reserve).liquidity
                    },
                    ..*old(reserve)
                },
            ),
            Err(e) => *final(reserve) == *old(reserve) && (
            if old(reserve).config.fees.flash_loan_fee_wad == 0xFFFF_FFFF_FFFF_FFFFu64 {
                e == LendingError::FlashLoansDisabled
            } else if liquidity_amount > old(reserve).liquidity.available_amount {
                e == LendingError::InsufficientLiquidity
            } else {
                e == LendingError::MathOverflow && old(reserve).liquidity.borrowed_amount.bits
                    + whole(liquidity_amount as int) > u128::MAX
            }),
        },
{
    if reserve.config.fees.flash_loan_fee_wad == 0xFFFF_FFFF_FFFF_FFFFu64 {
        return Err(LendingError::FlashLoansDisabled);
    }
    let amount = Fraction::from_u64(liquidity_amount);
    proof {
        vstd::arithmetic::div_mod::lemma_fundamental_div_mod_converse(
            amount.bits as int,
            crate::fraction::one_scaled(),
            liquidity_amount as int,
            0,
        );
    }
    let mut liquidity = reserve.liquidity;
    liquidity.borrow(amount)?;
    reserve.liquidity = liquidity;
    reserve.last_update.mark_stale();
    Ok(())
}

/// Takes a flash loan back with its fee and returns the amount repaid and the
/// protocol fee. Nothing changes on failure.
pub fn flash_repay_reserve_liquidity(reserve: &mut Reserve, liquidity_amount: u64) -> (r: Result<
    (u64, u64),
    LendingError,
>)
    ensures
        match r {
            Ok((amount, fee)) => amount == liquidity_amount && (fees_spec(
                whole(liquidity_amount as int),
                old(reserve).config.fees.flash_loan_fee_wad as int,
                old(reserve).config.fees.host_fee_percentage as int,
                FeeCalculation::Exclusive,
            ) matches Ok((f, _)) && f == fee) && old(reserve).liquidity.available_amount
                + liquidity_amount <= u64::MAX && whole(liquidity_amount as int)
                <= old(reserve).liquidity.borrowed_amount.bits && *final(reserve) == marked_stale(
                Reserve {
                    liquidity: ReserveLiquidity {
                        available_amount: (old(reserve).liquidity.available_amount
                            + liquidity_amount) as u64,
                        borrowed_amount: Fraction {
                            bits: (old(reserve).liquidity.borrowed_amount.bits - whole(
                                liquidity_amount as int,
                            )) as u128,
                        },
                        ..old(reserve).liquidity
                    },
                    ..*old(reserve)
                },
            ),
            Err(e) => *final(reserve) == *old(reserve) && match fees_spec(
                whole(liquidity_amount as int),
                old(reserve).config.fees.flash_loan_fee_wad as int,
                old(reserve).config.fees.host_fee_percentage as int,
                FeeCalculation::Exclusive,
            ) {
                Err(fe) => e == fe,
                Ok(_) => e == LendingError::MathOverflow && (old(reserve).liquidity.available_amount
                    + liquidity_amount > u64::MAX || whole(liquidity_amount as int)
                    > old(reserve).liquidity.borrowed_amount.bits),
            },
        },
{
    let amount = Fraction::from_u64(liquidity_amount);
    let (protocol_fee, _host_fee) = reserve.config.fees.calculate_flash_loan_fees(amount)?;
    let mut liquidity = reserve.liquidity;
    liquidity.repay(liquidity_amount, amount)?;
    reserve.liquidity = liquidity;
    reserve.last_update.mark_stale();
    Ok((liquidity_amount, protocol_fee))
}

/// An obligation's tracker marked changed since its last refresh.
pub open spec fn stale_tracker(u: LastUpdate) -> LastUpdate {
    LastUpdate { stale: true, ..u }
}

/// The deposit table after `amount` receipt tokens are added under `key`.
pub open spec fn deposits_after_deposit(s: Seq<ObligationCollateral>, key: Pubkey, amount: int) -> Seq<
    ObligationCollateral,
> {
    if has_deposit(s, key) {
        let i = deposit_index(s, key);
        s.update(
            i,
            ObligationCollateral { deposited_amount: (s[i].deposited_amount + amount) as u64, ..s[i] },
        )
    } else {
        s.push(
            ObligationCollateral {
                deposit_reserve: key,
                deposited_amount: amount as u64,
                market_value: Fraction { bits: 0 },
            },
        )
    }
}

/// The deposit table after a deposit of collateral, or the first check that fails.
pub open spec fn deposit_obligation_collateral_spec(
    r: Reserve,
    o: &Obligation,
    slot: u64,
    amount: int,
    key: Pubkey,
    min_net: int,
) -> Result<Seq<ObligationCollateral>, LendingError> {
    let ds = o.deposits@;
    let found = has_deposit(ds, key);
    let entry = if found {
        ds[deposit_index(ds, key)]
    } else {
        ObligationCollateral {
            deposit_reserve: key,
            deposited_amount: 0,
            market_value: Fraction { bits: 0 },
        }
    };
    if amount == 0 {
        Err(LendingError::InvalidAmount)
    } else if stale_at(r.last_update, slot, 0) {
        Err(LendingError::ReserveStale)
    } else if !found && ds.len() + o.borrows@.len() >= MAX_OBLIGATION_RESERVES {
        Err(LendingError::ObligationReserveLimit)
    } else if entry.deposited_amount + amount > u64::MAX {
        Err(LendingError::MathOverflow)
    } else {
        match exchange_rate_of(r) {
            Err(e) => Err(e),
            Ok(rate) => match frac_div(Ok(whole(amount)), Ok(rate)) {
                Err(e) => Err(e),
                Ok(liq) => match post_deposit_spec(liq, o, r, entry.market_value.bits as int, min_net) {
                    Err(e) => Err(e),
                    Ok(_) => Ok(deposits_after_deposit(ds, key, amount)),
                },
            },
        }
    }
}

/// Adds receipt tokens of a fresh reserve to an obligation's collateral, opening
/// an entry when there is none. Fails on a zero amount, a stale reserve, a full
/// obligation, a dust entry or a worse loan-to-value; nothing changes then.
pub fn deposit_obligation_collateral(
    deposit_reserve: &mut Reserve,
    obligation: &mut Obligation,
    slot: u64,
    collateral_amount: u64,
    deposit_reserve_pk: Pubkey,
    lending_market: &LendingMarket,
) -> (r: Result<(), LendingError>)
    requires
        old(obligation).wf(),
    ensures
        final(obligation).wf(),
        match r {
            Ok(_) => deposit_obligation_collateral_spec(
                *old(deposit_reserve),
                old(obligation),
                slot,
                collateral_amount as int,
                deposit_reserve_pk,
                lending_market.min_net_value_in_obligation.bits as int,
            ) == Ok::<Seq<ObligationCollateral>, LendingError>(final(obligation).deposits@)
                && *final(deposit_reserve) == marked_stale(*old(deposit_reserve))
                && obligation_updated(
                final(obligation),
                old(obligation),
                final(obligation).deposits@,
                old(obligation).borrows@,
                stale_tracker(old(obligation).last_update),
                old(obligation).has_debt,
            ),
            Err(e) => deposit_obligation_collateral_spec(
                *old(deposit_reserve),
                old(obligation),
                slot,
                collateral_amount as int,
                deposit_reserve_pk,
                lending_market.min_net_value_in_obligation.bits as int,
            ) == Err::<Seq<ObligationCollateral>, LendingError>(e) && *final(deposit_reserve)
                == *old(deposit_reserve) && obligation_updated(
                final(obligation),
                old(obligation),
                old(obligation).deposits@,
                old(obligation).borrows@,
                old(obligation).last_update,
                old(obligation).has_debt,
            ),
        },
{
    if collateral_amount == 0 {
        return Err(LendingError::InvalidAmount);
    }
    if deposit_reserve.last_update.is_stale(slot, PriceStatusFlags::none()) {
        return Err(LendingError::ReserveStale);
    }
    let found = obligation.find_collateral_index_in_deposits(deposit_reserve_pk);
    let mut entry = match found {
        Some(i) => {
            proof {
                lemma_deposit_index(obligation.deposits@, deposit_reserve_pk, i as int);
            }
            obligation.deposits[i]
        },
        None => {
            if obligation.deposits.len() + obligation.borrows.len() >= MAX_OBLIGATION_RESERVES {
                return Err(LendingError::ObligationReserveLimit);
            }
            ObligationCollateral::new(deposit_reserve_pk)
        },
    };
    let entry_value = entry.market_value;
    entry.deposit(collateral_amount)?;
    let rate = deposit_reserve.collateral_exchange_rate()?;
    let liquidity_amount = rate.decimal_collateral_to_liquidity(
        Fraction::from_u64(collateral_amount),
    )?;
    post_deposit_obligation_invariants(
        liquidity_amount,
        obligation,
        deposit_reserve,
        entry_value,
        lending_market.min_net_value_in_obligation,
    )?;
    match found {
        Some(i) => {
            obligation.deposits.set(i, entry);
        },
        None => {
            obligation.deposits.push(entry);
        },
    }
    proof {
        let ds = obligation.deposits@;
        assert forall|i: int, j: int|
            0 <= i < ds.len() && 0 <= j < ds.len() && i != j implies ds[i].deposit_reserve
                != ds[j].deposit_reserve by {
            if found is None {
                if i < old(obligation).deposits@.len() && j < old(obligation).deposits@.len() {
                } else if i < old(obligation).deposits@.len() {
                    assert(old(obligation).deposits@[i].deposit_reserve != deposit_reserve_pk);
                } else {
                    assert(old(obligation).deposits@[j].deposit_reserve != deposit_reserve_pk);
                }
            }
        }
        assert(ds =~= deposits_after_deposit(
            old(obligation).deposits@,
            deposit_reserve_pk,
            collateral_amount as int,
        ));
    }
    obligation.last_update.mark_stale();
    deposit_reserve.last_update.mark_stale();
    Ok(())
}

/// The borrow table after `amount` (scaled) is borrowed under `key`.
pub open spec fn borrows_after_borrow(
    s: Seq<ObligationLiquidity>,
    key: Pubkey,
    cumulative: Fraction,
    amount: int,
) -> Seq<ObligationLiquidity> {
    if has_borrow(s, key) {
        let i = borrow_index(s, key);
        s.update(
            i,
            ObligationLiquidity {
                borrowed_amount: Fraction { bits: (s[i].borrowed_amount.bits + amount) as u128 },
                ..s[i]
            },
        )
    } else {
        s.push(
            ObligationLiquidity {
                borrow_reserve: key,
                cumulative_borrow_rate: cumulative,
                borrowed_amount: Fraction { bits: amount as u128 },
                market_value: Fraction { bits: 0 },
                borrow_factor_adjusted_market_value: Fraction { bits: 0 },
            },
        )
    }
}

/// Borrowed liquidity room left under the reserve's borrow limit, at least zero.
pub open spec fn remaining_capacity_of(r: Reserve) -> int {
    if whole(r.config.borrow_limit as int) >= r.liquidity.borrowed_amount.bits {
        whole(r.config.borrow_limit as int) - r.liquidity.borrowed_amount.bits
    } else {
        0
    }
}

/// The reserve, the borrow table and the sized borrow after a borrow, or the
/// first check that fails.
pub open spec fn borrow_obligation_liquidity_spec(
    m: LendingMarket,
    r: Reserve,
    o: &Obligation,
    amount: int,
    clock: Clock,
    key: Pubkey,
) -> Result<(Reserve, Seq<ObligationLiquidity>, (int, int, int)), LendingError> {
    let bs = o.borrows@;
    let found = has_borrow(bs, key);
    let entry = if found {
        bs[borrow_index(bs, key)]
    } else {
        ObligationLiquidity {
            borrow_reserve: key,
            cumulative_borrow_rate: r.liquidity.cumulative_borrow_rate,
            borrowed_amount: Fraction { bits: 0 },
            market_value: Fraction { bits: 0 },
            borrow_factor_adjusted_market_value: Fraction { bits: 0 },
        }
    };
    if amount == 0 {
        Err(LendingError::InvalidAmount)
    } else if stale_at(r.last_update, clock.slot, ALL_CHECKS_BITS) {
        Err(LendingError::ReserveStale)
    } else if m.borrow_disabled != 0 {
        Err(LendingError::BorrowingDisabled)
    } else {
        match s_add(Ok(whole(amount)), Ok(r.liquidity.borrowed_amount.bits as int)) {
            Err(e) => Err(e),
            Ok(nb) => if amount != ALL_AMOUNT && nb > whole(r.config.borrow_limit as int) {
                Err(LendingError::BorrowLimitExceeded)
            } else {
                match fully_refreshed_spec(o, clock.slot) {
                    Err(e) => Err(e),
                    Ok(_) => if remaining_borrow_value_of(o) == 0 {
                        Err(LendingError::BorrowTooLarge)
                    } else if remaining_capacity_of(r) == 0 {
                        Err(LendingError::BorrowLimitExceeded)
                    } else {
                        match calculate_borrow_spec(
                            r,
                            amount,
                            remaining_borrow_value_of(o),
                            remaining_capacity_of(r),
                        ) {
                            Err(e) => Err(e),
                            Ok((b, recv, fee)) => match s_floor(Ok(b)) {
                                Err(e) => Err(e),
                                Ok(bf) => match add_to_accum_spec(
                                    r.config.debt_withdrawal_cap,
                                    bf,
                                    clock.unix_timestamp,
                                ) {
                                    Err(e) => Err(e),
                                    Ok(caps) => if recv == 0 {
                                        Err(LendingError::BorrowTooSmall)
                                    } else if bf > r.liquidity.available_amount {
                                        Err(LendingError::InsufficientLiquidity)
                                    } else if r.liquidity.borrowed_amount.bits + b > u128::MAX {
                                        Err(LendingError::MathOverflow)
                                    } else if !found && bs.len() + o.deposits@.len()
                                        >= MAX_OBLIGATION_RESERVES {
                                        Err(LendingError::ObligationReserveLimit)
                                    } else if entry.borrowed_amount.bits + b > u128::MAX {
                                        Err(LendingError::MathOverflow)
                                    } else {
                                        match post_borrow_spec(
                                            b,
                                            o,
                                            r,
                                            entry.market_value.bits as int,
                                            m.min_net_value_in_obligation.bits as int,
                                        ) {
                                            Err(e) => Err(e),
                                            Ok(_) => Ok(
                                                (
                                                    marked_stale(
                                                        Reserve {
                                                            liquidity: ReserveLiquidity {
                                                                available_amount: (
                                                                r.liquidity.available_amount
                                                                    - bf) as u64,
                                                                borrowed_amount: Fraction {
                                                                    bits: (
                                                                    r.liquidity.borrowed_amount.bits
                                                                        + b) as u128,
                                                                },
                                                                ..r.liquidity
                                                            },
                                                            config: ReserveConfig {
                                                                debt_withdrawal_cap: caps,
                                                                ..r.config
                                                            },
                                                            ..r
                                                        },
                                                    ),
                                                    borrows_after_borrow(
                                                        bs,
                                                        key,
                                                        r.liquidity.cumulative_borrow_rate,
                                                        b,
                                                    ),
                                                    (b, recv, fee),
                                                ),
                                            ),
                                        }
                                    },
                                },
                            },
                        }
                    },
                }
            },
        }
    }
}

/// Borrows liquidity from a fresh reserve against a fresh obligation and returns
/// the debt taken on, the amount received and the fee. `ALL_AMOUNT` borrows the
/// most allowed. Nothing changes on failure.
pub fn borrow_obligation_liquidity(
    lending_market: &LendingMarket,
    borrow_reserve: &mut Reserve,
    obligation: &mut Obligation,
    liquidity_amount: u64,
    clock: &Clock,
    borrow_reserve_pk: Pubkey,
) -> (r: Result<CalculateBorrowResult, LendingError>)
    requires
        old(obligation).wf(),
    ensures
        final(obligation).wf(),
        match r {
            Ok(res) => borrow_obligation_liquidity_spec(
                *lending_market,
                *old(borrow_reserve),
                old(obligation),
                liquidity_amount as int,
                *clock,
                borrow_reserve_pk,
            ) == Ok::<(Reserve, Seq<ObligationLiquidity>, (int, int, int)), LendingError>(
                (
                    *final(borrow_reserve),
                    final(obligation).borrows@,
                    (res.borrow_amount.bits as int, res.receive_amount as int, res.borrow_fee as int),
                ),
            ) && obligation_updated(
                final(obligation),
                old(obligation),
                old(obligation).deposits@,
                final(obligation).borrows@,
                stale_tracker(old(obligation).last_update),
                true,
            ),
            Err(e) => borrow_obligation_liquidity_spec(
                *lending_market,
                *old(borrow_reserve),
                old(obligation),
                liquidity_amount as int,
                *clock,
                borrow_reserve_pk,
            ) == Err::<(Reserve, Seq<ObligationLiquidity>, (int, int, int)), LendingError>(e)
                && *final(borrow_reserve) == *old(borrow_reserve) && obligation_updated(
                final(obligation),
                old(obligation),
                old(obligation).deposits@,
                old(obligation).borrows@,
                old(obligation).last_update,
                old(obligation).has_debt,
            ),
        },
{
    if liquidity_amount == 0 {
        return Err(LendingError::InvalidAmount);
    }
    if borrow_reserve.last_update.is_stale(clock.slot, PriceStatusFlags::all_checks()) {
        return Err(LendingError::ReserveStale);
    }
    if lending_market.is_borrowing_disabled() {
        return Err(LendingError::BorrowingDisabled);
    }
    let reserve_borrowed = borrow_reserve.liquidity.borrowed_amount;
    let borrow_limit = Fraction::from_u64(borrow_reserve.config.borrow_limit);
    let new_borrowed = Fraction::from_u64(liquidity_amount).add(reserve_borrowed)?;
    if liquidity_amount != ALL_AMOUNT && new_borrowed.bits > borrow_limit.bits {
        return Err(LendingError::BorrowLimitExceeded);
    }
    check_obligation_fully_refreshed_and_not_null(obligation, clock.slot)?;
    let remaining_borrow_value = obligation.remaining_borrow_value();
    if remaining_borrow_value.bits == 0 {
        return Err(LendingError::BorrowTooLarge);
    }
    let remaining_reserve_capacity = borrow_limit.saturating_sub(reserve_borrowed);
    if remaining_reserve_capacity.bits == 0 {
        return Err(LendingError::BorrowLimitExceeded);
    }
    let calc = borrow_reserve.calculate_borrow(
        liquidity_amount,
        remaining_borrow_value,
        remaining_reserve_capacity,
    )?;
    let mut updated = *borrow_reserve;
    let borrow_whole = calc.borrow_amount.to_floor()?;
    add_to_withdrawal_accum(
        &mut updated.config.debt_withdrawal_cap,
        borrow_whole,
        clock.unix_timestamp,
    )?;
    if calc.receive_amount == 0 {
        return Err(LendingError::BorrowTooSmall);
    }
    updated.liquidity.borrow(calc.borrow_amount)?;
    updated.last_update.mark_stale();
    let found = obligation.find_liquidity_index_in_borrows(borrow_reserve_pk);
    let mut entry = match found {
        Some(i) => {
            proof {
                lemma_borrow_index(obligation.borrows@, borrow_reserve_pk, i as int);
            }
            obligation.borrows[i]
        },
        None => {
            if obligation.deposits.len() + obligation.borrows.len() >= MAX_OBLIGATION_RESERVES {
                return Err(LendingError::ObligationReserveLimit);
            }
            ObligationLiquidity::new(
                borrow_reserve_pk,
                borrow_reserve.liquidity.cumulative_borrow_rate,
            )
        },
    };
    let entry_value = entry.market_value;
    entry.borrow(calc.borrow_amount)?;
    post_borrow_obligation_invariants(
        calc.borrow_amount,
        obligation,
        borrow_reserve,
        entry_value,
        lending_market.min_net_value_in_obligation,
    )?;
    match found {
        Some(i) => {
            obligation.borrows.set(i, entry);
        },
        None => {
            obligation.borrows.push(entry);
        },
    }
    proof {
        let bs = obligation.borrows@;
        assert forall|i: int, j: int|
            0 <= i < bs.len() && 0 <= j < bs.len() && i != j implies bs[i].borrow_reserve
                != bs[j].borrow_reserve by {
            if found is None {
                if i < old(obligation).borrows@.len() && j < old(obligation).borrows@.len() {
                } else if i < old(obligation).borrows@.len() {
                    assert(old(obligation).borrows@[i].borrow_reserve != borrow_reserve_pk);
                } else {
                    assert(old(obligation).borrows@[j].borrow_reserve != borrow_reserve_pk);
                }
            }
        }
        assert(bs =~= borrows_after_borrow(
            old(obligation).borrows@,
            borrow_reserve_pk,
            old(borrow_reserve).liquidity.cumulative_borrow_rate,
            calc.borrow_amount.bits as int,
        ));
    }
    obligation.has_debt = true;
    obligation.last_update.mark_stale();
    *borrow_reserve = updated;
    Ok(calc)
}

/// The borrow table after settling `settle` on the entry at `i`, whose debt
/// with interest is `accrued`: the entry goes when its whole debt is settled.
pub open spec fn borrows_after_repay(
    s: Seq<ObligationLiquidity>,
    i: int,
    accrued: ObligationLiquidity,
    settle: int,
) -> Seq<ObligationLiquidity> {
    if settle == accrued.borrowed_amount.bits {
        s.remove(i)
    } else {
        s.update(
            i,
            ObligationLiquidity {
                borrowed_amount: Fraction { bits: (accrued.borrowed_amount.bits - settle) as u128 },
                ..accrued
            },
        )
    }
}

/// The reserve, the borrow table and the amount to transfer after a repay, or
/// the first check that fails.
pub open spec fn repay_obligation_liquidity_spec(
    r: Reserve,
    o: &Obligation,
    clock: Clock,
    amount: int,
    key: Pubkey,
    min_net: int,
) -> Result<(Reserve, Seq<ObligationLiquidity>, int), LendingError> {
    let bs = o.borrows@;
    let i = borrow_index(bs, key);
    if amount == 0 {
        Err(LendingError::InvalidAmount)
    } else if stale_at(r.last_update, clock.slot, 0) {
        Err(LendingError::ReserveStale)
    } else if bs.len() == 0 {
        Err(LendingError::ObligationBorrowsEmpty)
    } else if !has_borrow(bs, key) {
        Err(LendingError::InvalidObligationLiquidity)
    } else if bs[i].borrowed_amount.bits == 0 {
        Err(LendingError::ObligationLiquidityEmpty)
    } else {
        match accrued_debt_of(bs[i], r.liquidity.cumulative_borrow_rate.bits as int) {
            Err(e) => Err(e),
            Ok(accrued) => match calculate_repay_spec(amount, accrued.borrowed_amount.bits as int) {
                Err(e) => Err(e),
                Ok((settle, repay)) => if repay == 0 {
                    Err(LendingError::RepayTooSmall)
                } else {
                    match sub_from_accum_spec(r.config.debt_withdrawal_cap, repay, clock.unix_timestamp) {
                        Err(e) => Err(e),
                        Ok(caps) => if r.liquidity.available_amount + repay > u64::MAX
                            || settle > r.liquidity.borrowed_amount.bits {
                            Err(LendingError::MathOverflow)
                        } else {
                            match post_repay_spec(settle, o, r, bs[i].market_value.bits as int, min_net) {
                                Err(e) => Err(e),
                                Ok(_) => Ok(
                                    (
                                        marked_stale(
                                            Reserve {
                                                liquidity: ReserveLiquidity {
                                                    available_amount: (r.liquidity.available_amount
                                                        + repay) as u64,
                                                    borrowed_amount: Fraction {
                                                        bits: (r.liquidity.borrowed_amount.bits
                                                            - settle) as u128,
                                                    },
                                                    ..r.liquidity
                                                },
                                                config: ReserveConfig {
                                                    debt_withdrawal_cap: caps,
                                                    ..r.config
                                                },
                                                ..r
                                            },
                                        ),
                                        borrows_after_repay(bs, i, accrued, settle),
                                        repay,
                                    ),
                                ),
                            }
                        },
                    }
                },
            },
        }
    }
}

/// Repays debt owed to a fresh reserve, interest first brought up to date, and
/// returns the liquidity to transfer. `ALL_AMOUNT` repays the whole debt; a
/// fully repaid entry is dropped. Nothing changes on failure.
pub fn repay_obligation_liquidity(
    repay_reserve: &mut Reserve,
    obligation: &mut Obligation,
    clock: &Clock,
    liquidity_amount: u64,
    repay_reserve_pk: Pubkey,
    lending_market: &LendingMarket,
) -> (r: Result<u64, LendingError>)
    requires
        old(obligation).wf(),
    ensures
        final(obligation).wf(),
        match r {
            Ok(repay) => repay_obligation_liquidity_spec(
                *old(repay_reserve),
                old(obligation),
                *clock,
                liquidity_amount as int,
                repay_reserve_pk,
                lending_market.min_net_value_in_obligation.bits as int,
            ) == Ok::<(Reserve, Seq<ObligationLiquidity>, int), LendingError>(
                (*final(repay_reserve), final(obligation).borrows@, repay as int),
            ) && obligation_updated(
                final(obligation),
                old(obligation),
                old(obligation).deposits@,
                final(obligation).borrows@,
                stale_tracker(old(obligation).last_update),
                final(obligation).borrows@.len() > 0,
            ),
            Err(e) => repay_obligation_liquidity_spec(
                *old(repay_reserve),
                old(obligation),
                *clock,
                liquidity_amount as int,
                repay_reserve_pk,
                lending_market.min_net_value_in_obligation.bits as int,
            ) == Err::<(Reserve, Seq<ObligationLiquidity>, int), LendingError>(e)
                && *final(repay_reserve) == *old(repay_reserve) && obligation_updated(
                final(obligation),
                old(obligation),
                old(obligation).deposits@,
                old(obligation).borrows@,
                old(obligation).last_update,
                old(obligation).has_debt,
            ),
        },
{
    if liquidity_amount == 0 {
        return Err(LendingError::InvalidAmount);
    }
    if repay_reserve.last_update.is_stale(clock.slot, PriceStatusFlags::none()) {
        return Err(LendingError::ReserveStale);
    }
    let index = obligation.find_liquidity_in_borrows(repay_reserve_pk)?;
    proof {
        lemma_borrow_index(obligation.borrows@, repay_reserve_pk, index as int);
    }
    let mut entry = obligation.borrows[index];
    if entry.borrowed_amount.bits == 0 {
        return Err(LendingError::ObligationLiquidityEmpty);
    }
    let entry_value = entry.market_value;
    entry.accrue_interest(repay_reserve.liquidity.cumulative_borrow_rate)?;
    let calc = repay_reserve.calculate_repay(liquidity_amount, entry.borrowed_amount)?;
    if calc.repay_amount == 0 {
        return Err(LendingError::RepayTooSmall);
    }
    let mut updated = *repay_reserve;
    sub_from_withdrawal_accum(
        &mut updated.config.debt_withdrawal_cap,
        calc.repay_amount,
        clock.unix_timestamp,
    )?;
    updated.liquidity.repay(calc.repay_amount, calc.settle_amount)?;
    updated.last_update.mark_stale();
    post_repay_obligation_invariants(
        calc.settle_amount,
        obligation,
        repay_reserve,
        entry_value,
        lending_market.min_net_value_in_obligation,
    )?;
    let ghost before = obligation.borrows@;
    obligation.borrows.set(index, entry);
    let ghost mid = obligation.borrows@;
    assert(mid.len() == before.len());
    assert forall|i: int, j: int|
        0 <= i < mid.len() && 0 <= j < mid.len() && i != j implies mid[i].borrow_reserve
            != mid[j].borrow_reserve by {
        assert(mid[i].borrow_reserve == before[i].borrow_reserve);
        assert(mid[j].borrow_reserve == before[j].borrow_reserve);
    }
    obligation.repay(calc.settle_amount, index)?;
    proof {
        assert(obligation.borrows@ =~= borrows_after_repay(
            before,
            index as int,
            entry,
            calc.settle_amount.bits as int,
        ));
    }
    obligation.has_debt = obligation.borrows.len() > 0;
    obligation.last_update.mark_stale();
    *repay_reserve = updated;
    Ok(calc.repay_amount)
}

/// Receipt tokens to withdraw for a request, before the entry and health
/// checks, or the first check that fails.
pub open spec fn withdraw_amount_spec(
    r: Reserve,
    o: &Obligation,
    c: ObligationCollateral,
    amount: int,
) -> Result<int, LendingError> {
    if o.borrows@.len() == 0 {
        Ok(
            if amount == ALL_AMOUNT || c.deposited_amount <= amount {
                c.deposited_amount as int
            } else {
                amount
            },
        )
    } else if o.deposited_value.bits == 0 {
        Err(LendingError::ObligationDepositsZero)
    } else {
        match max_withdraw_value_of(o, r.config.loan_to_value_pct as int) {
            Err(e) => Err(e),
            Ok(mwv) => if mwv == 0 {
                Err(LendingError::WithdrawTooLarge)
            } else {
                let wa = if amount == ALL_AMOUNT {
                    match frac_div(
                        s_min(Ok(mwv), Ok(c.market_value.bits as int)),
                        Ok(c.market_value.bits as int),
                    ) {
                        Err(e) => Err(e),
                        Ok(ratio) => match s_floor(s_fit(ratio * c.deposited_amount)) {
                            Err(e) => Err(e),
                            Ok(ra) => Ok(
                                if c.deposited_amount <= ra {
                                    c.deposited_amount as int
                                } else {
                                    ra
                                },
                            ),
                        },
                    }
                } else {
                    let wa = if c.deposited_amount <= amount {
                        c.deposited_amount as int
                    } else {
                        amount
                    };
                    match s_mul(
                        Ok(c.market_value.bits as int),
                        frac_div(Ok(whole(wa)), Ok(whole(c.deposited_amount as int))),
                    ) {
                        Err(e) => Err(e),
                        Ok(wv) => if wv > mwv {
                            Err(LendingError::WithdrawTooLarge)
                        } else {
                            Ok(wa)
                        },
                    }
                };
                match wa {
                    Err(e) => Err(e),
                    Ok(w) => if w == 0 {
                        Err(LendingError::WithdrawTooSmall)
                    } else {
                        Ok(w)
                    },
                }
            },
        }
    }
}

/// The deposit table after withdrawing `w` from the entry at `i`: the entry goes
/// when it empties.
pub open spec fn deposits_after_withdraw(s: Seq<ObligationCollateral>, i: int, w: int) -> Seq<
    ObligationCollateral,
> {
    if w == s[i].deposited_amount {
        s.remove(i)
    } else {
        s.update(
            i,
            ObligationCollateral { deposited_amount: (s[i].deposited_amount - w) as u64, ..s[i] },
        )
    }
}

/// The deposit table and the amount withdrawn after a withdrawal, or the first
/// check that fails.
pub open spec fn withdraw_obligation_collateral_spec(
    m: LendingMarket,
    r: Reserve,
    o: &Obligation,
    amount: int,
    slot: u64,
    key: Pubkey,
) -> Result<(Seq<ObligationCollateral>, int), LendingError> {
    let ds = o.deposits@;
    let i = deposit_index(ds, key);
    let required: u8 = if o.borrows@.len() == 0 {
        0
    } else {
        ALL_CHECKS_BITS
    };
    if amount == 0 {
        Err(LendingError::InvalidAmount)
    } else if stale_at(r.last_update, slot, required) {
        Err(LendingError::ReserveStale)
    } else if stale_at(o.last_update, slot, required) {
        Err(LendingError::ObligationStale)
    } else if ds.len() == 0 {
        Err(LendingError::ObligationDepositsEmpty)
    } else if !has_deposit(ds, key) {
        Err(LendingError::InvalidObligationCollateral)
    } else if ds[i].deposited_amount == 0 {
        Err(LendingError::ObligationCollateralEmpty)
    } else if o.num_of_obsolete_reserves > 0 && r.config.status == ReserveStatus::Active {
        Err(LendingError::ObligationInDeprecatedReserve)
    } else {
        match withdraw_amount_spec(r, o, ds[i], amount) {
            Err(e) => Err(e),
            Ok(w) => match exchange_rate_of(r) {
                Err(e) => Err(e),
                Ok(rate) => match frac_div(Ok(whole(w)), Ok(rate)) {
                    Err(e) => Err(e),
                    Ok(liq) => match post_withdraw_spec(
                        liq,
                        o,
                        r,
                        ds[i].market_value.bits as int,
                        m.min_net_value_in_obligation.bits as int,
                    ) {
                        Err(e) => Err(e),
                        Ok(_) => Ok((deposits_after_withdraw(ds, i, w), w)),
                    },
                },
            },
        }
    }
}

/// Withdraws collateral from an obligation and returns the receipt tokens to
/// release. Without debt any amount up to the deposit may leave; with debt the
/// withdrawal is held to the value that keeps the obligation within its allowed
/// borrow value, and `ALL_AMOUNT` takes the most that allows. Nothing changes on
/// failure.
pub fn withdraw_obligation_collateral(
    lending_market: &LendingMarket,
    withdraw_reserve: &Reserve,
    obligation: &mut Obligation,
    collateral_amount: u64,
    slot: u64,
    withdraw_reserve_pk: Pubkey,
) -> (r: Result<u64, LendingError>)
    requires
        old(obligation).wf(),
    ensures
        final(obligation).wf(),
        match r {
            Ok(w) => withdraw_obligation_collateral_spec(
                *lending_market,
                *withdraw_reserve,
                old(obligation),
                collateral_amount as int,
                slot,
                withdraw_reserve_pk,
            ) == Ok::<(Seq<ObligationCollateral>, int), LendingError>(
                (final(obligation).deposits@, w as int),
            ) && obligation_updated(
                final(obligation),
                old(obligation),
                final(obligation).deposits@,
                old(obligation).borrows@,
                stale_tracker(old(obligation).last_update),
                old(obligation).has_debt,
            ),
            Err(e) => withdraw_obligation_collateral_spec(
                *lending_market,
                *withdraw_reserve,
                old(obligation),
                collateral_amount as int,
                slot,
                withdraw_reserve_pk,
            ) == Err::<(Seq<ObligationCollateral>, int), LendingError>(e) && obligation_updated(
                final(obligation),
                old(obligation),
                old(obligation).deposits@,
                old(obligation).borrows@,
                old(obligation).last_update,
                old(obligation).has_debt,
            ),
        },
{
    if collateral_amount == 0 {
        return Err(LendingError::InvalidAmount);
    }
    let is_borrows_empty = obligation.borrows_empty();
    let required = if is_borrows_empty {
        PriceStatusFlags::none()
    } else {
        PriceStatusFlags::all_checks()
    };
    if withdraw_reserve.last_update.is_stale(slot, required) {
        return Err(LendingError::ReserveStale);
    }
    if obligation.last_update.is_stale(slot, required) {
        return Err(LendingError::ObligationStale);
    }
    let index = obligation.find_collateral_in_deposits(withdraw_reserve_pk)?;
    proof {
        lemma_deposit_index(obligation.deposits@, withdraw_reserve_pk, index as int);
    }
    let collateral = obligation.deposits[index];
    if collateral.deposited_amount == 0 {
        return Err(LendingError::ObligationCollateralEmpty);
    }
    if obligation.num_of_obsolete_reserves > 0 && withdraw_reserve.config.status
        == ReserveStatus::Active {
        return Err(LendingError::ObligationInDeprecatedReserve);
    }
    let withdraw_amount = if is_borrows_empty {
        if collateral_amount == ALL_AMOUNT || collateral.deposited_amount <= collateral_amount {
            collateral.deposited_amount
        } else {
            collateral_amount
        }
    } else if obligation.deposited_value.bits == 0 {
        return Err(LendingError::ObligationDepositsZero);
    } else {
        let max_withdraw_value = obligation.max_withdraw_value(
            withdraw_reserve.config.loan_to_value_pct,
        )?;
        if max_withdraw_value.bits == 0 {
            return Err(LendingError::WithdrawTooLarge);
        }
        let collateral_value = collateral.market_value;
        let amount = if collateral_amount == ALL_AMOUNT {
            let withdraw_value = max_withdraw_value.min(collateral_value);
            let withdraw_ratio = withdraw_value.div(collateral_value)?;
            let ratioed = withdraw_ratio.mul_int(collateral.deposited_amount)?.to_floor()?;
            if collateral.deposited_amount <= ratioed {
                collateral.deposited_amount
            } else {
                ratioed
            }
        } else {
            let amount = if collateral.deposited_amount <= collateral_amount {
                collateral.deposited_amount
            } else {
                collateral_amount
            };
            let withdraw_ratio = Fraction::from_u64(amount).div(
                Fraction::from_u64(collateral.deposited_amount),
            )?;
            let withdraw_value = collateral_value.mul(withdraw_ratio)?;
            if withdraw_value.bits > max_withdraw_value.bits {
                return Err(LendingError::WithdrawTooLarge);
            }
            amount
        };
        if amount == 0 {
            return Err(LendingError::WithdrawTooSmall);
        }
        amount
    };
    let rate = withdraw_reserve.collateral_exchange_rate()?;
    let liquidity_amount = rate.decimal_collateral_to_liquidity(Fraction::from_u64(withdraw_amount))?;
    post_withdraw_obligation_invariants(
        liquidity_amount,
        obligation,
        withdraw_reserve,
        collateral.market_value,
        lending_market.min_net_value_in_obligation,
    )?;
    obligation.withdraw(withdraw_amount, index)?;
    obligation.last_update.mark_stale();
    Ok(withdraw_amount)
}

} // verus!
