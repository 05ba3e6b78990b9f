use vstd::prelude::*;
use crate::errors::LendingError;
use crate::fraction::{
    Fraction, Outcome, FRACTION_ONE_SCALED, one_scaled, whole, floor_of, percent_bits, s_add, s_div, s_mul, s_min, s_max, s_floor, s_ceil, s_round, is_frac, is_amount,
};
use crate::last_update::LastUpdate;
use crate::pubkey::Pubkey;
use crate::withdrawal_caps::WithdrawalCaps;

verus! {

/// Version tag of records written by this library.
pub const PROGRAM_VERSION: u64 = 1;

/// Slots in a year, at two and a half slots a second.
pub const SLOTS_PER_YEAR: u64 = 63_072_000;

/// The amount that asks for everything available.
pub const ALL_AMOUNT: u64 = 0xFFFF_FFFF_FFFF_FFFF;

/// Whether a reserve takes new positions.
#[derive(Clone, Copy, Debug, PartialEq, Eq, Structural)]
pub enum ReserveStatus {
    Active,
    Obsolete,
    Hidden,
}

/// Whether a fee is added on top of an amount or taken out of it.
#[derive(Clone, Copy, Debug, PartialEq, Eq, Structural)]
pub enum FeeCalculation {
    /// Fee added to amount: fee = rate * amount
    Exclusive,
    /// Fee included in amount: fee = (rate / (1 + rate)) * amount
    Inclusive,
}

/// Fees charged on borrows and flash loans, apart from interest.
#[derive(Clone, Copy, Debug, PartialEq, Eq, Structural)]
pub struct ReserveFees {
    /// Borrow fee, scaled by 10^18.
    pub borrow_fee_wad: u64,
    /// Flash loan fee, scaled by 10^18.
    pub flash_loan_fee_wad: u64,
    /// Share of a fee that goes to the host, as a percentage.
    pub host_fee_percentage: u8,
}

/// Risk and rate parameters of a reserve.
#[derive(Clone, Copy, Debug, PartialEq, Eq, Structural)]
pub struct ReserveConfig {
    pub status: ReserveStatus,
    pub asset_tier: u8,
    /// Utilization at which the rate curve bends, as a percentage.
    pub optimal_utilization_rate: u8,
    /// Share of a deposit's value that may be borrowed against, as a percentage.
    pub loan_to_value_pct: u8,
    /// Loan-to-value at which a position becomes liquidatable, as a percentage.
    pub liquidation_threshold_pct: u8,
    pub min_liquidation_bonus_bps: u64,
    pub max_liquidation_bonus_bps: u64,
    /// Share of a liquidation bonus kept by the protocol, as a percentage.
    pub protocol_liquidation_fee_pct: u8,
    /// Share of interest kept by the protocol, as a percentage.
    pub protocol_take_rate_pct: u8,
    /// Liquidation bonus on a position in bad debt, in basis points.
    pub bad_debt_liquidation_bonus_bps: u64,
    /// Slots per basis point of bonus growth while a position is deleveraged.
    pub deleveraging_threshold_slots_per_bps: u64,
    /// Yearly borrow rate at zero utilization, as a percentage.
    pub min_borrow_rate: u8,
    /// Yearly borrow rate at optimal utilization, as a percentage.
    pub optimal_borrow_rate: u8,
    /// Yearly borrow rate at full utilization, as a percentage.
    pub max_borrow_rate: u8,
    pub fees: ReserveFees,
    /// Ceiling on the total supply of the reserve.
    pub deposit_limit: u64,
    /// Ceiling on the total borrowed from the reserve.
    pub borrow_limit: u64,
    /// Weight of debt in this asset, as a percentage of at least 100.
    pub borrow_factor_pct: u64,
    pub deposit_withdrawal_cap: WithdrawalCaps,
    pub debt_withdrawal_cap: WithdrawalCaps,
    /// How long a stored price stays usable.
    pub max_age_price_seconds: u64,
}

/// Liquidity of a reserve: what is lent out and what is left.
#[derive(Clone, Copy, Debug, PartialEq, Eq, Structural)]
pub struct ReserveLiquidity {
    pub mint_pubkey: Pubkey,
    /// Account holding the reserve's liquidity.
    pub supply_vault: Pubkey,
    /// Account receiving the reserve's fees.
    pub fee_vault: Pubkey,
    pub mint_decimals: u8,
    pub available_amount: u64,
    pub borrowed_amount: Fraction,
    /// Growth of one unit of debt since the reserve opened. It is a fraction
    /// like every other value here: compounding past its range fails as an
    /// overflow, never wrapped.
    pub cumulative_borrow_rate: Fraction,
    /// Price of one whole token in the quote currency.
    pub market_price: Fraction,
    pub market_price_last_updated_ts: u64,
}

/// The receipt tokens that a reserve issues against deposits.
#[derive(Clone, Copy, Debug, PartialEq, Eq, Structural)]
pub struct ReserveCollateral {
    pub mint_pubkey: Pubkey,
    pub mint_total_supply: u64,
    /// Account holding receipt tokens deposited as collateral.
    pub supply_vault: Pubkey,
}

/// A pool of one asset.
#[derive(Clone, Copy, Debug, PartialEq, Eq, Structural)]
pub struct Reserve {
    pub version: u64,
    pub last_update: LastUpdate,
    pub lending_market: Pubkey,
    pub liquidity: ReserveLiquidity,
    pub collateral: ReserveCollateral,
    pub config: ReserveConfig,
}

/// Receipt tokens per unit of liquidity.
#[derive(Clone, Copy, Debug, PartialEq, Eq, Structural)]
pub struct CollateralExchangeRate(pub Fraction);

/// Available plus borrowed liquidity, scaled.
pub open spec fn total_supply_of(l: ReserveLiquidity) -> Outcome {
    s_add(Ok(whole(l.available_amount as int)), Ok(l.borrowed_amount.bits as int))
}

/// Receipt tokens per unit of liquidity, given the receipt supply and the total
/// liquidity: one while either side is empty.
pub open spec fn exchange_rate_for(mint_total_supply: int, total: Outcome) -> Outcome {
    match total {
        Err(e) => Err(e),
        Ok(t) => if mint_total_supply == 0 || t == 0 {
            Ok(one_scaled())
        } else {
            s_div(Ok(whole(mint_total_supply)), Ok(t))
        },
    }
}

/// The exchange rate of a reserve.
pub open spec fn exchange_rate_of(r: Reserve) -> Outcome {
    exchange_rate_for(r.collateral.mint_total_supply as int, total_supply_of(r.liquidity))
}

/// Receipt tokens for a whole amount of liquidity, rounded down.
pub open spec fn liquidity_to_collateral_of(amount: int, rate: int) -> Outcome {
    s_floor(s_mul(Ok(whole(amount)), Ok(rate)))
}

/// Liquidity for a whole amount of receipt tokens, rounded down.
pub open spec fn collateral_to_liquidity_of(amount: int, rate: int) -> Outcome {
    s_floor(s_div(Ok(whole(amount)), Ok(rate)))
}

/// Receipt tokens minted for a deposit into a reserve.
pub open spec fn deposit_mint_of(r: Reserve, amount: int) -> Outcome {
    match exchange_rate_of(r) {
        Err(e) => Err(e),
        Ok(rate) => liquidity_to_collateral_of(amount, rate),
    }
}

/// Liquidity paid out for redeemed receipt tokens.
pub open spec fn redeem_payout_of(r: Reserve, amount: int) -> Outcome {
    match exchange_rate_of(r) {
        Err(e) => Err(e),
        Ok(rate) => collateral_to_liquidity_of(amount, rate),
    }
}

/// A reserve with its available liquidity and receipt supply replaced.
pub open spec fn with_amounts(r: Reserve, available: int, mint_supply: int) -> Reserve {
    Reserve {
        liquidity: ReserveLiquidity { available_amount: available as u64, ..r.liquidity },
        collateral: ReserveCollateral { mint_total_supply: mint_supply as u64, ..r.collateral },
        ..r
    }
}

/// Outcome of depositing liquidity: the new reserve and the receipt tokens minted.
pub open spec fn deposit_liquidity_spec(r: Reserve, amount: int) -> Result<(Reserve, int), LendingError> {
    match deposit_mint_of(r, amount) {
        Err(e) => Err(e),
        Ok(c) => if r.liquidity.available_amount + amount > u64::MAX || r.collateral.mint_total_supply
            + c > u64::MAX {
            Err(LendingError::MathOverflow)
        } else {
            Ok(
                (
                    with_amounts(
                        r,
                        r.liquidity.available_amount + amount,
                        r.collateral.mint_total_supply + c,
                    ),
                    c,
                ),
            )
        },
    }
}

/// Outcome of redeeming receipt tokens: the new reserve and the liquidity paid out.
pub open spec fn redeem_collateral_spec(r: Reserve, amount: int) -> Result<(Reserve, int), LendingError> {
    match redeem_payout_of(r, amount) {
        Err(e) => Err(e),
        Ok(l) => if l > r.liquidity.available_amount {
            Err(LendingError::InsufficientLiquidity)
        } else if amount > r.collateral.mint_total_supply {
            Err(LendingError::MathOverflow)
        } else {
            Ok(
                (
                    with_amounts(
                        r,
                        r.liquidity.available_amount - l,
                        r.collateral.mint_total_supply - amount,
                    ),
                    l,
                ),
            )
        },
    }
}

impl CollateralExchangeRate {
    /// Liquidity for an amount of receipt tokens, rounded down.
    pub fn collateral_to_liquidity(&self, collateral_amount: u64) -> (r: Result<u64, LendingError>)
        ensures
            is_amount(r, collateral_to_liquidity_of(collateral_amount as int, self.0.bits as int)),
    {
        let f = self.decimal_collateral_to_liquidity(Fraction::from_u64(collateral_amount))?;
        f.to_floor()
    }

    /// Liquidity for a fractional amount of receipt tokens.
    pub fn decimal_collateral_to_liquidity(&self, collateral_amount: Fraction) -> (r: Result<
        Fraction,
        LendingError,
    >)
        ensures
            is_frac(r, s_div(Ok(collateral_amount.bits as int), Ok(self.0.bits as int))),
    {
        collateral_amount.div(self.0)
    }

    /// Receipt tokens for an amount of liquidity, rounded down.
    pub fn liquidity_to_collateral(&self, liquidity_amount: u64) -> (r: Result<u64, LendingError>)
        ensures
            is_amount(r, liquidity_to_collateral_of(liquidity_amount as int, self.0.bits as int)),
    {
        let f = self.decimal_liquidity_to_collateral(Fraction::from_u64(liquidity_amount))?;
        f.to_floor()
    }

    /// Receipt tokens for a fractional amount of liquidity.
    pub fn decimal_liquidity_to_collateral(&self, liquidity_amount: Fraction) -> (r: Result<
        Fraction,
        LendingError,
    >)
        ensures
            is_frac(r, s_mul(Ok(liquidity_amount.bits as int), Ok(self.0.bits as int))),
    {
        liquidity_amount.mul(self.0)
    }
}

impl ReserveLiquidity {
    /// Available plus borrowed liquidity.
    pub fn total_supply(&self) -> (r: Result<Fraction, LendingError>)
        ensures
            is_frac(r, total_supply_of(*self)),
    {
        Fraction::from_u64(self.available_amount).add(self.borrowed_amount)
    }

    /// Adds liquidity to the available amount.
    pub fn deposit(&mut self, liquidity_amount: u64) -> (r: Result<(), LendingError>)
        ensures
            r is Ok <==> old(self).available_amount + liquidity_amount <= u64::MAX,
            r is Ok ==> *final(self) == (ReserveLiquidity {
                available_amount: (old(self).available_amount + liquidity_amount) as u64,
                ..*old(self)
            }),
            r is Err ==> r == Err::<(), LendingError>(LendingError::MathOverflow) && *final(self)
                == *old(self),
    {
        match self.available_amount.checked_add(liquidity_amount) {
            Some(v) => {
                self.available_amount = v;
                Ok(())
            },
            None => Err(LendingError::MathOverflow),
        }
    }

    /// Takes liquidity out of the available amount.
    pub fn withdraw(&mut self, liquidity_amount: u64) -> (r: Result<(), LendingError>)
        ensures
            r is Ok <==> liquidity_amount <= old(self).available_amount,
            r is Ok ==> *final(self) == (ReserveLiquidity {
                available_amount: (old(self).available_amount - liquidity_amount) as u64,
                ..*old(self)
            }),
            r is Err ==> r == Err::<(), LendingError>(LendingError::InsufficientLiquidity)
                && *final(self) == *old(self),
    {
        if liquidity_amount > self.available_amount {
            return Err(LendingError::InsufficientLiquidity);
        }
        self.available_amount = self.available_amount - liquidity_amount;
        Ok(())
    }

    /// Moves a borrow out of the available amount and into the borrowed amount;
    /// the available side gives up the whole part of the borrow.
    pub fn borrow(&mut self, borrow_amount: Fraction) -> (r: Result<(), LendingError>)
        ensures
            match r {
                Ok(_) => floor_of(borrow_amount.bits as int) <= old(self).available_amount
                    && old(self).borrowed_amount.bits + borrow_amount.bits <= u128::MAX
                    && *final(self) == (ReserveLiquidity {
                    available_amount: (old(self).available_amount - floor_of(
                        borrow_amount.bits as int,
                    )) as u64,
                    borrowed_amount: Fraction {
                        bits: (old(self).borrowed_amount.bits + borrow_amount.bits) as u128,
                    },
                    ..*old(self)
                }),
                Err(e) => *final(self) == *old(self) && if floor_of(borrow_amount.bits as int)
                    > old(self).available_amount {
                    e == LendingError::InsufficientLiquidity
                } else {
                    e == LendingError::MathOverflow && old(self).borrowed_amount.bits
                        + borrow_amount.bits > u128::MAX
                },
            },
    {
        let whole_part = borrow_amount.bits / FRACTION_ONE_SCALED;
        if whole_part > self.available_amount as u128 {
            return Err(LendingError::InsufficientLiquidity);
        }
        let borrowed = self.borrowed_amount.add(borrow_amount)?;
        self.available_amount = self.available_amount - whole_part as u64;
        self.borrowed_amount = borrowed;
        Ok(())
    }

    /// Returns repaid liquidity to the available amount and settles debt.
    pub fn repay(&mut self, repay_amount: u64, settle_amount: Fraction) -> (r: Result<
        (),
        LendingError,
    >)
        ensures
            r is Ok <==> old(self).available_amount + repay_amount <= u64::MAX
                && settle_amount.bits <= old(self).borrowed_amount.bits,
            r is Ok ==> *final(self) == (ReserveLiquidity {
                available_amount: (old(self).available_amount + repay_amount) as u64,
                borrowed_amount: Fraction {
                    bits: (old(self).borrowed_amount.bits - settle_amount.bits) as u128,
                },
                ..*old(self)
            }),
            r is Err ==> r == Err::<(), LendingError>(LendingError::MathOverflow) && *final(self)
                == *old(self),
    {
        let available = match self.available_amount.checked_add(repay_amount) {
            Some(v) => v,
            None => return Err(LendingError::MathOverflow),
        };
        let borrowed = self.borrowed_amount.sub(settle_amount)?;
        self.available_amount = available;
        self.borrowed_amount = borrowed;
        Ok(())
    }

    /// Share of the total supply that is borrowed; zero for an empty reserve.
    pub fn utilization_rate(&self) -> (r: Result<Fraction, LendingError>)
        ensures
            is_frac(r, utilization_of(*self)),
    {
        let total = self.total_supply()?;
        if total.bits == 0 {
            return Ok(Fraction::zero());
        }
        self.borrowed_amount.div(total)
    }
}

/// Share of the total supply that is borrowed.
pub open spec fn utilization_of(l: ReserveLiquidity) -> Outcome {
    match total_supply_of(l) {
        Err(e) => Err(e),
        Ok(t) => if t == 0 {
            Ok(0)
        } else {
            s_div(Ok(l.borrowed_amount.bits as int), Ok(t))
        },
    }
}

impl ReserveCollateral {
    /// Adds receipt tokens to the supply.
    pub fn mint(&mut self, collateral_amount: u64) -> (r: Result<(), LendingError>)
        ensures
            r is Ok <==> old(self).mint_total_supply + collateral_amount <= u64::MAX,
            r is Ok ==> *final(self) == (ReserveCollateral {
                mint_total_supply: (old(self).mint_total_supply + collateral_amount) as u64,
                ..*old(self)
            }),
            r is Err ==> r == Err::<(), LendingError>(LendingError::MathOverflow) && *final(self)
                == *old(self),
    {
        match self.mint_total_supply.checked_add(collateral_amount) {
            Some(v) => {
                self.mint_total_supply = v;
                Ok(())
            },
            None => Err(LendingError::MathOverflow),
        }
    }

    /// Removes receipt tokens from the supply.
    pub fn burn(&mut self, collateral_amount: u64) -> (r: Result<(), LendingError>)
        ensures
            r is Ok <==> collateral_amount <= old(self).mint_total_supply,
            r is Ok ==> *final(self) == (ReserveCollateral {
                mint_total_supply: (old(self).mint_total_supply - collateral_amount) as u64,
                ..*old(self)
            }),
            r is Err ==> r == Err::<(), LendingError>(LendingError::MathOverflow) && *final(self)
                == *old(self),
    {
        match self.mint_total_supply.checked_sub(collateral_amount) {
            Some(v) => {
                self.mint_total_supply = v;
                Ok(())
            },
            None => Err(LendingError::MathOverflow),
        }
    }

    /// Receipt tokens per unit of liquidity, given the total liquidity.
    pub fn exchange_rate(&self, total_liquidity: Fraction) -> (r: Result<
        CollateralExchangeRate,
        LendingError,
    >)
        ensures
            match r {
                Ok(x) => exchange_rate_for(self.mint_total_supply as int, Ok(total_liquidity.bits as int))
                    == Ok::<int, LendingError>(x.0.bits as int),
                Err(e) => exchange_rate_for(self.mint_total_supply as int, Ok(total_liquidity.bits as int))
                    == Err::<int, LendingError>(e),
            },
    {
        if self.mint_total_supply == 0 || total_liquidity.bits == 0 {
            Ok(CollateralExchangeRate(Fraction::one()))
        } else {
            let rate = Fraction::from_u64(self.mint_total_supply).div(total_liquidity)?;
            Ok(CollateralExchangeRate(rate))
        }
    }
}

impl Reserve {
    /// The current exchange rate between liquidity and receipt tokens.
    pub fn collateral_exchange_rate(&self) -> (r: Result<CollateralExchangeRate, LendingError>)
        ensures
            match r {
                Ok(x) => exchange_rate_of(*self) == Ok::<int, LendingError>(x.0.bits as int),
                Err(e) => exchange_rate_of(*self) == Err::<int, LendingError>(e),
            },
    {
        let total = self.liquidity.total_supply()?;
        self.collateral.exchange_rate(total)
    }

    /// Records deposited liquidity and returns the receipt tokens to mint.
    pub fn deposit_liquidity(&mut self, liquidity_amount: u64) -> (r: Result<u64, LendingError>)
        ensures
            match r {
                Ok(c) => deposit_liquidity_spec(*old(self), liquidity_amount as int) == Ok::<
                    (Reserve, int),
                    LendingError,
                >((*final(self), c as int)),
                Err(e) => deposit_liquidity_spec(*old(self), liquidity_amount as int) == Err::<
                    (Reserve, int),
                    LendingError,
                >(e) && *final(self) == *old(self),
            },
    {
        let rate = self.collateral_exchange_rate()?;
        let collateral_amount = rate.liquidity_to_collateral(liquidity_amount)?;
        let mut liquidity = self.liquidity;
        let mut collateral = self.collateral;
        liquidity.deposit(liquidity_amount)?;
        collateral.mint(collateral_amount)?;
        self.liquidity = liquidity;
        self.collateral = collateral;
        Ok(collateral_amount)
    }

    /// Records redeemed receipt tokens and returns the liquidity to pay out.
    pub fn redeem_collateral(&mut self, collateral_amount: u64) -> (r: Result<u64, LendingError>)
        ensures
            match r {
                Ok(l) => redeem_collateral_spec(*old(self), collateral_amount as int) == Ok::<
                    (Reserve, int),
                    LendingError,
                >((*final(self), l as int)),
                Err(e) => redeem_collateral_spec(*old(self), collateral_amount as int) == Err::<
                    (Reserve, int),
                    LendingError,
                >(e) && *final(self) == *old(self),
            },
    {
        let rate = self.collateral_exchange_rate()?;
        let liquidity_amount = rate.collateral_to_liquidity(collateral_amount)?;
        let mut liquidity = self.liquidity;
        let mut collateral = self.collateral;
        liquidity.withdraw(liquidity_amount)?;
        collateral.burn(collateral_amount)?;
        self.liquidity = liquidity;
        self.collateral = collateral;
        Ok(liquidity_amount)
    }
}

/// `10^18`, the scale of fee settings.
pub const WAD: u64 = 1_000_000_000_000_000_000;

/// `10^n`.
pub open spec fn pow10(n: nat) -> int
    decreases n,
{
    if n == 0 {
        1
    } else {
        10 * pow10((n - 1) as nat)
    }
}

proof fn lemma_pow10_grows(i: nat, n: nat)
    requires
        i <= n,
    ensures
        1 <= pow10(i) <= pow10(n),
    decreases n - i,
{
    if i < n {
        lemma_pow10_grows(i, (n - 1) as nat);
    } else {
        lemma_pow10_pos(n);
    }
}

proof fn lemma_pow10_pos(n: nat)
    ensures
        pow10(n) >= 1,
    decreases n,
{
    if n > 0 {
        lemma_pow10_pos((n - 1) as nat);
    }
}

/// `10^n` as an amount, or an overflow past `u64::MAX`.
pub open spec fn ten_pow_of(n: nat) -> Outcome {
    if pow10(n) <= u64::MAX {
        Ok(pow10(n))
    } else {
        Err(LendingError::MathOverflow)
    }
}

/// `10^n`, the number of base units in one whole token of `n` decimals.
pub fn ten_pow(n: u8) -> (r: Result<u64, LendingError>)
    ensures
        is_amount(r, ten_pow_of(n as nat)),
{
    let mut acc: u64 = 1;
    let mut i: u8 = 0;
    while i < n
        invariant
            i <= n,
            acc as int == pow10(i as nat),
        decreases n - i,
    {
        match acc.checked_mul(10) {
            Some(v) => {
                acc = v;
            },
            None => {
                proof {
                    lemma_pow10_grows((i + 1) as nat, n as nat);
                }
                return Err(LendingError::MathOverflow);
            },
        }
        i = i + 1;
    }
    Ok(acc)
}

/// Bits of a fee setting scaled by `10^18`.
pub open spec fn wad_bits(w: int) -> int {
    w * one_scaled() / WAD as int
}

/// Borrow and host fees on `amount` (scaled) at the fee setting `fee_wad`.
pub open spec fn fees_spec(amount: int, fee_wad: int, host_pct: int, calc: FeeCalculation) -> Result<
    (int, int),
    LendingError,
> {
    let fee_rate = wad_bits(fee_wad);
    let host_rate = percent_bits(host_pct);
    if fee_rate > 0 && amount > 0 {
        let min_fee: int = if host_rate > 0 {
            2
        } else {
            1
        };
        let fee_amount = match calc {
            FeeCalculation::Exclusive => s_mul(Ok(amount), Ok(fee_rate)),
            FeeCalculation::Inclusive => s_mul(
                Ok(amount),
                s_div(Ok(fee_rate), s_add(Ok(fee_rate), Ok(one_scaled()))),
            ),
        };
        match s_max(fee_amount, Ok(whole(min_fee))) {
            Err(e) => Err(e),
            Ok(fd) => if fd >= amount {
                Err(LendingError::BorrowTooSmall)
            } else {
                match s_round(Ok(fd)) {
                    Err(e) => Err(e),
                    Ok(fee) => if host_rate > 0 {
                        match s_round(s_mul(Ok(fd), Ok(host_rate))) {
                            Err(e) => Err(e),
                            Ok(h) => Ok((fee, if h >= 1 { h } else { 1 })),
                        }
                    } else {
                        Ok((fee, 0))
                    },
                }
            },
        }
    } else {
        Ok((0, 0))
    }
}

/// Whether an executable fee result is the outcome `s`.
pub open spec fn is_fees(r: Result<(u64, u64), LendingError>, s: Result<(int, int), LendingError>) -> bool {
    match r {
        Ok((a, b)) => s == Ok::<(int, int), LendingError>((a as int, b as int)),
        Err(e) => s == Err::<(int, int), LendingError>(e),
    }
}

impl Fraction {
    /// The fraction of a setting scaled by `10^18`.
    pub fn from_wad(w: u64) -> (r: Fraction)
        ensures
            r.bits == wad_bits(w as int),
    {
        assert(w as int * one_scaled() <= u128::MAX) by (nonlinear_arith)
            requires
                w <= u64::MAX,
                one_scaled() == 0x1000_0000_0000_0000int,
        ;
        Fraction { bits: (w as u128) * FRACTION_ONE_SCALED / (WAD as u128) }
    }
}

impl ReserveFees {
    /// Borrow and host fees on a borrow.
    pub fn calculate_borrow_fees(&self, borrow_amount: Fraction, fee_calculation: FeeCalculation) -> (r:
        Result<(u64, u64), LendingError>)
        ensures
            is_fees(
                r,
                fees_spec(
                    borrow_amount.bits as int,
                    self.borrow_fee_wad as int,
                    self.host_fee_percentage as int,
                    fee_calculation,
                ),
            ),
    {
        self.calculate_fees(borrow_amount, self.borrow_fee_wad, fee_calculation)
    }

    /// Protocol and host fees on a flash loan, added on top of it.
    pub fn calculate_flash_loan_fees(&self, flash_loan_amount: Fraction) -> (r: Result<
        (u64, u64),
        LendingError,
    >)
        ensures
            is_fees(
                r,
                fees_spec(
                    flash_loan_amount.bits as int,
                    self.flash_loan_fee_wad as int,
                    self.host_fee_percentage as int,
                    FeeCalculation::Exclusive,
                ),
            ),
    {
        self.calculate_fees(flash_loan_amount, self.flash_loan_fee_wad, FeeCalculation::Exclusive)
    }

    fn calculate_fees(&self, amount: Fraction, fee_wad: u64, fee_calculation: FeeCalculation) -> (r:
        Result<(u64, u64), LendingError>)
        ensures
            is_fees(
                r,
                fees_spec(amount.bits as int, fee_wad as int, self.host_fee_percentage as int, fee_calculation),
            ),
    {
        let fee_rate = Fraction::from_wad(fee_wad);
        let host_fee_rate = Fraction::from_percent(self.host_fee_percentage as u64);
        if fee_rate.bits > 0 && amount.bits > 0 {
            let need_host_fee = host_fee_rate.bits > 0;
            let minimum_fee: u64 = if need_host_fee {
                2
            } else {
                1
            };
            let fee_amount = match fee_calculation {
                FeeCalculation::Exclusive => amount.mul(fee_rate)?,
                FeeCalculation::Inclusive => {
                    let denom = fee_rate.add(Fraction::one())?;
                    let inclusive_rate = fee_rate.div(denom)?;
                    amount.mul(inclusive_rate)?
                },
            };
            let fee_decimal = fee_amount.max(Fraction::from_u64(minimum_fee));
            if fee_decimal.bits >= amount.bits {
                return Err(LendingError::BorrowTooSmall);
            }
            let borrow_fee = fee_decimal.to_round()?;
            let host_fee = if need_host_fee {
                let h = fee_decimal.mul(host_fee_rate)?.to_round()?;
                if h >= 1 {
                    h
                } else {
                    1
                }
            } else {
                0
            };
            Ok((borrow_fee, host_fee))
        } else {
            Ok((0, 0))
        }
    }
}

/// Outcome of sizing a borrow
#[derive(Clone, Copy, Debug, PartialEq, Eq, Structural)]
pub struct CalculateBorrowResult {
    /// Debt taken on, fee included.
    pub borrow_amount: Fraction,
    /// Liquidity the borrower receives.
    pub receive_amount: u64,
    /// Fee kept by the reserve.
    pub borrow_fee: u64,
}

/// Outcome of sizing a repay.
#[derive(Clone, Copy, Debug, PartialEq, Eq, Structural)]
pub struct CalculateRepayResult {
    /// Debt settled.
    pub settle_amount: Fraction,
    /// Liquidity to transfer, the settled debt rounded up.
    pub repay_amount: u64,
}

/// Outcome of sizing a borrow: debt (scaled), amount received, fee.
pub open spec fn calculate_borrow_spec(
    r: Reserve,
    amount: int,
    max_borrow_value: int,
    remaining_capacity: int,
) -> Result<(int, int, int), LendingError> {
    match ten_pow_of(r.liquidity.mint_decimals as nat) {
        Err(e) => Err(e),
        Ok(decimals) => if amount == ALL_AMOUNT {
            let b = s_min(
                s_min(
                    s_div(
                        s_mul(Ok(max_borrow_value), Ok(whole(decimals))),
                        Ok(r.liquidity.market_price.bits as int),
                    ),
                    Ok(remaining_capacity),
                ),
                Ok(whole(r.liquidity.available_amount as int)),
            );
            match b {
                Err(e) => Err(e),
                Ok(bb) => match fees_spec(
                    bb,
                    r.config.fees.borrow_fee_wad as int,
                    r.config.fees.host_fee_percentage as int,
                    FeeCalculation::Inclusive,
                ) {
                    Err(e) => Err(e),
                    Ok((fee, _)) => match s_floor(Ok(bb)) {
                        Err(e) => Err(e),
                        Ok(fl) => if fl < fee {
                            Err(LendingError::MathOverflow)
                        } else {
                            Ok((bb, fl - fee, fee))
                        },
                    },
                },
            }
        } else {
            match fees_spec(
                whole(amount),
                r.config.fees.borrow_fee_wad as int,
                r.config.fees.host_fee_percentage as int,
                FeeCalculation::Exclusive,
            ) {
                Err(e) => Err(e),
                Ok((fee, _)) => match s_add(Ok(whole(amount)), Ok(whole(fee))) {
                    Err(e) => Err(e),
                    Ok(b2) => match s_div(
                        s_mul(Ok(b2), Ok(r.liquidity.market_price.bits as int)),
                        Ok(whole(decimals)),
                    ) {
                        Err(e) => Err(e),
                        Ok(v) => if v > max_borrow_value {
                            Err(LendingError::BorrowTooLarge)
                        } else {
                            Ok((b2, amount, fee))
                        },
                    },
                },
            }
        },
    }
}

/// Outcome of sizing a repay: debt settled (scaled) and liquidity to transfer.
pub open spec fn calculate_repay_spec(amount: int, borrowed: int) -> Result<(int, int), LendingError> {
    let settle = if amount == ALL_AMOUNT {
        borrowed
    } else if whole(amount) <= borrowed {
        whole(amount)
    } else {
        borrowed
    };
    match s_ceil(Ok(settle)) {
        Err(e) => Err(e),
        Ok(repay) => Ok((settle, repay)),
    }
}

/// The yearly borrow rate that the curve gives at the reserve's utilization.
pub open spec fn borrow_rate_of(r: Reserve) -> Outcome {
    let c = r.config;
    match utilization_of(r.liquidity) {
        Err(e) => Err(e),
        Ok(u) => {
            let opt = percent_bits(c.optimal_utilization_rate as int);
            if u < opt || c.optimal_utilization_rate == 100 {
                if c.optimal_borrow_rate < c.min_borrow_rate {
                    Err(LendingError::MathOverflow)
                } else {
                    s_add(
                        s_mul(
                            s_div(Ok(u), Ok(opt)),
                            Ok(percent_bits(c.optimal_borrow_rate - c.min_borrow_rate)),
                        ),
                        Ok(percent_bits(c.min_borrow_rate as int)),
                    )
                }
            } else {
                if c.optimal_utilization_rate > 100 || c.max_borrow_rate < c.optimal_borrow_rate {
                    Err(LendingError::MathOverflow)
                } else {
                    s_add(
                        s_mul(
                            s_div(
                                Ok(u - opt),
                                Ok(percent_bits(100 - c.optimal_utilization_rate)),
                            ),
                            Ok(percent_bits(c.max_borrow_rate - c.optimal_borrow_rate)),
                        ),
                        Ok(percent_bits(c.optimal_borrow_rate as int)),
                    )
                }
            }
        },
    }
}

/// `base^n` by repeated squaring: the half power squared, times `base` once
/// more for an odd exponent, each product rounded down.
pub open spec fn compound_of(base: int, n: nat) -> Outcome
    decreases n,
{
    if n == 0 {
        Ok(one_scaled())
    } else {
        let half = compound_of(base, n / 2);
        let square = s_mul(half, half);
        if n % 2 == 1 {
            s_mul(square, Ok(base))
        } else {
            square
        }
    }
}

/// `base^n` by repeated squaring, in logarithmically many products.
pub fn compound_factor(base: Fraction, n: u64) -> (r: Result<Fraction, LendingError>)
    ensures
        is_frac(r, compound_of(base.bits as int, n as nat)),
    decreases n,
{
    if n == 0 {
        return Ok(Fraction::one());
    }
    let half = compound_factor(base, n / 2)?;
    let square = half.mul(half)?;
    if n % 2 == 1 {
        square.mul(base)
    } else {
        Ok(square)
    }
}

/// The liquidity after compounding `rate` (yearly) over `slots`.
pub open spec fn compound_interest_spec(l: ReserveLiquidity, rate: int, slots: nat) -> Result<
    ReserveLiquidity,
    LendingError,
> {
    match s_add(Ok(one_scaled()), Ok(rate / SLOTS_PER_YEAR as int)) {
        Err(e) => Err(e),
        Ok(base) => match compound_of(base, slots) {
            Err(e) => Err(e),
            Ok(f) => match s_mul(Ok(l.cumulative_borrow_rate.bits as int), Ok(f)) {
                Err(e) => Err(e),
                Ok(c2) => match s_mul(Ok(l.borrowed_amount.bits as int), Ok(f)) {
                    Err(e) => Err(e),
                    Ok(b2) => Ok(
                        ReserveLiquidity {
                            cumulative_borrow_rate: Fraction { bits: c2 as u128 },
                            borrowed_amount: Fraction { bits: b2 as u128 },
                            ..l
                        },
                    ),
                },
            },
        },
    }
}

/// The reserve after accruing interest up to `slot`.
pub open spec fn accrue_interest_spec(r: Reserve, slot: u64) -> Result<Reserve, LendingError> {
    if slot < r.last_update.slot {
        Err(LendingError::MathOverflow)
    } else if slot == r.last_update.slot {
        Ok(r)
    } else {
        match borrow_rate_of(r) {
            Err(e) => Err(e),
            Ok(rate) => match compound_interest_spec(
                r.liquidity,
                rate,
                (slot - r.last_update.slot) as nat,
            ) {
                Err(e) => Err(e),
                Ok(l) => Ok(Reserve { liquidity: l, ..r }),
            },
        }
    }
}

/// Whether a reserve configuration is coherent: percentages within range,
/// liquidation threshold at or above the loan-to-value, bonuses ordered, the
/// rate curve rising, fees below one, debt weighted at least at face value.
/// Price-feed settings are judged where the feed is resolved, outside this
/// library: the core only reads the maximum age of a stored price.
pub open spec fn config_valid(c: ReserveConfig) -> bool {
    &&& c.optimal_utilization_rate <= 100
    &&& c.loan_to_value_pct < 100
    &&& c.max_liquidation_bonus_bps <= 10_000
    &&& c.min_liquidation_bonus_bps <= c.max_liquidation_bonus_bps
    &&& c.loan_to_value_pct <= c.liquidation_threshold_pct <= 100
    &&& c.min_borrow_rate <= c.optimal_borrow_rate <= c.max_borrow_rate
    &&& c.fees.borrow_fee_wad < WAD
    &&& c.fees.flash_loan_fee_wad < WAD
    &&& c.fees.host_fee_percentage <= 100
    &&& c.protocol_liquidation_fee_pct <= 100
    &&& c.protocol_take_rate_pct <= 100
    &&& c.bad_debt_liquidation_bonus_bps < 100
    &&& c.borrow_factor_pct >= 100
    &&& c.deleveraging_threshold_slots_per_bps > 0
}

impl ReserveConfig {
    /// Checks the configuration when a reserve is created or reconfigured.
    pub fn validate(&self) -> (r: Result<(), LendingError>)
        ensures
            r is Ok <==> config_valid(*self),
            r is Err ==> r == Err::<(), LendingError>(LendingError::InvalidConfig),
    {
        if self.optimal_utilization_rate > 100 || self.loan_to_value_pct >= 100
            || self.max_liquidation_bonus_bps > 10_000 || self.min_liquidation_bonus_bps
            > self.max_liquidation_bonus_bps || self.liquidation_threshold_pct
            < self.loan_to_value_pct || self.liquidation_threshold_pct > 100
            || self.optimal_borrow_rate < self.min_borrow_rate || self.optimal_borrow_rate
            > self.max_borrow_rate || self.fees.borrow_fee_wad >= WAD
            || self.fees.flash_loan_fee_wad >= WAD || self.fees.host_fee_percentage > 100
            || self.protocol_liquidation_fee_pct > 100 || self.protocol_take_rate_pct > 100
            || self.bad_debt_liquidation_bonus_bps >= 100 || self.borrow_factor_pct < 100
            || self.deleveraging_threshold_slots_per_bps == 0 {
            return Err(LendingError::InvalidConfig);
        }
        Ok(())
    }
}

impl ReserveLiquidity {
    fn compound_interest(&mut self, current_borrow_rate: Fraction, slots_elapsed: u64) -> (r: Result<
        (),
        LendingError,
    >)
        ensures
            match r {
                Ok(_) => compound_interest_spec(
                    *old(self),
                    current_borrow_rate.bits as int,
                    slots_elapsed as nat,
                ) == Ok::<ReserveLiquidity, LendingError>(*final(self)),
                Err(e) => compound_interest_spec(
                    *old(self),
                    current_borrow_rate.bits as int,
                    slots_elapsed as nat,
                ) == Err::<ReserveLiquidity, LendingError>(e) && *final(self) == *old(self),
            },
    {
        let slot_rate = current_borrow_rate.div_int(SLOTS_PER_YEAR);
        let base = Fraction::one().add(slot_rate)?;
        let factor = compound_factor(base, slots_elapsed)?;
        let cumulative = self.cumulative_borrow_rate.mul(factor)?;
        let borrowed = self.borrowed_amount.mul(factor)?;
        self.cumulative_borrow_rate = cumulative;
        self.borrowed_amount = borrowed;
        Ok(())
    }
}

impl Reserve {
    /// The yearly borrow rate at the current utilization: linear from the
    /// minimum to the optimal rate below the optimal utilization, then linear
    /// from the optimal to the maximum rate.
    pub fn current_borrow_rate(&self) -> (r: Result<Fraction, LendingError>)
        ensures
            is_frac(r, borrow_rate_of(*self)),
    {
        let utilization_rate = self.liquidity.utilization_rate()?;
        let optimal_utilization_rate = Fraction::from_percent(
            self.config.optimal_utilization_rate as u64,
        );
        let low_utilization = utilization_rate.bits < optimal_utilization_rate.bits;
        if low_utilization || self.config.optimal_utilization_rate == 100 {
            if self.config.optimal_borrow_rate < self.config.min_borrow_rate {
                return Err(LendingError::MathOverflow);
            }
            let normalized_rate = utilization_rate.div(optimal_utilization_rate)?;
            let min_rate = Fraction::from_percent(self.config.min_borrow_rate as u64);
            let rate_range = Fraction::from_percent(
                (self.config.optimal_borrow_rate - self.config.min_borrow_rate) as u64,
            );
            normalized_rate.mul(rate_range)?.add(min_rate)
        } else {
            if self.config.optimal_utilization_rate > 100 || self.config.max_borrow_rate
                < self.config.optimal_borrow_rate {
                return Err(LendingError::MathOverflow);
            }
            let excess = Fraction { bits: utilization_rate.bits - optimal_utilization_rate.bits };
            let normalized_rate = excess.div(
                Fraction::from_percent((100 - self.config.optimal_utilization_rate) as u64),
            )?;
            let min_rate = Fraction::from_percent(self.config.optimal_borrow_rate as u64);
            let rate_range = Fraction::from_percent(
                (self.config.max_borrow_rate - self.config.optimal_borrow_rate) as u64,
            );
            normalized_rate.mul(rate_range)?.add(min_rate)
        }
    }

    /// Compounds the borrow rate over the slots since the last refresh.
    pub fn accrue_interest(&mut self, current_slot: u64) -> (r: Result<(), LendingError>)
        ensures
            match r {
                Ok(_) => accrue_interest_spec(*old(self), current_slot) == Ok::<
                    Reserve,
                    LendingError,
                >(*final(self)),
                Err(e) => accrue_interest_spec(*old(self), current_slot) == Err::<
                    Reserve,
                    LendingError,
                >(e) && *final(self) == *old(self),
            },
    {
        let slots_elapsed = self.last_update.slots_elapsed(current_slot)?;
        if slots_elapsed > 0 {
            let current_borrow_rate = self.current_borrow_rate()?;
            let mut liquidity = self.liquidity;
            liquidity.compound_interest(current_borrow_rate, slots_elapsed)?;
            self.liquidity = liquidity;
        }
        Ok(())
    }

    /// Sizes a borrow. `ALL_AMOUNT` asks for the most that the value ceiling,
    /// the remaining capacity and the available liquidity allow, fee included;
    /// any other amount is what the borrower receives, with the fee added on top.
    pub fn calculate_borrow(
        &self,
        amount_to_borrow: u64,
        max_borrow_value: Fraction,
        remaining_reserve_capacity: Fraction,
    ) -> (r: Result<CalculateBorrowResult, LendingError>)
        ensures
            match r {
                Ok(b) => calculate_borrow_spec(
                    *self,
                    amount_to_borrow as int,
                    max_borrow_value.bits as int,
                    remaining_reserve_capacity.bits as int,
                ) == Ok::<(int, int, int), LendingError>(
                    (b.borrow_amount.bits as int, b.receive_amount as int, b.borrow_fee as int),
                ),
                Err(e) => calculate_borrow_spec(
                    *self,
                    amount_to_borrow as int,
                    max_borrow_value.bits as int,
                    remaining_reserve_capacity.bits as int,
                ) == Err::<(int, int, int), LendingError>(e),
            },
    {
        let decimals = ten_pow(self.liquidity.mint_decimals)?;
        if amount_to_borrow == ALL_AMOUNT {
            let borrow_amount = max_borrow_value.mul(Fraction::from_u64(decimals))?.div(
                self.liquidity.market_price,
            )?.min(remaining_reserve_capacity).min(
                Fraction::from_u64(self.liquidity.available_amount),
            );
            let (borrow_fee, _host_fee) = self.config.fees.calculate_borrow_fees(
                borrow_amount,
                FeeCalculation::Inclusive,
            )?;
            let whole_amount = borrow_amount.to_floor()?;
            if whole_amount < borrow_fee {
                return Err(LendingError::MathOverflow);
            }
            Ok(
                CalculateBorrowResult {
                    borrow_amount,
                    receive_amount: whole_amount - borrow_fee,
                    borrow_fee,
                },
            )
        } else {
            let receive_amount = amount_to_borrow;
            let requested = Fraction::from_u64(receive_amount);
            let (borrow_fee, _host_fee) = self.config.fees.calculate_borrow_fees(
                requested,
                FeeCalculation::Exclusive,
            )?;
            let borrow_amount = requested.add(Fraction::from_u64(borrow_fee))?;
            let borrow_value = borrow_amount.mul(self.liquidity.market_price)?.div(
                Fraction::from_u64(decimals),
            )?;
            if borrow_value.bits > max_borrow_value.bits {
                return Err(LendingError::BorrowTooLarge);
            }
            Ok(CalculateBorrowResult { borrow_amount, receive_amount, borrow_fee })
        }
    }

    /// Sizes a repay: `ALL_AMOUNT` settles the whole debt, any other amount
    /// settles at most the debt; the transfer is the settled debt rounded up.
    pub fn calculate_repay(&self, amount_to_repay: u64, borrowed_amount: Fraction) -> (r: Result<
        CalculateRepayResult,
        LendingError,
    >)
        ensures
            match r {
                Ok(c) => calculate_repay_spec(amount_to_repay as int, borrowed_amount.bits as int)
                    == Ok::<(int, int), LendingError>(
                    (c.settle_amount.bits as int, c.repay_amount as int),
                ),
                Err(e) => calculate_repay_spec(amount_to_repay as int, borrowed_amount.bits as int)
                    == Err::<(int, int), LendingError>(e),
            },
    {
        let settle_amount = if amount_to_repay == ALL_AMOUNT {
            borrowed_amount
        } else {
            Fraction::from_u64(amount_to_repay).min(borrowed_amount)
        };
        let repay_amount = settle_amount.to_ceil()?;
        Ok(CalculateRepayResult { settle_amount, repay_amount })
    }
}

/// Parameters of a new reserve.
pub struct InitReserveParams {
    pub current_slot: u64,
    pub lending_market: Pubkey,
    pub liquidity: ReserveLiquidity,
    pub collateral: ReserveCollateral,
    pub config: ReserveConfig,
}

/// Parameters of a new reserve's liquidity.
pub struct NewReserveLiquidityParams {
    pub mint_pubkey: Pubkey,
    pub supply_vault: Pubkey,
    pub fee_vault: Pubkey,
    pub mint_decimals: u8,
    pub market_price: Fraction,
}

/// Parameters of a new reserve's receipt tokens.
pub struct NewReserveCollateralParams {
    pub mint_pubkey: Pubkey,
    pub supply_vault: Pubkey,
}

impl ReserveLiquidity {
    /// Empty liquidity: nothing available or borrowed, cumulative rate one.
    pub fn new(params: NewReserveLiquidityParams) -> (r: ReserveLiquidity)
        ensures
            r.mint_pubkey == params.mint_pubkey,
            r.supply_vault == params.supply_vault,
            r.fee_vault == params.fee_vault,
            r.mint_decimals == params.mint_decimals,
            r.market_price == params.market_price,
            r.available_amount == 0,
            r.borrowed_amount.bits == 0,
            r.cumulative_borrow_rate.bits == one_scaled(),
            r.market_price_last_updated_ts == 0,
    {
        ReserveLiquidity {
            mint_pubkey: params.mint_pubkey,
            supply_vault: params.supply_vault,
            fee_vault: params.fee_vault,
            mint_decimals: params.mint_decimals,
            available_amount: 0,
            borrowed_amount: Fraction::zero(),
            cumulative_borrow_rate: Fraction::one(),
            market_price: params.market_price,
            market_price_last_updated_ts: 0,
        }
    }
}

impl ReserveCollateral {
    /// No receipt tokens issued yet.
    pub fn new(params: NewReserveCollateralParams) -> (r: ReserveCollateral)
        ensures
            r.mint_pubkey == params.mint_pubkey,
            r.supply_vault == params.supply_vault,
            r.mint_total_supply == 0,
    {
        ReserveCollateral {
            mint_pubkey: params.mint_pubkey,
            mint_total_supply: 0,
            supply_vault: params.supply_vault,
        }
    }
}

impl Reserve {
    /// A reserve created at `params.current_slot`, stale until its first refresh.
    pub fn new(params: InitReserveParams) -> (r: Reserve)
        ensures
            r.version == PROGRAM_VERSION,
            r.last_update == (LastUpdate { slot: params.current_slot, stale: true, price_status: 0 }),
            r.lending_market == params.lending_market,
            r.liquidity == params.liquidity,
            r.collateral == params.collateral,
            r.config == params.config,
    {
        Reserve {
            version: PROGRAM_VERSION,
            last_update: LastUpdate::new(params.current_slot),
            lending_market: params.lending_market,
            liquidity: params.liquidity,
            collateral: params.collateral,
            config: params.config,
        }
    }

    /// Resets a reserve to a new one.
    pub fn init(&mut self, params: InitReserveParams)
        ensures
            final(self).version == PROGRAM_VERSION,
            final(self).last_update == (LastUpdate {
                slot: params.current_slot,
                stale: true,
                price_status: 0,
            }),
            final(self).lending_market == params.lending_market,
            final(self).liquidity == params.liquidity,
            final(self).collateral == params.collateral,
            final(self).config == params.config,
    {
        *self = Reserve::new(params);
    }

    /// Whether the reserve was written by this version of the library.
    pub fn is_initialized(&self) -> (r: bool)
        ensures
            r == (self.version != 0),
    {
        self.version != 0
    }
}

} // verus!
