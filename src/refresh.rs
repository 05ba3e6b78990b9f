use vstd::prelude::*;
use crate::errors::LendingError;
use crate::fraction::{Fraction, Outcome, whole, s_add, s_div, s_mul, percent_bits, is_frac};
use crate::last_update::{LastUpdate, PriceStatusFlags, ALL_CHECKS_BITS, stale_at};
use crate::lending_market::LendingMarket;
use crate::lending_operations::{market_value_of, calculate_market_value_from_liquidity_amount};
use crate::obligation::{
    Obligation, ObligationCollateral, ObligationLiquidity, accrued_debt_of, deposits_unique,
    borrows_unique,
};
use crate::pubkey::Pubkey;
use crate::reserve::{Reserve, ReserveStatus, PROGRAM_VERSION, exchange_rate_of};

verus! {

/// Totals gathered over an obligation's collateral during a refresh.
#[derive(Debug)]
pub struct RefreshObligationDepositsResult {
    /// Collateral entries with their new values.
    pub deposits: Vec<ObligationCollateral>,
    pub lowest_deposit_ltv_accumulator: u8,
    pub num_of_obsolete_reserves: u64,
    pub deposited_value_f: Fraction,
    pub allowed_borrow_value_f: Fraction,
    pub unhealthy_borrow_value_f: Fraction,
    pub prices_state: PriceStatusFlags,
}

/// Totals gathered over an obligation's debt during a refresh.
#[derive(Debug)]
pub struct RefreshObligationBorrowsResult {
    /// Borrow entries with interest applied and their new values.
    pub borrows: Vec<ObligationLiquidity>,
    pub borrowed_assets_market_value_f: Fraction,
    pub borrow_factor_adjusted_debt_value_f: Fraction,
    pub prices_state: PriceStatusFlags,
    /// Whether the obligation has any debt entry, which makes it carry debt.
    pub has_debt: bool,
}

/// Running totals over collateral: new entries, deposited value, allowed and
/// unhealthy borrow values, lowest loan-to-value, obsolete reserves, price checks.
pub struct DepositTotals {
    pub entries: Seq<ObligationCollateral>,
    pub deposited: int,
    pub allowed: int,
    pub unhealthy: int,
    pub lowest_ltv: int,
    pub obsolete: int,
    pub status: u8,
}

/// Running totals over debt: new entries, debt value, risk-adjusted debt value,
/// price checks.
pub struct BorrowTotals {
    pub entries: Seq<ObligationLiquidity>,
    pub debt: int,
    pub adjusted_debt: int,
    pub status: u8,
}

/// The checks on the reserve handed in for an entry.
pub open spec fn handle_check(key: Pubkey, handle_key: Pubkey, r: Reserve, slot: u64) -> Result<
    (),
    LendingError,
> {
    if key != handle_key {
        Err(LendingError::InvalidAccountInput)
    } else if stale_at(r.last_update, slot, 0) {
        Err(LendingError::ReserveStale)
    } else if r.version != PROGRAM_VERSION {
        Err(LendingError::ReserveDeprecated)
    } else {
        Ok(())
    }
}

/// Value of a collateral entry.
pub open spec fn collateral_value_of(r: Reserve, deposited: int) -> Outcome {
    match exchange_rate_of(r) {
        Err(e) => Err(e),
        Ok(rate) => match s_div(Ok(whole(deposited)), Ok(rate)) {
            Err(e) => Err(e),
            Ok(liq) => market_value_of(r, liq),
        },
    }
}

/// The collateral totals over the first `n` entries, each priced by the reserve
/// handed in at the same position.
pub open spec fn deposits_fold(
    ds: Seq<ObligationCollateral>,
    keys: Seq<Pubkey>,
    rs: Seq<Reserve>,
    slot: u64,
    n: nat,
) -> Result<DepositTotals, LendingError>
    decreases n,
{
    if n == 0 {
        Ok(
            DepositTotals {
                entries: Seq::empty(),
                deposited: 0,
                allowed: 0,
                unhealthy: 0,
                lowest_ltv: 255,
                obsolete: 0,
                status: ALL_CHECKS_BITS,
            },
        )
    } else {
        let p = n - 1;
        match deposits_fold(ds, keys, rs, slot, (n - 1) as nat) {
            Err(e) => Err(e),
            Ok(t) => if p >= keys.len() || p >= rs.len() {
                Err(LendingError::InvalidAccountInput)
            } else {
                let r = rs[p];
                let d = ds[p];
                match handle_check(d.deposit_reserve, keys[p], r, slot) {
                    Err(e) => Err(e),
                    Ok(_) => match collateral_value_of(r, d.deposited_amount as int) {
                        Err(e) => Err(e),
                        Ok(mv) => match s_add(Ok(t.deposited), Ok(mv)) {
                            Err(e) => Err(e),
                            Ok(dv) => match s_add(
                                Ok(t.allowed),
                                s_mul(Ok(mv), Ok(percent_bits(r.config.loan_to_value_pct as int))),
                            ) {
                                Err(e) => Err(e),
                                Ok(av) => match s_add(
                                    Ok(t.unhealthy),
                                    s_mul(
                                        Ok(mv),
                                        Ok(percent_bits(r.config.liquidation_threshold_pct as int)),
                                    ),
                                ) {
                                    Err(e) => Err(e),
                                    Ok(uv) => Ok(
                                        DepositTotals {
                                            entries: t.entries.push(
                                                ObligationCollateral {
                                                    market_value: Fraction { bits: mv as u128 },
                                                    ..d
                                                },
                                            ),
                                            deposited: dv,
                                            allowed: av,
                                            unhealthy: uv,
                                            lowest_ltv: if r.config.loan_to_value_pct < t.lowest_ltv {
                                                r.config.loan_to_value_pct as int
                                            } else {
                                                t.lowest_ltv
                                            },
                                            obsolete: if r.config.status == ReserveStatus::Obsolete {
                                                t.obsolete + 1
                                            } else {
                                                t.obsolete
                                            },
                                            status: t.status & r.last_update.price_status,
                                        },
                                    ),
                                },
                            },
                        },
                    },
                }
            },
        }
    }
}

/// The debt totals over the first `n` borrow entries, the reserves for debt
/// following those for collateral in the handles.
pub open spec fn borrows_fold(
    bs: Seq<ObligationLiquidity>,
    offset: int,
    keys: Seq<Pubkey>,
    rs: Seq<Reserve>,
    slot: u64,
    n: nat,
) -> Result<BorrowTotals, LendingError>
    decreases n,
{
    if n == 0 {
        Ok(BorrowTotals { entries: Seq::empty(), debt: 0, adjusted_debt: 0, status: ALL_CHECKS_BITS })
    } else {
        let k = n - 1;
        let p = offset + k;
        match borrows_fold(bs, offset, keys, rs, slot, (n - 1) as nat) {
            Err(e) => Err(e),
            Ok(t) => if p >= keys.len() || p >= rs.len() {
                Err(LendingError::InvalidAccountInput)
            } else {
                let r = rs[p];
                let b = bs[k];
                match handle_check(b.borrow_reserve, keys[p], r, slot) {
                    Err(e) => Err(e),
                    Ok(_) => match accrued_debt_of(b, r.liquidity.cumulative_borrow_rate.bits as int) {
                        Err(e) => Err(e),
                        Ok(a) => match market_value_of(r, a.borrowed_amount.bits as int) {
                            Err(e) => Err(e),
                            Ok(mv) => match s_add(Ok(t.debt), Ok(mv)) {
                                Err(e) => Err(e),
                                Ok(dv) => match s_mul(
                                    Ok(mv),
                                    Ok(percent_bits(r.config.borrow_factor_pct as int)),
                                ) {
                                    Err(e) => Err(e),
                                    Ok(bf) => match s_add(Ok(t.adjusted_debt), Ok(bf)) {
                                        Err(e) => Err(e),
                                        Ok(av) => Ok(
                                            BorrowTotals {
                                                entries: t.entries.push(
                                                    ObligationLiquidity {
                                                        market_value: Fraction { bits: mv as u128 },
                                                        borrow_factor_adjusted_market_value: Fraction {
                                                            bits: bf as u128,
                                                        },
                                                        ..a
                                                    },
                                                ),
                                                debt: dv,
                                                adjusted_debt: av,
                                                status: t.status & r.last_update.price_status,
                                            },
                                        ),
                                    },
                                },
                            },
                        },
                    },
                }
            },
        }
    }
}

proof fn lemma_deposits_fold_err(
    ds: Seq<ObligationCollateral>,
    keys: Seq<Pubkey>,
    rs: Seq<Reserve>,
    slot: u64,
    i: nat,
    n: nat,
)
    requires
        i <= n,
        deposits_fold(ds, keys, rs, slot, i) is Err,
    ensures
        deposits_fold(ds, keys, rs, slot, n) == deposits_fold(ds, keys, rs, slot, i),
    decreases n - i,
{
    if i < n {
        lemma_deposits_fold_err(ds, keys, rs, slot, i, (n - 1) as nat);
    }
}

proof fn lemma_borrows_fold_err(
    bs: Seq<ObligationLiquidity>,
    offset: int,
    keys: Seq<Pubkey>,
    rs: Seq<Reserve>,
    slot: u64,
    i: nat,
    n: nat,
)
    requires
        i <= n,
        borrows_fold(bs, offset, keys, rs, slot, i) is Err,
    ensures
        borrows_fold(bs, offset, keys, rs, slot, n) == borrows_fold(bs, offset, keys, rs, slot, i),
    decreases n - i,
{
    if i < n {
        lemma_borrows_fold_err(bs, offset, keys, rs, slot, i, (n - 1) as nat);
    }
}

fn check_handle(key: Pubkey, handle_key: Pubkey, reserve: &Reserve, slot: u64) -> (r: Result<
    (),
    LendingError,
>)
    ensures
        r == handle_check(key, handle_key, *reserve, slot),
{
    if key != handle_key {
        return Err(LendingError::InvalidAccountInput);
    }
    if reserve.last_update.is_stale(slot, PriceStatusFlags::none()) {
        return Err(LendingError::ReserveStale);
    }
    if reserve.version != PROGRAM_VERSION {
        return Err(LendingError::ReserveDeprecated);
    }
    Ok(())
}

/// Prices every collateral entry with the reserve handed in at the same
/// position and gathers the totals. The handles must name the entries' reserves
/// in order, each fresh and current.
pub fn refresh_obligation_deposits(
    obligation: &Obligation,
    slot: u64,
    reserve_keys: &Vec<Pubkey>,
    reserves: &Vec<Reserve>,
) -> (r: Result<RefreshObligationDepositsResult, LendingError>)
    ensures
        match r {
            Ok(t) => deposits_fold(
                obligation.deposits@,
                reserve_keys@,
                reserves@,
                slot,
                obligation.deposits@.len(),
            ) == Ok::<DepositTotals, LendingError>(
                DepositTotals {
                    entries: t.deposits@,
                    deposited: t.deposited_value_f.bits as int,
                    allowed: t.allowed_borrow_value_f.bits as int,
                    unhealthy: t.unhealthy_borrow_value_f.bits as int,
                    lowest_ltv: t.lowest_deposit_ltv_accumulator as int,
                    obsolete: t.num_of_obsolete_reserves as int,
                    status: t.prices_state.bits,
                },
            ),
            Err(e) => deposits_fold(
                obligation.deposits@,
                reserve_keys@,
                reserves@,
                slot,
                obligation.deposits@.len(),
            ) == Err::<DepositTotals, LendingError>(e),
        },
{
    let ghost ds = obligation.deposits@;
    let mut entries: Vec<ObligationCollateral> = Vec::new();
    let mut lowest: u8 = 255;
    let mut obsolete: u64 = 0;
    let mut deposited = Fraction::zero();
    let mut allowed = Fraction::zero();
    let mut unhealthy = Fraction::zero();
    let mut status = PriceStatusFlags::all();
    let mut i: usize = 0;
    while i < obligation.deposits.len()
        invariant
            ds == obligation.deposits@,
            i <= ds.len(),
            obsolete <= i,
            deposits_fold(ds, reserve_keys@, reserves@, slot, i as nat) == Ok::<
                DepositTotals,
                LendingError,
            >(
                DepositTotals {
                    entries: entries@,
                    deposited: deposited.bits as int,
                    allowed: allowed.bits as int,
                    unhealthy: unhealthy.bits as int,
                    lowest_ltv: lowest as int,
                    obsolete: obsolete as int,
                    status: status.bits,
                },
            ),
        decreases ds.len() - i,
    {
        let ghost step = deposits_fold(ds, reserve_keys@, reserves@, slot, (i + 1) as nat);
        if i >= reserve_keys.len() || i >= reserves.len() {
            proof {
                lemma_deposits_fold_err(ds, reserve_keys@, reserves@, slot, (i + 1) as nat, ds.len());
            }
            return Err(LendingError::InvalidAccountInput);
        }
        let d = obligation.deposits[i];
        let reserve = &reserves[i];
        let checked = check_handle(d.deposit_reserve, reserve_keys[i], reserve, slot);
        if let Err(e) = checked {
            proof {
                lemma_deposits_fold_err(ds, reserve_keys@, reserves@, slot, (i + 1) as nat, ds.len());
            }
            return Err(e);
        }
        let value = collateral_value(reserve, d.deposited_amount);
        let mv = match value {
            Ok(v) => v,
            Err(e) => {
                proof {
                    lemma_deposits_fold_err(ds, reserve_keys@, reserves@, slot, (i + 1) as nat, ds.len());
                }
                return Err(e);
            },
        };
        let next = add_weighted(deposited, allowed, unhealthy, mv, reserve);
        let (d2, a2, u2) = match next {
            Ok(t) => t,
            Err(e) => {
                proof {
                    lemma_deposits_fold_err(ds, reserve_keys@, reserves@, slot, (i + 1) as nat, ds.len());
                }
                return Err(e);
            },
        };
        deposited = d2;
        allowed = a2;
        unhealthy = u2;
        if reserve.config.loan_to_value_pct < lowest {
            lowest = reserve.config.loan_to_value_pct;
        }
        if reserve.config.status == ReserveStatus::Obsolete {
            obsolete = obsolete + 1;
        }
        status = status.intersection(reserve.last_update.get_price_status());
        entries.push(ObligationCollateral { market_value: mv, ..d });
        i = i + 1;
    }
    Ok(
        RefreshObligationDepositsResult {
            deposits: entries,
            lowest_deposit_ltv_accumulator: lowest,
            num_of_obsolete_reserves: obsolete,
            deposited_value_f: deposited,
            allowed_borrow_value_f: allowed,
            unhealthy_borrow_value_f: unhealthy,
            prices_state: status,
        },
    )
}

fn collateral_value(reserve: &Reserve, deposited_amount: u64) -> (r: Result<Fraction, LendingError>)
    ensures
        is_frac(r, collateral_value_of(*reserve, deposited_amount as int)),
{
    let rate = reserve.collateral_exchange_rate()?;
    let liquidity = rate.decimal_collateral_to_liquidity(Fraction::from_u64(deposited_amount))?;
    calculate_market_value_from_liquidity_amount(reserve, liquidity)
}

fn add_weighted(
    deposited: Fraction,
    allowed: Fraction,
    unhealthy: Fraction,
    mv: Fraction,
    reserve: &Reserve,
) -> (r: Result<(Fraction, Fraction, Fraction), LendingError>)
    ensures
        match r {
            Ok((d, a, u)) => s_add(Ok(deposited.bits as int), Ok(mv.bits as int)) == Ok::<
                int,
                LendingError,
            >(d.bits as int) && s_add(
                Ok(allowed.bits as int),
                s_mul(Ok(mv.bits as int), Ok(percent_bits(reserve.config.loan_to_value_pct as int))),
            ) == Ok::<int, LendingError>(a.bits as int) && s_add(
                Ok(unhealthy.bits as int),
                s_mul(
                    Ok(mv.bits as int),
                    Ok(percent_bits(reserve.config.liquidation_threshold_pct as int)),
                ),
            ) == Ok::<int, LendingError>(u.bits as int),
            Err(e) => match s_add(Ok(deposited.bits as int), Ok(mv.bits as int)) {
                Err(e1) => e == e1,
                Ok(_) => match s_add(
                    Ok(allowed.bits as int),
                    s_mul(
                        Ok(mv.bits as int),
                        Ok(percent_bits(reserve.config.loan_to_value_pct as int)),
                    ),
                ) {
                    Err(e2) => e == e2,
                    Ok(_) => s_add(
                        Ok(unhealthy.bits as int),
                        s_mul(
                            Ok(mv.bits as int),
                            Ok(percent_bits(reserve.config.liquidation_threshold_pct as int)),
                        ),
                    ) == Err::<int, LendingError>(e),
                },
            },
        },
{
    let d = deposited.add(mv)?;
    let a = allowed.add(
        mv.mul(Fraction::from_percent(reserve.config.loan_to_value_pct as u64))?,
    )?;
    let u = unhealthy.add(
        mv.mul(Fraction::from_percent(reserve.config.liquidation_threshold_pct as u64))?,
    )?;
    Ok((d, a, u))
}

fn priced_borrow(entry: ObligationLiquidity, reserve: &Reserve) -> (r: Result<
    (ObligationLiquidity, Fraction),
    LendingError,
>)
    ensures
        match r {
            Ok((a, bf)) => accrued_debt_of(entry, reserve.liquidity.cumulative_borrow_rate.bits as int)
                == Ok::<ObligationLiquidity, LendingError>(
                ObligationLiquidity {
                    market_value: entry.market_value,
                    borrow_factor_adjusted_market_value: entry.borrow_factor_adjusted_market_value,
                    ..a
                },
            ) && market_value_of(*reserve, a.borrowed_amount.bits as int) == Ok::<
                int,
                LendingError,
            >(a.market_value.bits as int) && s_mul(
                Ok(a.market_value.bits as int),
                Ok(percent_bits(reserve.config.borrow_factor_pct as int)),
            ) == Ok::<int, LendingError>(bf.bits as int) && a.borrow_factor_adjusted_market_value
                == bf,
            Err(e) => match accrued_debt_of(
                entry,
                reserve.liquidity.cumulative_borrow_rate.bits as int,
            ) {
                Err(e1) => e == e1,
                Ok(a) => match market_value_of(*reserve, a.borrowed_amount.bits as int) {
                    Err(e2) => e == e2,
                    Ok(mv) => s_mul(
                        Ok(mv),
                        Ok(percent_bits(reserve.config.borrow_factor_pct as int)),
                    ) == Err::<int, LendingError>(e),
                },
            },
        },
{
    let mut a = entry;
    a.accrue_interest(reserve.liquidity.cumulative_borrow_rate)?;
    let mv = calculate_market_value_from_liquidity_amount(reserve, a.borrowed_amount)?;
    let bf = mv.mul(Fraction::from_percent(reserve.config.borrow_factor_pct))?;
    Ok((ObligationLiquidity { market_value: mv, borrow_factor_adjusted_market_value: bf, ..a }, bf))
}

/// Brings interest up to date on every borrow entry, prices it with the reserve
/// handed in at its position (after those for collateral) and gathers the totals.
pub fn refresh_obligation_borrows(
    obligation: &Obligation,
    slot: u64,
    reserve_keys: &Vec<Pubkey>,
    reserves: &Vec<Reserve>,
) -> (r: Result<RefreshObligationBorrowsResult, LendingError>)
    ensures
        match r {
            Ok(t) => borrows_fold(
                obligation.borrows@,
                obligation.deposits@.len() as int,
                reserve_keys@,
                reserves@,
                slot,
                obligation.borrows@.len(),
            ) == Ok::<BorrowTotals, LendingError>(
                BorrowTotals {
                    entries: t.borrows@,
                    debt: t.borrowed_assets_market_value_f.bits as int,
                    adjusted_debt: t.borrow_factor_adjusted_debt_value_f.bits as int,
                    status: t.prices_state.bits,
                },
            ) && t.has_debt == (obligation.borrows@.len() > 0),
            Err(e) => borrows_fold(
                obligation.borrows@,
                obligation.deposits@.len() as int,
                reserve_keys@,
                reserves@,
                slot,
                obligation.borrows@.len(),
            ) == Err::<BorrowTotals, LendingError>(e),
        },
{
    let ghost bs = obligation.borrows@;
    let offset = obligation.deposits.len();
    let ghost off = offset as int;
    let mut entries: Vec<ObligationLiquidity> = Vec::new();
    let mut debt = Fraction::zero();
    let mut adjusted = Fraction::zero();
    let mut status = PriceStatusFlags::all();
    let mut k: usize = 0;
    while k < obligation.borrows.len()
        invariant
            bs == obligation.borrows@,
            off == offset,
            off == obligation.deposits@.len(),
            k <= bs.len(),
            borrows_fold(bs, off, reserve_keys@, reserves@, slot, k as nat) == Ok::<
                BorrowTotals,
                LendingError,
            >(
                BorrowTotals {
                    entries: entries@,
                    debt: debt.bits as int,
                    adjusted_debt: adjusted.bits as int,
                    status: status.bits,
                },
            ),
        decreases bs.len() - k,
    {
        if offset >= reserve_keys.len() || offset >= reserves.len() || k >= reserve_keys.len()
            - offset || k >= reserves.len() - offset {
            proof {
                lemma_borrows_fold_err(bs, off, reserve_keys@, reserves@, slot, (k + 1) as nat, bs.len());
            }
            return Err(LendingError::InvalidAccountInput);
        }
        let p = offset + k;
        let b = obligation.borrows[k];
        let reserve = &reserves[p];
        let checked = check_handle(b.borrow_reserve, reserve_keys[p], reserve, slot);
        if let Err(e) = checked {
            proof {
                lemma_borrows_fold_err(bs, off, reserve_keys@, reserves@, slot, (k + 1) as nat, bs.len());
            }
            return Err(e);
        }
        let (a, bf) = match priced_borrow(b, reserve) {
            Ok(t) => t,
            Err(e) => {
                proof {
                    lemma_borrows_fold_err(bs, off, reserve_keys@, reserves@, slot, (k + 1) as nat, bs.len());
                }
                return Err(e);
            },
        };
        let d2 = match debt.add(a.market_value) {
            Ok(v) => v,
            Err(e) => {
                proof {
                    lemma_borrows_fold_err(bs, off, reserve_keys@, reserves@, slot, (k + 1) as nat, bs.len());
                }
                return Err(e);
            },
        };
        let a2 = match adjusted.add(bf) {
            Ok(v) => v,
            Err(e) => {
                proof {
                    lemma_borrows_fold_err(bs, off, reserve_keys@, reserves@, slot, (k + 1) as nat, bs.len());
                }
                return Err(e);
            },
        };
        debt = d2;
        adjusted = a2;
        status = status.intersection(reserve.last_update.get_price_status());
        entries.push(a);
        proof {
            assert(entries@ =~= entries@);
        }
        k = k + 1;
    }
    Ok(
        RefreshObligationBorrowsResult {
            borrows: entries,
            borrowed_assets_market_value_f: debt,
            borrow_factor_adjusted_debt_value_f: adjusted,
            prices_state: status,
            has_debt: obligation.borrows.len() > 0,
        },
    )
}

/// The smaller of a value and a market-wide ceiling.
pub open spec fn capped(v: int, ceiling: u64) -> int {
    if v <= whole(ceiling as int) {
        v
    } else {
        whole(ceiling as int)
    }
}

/// Whether `a` is `b` refreshed at `slot` from the collateral and debt totals.
pub open spec fn refreshed_from(
    a: &Obligation,
    b: &Obligation,
    m: LendingMarket,
    slot: u64,
    d: DepositTotals,
    t: BorrowTotals,
) -> bool {
    &&& a.deposits@ == d.entries
    &&& a.borrows@ == t.entries
    &&& a.deposited_value.bits == d.deposited
    &&& a.borrowed_assets_market_value.bits == t.debt
    &&& a.borrow_factor_adjusted_debt_value.bits == t.adjusted_debt
    &&& a.allowed_borrow_value.bits == capped(d.allowed, m.global_allowed_borrow_value)
    &&& a.unhealthy_borrow_value.bits == capped(d.unhealthy, m.global_unhealthy_borrow_value)
    &&& a.lowest_reserve_deposit_ltv == d.lowest_ltv
    &&& a.num_of_obsolete_reserves == d.obsolete
    &&& a.has_debt == (b.has_debt || b.borrows@.len() > 0)
    &&& a.last_update == (LastUpdate { slot, stale: false, price_status: d.status & t.status })
    &&& a.lending_market == b.lending_market
    &&& a.owner == b.owner
}

/// Revalues an obligation against the reserves handed in, which must name its
/// collateral entries and then its borrow entries in order, each fresh and
/// current. Interest is brought up to date on every debt, the allowed and
/// unhealthy borrow values are capped by the market's ceilings, and the
/// obligation is marked fresh with the price checks that all its reserves
/// passed. Nothing changes on failure.
pub fn refresh_obligation(
    obligation: &mut Obligation,
    lending_market: &LendingMarket,
    slot: u64,
    reserve_keys: &Vec<Pubkey>,
    reserves: &Vec<Reserve>,
) -> (r: Result<(), LendingError>)
    requires
        old(obligation).wf(),
    ensures
        final(obligation).wf(),
        match r {
            Ok(_) => exists|d: DepositTotals, t: BorrowTotals|
                deposits_fold(
                    old(obligation).deposits@,
                    reserve_keys@,
                    reserves@,
                    slot,
                    old(obligation).deposits@.len(),
                ) == Ok::<DepositTotals, LendingError>(d) && borrows_fold(
                    old(obligation).borrows@,
                    old(obligation).deposits@.len() as int,
                    reserve_keys@,
                    reserves@,
                    slot,
                    old(obligation).borrows@.len(),
                ) == Ok::<BorrowTotals, LendingError>(t) && refreshed_from(
                    final(obligation),
                    old(obligation),
                    *lending_market,
                    slot,
                    d,
                    t,
                ),
            Err(e) => crate::obligation::same_obligation(final(obligation), old(obligation)) && (
            match deposits_fold(
                old(obligation).deposits@,
                reserve_keys@,
                reserves@,
                slot,
                old(obligation).deposits@.len(),
            ) {
                Err(e1) => e == e1,
                Ok(_) => borrows_fold(
                    old(obligation).borrows@,
                    old(obligation).deposits@.len() as int,
                    reserve_keys@,
                    reserves@,
                    slot,
                    old(obligation).borrows@.len(),
                ) == Err::<BorrowTotals, LendingError>(e),
            }),
        },
{
    let deposits = refresh_obligation_deposits(obligation, slot, reserve_keys, reserves)?;
    let borrows = refresh_obligation_borrows(obligation, slot, reserve_keys, reserves)?;
    proof {
        assert_deposit_keys(old(obligation).deposits@, deposits.deposits@, reserve_keys@, reserves@, slot);
        assert_borrow_keys(
            old(obligation).borrows@,
            old(obligation).deposits@.len() as int,
            borrows.borrows@,
            reserve_keys@,
            reserves@,
            slot,
        );
    }
    let ghost dt = DepositTotals {
        entries: deposits.deposits@,
        deposited: deposits.deposited_value_f.bits as int,
        allowed: deposits.allowed_borrow_value_f.bits as int,
        unhealthy: deposits.unhealthy_borrow_value_f.bits as int,
        lowest_ltv: deposits.lowest_deposit_ltv_accumulator as int,
        obsolete: deposits.num_of_obsolete_reserves as int,
        status: deposits.prices_state.bits,
    };
    let ghost bt = BorrowTotals {
        entries: borrows.borrows@,
        debt: borrows.borrowed_assets_market_value_f.bits as int,
        adjusted_debt: borrows.borrow_factor_adjusted_debt_value_f.bits as int,
        status: borrows.prices_state.bits,
    };
    obligation.deposits = deposits.deposits;
    obligation.borrows = borrows.borrows;
    obligation.borrowed_assets_market_value = borrows.borrowed_assets_market_value_f;
    obligation.deposited_value = deposits.deposited_value_f;
    obligation.borrow_factor_adjusted_debt_value = borrows.borrow_factor_adjusted_debt_value_f;
    obligation.allowed_borrow_value = deposits.allowed_borrow_value_f.min(
        Fraction::from_u64(lending_market.global_allowed_borrow_value),
    );
    obligation.unhealthy_borrow_value = deposits.unhealthy_borrow_value_f.min(
        Fraction::from_u64(lending_market.global_unhealthy_borrow_value),
    );
    obligation.lowest_reserve_deposit_ltv = deposits.lowest_deposit_ltv_accumulator as u64;
    obligation.num_of_obsolete_reserves = deposits.num_of_obsolete_reserves;
    if borrows.has_debt {
        obligation.has_debt = true;
    }
    let prices_state = deposits.prices_state.intersection(borrows.prices_state);
    obligation.last_update.update_slot(slot, Some(prices_state));
    assert(refreshed_from(obligation, old(obligation), *lending_market, slot, dt, bt));
    Ok(())
}

proof fn assert_deposit_keys(
    ds: Seq<ObligationCollateral>,
    out: Seq<ObligationCollateral>,
    keys: Seq<Pubkey>,
    rs: Seq<Reserve>,
    slot: u64,
)
    requires
        deposits_unique(ds),
        deposits_fold(ds, keys, rs, slot, ds.len()) matches Ok(t) && t.entries == out,
    ensures
        deposits_unique(out),
        out.len() == ds.len(),
{
    lemma_deposits_fold_keys(ds, keys, rs, slot, ds.len());
}

proof fn lemma_deposits_fold_keys(
    ds: Seq<ObligationCollateral>,
    keys: Seq<Pubkey>,
    rs: Seq<Reserve>,
    slot: u64,
    n: nat,
)
    requires
        n <= ds.len(),
    ensures
        deposits_fold(ds, keys, rs, slot, n) matches Ok(t) ==> t.entries.len() == n && forall|j: int|
            0 <= j < n ==> #[trigger] t.entries[j].deposit_reserve == ds[j].deposit_reserve,
        deposits_fold(ds, keys, rs, slot, n) matches Ok(t) ==> t.obsolete <= n,
    decreases n,
{
    if n > 0 {
        lemma_deposits_fold_keys(ds, keys, rs, slot, (n - 1) as nat);
    }
}

proof fn assert_borrow_keys(
    bs: Seq<ObligationLiquidity>,
    offset: int,
    out: Seq<ObligationLiquidity>,
    keys: Seq<Pubkey>,
    rs: Seq<Reserve>,
    slot: u64,
)
    requires
        borrows_unique(bs),
        borrows_fold(bs, offset, keys, rs, slot, bs.len()) matches Ok(t) && t.entries == out,
    ensures
        borrows_unique(out),
        out.len() == bs.len(),
{
    lemma_borrows_fold_keys(bs, offset, keys, rs, slot, bs.len());
}

proof fn lemma_borrows_fold_keys(
    bs: Seq<ObligationLiquidity>,
    offset: int,
    keys: Seq<Pubkey>,
    rs: Seq<Reserve>,
    slot: u64,
    n: nat,
)
    requires
        n <= bs.len(),
    ensures
        borrows_fold(bs, offset, keys, rs, slot, n) matches Ok(t) ==> t.entries.len() == n
            && forall|j: int|
            0 <= j < n ==> #[trigger] t.entries[j].borrow_reserve == bs[j].borrow_reserve,
    decreases n,
{
    if n > 0 {
        lemma_borrows_fold_keys(bs, offset, keys, rs, slot, (n - 1) as nat);
    }
}

} // verus!
