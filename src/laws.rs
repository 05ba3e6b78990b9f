use vstd::prelude::*;
use vstd::arithmetic::div_mod::{
    lemma_div_is_ordered, lemma_div_is_ordered_by_denominator,
};
use crate::errors::LendingError;
use crate::fraction::{
    Outcome, one_scaled, whole, floor_of, s_add, s_div, s_mul, percent_bits,
};
use crate::health::{debt_after_repay, is_dust, post_deposit_spec, post_repay_spec};
use crate::lending_operations::{
    Clock, market_value_of, deposit_obligation_collateral_spec, withdraw_obligation_collateral_spec,
    deposit_reserve_liquidity_spec, redeem_reserve_collateral_spec, refresh_reserve_spec, borrow_obligation_liquidity_spec, repay_obligation_liquidity_spec,
};
use crate::lending_market::LendingMarket;
use crate::obligation::{
    unhealthy_loan_to_value_of, borrow_index, deposit_index, accrued_debt_of,
    Obligation, loan_to_value_of,
};
use crate::pubkey::Pubkey;
use crate::reserve::{
    liquidity_to_collateral_of, collateral_to_liquidity_of,
    calculate_repay_spec,
    compound_of, accrue_interest_spec, borrow_rate_of, SLOTS_PER_YEAR, Reserve, exchange_rate_of, total_supply_of, deposit_liquidity_spec, redeem_collateral_spec,
};
use vstd::arithmetic::div_mod::{
    lemma_fundamental_div_mod, lemma_div_multiples_vanish, lemma_div_denominator, lemma_div_pos_is_pos,
};
use crate::liquidation::liquidate_obligation_spec;
use crate::last_update::stale_at;
use crate::withdrawal_caps::{
    WithdrawalCaps, add_to_accum_spec, caps_enabled, window_elapsed, rolled,
};

verus! {

/// A successful deposit of liquidity adds exactly the deposited amount to the
/// available liquidity, leaves the borrowed liquidity alone, and so grows the
/// total supply by exactly that amount.
pub proof fn deposit_ledger_delta(r: Reserve, clock: Clock, amount: u64)
    requires
        deposit_reserve_liquidity_spec(r, clock, amount as int) is Ok,
    ensures
        deposit_reserve_liquidity_spec(r, clock, amount as int) matches Ok((r2, _)) && r2.liquidity.available_amount
            == r.liquidity.available_amount + amount && r2.liquidity.borrowed_amount
            == r.liquidity.borrowed_amount && (total_supply_of(r2.liquidity) matches Ok(t2)
            && (total_supply_of(r.liquidity) matches Ok(t1) && t2 == t1 + whole(amount as int))),
{
    let (r2, _) = deposit_reserve_liquidity_spec(r, clock, amount as int)->Ok_0;
    assert(whole(r2.liquidity.available_amount as int) == whole(r.liquidity.available_amount as int)
        + whole(amount as int)) by (nonlinear_arith)
        requires
            r2.liquidity.available_amount == r.liquidity.available_amount + amount,
    ;
}

/// A successful redemption takes exactly the liquidity paid out from the
/// available liquidity and leaves the borrowed liquidity alone.
pub proof fn redeem_ledger_delta(r: Reserve, amount: u64, clock: Clock, add_to_caps: bool)
    requires
        redeem_reserve_collateral_spec(r, amount as int, clock, add_to_caps) is Ok,
    ensures
        redeem_reserve_collateral_spec(r, amount as int, clock, add_to_caps) matches Ok((r2, l))
            && r2.liquidity.available_amount == r.liquidity.available_amount - l
            && r2.liquidity.borrowed_amount == r.liquidity.borrowed_amount
            && r2.collateral.mint_total_supply == r.collateral.mint_total_supply - amount,
{
}

/// A successful borrow takes from the available liquidity exactly what leaves
/// the reserve, the amount received plus the fee, and books the whole debt as
/// borrowed.
pub proof fn borrow_ledger_delta(
    m: LendingMarket,
    r: Reserve,
    o: &Obligation,
    amount: u64,
    clock: Clock,
    key: Pubkey,
)
    requires
        borrow_obligation_liquidity_spec(m, r, o, amount as int, clock, key) is Ok,
    ensures
        borrow_obligation_liquidity_spec(m, r, o, amount as int, clock, key) matches Ok((r2, _, (b, recv, fee)))
            && r2.liquidity.available_amount == r.liquidity.available_amount - floor_of(b)
            && r2.liquidity.borrowed_amount.bits == r.liquidity.borrowed_amount.bits + b
            && floor_of(b) == recv + fee,
{
    let (r2, _, (b, recv, fee)) = borrow_obligation_liquidity_spec(m, r, o, amount as int, clock, key)->Ok_0;
    if amount != 0xFFFF_FFFF_FFFF_FFFFu64 {
        assert(b == (amount + fee) * one_scaled()) by (nonlinear_arith)
            requires
                b == amount * one_scaled() + fee * one_scaled(),
        ;
        vstd::arithmetic::div_mod::lemma_div_multiples_vanish((amount + fee) as int, one_scaled());
        assert(((amount + fee) * one_scaled()) / one_scaled() == amount + fee) by (nonlinear_arith)
            requires
                one_scaled() > 0,
                ((amount + fee) as int * one_scaled()) / one_scaled() == amount + fee,
        ;
    }
}

/// A successful repay adds exactly the repaid liquidity to the available
/// liquidity and takes exactly the settled debt off the borrowed liquidity.
pub proof fn repay_ledger_delta(r: Reserve, o: &Obligation, clock: Clock, amount: u64, key: Pubkey, min_net: int)
    requires
        repay_obligation_liquidity_spec(r, o, clock, amount as int, key, min_net) is Ok,
    ensures
        repay_obligation_liquidity_spec(r, o, clock, amount as int, key, min_net) matches Ok((r2, _, repay))
            && r2.liquidity.available_amount == r.liquidity.available_amount + repay
            && r.liquidity.borrowed_amount.bits - r2.liquidity.borrowed_amount.bits >= 0,
{
}

/// Loan-to-value after new collateral worth `mv` joins an obligation.
pub open spec fn ltv_with_more_collateral(o: &Obligation, mv: int) -> Outcome {
    s_div(
        Ok(o.borrow_factor_adjusted_debt_value.bits as int),
        s_add(Ok(o.deposited_value.bits as int), Ok(mv)),
    )
}

/// A deposit never raises the loan-to-value of an obligation that holds value:
/// more collateral against the same debt.
pub proof fn deposit_never_worsens_ltv(o: &Obligation, mv: int)
    requires
        o.deposited_value.bits != 0,
        mv >= 0,
        ltv_with_more_collateral(o, mv) is Ok,
        loan_to_value_of(o) is Ok,
    ensures
        ltv_with_more_collateral(o, mv) matches Ok(after) && (loan_to_value_of(o) matches Ok(before)
            && after <= before),
{
    let d = o.deposited_value.bits as int;
    let b = o.borrow_factor_adjusted_debt_value.bits as int;
    assert(b * one_scaled() >= 0) by (nonlinear_arith)
        requires
            b >= 0,
            one_scaled() > 0,
    ;
    lemma_div_is_ordered_by_denominator(b * one_scaled(), d, d + mv);
}

/// Loan-to-value after a repay worth `mv` (before the borrow factor).
pub open spec fn ltv_after_repay(o: &Obligation, mv: int, borrow_factor_pct: int) -> Outcome {
    match s_mul(Ok(mv), Ok(percent_bits(borrow_factor_pct))) {
        Err(e) => Err(e),
        Ok(mv_bf) => s_div(Ok(debt_after_repay(o, mv_bf)), Ok(o.deposited_value.bits as int)),
    }
}

/// A repay never raises the loan-to-value of an obligation: less debt against
/// the same collateral.
pub proof fn repay_never_worsens_ltv(o: &Obligation, mv: int, borrow_factor_pct: int)
    requires
        mv >= 0,
        borrow_factor_pct >= 0,
        o.deposited_value.bits != 0,
        ltv_after_repay(o, mv, borrow_factor_pct) is Ok,
        loan_to_value_of(o) is Ok,
    ensures
        ltv_after_repay(o, mv, borrow_factor_pct) matches Ok(after) && (loan_to_value_of(o) matches Ok(
            before) && after <= before),
{
    let mv_bf = s_mul(Ok(mv), Ok(percent_bits(borrow_factor_pct)))->Ok_0;
    let nb = debt_after_repay(o, mv_bf);
    let b = o.borrow_factor_adjusted_debt_value.bits as int;
    let d = o.deposited_value.bits as int;
    assert(mv_bf >= 0);
    assert(nb <= b);
    assert(nb * one_scaled() <= b * one_scaled()) by (nonlinear_arith)
        requires
            nb <= b,
            one_scaled() > 0,
    ;
    lemma_div_is_ordered(nb * one_scaled(), b * one_scaled(), d);
}

/// Within one window, a cap refuses exactly the call whose amount would take
/// the window's total past the capacity, and a call it accepts adds its amount
/// to the total.
pub proof fn cap_enforced_within_window(c: WithdrawalCaps, amount: u64, now: u64)
    requires
        caps_enabled(c),
        !window_elapsed(c, now),
    ensures
        c.current_total + amount > c.config_capacity ==> add_to_accum_spec(c, amount as int, now)
            == Err::<WithdrawalCaps, LendingError>(LendingError::WithdrawalCapReached),
        c.current_total + amount <= c.config_capacity ==> (add_to_accum_spec(c, amount as int, now)
            matches Ok(c2) && c2.current_total == c.current_total + amount
            && c2.last_interval_start_timestamp == c.last_interval_start_timestamp),
{
}

/// Two calls in one window: the second is refused exactly when both amounts
/// together would take the window's total past the capacity.
pub proof fn cap_enforced_over_two_calls(c: WithdrawalCaps, a1: u64, a2: u64, now: u64)
    requires
        caps_enabled(c),
        !window_elapsed(c, now),
        add_to_accum_spec(c, a1 as int, now) is Ok,
    ensures
        add_to_accum_spec(c, a1 as int, now) matches Ok(c1) && (add_to_accum_spec(c1, a2 as int, now)
            is Err <==> c.current_total + a1 + a2 > c.config_capacity),
{
}

/// Once a window has elapsed the accumulator starts again from zero: a call is
/// then accepted exactly when its own amount fits the capacity, and the total
/// becomes that amount.
pub proof fn cap_resets_after_window(c: WithdrawalCaps, amount: u64, now: u64)
    requires
        caps_enabled(c),
        window_elapsed(c, now),
    ensures
        rolled(c, now).current_total == 0,
        rolled(c, now).last_interval_start_timestamp == now,
        add_to_accum_spec(c, amount as int, now) is Ok <==> amount <= c.config_capacity,
        (add_to_accum_spec(c, amount as int, now) matches Ok(c2) ==> c2.current_total == amount),
{
}

/// Refreshing a reserve a second time at the same clock with no new price
/// changes nothing: interest already accrued for the slot is not accrued again.
pub proof fn refresh_reserve_idempotent(r: Reserve, clock: Clock)
    requires
        refresh_reserve_spec(r, clock, None) is Ok,
    ensures
        refresh_reserve_spec(r, clock, None) matches Ok(r1) && refresh_reserve_spec(r1, clock, None)
            == Ok::<Reserve, LendingError>(r1),
{
}

proof fn lemma_floor_facts(x: int, d: int)
    requires
        x >= 0,
        d > 0,
    ensures
        (x / d) * d <= x,
        x < (x / d + 1) * d,
        x / d >= 0,
{
    lemma_fundamental_div_mod(x, d);
    lemma_div_pos_is_pos(x, d);
    assert((x / d) * d == d * (x / d)) by (nonlinear_arith);
    assert((x / d + 1) * d == d * (x / d) + d) by (nonlinear_arith);
}

proof fn lemma_cancel(x: int, y: int, w: int)
    requires
        x >= 0,
        y > 0,
        w > 0,
    ensures
        (x * w) / (y * w) == x / y,
{
    lemma_fundamental_div_mod(x, y);
    let q = x / y;
    let r = x % y;
    assert(x * w == q * (y * w) + r * w) by (nonlinear_arith)
        requires
            x == y * q + r,
    ;
    assert(0 <= r * w < y * w) by (nonlinear_arith)
        requires
            0 <= r < y,
            w > 0,
    ;
    vstd::arithmetic::div_mod::lemma_fundamental_div_mod_converse(x * w, y * w, q, r * w);
}

proof fn lemma_redeem_bound(a: int, m: int, t: int, c: int, rho: int, rho2: int, w: int)
    requires
        a >= 0,
        m > 0,
        t > 0,
        w > 0,
        c >= 0,
        rho >= 0,
        rho2 >= 0,
        c * w <= a * rho,
        rho * t <= m * w * w,
        (m + c) * w * w < (rho2 + 1) * (t + a * w),
        (a + 1) * (t + a * w) <= m * w * w,
    ensures
        c * w < (a + 1) * rho2,
{
    let t2 = t + a * w;
    let m2 = m + c;
    assert(c * w * t <= a * m * w * w) by (nonlinear_arith)
        requires
            c * w <= a * rho,
            rho * t <= m * w * w,
            a >= 0,
            t > 0,
    ;
    assert(c * w * t2 <= a * m2 * w * w) by (nonlinear_arith)
        requires
            c * w * t <= a * m * w * w,
            t2 == t + a * w,
            m2 == m + c,
    ;
    assert((a + 1) * t2 <= m2 * w * w) by (nonlinear_arith)
        requires
            (a + 1) * t2 <= m * w * w,
            m2 == m + c,
            c >= 0,
            w > 0,
    ;
    assert((a + 1) * rho2 * t2 > c * w * t2) by (nonlinear_arith)
        requires
            m2 * w * w < (rho2 + 1) * t2,
            (a + 1) * t2 <= m2 * w * w,
            c * w * t2 <= a * m2 * w * w,
            a >= 0,
            t2 > 0,
    ;
    assert(c * w < (a + 1) * rho2) by (nonlinear_arith)
        requires
            (a + 1) * rho2 * t2 > c * w * t2,
            t2 > 0,
    ;
}

/// Depositing liquidity and at once redeeming the receipt tokens it minted
/// never pays back more than was deposited.
///
/// The exchange rate is held with 60 fractional bits and rounded down. The
/// deposit rounds its receipt tokens down, which favours the pool, but the
/// redemption divides by the rounded-down new rate, which overstates the
/// payout by up to `amount + 1` parts in the scaled rate. The payout still
/// rounds down to at most the deposit while that error stays under one unit,
/// which is the condition `(amount + 1) * (total + amount) <= receipts * 2^60`
/// (total and amount scaled by 2^60). For a pool of a million whole units with
/// a million receipt tokens it admits deposits up to about 10^12 units.
/// An empty reserve needs no bound: its rate is exactly one. A reserve that
/// holds liquidity but has issued no receipt tokens is left out, because
/// there the law is false: the first depositor redeems the whole pool.
pub proof fn deposit_then_redeem_returns_no_more(r: Reserve, amount: u64)
    requires
        deposit_liquidity_spec(r, amount as int) matches Ok((r2, c)) && redeem_collateral_spec(r2, c)
            is Ok,
        total_supply_of(r.liquidity) matches Ok(t) && ((r.collateral.mint_total_supply == 0 && t
            == 0) || (r.collateral.mint_total_supply > 0 && t > 0 && (amount + 1) * (t + whole(
            amount as int)) <= whole(r.collateral.mint_total_supply as int) * one_scaled())),
    ensures
        deposit_liquidity_spec(r, amount as int) matches Ok((r2, c)) && (redeem_collateral_spec(r2, c)
            matches Ok((_, l)) && l <= amount),
{
    let w = one_scaled();
    let a = amount as int;
    let m = r.collateral.mint_total_supply as int;
    let t = total_supply_of(r.liquidity)->Ok_0;
    let (r2, c) = deposit_liquidity_spec(r, a)->Ok_0;
    let (_, l) = redeem_collateral_spec(r2, c)->Ok_0;
    let rho = exchange_rate_of(r)->Ok_0;
    assert(a * w >= 0) by (nonlinear_arith)
        requires
            a >= 0,
            w > 0,
    ;
    assert((a * w) * rho >= 0) by (nonlinear_arith)
        requires
            a * w >= 0,
            rho >= 0,
    ;
    assert((a * w) * rho / w == a * rho) by {
        assert((a * w) * rho == w * (a * rho)) by (nonlinear_arith);
        lemma_div_multiples_vanish(a * rho, w);
    }
    assert(c == (a * rho) / w);
    let t2 = total_supply_of(r2.liquidity)->Ok_0;
    assert(t2 == t + a * w) by (nonlinear_arith)
        requires
            t2 == (r.liquidity.available_amount + a) * w + r.liquidity.borrowed_amount.bits,
            t == r.liquidity.available_amount * w + r.liquidity.borrowed_amount.bits,
    ;
    let m2 = m + c;
    assert(r2.collateral.mint_total_supply == m2);
    let rho2 = exchange_rate_of(r2)->Ok_0;
    if c == 0 {
        assert(l == 0) by {
            assert(c * w == 0);
            assert((c * w) * w == 0);
        }
    } else {
        assert(rho2 > 0);
        assert(c * w >= 0 && (c * w) * w >= 0) by (nonlinear_arith)
            requires
                c > 0,
                w > 0,
        ;
        assert(l == ((c * w) * w / rho2) / w);
        lemma_div_denominator((c * w) * w, rho2, w);
        assert(l == (c * w) * w / (rho2 * w));
        assert(rho2 * w == w * rho2) by (nonlinear_arith);
        assert((c * w) * w == w * (c * w)) by (nonlinear_arith);
        lemma_cancel(c * w, rho2, w);
        assert(l == (c * w) / rho2);
        if m == 0 {
            assert(rho == w);
            assert(a * rho == w * a) by (nonlinear_arith)
                requires
                    rho == w,
            ;
            lemma_div_multiples_vanish(a, w);
            assert(c == a);
            assert(t2 == a * w);
            assert(m2 * w * w == w * (a * w)) by (nonlinear_arith)
                requires
                    m2 == a,
            ;
            assert(rho2 == m2 * w * w / t2);
            lemma_div_multiples_vanish(w, a * w);
            assert(rho2 == w) by (nonlinear_arith)
                requires
                    rho2 == m2 * w * w / t2,
                    m2 * w * w == w * (a * w),
                    w * (a * w) / (a * w) == w,
                    t2 == a * w,
            ;
            assert(c * w == w * a) by (nonlinear_arith)
                requires
                    c == a,
            ;
            lemma_div_multiples_vanish(a, w);
        } else {
            assert(rho == m * w * w / t);
            lemma_floor_facts(m * w * w, t);
            lemma_floor_facts(a * rho, w);
            assert(c * w <= a * rho);
            assert(m2 * w * w >= 0) by (nonlinear_arith)
                requires
                    m2 > 0,
                    w > 0,
            ;
            assert(t2 > 0);
            lemma_floor_facts(m2 * w * w, t2);
            assert(rho2 == m2 * w * w / t2);
            lemma_redeem_bound(a, m, t, c, rho, rho2, w);
            lemma_floor_facts(c * w, rho2);
            assert(l <= a) by (nonlinear_arith)
                requires
                    l * rho2 <= c * w,
                    c * w < (a + 1) * rho2,
                    rho2 > 0,
            ;
        }
    }
}

proof fn lemma_grows_by_factor(x: int, f: int)
    requires
        x >= 0,
        f >= one_scaled(),
    ensures
        x * f / one_scaled() >= x,
{
    let w = one_scaled();
    assert(x * f >= x * w) by (nonlinear_arith)
        requires
            x >= 0,
            f >= w,
    ;
    vstd::arithmetic::div_mod::lemma_div_is_ordered(x * w, x * f, w);
    lemma_div_multiples_vanish(x, w);
    assert(x * w == w * x) by (nonlinear_arith);
}

proof fn lemma_compound_at_least_one(base: int, n: nat)
    requires
        base >= one_scaled(),
    ensures
        compound_of(base, n) matches Ok(f) ==> f >= one_scaled(),
    decreases n,
{
    if n > 0 {
        lemma_compound_at_least_one(base, n / 2);
        if let Ok(h) = compound_of(base, n / 2) {
            lemma_grows_by_factor(h, h);
            if let Ok(sq) = s_mul(Ok(h), Ok(h)) {
                lemma_grows_by_factor(sq, base);
            }
        }
    }
}

/// Accruing interest never lowers a reserve's borrowed liquidity or its
/// cumulative borrow rate, and leaves its receipt supply alone: the liquidity
/// behind each receipt token never falls while nothing is redeemed.
pub proof fn accrual_never_lowers_supply(r: Reserve, slot: u64)
    requires
        accrue_interest_spec(r, slot) is Ok,
    ensures
        accrue_interest_spec(r, slot) matches Ok(r2) && r2.liquidity.borrowed_amount.bits
            >= r.liquidity.borrowed_amount.bits && r2.liquidity.cumulative_borrow_rate.bits
            >= r.liquidity.cumulative_borrow_rate.bits && r2.liquidity.available_amount
            == r.liquidity.available_amount && r2.collateral == r.collateral,
{
    if slot > r.last_update.slot {
        let rate = borrow_rate_of(r)->Ok_0;
        let base = one_scaled() + rate / SLOTS_PER_YEAR as int;
        assert(rate >= 0);
        assert(rate / SLOTS_PER_YEAR as int >= 0);
        let n = (slot - r.last_update.slot) as nat;
        lemma_compound_at_least_one(base, n);
        let f = compound_of(base, n)->Ok_0;
        lemma_grows_by_factor(r.liquidity.borrowed_amount.bits as int, f);
        lemma_grows_by_factor(r.liquidity.cumulative_borrow_rate.bits as int, f);
    }
}

/// A cap that is not in force refuses nothing and records nothing.
pub proof fn disabled_cap_is_inert(c: WithdrawalCaps, amount: u64, now: u64)
    requires
        !caps_enabled(c),
    ensures
        add_to_accum_spec(c, amount as int, now) == Ok::<WithdrawalCaps, LendingError>(c),
{
}

/// The deposit limit over any sequence of deposits: a deposit whose total
/// supply would pass the limit is refused, and an accepted deposit grows the
/// total supply by exactly its amount and leaves it within the limit. So the
/// first deposit of a sequence that would pass the limit fails.
pub proof fn deposit_limit_enforced(r: Reserve, clock: Clock, amount: u64)
    requires
        amount != 0,
        !stale_at(r.last_update, clock.slot, 0),
        total_supply_of(r.liquidity) matches Ok(t) && t + whole(amount as int) <= u128::MAX,
    ensures
        total_supply_of(r.liquidity) matches Ok(t) && (t + whole(amount as int) > whole(
            r.config.deposit_limit as int,
        ) ==> deposit_reserve_liquidity_spec(r, clock, amount as int) == Err::<(Reserve, int), LendingError>(
            LendingError::DepositLimitExceeded,
        )) && (deposit_reserve_liquidity_spec(r, clock, amount as int) matches Ok((r2, _)) ==> (
        total_supply_of(r2.liquidity) matches Ok(t2) && t2 == t + whole(amount as int) && t2
            <= whole(r.config.deposit_limit as int))),
{
    if deposit_reserve_liquidity_spec(r, clock, amount as int) is Ok {
        deposit_ledger_delta(r, clock, amount);
    }
}

/// A redemption counted against the deposit withdrawal cap: within a window
/// it is refused exactly when the liquidity paid out would take the window's
/// total past the capacity, and otherwise adds that liquidity to the total;
/// once the window has elapsed the total restarts from the liquidity paid out.
pub proof fn redeem_counts_against_cap(r: Reserve, amount: u64, clock: Clock)
    requires
        amount != 0,
        !stale_at(r.last_update, clock.slot, 0),
        redeem_collateral_spec(r, amount as int) is Ok,
        caps_enabled(r.config.deposit_withdrawal_cap),
    ensures
        redeem_collateral_spec(r, amount as int) matches Ok((_, l)) && ({
            let c = r.config.deposit_withdrawal_cap;
            let res = redeem_reserve_collateral_spec(r, amount as int, clock, true);
            &&& !window_elapsed(c, clock.unix_timestamp) && c.current_total + l > c.config_capacity
                ==> res == Err::<(Reserve, int), LendingError>(LendingError::WithdrawalCapReached)
            &&& !window_elapsed(c, clock.unix_timestamp) && c.current_total + l <= c.config_capacity
                ==> (res matches Ok((r3, l3)) && l3 == l && r3.config.deposit_withdrawal_cap.current_total
                == c.current_total + l)
            &&& window_elapsed(c, clock.unix_timestamp) ==> (res matches Ok((r3, _)) ==> (
            r3.config.deposit_withdrawal_cap.current_total == l && l <= c.config_capacity))
        }),
{
}

/// An accepted borrow never takes the debt withdrawal cap past its capacity:
/// within a window the whole part of the debt taken on is added to the total.
pub proof fn borrow_counts_against_cap(
    m: LendingMarket,
    r: Reserve,
    o: &Obligation,
    amount: u64,
    clock: Clock,
    key: Pubkey,
)
    requires
        caps_enabled(r.config.debt_withdrawal_cap),
        !window_elapsed(r.config.debt_withdrawal_cap, clock.unix_timestamp),
        borrow_obligation_liquidity_spec(m, r, o, amount as int, clock, key) is Ok,
    ensures
        borrow_obligation_liquidity_spec(m, r, o, amount as int, clock, key) matches Ok((r2, _, (b, _, _)))
            && r2.config.debt_withdrawal_cap.current_total == r.config.debt_withdrawal_cap.current_total
            + floor_of(b) && r2.config.debt_withdrawal_cap.current_total
            <= r.config.debt_withdrawal_cap.config_capacity,
{
}

/// The slippage floor of a liquidation is judged last: a liquidation that would
/// go through with no floor fails with the slippage error exactly when the
/// floor exceeds the collateral the reserve can pay out, and otherwise has the
/// same outcome.
pub proof fn liquidation_slippage_floor(
    m: LendingMarket,
    rr: Reserve,
    rk: Pubkey,
    wr: Reserve,
    wk: Pubkey,
    o: &Obligation,
    clock: Clock,
    amount: u64,
    min_acceptable: u64,
    ltv_override: Option<u64>,
    same: bool,
)
    requires
        liquidate_obligation_spec(m, rr, rk, wr, wk, o, clock, amount as int, 0, ltv_override, same) is Ok,
    ensures
        liquidate_obligation_spec(m, rr, rk, wr, wk, o, clock, amount as int, 0, ltv_override, same) matches Ok(out) && (
        if min_acceptable > out.4.3 {
            liquidate_obligation_spec(m, rr, rk, wr, wk, o, clock, amount as int, min_acceptable as int, ltv_override, same)
                == Err::<crate::liquidation::LiquidationOutcome, LendingError>(
                LendingError::LiquidationSlippageError,
            )
        } else {
            liquidate_obligation_spec(m, rr, rk, wr, wk, o, clock, amount as int, min_acceptable as int, ltv_override, same)
                == Ok::<crate::liquidation::LiquidationOutcome, LendingError>(out)
        }),
{
    reveal(liquidate_obligation_spec);
}

/// The check after a deposit refuses exactly a dust entry and a worse
/// loan-to-value, whenever none of its fixed-point steps overflows.
pub proof fn deposit_gate_exact(amount: int, o: &Obligation, r: Reserve, collateral_mv: int, min_net: int)
    requires
        collateral_mv >= 0,
        market_value_of(r, amount) matches Ok(mv) && o.deposited_value.bits + mv <= u128::MAX
            && collateral_mv + mv <= u128::MAX && (o.deposited_value.bits != 0 ==> (
        loan_to_value_of(o) is Ok && ltv_with_more_collateral(o, mv) is Ok)),
    ensures
        market_value_of(r, amount) matches Ok(mv) && post_deposit_spec(amount, o, r, collateral_mv, min_net) == (
        if is_dust(collateral_mv + mv, min_net) {
            Err(LendingError::NetValueRemainingTooSmall)
        } else if o.deposited_value.bits != 0 && ltv_with_more_collateral(o, mv)->Ok_0
            > loan_to_value_of(o)->Ok_0 {
            Err(LendingError::WorseLtvBlocked)
        } else {
            Ok(())
        }),
{
}

/// The check after a repay refuses exactly a dust entry and a worse
/// loan-to-value, whenever none of its fixed-point steps overflows.
pub proof fn repay_gate_exact(amount: int, o: &Obligation, r: Reserve, liquidity_mv: int, min_net: int)
    requires
        market_value_of(r, amount) matches Ok(mv) && (o.deposited_value.bits != 0 ==> (
        loan_to_value_of(o) is Ok && ltv_after_repay(o, mv, r.config.borrow_factor_pct as int)
            is Ok)) && s_mul(Ok(mv), Ok(percent_bits(r.config.borrow_factor_pct as int))) is Ok,
    ensures
        market_value_of(r, amount) matches Ok(mv) && post_repay_spec(amount, o, r, liquidity_mv, min_net) == (
        if liquidity_mv != 0 && is_dust(
            if liquidity_mv >= mv {
                liquidity_mv - mv
            } else {
                0
            },
            min_net,
        ) {
            Err(LendingError::NetValueRemainingTooSmall)
        } else if o.deposited_value.bits != 0 && ltv_after_repay(
            o,
            mv,
            r.config.borrow_factor_pct as int,
        )->Ok_0 > loan_to_value_of(o)->Ok_0 {
            Err(LendingError::WorseLtvBlocked)
        } else {
            Ok(())
        }),
{
}

/// A deposit of collateral that goes through never raises the obligation's
/// loan-to-value: against the collateral's value, the debt is spread over more.
pub proof fn deposit_operation_never_worsens_ltv(
    r: Reserve,
    o: &Obligation,
    slot: u64,
    amount: u64,
    key: Pubkey,
    min_net: int,
)
    requires
        deposit_obligation_collateral_spec(r, o, slot, amount as int, key, min_net) is Ok,
        o.deposited_value.bits != 0,
    ensures
        exchange_rate_of(r) matches Ok(rate) && (s_div(Ok(whole(amount as int)), Ok(rate)) matches Ok(
            liq,
        ) && (market_value_of(r, liq) matches Ok(mv) && (ltv_with_more_collateral(o, mv) matches Ok(
            after,
        ) && (loan_to_value_of(o) matches Ok(before) && after <= before)))),
{
}

/// A repay that goes through never raises the obligation's loan-to-value: the
/// settled debt, weighted by the reserve's borrow factor, leaves the debt value.
pub proof fn repay_operation_never_worsens_ltv(
    r: Reserve,
    o: &Obligation,
    clock: Clock,
    amount: u64,
    key: Pubkey,
    min_net: int,
)
    requires
        repay_obligation_liquidity_spec(r, o, clock, amount as int, key, min_net) is Ok,
        o.deposited_value.bits != 0,
    ensures
        accrued_debt_of(
            o.borrows@[borrow_index(o.borrows@, key)],
            r.liquidity.cumulative_borrow_rate.bits as int,
        ) matches Ok(acc) && (calculate_repay_spec(amount as int, acc.borrowed_amount.bits as int)
            matches Ok((settle, _)) && (market_value_of(r, settle) matches Ok(mv) && (ltv_after_repay(
            o,
            mv,
            r.config.borrow_factor_pct as int,
        ) matches Ok(after) && (loan_to_value_of(o) matches Ok(before) && after <= before)))),
{
}

/// A borrow that goes through leaves the risk-adjusted loan-to-value within
/// the unhealthy loan-to-value, and the debt value below the deposited value.
pub proof fn borrow_operation_stays_healthy(
    m: LendingMarket,
    r: Reserve,
    o: &Obligation,
    amount: u64,
    clock: Clock,
    key: Pubkey,
)
    requires
        borrow_obligation_liquidity_spec(m, r, o, amount as int, clock, key) is Ok,
    ensures
        borrow_obligation_liquidity_spec(m, r, o, amount as int, clock, key) matches Ok((_, _, (b, _, _)))
            && (market_value_of(r, b) matches Ok(mv) && (s_div(
            s_add(
                Ok(o.borrow_factor_adjusted_debt_value.bits as int),
                s_mul(Ok(mv), Ok(percent_bits(r.config.borrow_factor_pct as int))),
            ),
            Ok(o.deposited_value.bits as int),
        ) matches Ok(new_ltv) && (unhealthy_loan_to_value_of(o) matches Ok(u) && new_ltv <= u
            && o.borrowed_assets_market_value.bits + mv < o.deposited_value.bits))),
{
}

/// A withdrawal that goes through and leaves collateral behind leaves the debt
/// value below the remaining deposited value, and the risk-adjusted
/// loan-to-value within the unhealthy loan-to-value.
pub proof fn withdraw_operation_stays_healthy(
    m: LendingMarket,
    r: Reserve,
    o: &Obligation,
    amount: u64,
    slot: u64,
    key: Pubkey,
)
    requires
        withdraw_obligation_collateral_spec(m, r, o, amount as int, slot, key) is Ok,
    ensures
        withdraw_obligation_collateral_spec(m, r, o, amount as int, slot, key) matches Ok((_, w))
            && (exchange_rate_of(r) matches Ok(rate) && (s_div(Ok(whole(w)), Ok(rate)) matches Ok(liq)
            && (market_value_of(r, liq) matches Ok(mv) && (o.deposited_value.bits - mv != 0 ==> (
        o.borrowed_assets_market_value.bits < o.deposited_value.bits - mv && (s_div(
            Ok(o.borrow_factor_adjusted_debt_value.bits as int),
            Ok(o.deposited_value.bits - mv),
        ) matches Ok(new_ltv) && (unhealthy_loan_to_value_of(o) matches Ok(u) && new_ltv
            <= u))))))),
{
}

proof fn lemma_floor_at_most(x: int, d: int, a: int)
    requires
        x >= 0,
        d > 0,
        a >= 0,
    ensures
        x / d <= a <==> x < (a + 1) * d,
{
    lemma_fundamental_div_mod(x, d);
    let q = x / d;
    let r = x % d;
    if q <= a {
        assert(x < (a + 1) * d) by (nonlinear_arith)
            requires
                x == d * q + r,
                r < d,
                q <= a,
                d > 0,
        ;
    } else {
        assert(x >= (a + 1) * d) by (nonlinear_arith)
            requires
                x == d * q + r,
                r >= 0,
                q >= a + 1,
                d > 0,
        ;
    }
}

proof fn lemma_payout_is_floor(c: int, rho: int)
    requires
        c >= 0,
        rho > 0,
    ensures
        collateral_to_liquidity_of(c, rho) matches Ok(l) ==> l == (c * one_scaled()) / rho,
{
    let w = one_scaled();
    assert(c * w >= 0 && (c * w) * w >= 0) by (nonlinear_arith)
        requires
            c >= 0,
            w > 0,
    ;
    lemma_div_pos_is_pos((c * w) * w, rho);
    lemma_div_denominator((c * w) * w, rho, w);
    assert(rho * w == w * rho) by (nonlinear_arith);
    lemma_cancel(c * w, rho, w);
}

/// Converting liquidity to receipt tokens and straight back never yields more
/// liquidity than went in, at any positive exchange rate: both conversions
/// round down.
pub proof fn exchange_round_trip_returns_no_more(amount: u64, rate: int)
    requires
        rate > 0,
        liquidity_to_collateral_of(amount as int, rate) is Ok,
    ensures
        liquidity_to_collateral_of(amount as int, rate) matches Ok(c) && (collateral_to_liquidity_of(
            c,
            rate,
        ) matches Ok(l) ==> l <= amount),
{
    let w = one_scaled();
    let a = amount as int;
    let c = liquidity_to_collateral_of(a, rate)->Ok_0;
    assert((a * w) * rate == w * (a * rate)) by (nonlinear_arith);
    assert(a * rate >= 0) by (nonlinear_arith)
        requires
            a >= 0,
            rate > 0,
    ;
    lemma_div_multiples_vanish(a * rate, w);
    assert(c == (a * rate) / w);
    lemma_floor_facts(a * rate, w);
    lemma_payout_is_floor(c, rate);
    if collateral_to_liquidity_of(c, rate) is Ok {
        lemma_floor_at_most(c * w, rate, a);
        assert(c * w < (a + 1) * rate) by (nonlinear_arith)
            requires
                c * w <= a * rate,
                rate > 0,
        ;
    }
}

/// A deposit never lowers the liquidity behind each receipt token: the pool's
/// total over its receipt supply does not fall, since the receipt tokens
/// minted are rounded down. A reserve that holds liquidity but has issued no
/// receipt tokens is left out: there the first deposit sets the rate anew.
/// A redemption carries no such guarantee: its payout divides by the
/// rounded-down rate, so it can move the rate down by rounding.
pub proof fn deposit_never_lowers_rate(r: Reserve, amount: u64)
    requires
        deposit_liquidity_spec(r, amount as int) is Ok,
        total_supply_of(r.liquidity) matches Ok(t) && !(r.collateral.mint_total_supply == 0 && t > 0),
    ensures
        deposit_liquidity_spec(r, amount as int) matches Ok((r2, _)) && (total_supply_of(r.liquidity)
            matches Ok(t) && (total_supply_of(r2.liquidity) matches Ok(t2) ==> t2
            * r.collateral.mint_total_supply >= t * r2.collateral.mint_total_supply)),
{
    let w = one_scaled();
    let a = amount as int;
    let m = r.collateral.mint_total_supply as int;
    let t = total_supply_of(r.liquidity)->Ok_0;
    let (r2, c) = deposit_liquidity_spec(r, a)->Ok_0;
    let rho = exchange_rate_of(r)->Ok_0;
    if total_supply_of(r2.liquidity) is Err {
        return;
    }
    let t2 = total_supply_of(r2.liquidity)->Ok_0;
    assert(r2.liquidity.available_amount == r.liquidity.available_amount + a);
    assert(t2 == t + a * w) by (nonlinear_arith)
        requires
            t2 == r2.liquidity.available_amount * w + r.liquidity.borrowed_amount.bits,
            r2.liquidity.available_amount == r.liquidity.available_amount + a,
            t == r.liquidity.available_amount * w + r.liquidity.borrowed_amount.bits,
    ;
    assert((a * w) * rho == w * (a * rho)) by (nonlinear_arith);
    assert(a * rho >= 0) by (nonlinear_arith)
        requires
            a >= 0,
            rho >= 0,
    ;
    lemma_div_multiples_vanish(a * rho, w);
    lemma_floor_facts(a * rho, w);
    assert(c * w <= a * rho);
    if t == 0 {
        assert(t2 * m >= 0) by (nonlinear_arith)
            requires
                t2 >= 0,
                m >= 0,
        ;
    } else {
        assert(m > 0);
        lemma_floor_facts(m * w * w, t);
        assert(rho * t <= m * w * w);
        assert(t2 * m >= t * (m + c)) by (nonlinear_arith)
            requires
                c * w <= a * rho,
                rho * t <= m * w * w,
                t2 == t + a * w,
                t > 0,
                w > 0,
                a >= 0,
                rho >= 0,
        ;
    }
}


/// The exact condition of the round trip: depositing `amount` and at once
/// redeeming the receipt tokens it minted pays back at most `amount` exactly
/// when those tokens, scaled, fall short of `amount + 1` units at the rate left
/// by the deposit. Rounding the rate down is what can break it.
pub proof fn deposit_then_redeem_exact(r: Reserve, amount: u64)
    requires
        deposit_liquidity_spec(r, amount as int) matches Ok((r2, c)) && redeem_collateral_spec(r2, c)
            is Ok,
    ensures
        deposit_liquidity_spec(r, amount as int) matches Ok((r2, c)) && (redeem_collateral_spec(r2, c)
            matches Ok((_, l)) && (exchange_rate_of(r2) matches Ok(rate2) && (l <= amount <==> c
            * one_scaled() < (amount + 1) * rate2))),
{
    let (r2, c) = deposit_liquidity_spec(r, amount as int)->Ok_0;
    let rate2 = exchange_rate_of(r2)->Ok_0;
    assert(rate2 != 0);
    assert(rate2 > 0);
    lemma_payout_is_floor(c, rate2);
    assert(c * one_scaled() >= 0) by (nonlinear_arith)
        requires
            c >= 0,
            one_scaled() > 0,
    ;
    lemma_floor_at_most(c * one_scaled(), rate2, amount as int);
}

} // verus!
