use vstd::prelude::*;
use crate::errors::LendingError;
use crate::fraction::{
    Fraction, Outcome, s_div, s_mul, is_frac, percent_bits,
};
use crate::last_update::LastUpdate;
use crate::pubkey::Pubkey;

verus! {

/// Most deposit and borrow entries that one obligation can hold together.
pub const MAX_OBLIGATION_RESERVES: usize = 10;

/// Collateral that an obligation holds in one reserve.
#[derive(Clone, Copy, Debug, PartialEq, Eq, Structural)]
pub struct ObligationCollateral {
    pub deposit_reserve: Pubkey,
    /// Receipt tokens deposited.
    pub deposited_amount: u64,
    /// Value at the last refresh.
    pub market_value: Fraction,
}

/// Debt that an obligation owes to one reserve.
#[derive(Clone, Copy, Debug, PartialEq, Eq, Structural)]
pub struct ObligationLiquidity {
    pub borrow_reserve: Pubkey,
    /// The reserve's cumulative borrow rate when interest was last applied.
    pub cumulative_borrow_rate: Fraction,
    /// Debt, interest included.
    pub borrowed_amount: Fraction,
    /// Value at the last refresh.
    pub market_value: Fraction,
    /// Value weighted by the reserve's borrow factor.
    pub borrow_factor_adjusted_market_value: Fraction,
}

/// A borrower's position.
#[derive(Debug)]
pub struct Obligation {
    pub last_update: LastUpdate,
    pub lending_market: Pubkey,
    pub owner: Pubkey,
    /// Collateral, unique by reserve.
    pub deposits: Vec<ObligationCollateral>,
    /// Debt, unique by reserve.
    pub borrows: Vec<ObligationLiquidity>,
    pub deposited_value: Fraction,
    pub borrowed_assets_market_value: Fraction,
    pub borrow_factor_adjusted_debt_value: Fraction,
    pub allowed_borrow_value: Fraction,
    pub unhealthy_borrow_value: Fraction,
    pub lowest_reserve_deposit_ltv: u64,
    pub num_of_obsolete_reserves: u64,
    pub has_debt: bool,
}

/// Parameters of a new obligation.
pub struct InitObligationParams {
    pub current_slot: u64,
    pub lending_market: Pubkey,
    pub owner: Pubkey,
}

/// Whether no two deposit entries name the same reserve.
pub open spec fn deposits_unique(s: Seq<ObligationCollateral>) -> bool {
    forall|i: int, j: int|
        0 <= i < s.len() && 0 <= j < s.len() && i != j ==> s[i].deposit_reserve
            != s[j].deposit_reserve
}

/// Whether no two borrow entries name the same reserve.
pub open spec fn borrows_unique(s: Seq<ObligationLiquidity>) -> bool {
    forall|i: int, j: int|
        0 <= i < s.len() && 0 <= j < s.len() && i != j ==> s[i].borrow_reserve
            != s[j].borrow_reserve
}

/// Whether a deposit table holds an entry for `key`.
pub open spec fn has_deposit(s: Seq<ObligationCollateral>, key: Pubkey) -> bool {
    exists|i: int| 0 <= i < s.len() && s[i].deposit_reserve == key
}

/// Whether a borrow table holds an entry for `key`.
pub open spec fn has_borrow(s: Seq<ObligationLiquidity>, key: Pubkey) -> bool {
    exists|i: int| 0 <= i < s.len() && s[i].borrow_reserve == key
}

/// Whether two obligations hold the same data.
pub open spec fn same_obligation(a: &Obligation, b: &Obligation) -> bool {
    &&& a.last_update == b.last_update
    &&& a.lending_market == b.lending_market
    &&& a.owner == b.owner
    &&& a.deposits@ == b.deposits@
    &&& a.borrows@ == b.borrows@
    &&& a.deposited_value == b.deposited_value
    &&& a.borrowed_assets_market_value == b.borrowed_assets_market_value
    &&& a.borrow_factor_adjusted_debt_value == b.borrow_factor_adjusted_debt_value
    &&& a.allowed_borrow_value == b.allowed_borrow_value
    &&& a.unhealthy_borrow_value == b.unhealthy_borrow_value
    &&& a.lowest_reserve_deposit_ltv == b.lowest_reserve_deposit_ltv
    &&& a.num_of_obsolete_reserves == b.num_of_obsolete_reserves
    &&& a.has_debt == b.has_debt
}

/// The same obligation with other tables.
pub open spec fn with_tables(
    a: &Obligation,
    b: &Obligation,
    deposits: Seq<ObligationCollateral>,
    borrows: Seq<ObligationLiquidity>,
) -> bool {
    &&& a.last_update == b.last_update
    &&& a.lending_market == b.lending_market
    &&& a.owner == b.owner
    &&& a.deposits@ == deposits
    &&& a.borrows@ == borrows
    &&& a.deposited_value == b.deposited_value
    &&& a.borrowed_assets_market_value == b.borrowed_assets_market_value
    &&& a.borrow_factor_adjusted_debt_value == b.borrow_factor_adjusted_debt_value
    &&& a.allowed_borrow_value == b.allowed_borrow_value
    &&& a.unhealthy_borrow_value == b.unhealthy_borrow_value
    &&& a.lowest_reserve_deposit_ltv == b.lowest_reserve_deposit_ltv
    &&& a.num_of_obsolete_reserves == b.num_of_obsolete_reserves
    &&& a.has_debt == b.has_debt
}

/// The debt after applying the growth of the cumulative borrow rate.
pub open spec fn accrued_debt_of(l: ObligationLiquidity, cumulative: int) -> Result<
    ObligationLiquidity,
    LendingError,
> {
    if cumulative < l.cumulative_borrow_rate.bits {
        Err(LendingError::NegativeInterestRate)
    } else if cumulative == l.cumulative_borrow_rate.bits {
        Ok(l)
    } else {
        match s_mul(
            Ok(l.borrowed_amount.bits as int),
            s_div(Ok(cumulative), Ok(l.cumulative_borrow_rate.bits as int)),
        ) {
            Err(e) => Err(e),
            Ok(b) => Ok(
                ObligationLiquidity {
                    borrowed_amount: Fraction { bits: b as u128 },
                    cumulative_borrow_rate: Fraction { bits: cumulative as u128 },
                    ..l
                },
            ),
        }
    }
}

/// Risk-adjusted debt over deposited value.
pub open spec fn loan_to_value_of(o: &Obligation) -> Outcome {
    s_div(Ok(o.borrow_factor_adjusted_debt_value.bits as int), Ok(o.deposited_value.bits as int))
}

/// Liquidation threshold value over deposited value.
pub open spec fn unhealthy_loan_to_value_of(o: &Obligation) -> Outcome {
    s_div(Ok(o.unhealthy_borrow_value.bits as int), Ok(o.deposited_value.bits as int))
}

/// Value that can still be borrowed: allowed value less risk-adjusted debt, at least zero.
pub open spec fn remaining_borrow_value_of(o: &Obligation) -> int {
    if o.allowed_borrow_value.bits >= o.borrow_factor_adjusted_debt_value.bits {
        o.allowed_borrow_value.bits - o.borrow_factor_adjusted_debt_value.bits
    } else {
        0
    }
}

/// Collateral value that can leave without passing the allowed borrow value,
/// for collateral of the given loan-to-value.
pub open spec fn max_withdraw_value_of(o: &Obligation, ltv_pct: int) -> Outcome {
    if o.allowed_borrow_value.bits <= o.borrow_factor_adjusted_debt_value.bits {
        Ok(0)
    } else if ltv_pct == 0 {
        Ok(o.deposited_value.bits as int)
    } else {
        s_div(
            Ok(o.allowed_borrow_value.bits - o.borrow_factor_adjusted_debt_value.bits),
            Ok(percent_bits(ltv_pct)),
        )
    }
}

/// Position of the deposit entry for `key`.
pub open spec fn deposit_index(s: Seq<ObligationCollateral>, key: Pubkey) -> int {
    choose|i: int| 0 <= i < s.len() && s[i].deposit_reserve == key
}

/// Position of the borrow entry for `key`.
pub open spec fn borrow_index(s: Seq<ObligationLiquidity>, key: Pubkey) -> int {
    choose|i: int| 0 <= i < s.len() && s[i].borrow_reserve == key
}

/// In a table unique by reserve, the entry found for a key is the one chosen.
pub proof fn lemma_deposit_index(s: Seq<ObligationCollateral>, key: Pubkey, i: int)
    requires
        deposits_unique(s),
        0 <= i < s.len(),
        s[i].deposit_reserve == key,
    ensures
        deposit_index(s, key) == i,
{
    let j = deposit_index(s, key);
    assert(0 <= j < s.len() && s[j].deposit_reserve == key);
}

/// In a table unique by reserve, the entry found for a key is the one chosen.
pub proof fn lemma_borrow_index(s: Seq<ObligationLiquidity>, key: Pubkey, i: int)
    requires
        borrows_unique(s),
        0 <= i < s.len(),
        s[i].borrow_reserve == key,
    ensures
        borrow_index(s, key) == i,
{
    let j = borrow_index(s, key);
    assert(0 <= j < s.len() && s[j].borrow_reserve == key);
}

/// Whether `a` is `b` with new tables, tracker and debt flag, and nothing else changed.
pub open spec fn obligation_updated(
    a: &Obligation,
    b: &Obligation,
    deposits: Seq<ObligationCollateral>,
    borrows: Seq<ObligationLiquidity>,
    last_update: LastUpdate,
    has_debt: bool,
) -> bool {
    &&& a.last_update == last_update
    &&& a.lending_market == b.lending_market
    &&& a.owner == b.owner
    &&& a.deposits@ == deposits
    &&& a.borrows@ == borrows
    &&& a.deposited_value == b.deposited_value
    &&& a.borrowed_assets_market_value == b.borrowed_assets_market_value
    &&& a.borrow_factor_adjusted_debt_value == b.borrow_factor_adjusted_debt_value
    &&& a.allowed_borrow_value == b.allowed_borrow_value
    &&& a.unhealthy_borrow_value == b.unhealthy_borrow_value
    &&& a.lowest_reserve_deposit_ltv == b.lowest_reserve_deposit_ltv
    &&& a.num_of_obsolete_reserves == b.num_of_obsolete_reserves
    &&& a.has_debt == has_debt
}

impl ObligationCollateral {
    /// An empty entry for a reserve.
    pub fn new(deposit_reserve: Pubkey) -> (r: ObligationCollateral)
        ensures
            r.deposit_reserve == deposit_reserve,
            r.deposited_amount == 0,
            r.market_value.bits == 0,
    {
        ObligationCollateral { deposit_reserve, deposited_amount: 0, market_value: Fraction::zero() }
    }

    /// Adds deposited receipt tokens.
    pub fn deposit(&mut self, collateral_amount: u64) -> (r: Result<(), LendingError>)
        ensures
            r is Ok <==> old(self).deposited_amount + collateral_amount <= u64::MAX,
            r is Ok ==> *final(self) == (ObligationCollateral {
                deposited_amount: (old(self).deposited_amount + collateral_amount) as u64,
                ..*old(self)
            }),
            r is Err ==> r == Err::<(), LendingError>(LendingError::MathOverflow) && *final(self)
                == *old(self),
    {
        match self.deposited_amount.checked_add(collateral_amount) {
            Some(v) => {
                self.deposited_amount = v;
                Ok(())
            },
            None => Err(LendingError::MathOverflow),
        }
    }

    /// Removes deposited receipt tokens.
    pub fn withdraw(&mut self, collateral_amount: u64) -> (r: Result<(), LendingError>)
        ensures
            r is Ok <==> collateral_amount <= old(self).deposited_amount,
            r is Ok ==> *final(self) == (ObligationCollateral {
                deposited_amount: (old(self).deposited_amount - collateral_amount) as u64,
                ..*old(self)
            }),
            r is Err ==> r == Err::<(), LendingError>(LendingError::MathOverflow) && *final(self)
                == *old(self),
    {
        match self.deposited_amount.checked_sub(collateral_amount) {
            Some(v) => {
                self.deposited_amount = v;
                Ok(())
            },
            None => Err(LendingError::MathOverflow),
        }
    }
}

impl ObligationLiquidity {
    /// An empty entry for a reserve, at the reserve's cumulative borrow rate.
    pub fn new(borrow_reserve: Pubkey, cumulative_borrow_rate: Fraction) -> (r: ObligationLiquidity)
        ensures
            r.borrow_reserve == borrow_reserve,
            r.cumulative_borrow_rate == cumulative_borrow_rate,
            r.borrowed_amount.bits == 0,
            r.market_value.bits == 0,
            r.borrow_factor_adjusted_market_value.bits == 0,
    {
        ObligationLiquidity {
            borrow_reserve,
            cumulative_borrow_rate,
            borrowed_amount: Fraction::zero(),
            market_value: Fraction::zero(),
            borrow_factor_adjusted_market_value: Fraction::zero(),
        }
    }

    /// Settles debt.
    pub fn repay(&mut self, settle_amount: Fraction) -> (r: Result<(), LendingError>)
        ensures
            r is Ok <==> settle_amount.bits <= old(self).borrowed_amount.bits,
            r is Ok ==> *final(self) == (ObligationLiquidity {
                borrowed_amount: Fraction {
                    bits: (old(self).borrowed_amount.bits - settle_amount.bits) as u128,
                },
                ..*old(self)
            }),
            r is Err ==> r == Err::<(), LendingError>(LendingError::MathOverflow) && *final(self)
                == *old(self),
    {
        let b = self.borrowed_amount.sub(settle_amount)?;
        self.borrowed_amount = b;
        Ok(())
    }

    /// Takes on debt.
    pub fn borrow(&mut self, borrow_amount: Fraction) -> (r: Result<(), LendingError>)
        ensures
            r is Ok <==> old(self).borrowed_amount.bits + borrow_amount.bits <= u128::MAX,
            r is Ok ==> *final(self) == (ObligationLiquidity {
                borrowed_amount: Fraction {
                    bits: (old(self).borrowed_amount.bits + borrow_amount.bits) as u128,
                },
                ..*old(self)
            }),
            r is Err ==> r == Err::<(), LendingError>(LendingError::MathOverflow) && *final(self)
                == *old(self),
    {
        let b = self.borrowed_amount.add(borrow_amount)?;
        self.borrowed_amount = b;
        Ok(())
    }

    /// Grows the debt by the growth of the reserve's cumulative borrow rate since
    /// the entry last caught up; fails if that rate went down.
    pub fn accrue_interest(&mut self, cumulative_borrow_rate: Fraction) -> (r: Result<
        (),
        LendingError,
    >)
        ensures
            match r {
                Ok(_) => accrued_debt_of(*old(self), cumulative_borrow_rate.bits as int) == Ok::<
                    ObligationLiquidity,
                    LendingError,
                >(*final(self)),
                Err(e) => accrued_debt_of(*old(self), cumulative_borrow_rate.bits as int) == Err::<
                    ObligationLiquidity,
                    LendingError,
                >(e) && *final(self) == *old(self),
            },
    {
        if cumulative_borrow_rate.bits < self.cumulative_borrow_rate.bits {
            return Err(LendingError::NegativeInterestRate);
        }
        if cumulative_borrow_rate.bits > self.cumulative_borrow_rate.bits {
            let growth = cumulative_borrow_rate.div(self.cumulative_borrow_rate)?;
            let b = self.borrowed_amount.mul(growth)?;
            self.borrowed_amount = b;
            self.cumulative_borrow_rate = cumulative_borrow_rate;
        }
        Ok(())
    }
}

impl Obligation {
    /// Whether the tables are within capacity and unique by reserve.
    pub open spec fn wf(&self) -> bool {
        &&& self.deposits.len() + self.borrows.len() <= MAX_OBLIGATION_RESERVES
        &&& deposits_unique(self.deposits@)
        &&& borrows_unique(self.borrows@)
    }

    /// A copy of this obligation.
    pub fn duplicate(&self) -> (r: Obligation)
        ensures
            same_obligation(&r, self),
    {
        let mut deposits: Vec<ObligationCollateral> = Vec::new();
        let mut i: usize = 0;
        while i < self.deposits.len()
            invariant
                i <= self.deposits@.len(),
                deposits@ == self.deposits@.subrange(0, i as int),
            decreases self.deposits@.len() - i,
        {
            deposits.push(self.deposits[i]);
            i = i + 1;
            assert(deposits@ =~= self.deposits@.subrange(0, i as int));
        }
        let mut borrows: Vec<ObligationLiquidity> = Vec::new();
        let mut k: usize = 0;
        while k < self.borrows.len()
            invariant
                k <= self.borrows@.len(),
                borrows@ == self.borrows@.subrange(0, k as int),
            decreases self.borrows@.len() - k,
        {
            borrows.push(self.borrows[k]);
            k = k + 1;
            assert(borrows@ =~= self.borrows@.subrange(0, k as int));
        }
        assert(deposits@ =~= self.deposits@);
        assert(borrows@ =~= self.borrows@);
        Obligation {
            last_update: self.last_update,
            lending_market: self.lending_market,
            owner: self.owner,
            deposits,
            borrows,
            deposited_value: self.deposited_value,
            borrowed_assets_market_value: self.borrowed_assets_market_value,
            borrow_factor_adjusted_debt_value: self.borrow_factor_adjusted_debt_value,
            allowed_borrow_value: self.allowed_borrow_value,
            unhealthy_borrow_value: self.unhealthy_borrow_value,
            lowest_reserve_deposit_ltv: self.lowest_reserve_deposit_ltv,
            num_of_obsolete_reserves: self.num_of_obsolete_reserves,
            has_debt: self.has_debt,
        }
    }

    /// A new, empty obligation.
    pub fn new(params: InitObligationParams) -> (r: Obligation)
        ensures
            r.wf(),
            r.last_update == (LastUpdate { slot: params.current_slot, stale: true, price_status: 0 }),
            r.lending_market == params.lending_market,
            r.owner == params.owner,
            r.deposits@.len() == 0,
            r.borrows@.len() == 0,
            r.deposited_value.bits == 0,
            r.borrowed_assets_market_value.bits == 0,
            r.borrow_factor_adjusted_debt_value.bits == 0,
            r.allowed_borrow_value.bits == 0,
            r.unhealthy_borrow_value.bits == 0,
            r.num_of_obsolete_reserves == 0,
            !r.has_debt,
    {
        let mut o = Obligation {
            last_update: LastUpdate::new(0),
            lending_market: Pubkey::default_key(),
            owner: Pubkey::default_key(),
            deposits: Vec::new(),
            borrows: Vec::new(),
            deposited_value: Fraction::zero(),
            borrowed_assets_market_value: Fraction::zero(),
            borrow_factor_adjusted_debt_value: Fraction::zero(),
            allowed_borrow_value: Fraction::zero(),
            unhealthy_borrow_value: Fraction::zero(),
            lowest_reserve_deposit_ltv: 0,
            num_of_obsolete_reserves: 0,
            has_debt: false,
        };
        o.init(params);
        o
    }

    /// Resets an obligation to an empty one.
    pub fn init(&mut self, params: InitObligationParams)
        ensures
            final(self).wf(),
            final(self).last_update == (LastUpdate { slot: params.current_slot, stale: true, price_status: 0 }),
            final(self).lending_market == params.lending_market,
            final(self).owner == params.owner,
            final(self).deposits@.len() == 0,
            final(self).borrows@.len() == 0,
            final(self).deposited_value.bits == 0,
            final(self).borrowed_assets_market_value.bits == 0,
            final(self).borrow_factor_adjusted_debt_value.bits == 0,
            final(self).allowed_borrow_value.bits == 0,
            final(self).unhealthy_borrow_value.bits == 0,
            final(self).num_of_obsolete_reserves == 0,
            !final(self).has_debt,
    {
        self.last_update = LastUpdate::new(params.current_slot);
        self.lending_market = params.lending_market;
        self.owner = params.owner;
        self.deposits = Vec::new();
        self.borrows = Vec::new();
        self.deposited_value = Fraction::zero();
        self.borrowed_assets_market_value = Fraction::zero();
        self.borrow_factor_adjusted_debt_value = Fraction::zero();
        self.allowed_borrow_value = Fraction::zero();
        self.unhealthy_borrow_value = Fraction::zero();
        self.lowest_reserve_deposit_ltv = 0;
        self.num_of_obsolete_reserves = 0;
        self.has_debt = false;
    }

    /// Risk-adjusted debt over deposited value.
    pub fn loan_to_value(&self) -> (r: Result<Fraction, LendingError>)
        ensures
            is_frac(r, loan_to_value_of(self)),
    {
        self.borrow_factor_adjusted_debt_value.div(self.deposited_value)
    }

    /// Liquidation threshold value over deposited value.
    pub fn unhealthy_loan_to_value(&self) -> (r: Result<Fraction, LendingError>)
        ensures
            is_frac(r, unhealthy_loan_to_value_of(self)),
    {
        self.unhealthy_borrow_value.div(self.deposited_value)
    }

    /// Value that can still be borrowed.
    pub fn remaining_borrow_value(&self) -> (r: Fraction)
        ensures
            r.bits == remaining_borrow_value_of(self),
    {
        self.allowed_borrow_value.saturating_sub(self.borrow_factor_adjusted_debt_value)
    }

    /// Collateral value that can be withdrawn from a reserve of the given
    /// loan-to-value without passing the allowed borrow value.
    pub fn max_withdraw_value(&self, withdraw_collateral_ltv_pct: u8) -> (r: Result<
        Fraction,
        LendingError,
    >)
        ensures
            is_frac(r, max_withdraw_value_of(self, withdraw_collateral_ltv_pct as int)),
    {
        if self.allowed_borrow_value.bits <= self.borrow_factor_adjusted_debt_value.bits {
            return Ok(Fraction::zero());
        }
        if withdraw_collateral_ltv_pct == 0 {
            return Ok(self.deposited_value);
        }
        let headroom = Fraction {
            bits: self.allowed_borrow_value.bits - self.borrow_factor_adjusted_debt_value.bits,
        };
        headroom.div(Fraction::from_percent(withdraw_collateral_ltv_pct as u64))
    }

    /// Whether the obligation has no collateral.
    pub fn deposits_empty(&self) -> (r: bool)
        ensures
            r == (self.deposits@.len() == 0),
    {
        self.deposits.len() == 0
    }

    /// Whether the obligation has no debt.
    pub fn borrows_empty(&self) -> (r: bool)
        ensures
            r == (self.borrows@.len() == 0),
    {
        self.borrows.len() == 0
    }

    /// Position of the collateral entry for a reserve, if any.
    pub fn find_collateral_index_in_deposits(&self, deposit_reserve: Pubkey) -> (r: Option<usize>)
        ensures
            match r {
                Some(i) => i < self.deposits@.len() && self.deposits@[i as int].deposit_reserve
                    == deposit_reserve,
                None => !has_deposit(self.deposits@, deposit_reserve),
            },
    {
        let mut i: usize = 0;
        while i < self.deposits.len()
            invariant
                i <= self.deposits@.len(),
                forall|j: int| 0 <= j < i ==> self.deposits@[j].deposit_reserve != deposit_reserve,
            decreases self.deposits@.len() - i,
        {
            if self.deposits[i].deposit_reserve == deposit_reserve {
                return Some(i);
            }
            i = i + 1;
        }
        None
    }

    /// Position of the borrow entry for a reserve, if any.
    pub fn find_liquidity_index_in_borrows(&self, borrow_reserve: Pubkey) -> (r: Option<usize>)
        ensures
            match r {
                Some(i) => i < self.borrows@.len() && self.borrows@[i as int].borrow_reserve
                    == borrow_reserve,
                None => !has_borrow(self.borrows@, borrow_reserve),
            },
    {
        let mut i: usize = 0;
        while i < self.borrows.len()
            invariant
                i <= self.borrows@.len(),
                forall|j: int| 0 <= j < i ==> self.borrows@[j].borrow_reserve != borrow_reserve,
            decreases self.borrows@.len() - i,
        {
            if self.borrows[i].borrow_reserve == borrow_reserve {
                return Some(i);
            }
            i = i + 1;
        }
        None
    }

    /// Position of the collateral entry for a reserve; fails when there is none.
    pub fn find_collateral_in_deposits(&self, deposit_reserve: Pubkey) -> (r: Result<
        usize,
        LendingError,
    >)
        ensures
            match r {
                Ok(i) => i < self.deposits@.len() && self.deposits@[i as int].deposit_reserve
                    == deposit_reserve,
                Err(e) => if self.deposits@.len() == 0 {
                    e == LendingError::ObligationDepositsEmpty
                } else {
                    e == LendingError::InvalidObligationCollateral && !has_deposit(
                        self.deposits@,
                        deposit_reserve,
                    )
                },
            },
    {
        if self.deposits.len() == 0 {
            return Err(LendingError::ObligationDepositsEmpty);
        }
        match self.find_collateral_index_in_deposits(deposit_reserve) {
            Some(i) => Ok(i),
            None => Err(LendingError::InvalidObligationCollateral),
        }
    }

    /// Position of the borrow entry for a reserve; fails when there is none.
    pub fn find_liquidity_in_borrows(&self, borrow_reserve: Pubkey) -> (r: Result<
        usize,
        LendingError,
    >)
        ensures
            match r {
                Ok(i) => i < self.borrows@.len() && self.borrows@[i as int].borrow_reserve
                    == borrow_reserve,
                Err(e) => if self.borrows@.len() == 0 {
                    e == LendingError::ObligationBorrowsEmpty
                } else {
                    e == LendingError::InvalidObligationLiquidity && !has_borrow(
                        self.borrows@,
                        borrow_reserve,
                    )
                },
            },
    {
        if self.borrows.len() == 0 {
            return Err(LendingError::ObligationBorrowsEmpty);
        }
        match self.find_liquidity_index_in_borrows(borrow_reserve) {
            Some(i) => Ok(i),
            None => Err(LendingError::InvalidObligationLiquidity),
        }
    }

    /// Position of the collateral entry for a reserve, adding an empty one at the
    /// end when there is none; fails when the obligation is full.
    pub fn find_or_add_collateral_to_deposits(&mut self, deposit_reserve: Pubkey) -> (r: Result<
        usize,
        LendingError,
    >)
        requires
            old(self).wf(),
        ensures
            final(self).wf(),
            match r {
                Ok(i) => i < final(self).deposits@.len() && final(self).deposits@[i as int].deposit_reserve
                    == deposit_reserve && if has_deposit(old(self).deposits@, deposit_reserve) {
                    same_obligation(final(self), old(self))
                } else {
                    with_tables(
                        final(self),
                        old(self),
                        old(self).deposits@.push(ObligationCollateral {
                            deposit_reserve,
                            deposited_amount: 0,
                            market_value: Fraction { bits: 0 },
                        }),
                        old(self).borrows@,
                    )
                },
                Err(e) => e == LendingError::ObligationReserveLimit && !has_deposit(
                    old(self).deposits@,
                    deposit_reserve,
                ) && old(self).deposits@.len() + old(self).borrows@.len()
                    >= MAX_OBLIGATION_RESERVES && same_obligation(final(self), old(self)),
            },
    {
        if let Some(i) = self.find_collateral_index_in_deposits(deposit_reserve) {
            return Ok(i);
        }
        if self.deposits.len() + self.borrows.len() >= MAX_OBLIGATION_RESERVES {
            return Err(LendingError::ObligationReserveLimit);
        }
        self.deposits.push(ObligationCollateral::new(deposit_reserve));
        Ok(self.deposits.len() - 1)
    }

    /// Position of the borrow entry for a reserve, adding an empty one at the end
    /// when there is none; fails when the obligation is full.
    pub fn find_or_add_liquidity_to_borrows(
        &mut self,
        borrow_reserve: Pubkey,
        cumulative_borrow_rate: Fraction,
    ) -> (r: Result<usize, LendingError>)
        requires
            old(self).wf(),
        ensures
            final(self).wf(),
            match r {
                Ok(i) => i < final(self).borrows@.len() && final(self).borrows@[i as int].borrow_reserve
                    == borrow_reserve && if has_borrow(old(self).borrows@, borrow_reserve) {
                    same_obligation(final(self), old(self))
                } else {
                    with_tables(
                        final(self),
                        old(self),
                        old(self).deposits@,
                        old(self).borrows@.push(ObligationLiquidity {
                            borrow_reserve,
                            cumulative_borrow_rate,
                            borrowed_amount: Fraction { bits: 0 },
                            market_value: Fraction { bits: 0 },
                            borrow_factor_adjusted_market_value: Fraction { bits: 0 },
                        }),
                    )
                },
                Err(e) => e == LendingError::ObligationReserveLimit && !has_borrow(
                    old(self).borrows@,
                    borrow_reserve,
                ) && old(self).deposits@.len() + old(self).borrows@.len()
                    >= MAX_OBLIGATION_RESERVES && same_obligation(final(self), old(self)),
            },
    {
        if let Some(i) = self.find_liquidity_index_in_borrows(borrow_reserve) {
            return Ok(i);
        }
        if self.deposits.len() + self.borrows.len() >= MAX_OBLIGATION_RESERVES {
            return Err(LendingError::ObligationReserveLimit);
        }
        self.borrows.push(ObligationLiquidity::new(borrow_reserve, cumulative_borrow_rate));
        Ok(self.borrows.len() - 1)
    }

    /// Removes collateral from an entry, dropping the entry when it empties.
    pub fn withdraw(&mut self, withdraw_amount: u64, collateral_index: usize) -> (r: Result<
        (),
        LendingError,
    >)
        requires
            old(self).wf(),
            collateral_index < old(self).deposits@.len(),
        ensures
            final(self).wf(),
            ({
                let c = old(self).deposits@[collateral_index as int];
                &&& r is Ok <==> withdraw_amount <= c.deposited_amount
                &&& r is Ok ==> with_tables(
                    final(self),
                    old(self),
                    if withdraw_amount == c.deposited_amount {
                        old(self).deposits@.remove(collateral_index as int)
                    } else {
                        old(self).deposits@.update(
                            collateral_index as int,
                            ObligationCollateral {
                                deposited_amount: (c.deposited_amount - withdraw_amount) as u64,
                                ..c
                            },
                        )
                    },
                    old(self).borrows@,
                )
                &&& r is Err ==> r == Err::<(), LendingError>(LendingError::MathOverflow)
                    && same_obligation(final(self), old(self))
            }),
    {
        let mut c = self.deposits[collateral_index];
        if withdraw_amount == c.deposited_amount {
            self.deposits.remove(collateral_index);
            proof {
                assert forall|i: int, j: int|
                    0 <= i < self.deposits@.len() && 0 <= j < self.deposits@.len() && i
                        != j implies self.deposits@[i].deposit_reserve
                        != self.deposits@[j].deposit_reserve by {
                    let oi = if i < collateral_index {
                        i
                    } else {
                        i + 1
                    };
                    let oj = if j < collateral_index {
                        j
                    } else {
                        j + 1
                    };
                    assert(self.deposits@[i] == old(self).deposits@[oi]);
                    assert(self.deposits@[j] == old(self).deposits@[oj]);
                }
            }
            return Ok(());
        }
        c.withdraw(withdraw_amount)?;
        self.deposits.set(collateral_index, c);
        proof {
            assert forall|i: int, j: int|
                0 <= i < self.deposits@.len() && 0 <= j < self.deposits@.len() && i
                    != j implies self.deposits@[i].deposit_reserve
                    != self.deposits@[j].deposit_reserve by {
                assert(self.deposits@[i].deposit_reserve == old(self).deposits@[i].deposit_reserve);
                assert(self.deposits@[j].deposit_reserve == old(self).deposits@[j].deposit_reserve);
            }
        }
        Ok(())
    }

    /// Settles debt on an entry, dropping the entry when the whole debt is settled.
    pub fn repay(&mut self, settle_amount: Fraction, liquidity_index: usize) -> (r: Result<
        (),
        LendingError,
    >)
        requires
            old(self).wf(),
            liquidity_index < old(self).borrows@.len(),
        ensures
            final(self).wf(),
            ({
                let l = old(self).borrows@[liquidity_index as int];
                &&& r is Ok <==> settle_amount.bits <= l.borrowed_amount.bits
                &&& r is Ok ==> with_tables(
                    final(self),
                    old(self),
                    old(self).deposits@,
                    if settle_amount == l.borrowed_amount {
                        old(self).borrows@.remove(liquidity_index as int)
                    } else {
                        old(self).borrows@.update(
                            liquidity_index as int,
                            ObligationLiquidity {
                                borrowed_amount: Fraction {
                                    bits: (l.borrowed_amount.bits - settle_amount.bits) as u128,
                                },
                                ..l
                            },
                        )
                    },
                )
                &&& r is Err ==> r == Err::<(), LendingError>(LendingError::MathOverflow)
                    && same_obligation(final(self), old(self))
            }),
    {
        let mut l = self.borrows[liquidity_index];
        if settle_amount == l.borrowed_amount {
            self.borrows.remove(liquidity_index);
            proof {
                assert forall|i: int, j: int|
                    0 <= i < self.borrows@.len() && 0 <= j < self.borrows@.len() && i
                        != j implies self.borrows@[i].borrow_reserve
                        != self.borrows@[j].borrow_reserve by {
                    let oi = if i < liquidity_index {
                        i
                    } else {
                        i + 1
                    };
                    let oj = if j < liquidity_index {
                        j
                    } else {
                        j + 1
                    };
                    assert(self.borrows@[i] == old(self).borrows@[oi]);
                    assert(self.borrows@[j] == old(self).borrows@[oj]);
                }
            }
            return Ok(());
        }
        l.repay(settle_amount)?;
        self.borrows.set(liquidity_index, l);
        proof {
            assert forall|i: int, j: int|
                0 <= i < self.borrows@.len() && 0 <= j < self.borrows@.len() && i
                    != j implies self.borrows@[i].borrow_reserve
                    != self.borrows@[j].borrow_reserve by {
                assert(self.borrows@[i].borrow_reserve == old(self).borrows@[i].borrow_reserve);
                assert(self.borrows@[j].borrow_reserve == old(self).borrows@[j].borrow_reserve);
            }
        }
        Ok(())
    }
}

} // verus!
