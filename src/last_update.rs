use vstd::prelude::*;
use crate::errors::LendingError;

verus! {

/// Bit of a price that was loaded from its feed.
pub const PRICE_LOADED: u8 = 1;
/// Bit of a price whose age was checked.
pub const PRICE_AGE_CHECKED: u8 = 2;
/// Bit of a price checked against its time-weighted average.
pub const TWAP_CHECKED: u8 = 4;
/// Bit of a time-weighted average whose age was checked.
pub const TWAP_AGE_CHECKED: u8 = 8;
/// Bit of a price checked against its heuristic bounds.
pub const HEURISTIC_CHECKED: u8 = 16;
/// Bit of a price allowed for use.
pub const PRICE_USAGE_ALLOWED: u8 = 32;
/// Every validity bit.
pub const ALL_CHECKS_BITS: u8 = 63;
/// The bits that a liquidation needs.
pub const LIQUIDATION_CHECKS_BITS: u8 = 35;

/// A set of price validity checks, one bit per check.
#[derive(Clone, Copy, Debug, PartialEq, Eq, Structural)]
pub struct PriceStatusFlags {
    pub bits: u8,
}

impl PriceStatusFlags {
    /// No check required.
    pub fn none() -> (r: PriceStatusFlags)
        ensures
            r.bits == 0,
    {
        PriceStatusFlags { bits: 0 }
    }

    /// The empty set: no check passed.
    pub fn empty() -> (r: PriceStatusFlags)
        ensures
            r.bits == 0,
    {
        PriceStatusFlags { bits: 0 }
    }

    /// Every check.
    pub fn all() -> (r: PriceStatusFlags)
        ensures
            r.bits == ALL_CHECKS_BITS,
    {
        PriceStatusFlags { bits: ALL_CHECKS_BITS }
    }

    /// Every check, as required before borrowing or withdrawing against debt.
    pub fn all_checks() -> (r: PriceStatusFlags)
        ensures
            r.bits == ALL_CHECKS_BITS,
    {
        PriceStatusFlags { bits: ALL_CHECKS_BITS }
    }

    /// The checks required before a liquidation.
    pub fn liquidation_checks() -> (r: PriceStatusFlags)
        ensures
            r.bits == LIQUIDATION_CHECKS_BITS,
    {
        PriceStatusFlags { bits: LIQUIDATION_CHECKS_BITS }
    }

    /// Whether every check of `required` is in this set.
    pub fn contains(&self, required: PriceStatusFlags) -> (r: bool)
        ensures
            r == (self.bits & required.bits == required.bits),
    {
        self.bits & required.bits == required.bits
    }

    /// The checks in both sets.
    pub fn intersection(&self, other: PriceStatusFlags) -> (r: PriceStatusFlags)
        ensures
            r.bits == self.bits & other.bits,
    {
        PriceStatusFlags { bits: self.bits & other.bits }
    }
}

/// When a record was last refreshed, whether it changed since, and which
/// price checks held at that refresh.
#[derive(Clone, Copy, Debug, PartialEq, Eq, Structural)]
pub struct LastUpdate {
    pub slot: u64,
    pub stale: bool,
    pub price_status: u8,
}

/// Whether a tracker fails the freshness required at `slot`.
pub open spec fn stale_at(u: LastUpdate, slot: u64, required: u8) -> bool {
    u.stale || u.slot != slot || (u.price_status & required) != required
}

impl LastUpdate {
    /// A tracker created at `slot`, stale until the first refresh.
    pub fn new(slot: u64) -> (r: LastUpdate)
        ensures
            r.slot == slot,
            r.stale,
            r.price_status == 0,
    {
        LastUpdate { slot, stale: true, price_status: 0 }
    }

    /// Slots since the last refresh; fails when `slot` lies before it.
    pub fn slots_elapsed(&self, slot: u64) -> (r: Result<u64, LendingError>)
        ensures
            match r {
                Ok(n) => slot >= self.slot && n == slot - self.slot,
                Err(e) => slot < self.slot && e == LendingError::MathOverflow,
            },
    {
        if slot < self.slot {
            Err(LendingError::MathOverflow)
        } else {
            Ok(slot - self.slot)
        }
    }

    /// Marks the record fresh at `slot`, recording the price checks if given.
    pub fn update_slot(&mut self, slot: u64, status: Option<PriceStatusFlags>)
        ensures
            final(self).slot == slot,
            !final(self).stale,
            final(self).price_status == match status {
                Some(s) => s.bits,
                None => old(self).price_status,
            },
    {
        self.slot = slot;
        self.stale = false;
        match status {
            Some(s) => {
                self.price_status = s.bits;
            },
            None => {},
        }
    }

    /// Marks the record changed since its last refresh.
    pub fn mark_stale(&mut self)
        ensures
            *final(self) == (LastUpdate { stale: true, ..*old(self) }),
    {
        self.stale = true;
    }

    /// Whether the record is not fresh at `slot` with the `required` checks.
    pub fn is_stale(&self, slot: u64, required: PriceStatusFlags) -> (r: bool)
        ensures
            r == stale_at(*self, slot, required.bits),
    {
        self.stale || self.slot != slot || (self.price_status & required.bits) != required.bits
    }

    /// The checks recorded at the last refresh.
    pub fn get_price_status(&self) -> (r: PriceStatusFlags)
        ensures
            r.bits == self.price_status,
    {
        PriceStatusFlags { bits: self.price_status }
    }
}

} // verus!
