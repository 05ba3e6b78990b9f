use vstd::prelude::*;
use crate::errors::LendingError;

verus! {

/// A sliding-window limit on the flow out of a reserve: at most `config_capacity`
/// within each interval of `config_interval_length_seconds`. A capacity or
/// length of zero switches the limit off.
#[derive(Clone, Copy, Debug, PartialEq, Eq, Structural)]
pub struct WithdrawalCaps {
    pub config_capacity: i64,
    pub current_total: i64,
    pub last_interval_start_timestamp: u64,
    pub config_interval_length_seconds: u64,
}

/// Whether the limit is in force. A reserve configured with no capacity or no
/// interval has no flow limit at all: that is how a reserve opts out, and
/// without it a freshly created reserve, whose limit is all zeros, could never
/// pay anything out.
pub open spec fn caps_enabled(c: WithdrawalCaps) -> bool {
    c.config_interval_length_seconds > 0 && c.config_capacity > 0
}

/// Whether `now` lies past the current interval, so that the window rolls over.
pub open spec fn window_elapsed(c: WithdrawalCaps, now: u64) -> bool {
    (if now >= c.last_interval_start_timestamp {
        now - c.last_interval_start_timestamp
    } else {
        0
    }) >= c.config_interval_length_seconds
}

/// The accumulator as the window leaves it at `now`: reset to zero when a new
/// interval has begun.
pub open spec fn rolled(c: WithdrawalCaps, now: u64) -> WithdrawalCaps {
    if window_elapsed(c, now) {
        WithdrawalCaps { last_interval_start_timestamp: now, current_total: 0, ..c }
    } else {
        c
    }
}

/// The limit after `amount` leaves at `now`, or the failure.
pub open spec fn add_to_accum_spec(c: WithdrawalCaps, amount: int, now: u64) -> Result<
    WithdrawalCaps,
    LendingError,
> {
    if !caps_enabled(c) {
        Ok(c)
    } else {
        let w = rolled(c, now);
        if w.current_total + amount > w.config_capacity {
            Err(LendingError::WithdrawalCapReached)
        } else {
            Ok(WithdrawalCaps { current_total: (w.current_total + amount) as i64, ..w })
        }
    }
}

/// The limit after `amount` returns at `now`, or the failure.
pub open spec fn sub_from_accum_spec(c: WithdrawalCaps, amount: int, now: u64) -> Result<
    WithdrawalCaps,
    LendingError,
> {
    if !caps_enabled(c) {
        Ok(c)
    } else {
        let w = rolled(c, now);
        if w.current_total - amount < i64::MIN {
            Err(LendingError::MathOverflow)
        } else {
            Ok(WithdrawalCaps { current_total: (w.current_total - amount) as i64, ..w })
        }
    }
}

impl WithdrawalCaps {
    /// A limit of `capacity` per `interval_seconds`, starting empty at `now`.
    pub fn new(capacity: i64, interval_seconds: u64, now: u64) -> (r: WithdrawalCaps)
        ensures
            r.config_capacity == capacity,
            r.config_interval_length_seconds == interval_seconds,
            r.current_total == 0,
            r.last_interval_start_timestamp == now,
    {
        WithdrawalCaps {
            config_capacity: capacity,
            current_total: 0,
            last_interval_start_timestamp: now,
            config_interval_length_seconds: interval_seconds,
        }
    }

    fn roll(&mut self, now: u64)
        ensures
            *final(self) == rolled(*old(self), now),
    {
        if now.saturating_sub(self.last_interval_start_timestamp)
            >= self.config_interval_length_seconds {
            self.last_interval_start_timestamp = now;
            self.current_total = 0;
        }
    }
}

/// Records `amount` leaving the reserve at `now`; fails when the window's total
/// would pass the capacity. Nothing changes on failure.
pub fn add_to_withdrawal_accum(caps: &mut WithdrawalCaps, amount: u64, now: u64) -> (r: Result<
    (),
    LendingError,
>)
    ensures
        !caps_enabled(*old(caps)) ==> r is Ok && *final(caps) == *old(caps),
        caps_enabled(*old(caps)) ==> {
            let c = rolled(*old(caps), now);
            let total = c.current_total + amount;
            &&& r is Ok <==> total <= c.config_capacity
            &&& r is Ok ==> *final(caps) == (WithdrawalCaps { current_total: total as i64, ..c })
            &&& r is Err ==> r == Err::<(), LendingError>(LendingError::WithdrawalCapReached)
                && *final(caps) == *old(caps)
        },
        match r {
            Ok(_) => add_to_accum_spec(*old(caps), amount as int, now) == Ok::<
                WithdrawalCaps,
                LendingError,
            >(*final(caps)),
            Err(e) => add_to_accum_spec(*old(caps), amount as int, now) == Err::<
                WithdrawalCaps,
                LendingError,
            >(e) && *final(caps) == *old(caps),
        },
{
    if caps.config_interval_length_seconds > 0 && caps.config_capacity > 0 {
        let mut c = *caps;
        c.roll(now);
        let total: i128 = c.current_total as i128 + amount as i128;
        if total > c.config_capacity as i128 {
            return Err(LendingError::WithdrawalCapReached);
        }
        c.current_total = total as i64;
        *caps = c;
    }
    Ok(())
}

/// Records `amount` returning to the reserve at `now`, making room in the window.
pub fn sub_from_withdrawal_accum(caps: &mut WithdrawalCaps, amount: u64, now: u64) -> (r: Result<
    (),
    LendingError,
>)
    ensures
        !caps_enabled(*old(caps)) ==> r is Ok && *final(caps) == *old(caps),
        caps_enabled(*old(caps)) ==> {
            let c = rolled(*old(caps), now);
            let total = c.current_total - amount;
            &&& r is Ok <==> total >= i64::MIN
            &&& r is Ok ==> *final(caps) == (WithdrawalCaps { current_total: total as i64, ..c })
            &&& r is Err ==> r == Err::<(), LendingError>(LendingError::MathOverflow)
                && *final(caps) == *old(caps)
        },
        match r {
            Ok(_) => sub_from_accum_spec(*old(caps), amount as int, now) == Ok::<
                WithdrawalCaps,
                LendingError,
            >(*final(caps)),
            Err(e) => sub_from_accum_spec(*old(caps), amount as int, now) == Err::<
                WithdrawalCaps,
                LendingError,
            >(e) && *final(caps) == *old(caps),
        },
{
    if caps.config_interval_length_seconds > 0 && caps.config_capacity > 0 {
        let mut c = *caps;
        c.roll(now);
        let total: i128 = c.current_total as i128 - amount as i128;
        if total < i64::MIN as i128 {
            return Err(LendingError::MathOverflow);
        }
        c.current_total = total as i64;
        *caps = c;
    }
    Ok(())
}

} // verus!
