use vstd::prelude::*;
use crate::errors::LendingError;
use crate::lending_market::LendingMarket;
use crate::pubkey::Pubkey;

verus! {

/// Length of the value carried by a market update.
pub const VALUE_BYTE_MAX_ARRAY_LEN_MARKET_UPDATE: usize = 72;

/// Which setting a market update changes.
#[derive(Clone, Copy, Debug, PartialEq, Eq, Structural)]
pub enum UpdateLendingMarketMode {
    UpdateOwner,
    UpdateEmergencyMode,
    UpdateLiquidationCloseFactor,
    UpdateLiquidationMaxValue,
    UpdateGlobalAllowedBorrow,
    UpdateGlobalUnhealthyBorrow,
    UpdateMinFullLiquidationThreshold,
    UpdatePriceRefreshTriggerToMaxAgePct,
    UpdateAutodeleverageEnabled,
    UpdateBorrowingDisabled,
}

/// The mode a number names, in declaration order from zero.
pub open spec fn mode_of(n: u64) -> Option<UpdateLendingMarketMode> {
    if n == 0 {
        Some(UpdateLendingMarketMode::UpdateOwner)
    } else if n == 1 {
        Some(UpdateLendingMarketMode::UpdateEmergencyMode)
    } else if n == 2 {
        Some(UpdateLendingMarketMode::UpdateLiquidationCloseFactor)
    } else if n == 3 {
        Some(UpdateLendingMarketMode::UpdateLiquidationMaxValue)
    } else if n == 4 {
        Some(UpdateLendingMarketMode::UpdateGlobalAllowedBorrow)
    } else if n == 5 {
        Some(UpdateLendingMarketMode::UpdateGlobalUnhealthyBorrow)
    } else if n == 6 {
        Some(UpdateLendingMarketMode::UpdateMinFullLiquidationThreshold)
    } else if n == 7 {
        Some(UpdateLendingMarketMode::UpdatePriceRefreshTriggerToMaxAgePct)
    } else if n == 8 {
        Some(UpdateLendingMarketMode::UpdateAutodeleverageEnabled)
    } else if n == 9 {
        Some(UpdateLendingMarketMode::UpdateBorrowingDisabled)
    } else {
        None
    }
}

impl UpdateLendingMarketMode {
    /// The mode a number names.
    pub fn from_u64(n: u64) -> (r: Option<UpdateLendingMarketMode>)
        ensures
            r == mode_of(n),
    {
        match n {
            0 => Some(UpdateLendingMarketMode::UpdateOwner),
            1 => Some(UpdateLendingMarketMode::UpdateEmergencyMode),
            2 => Some(UpdateLendingMarketMode::UpdateLiquidationCloseFactor),
            3 => Some(UpdateLendingMarketMode::UpdateLiquidationMaxValue),
            4 => Some(UpdateLendingMarketMode::UpdateGlobalAllowedBorrow),
            5 => Some(UpdateLendingMarketMode::UpdateGlobalUnhealthyBorrow),
            6 => Some(UpdateLendingMarketMode::UpdateMinFullLiquidationThreshold),
            7 => Some(UpdateLendingMarketMode::UpdatePriceRefreshTriggerToMaxAgePct),
            8 => Some(UpdateLendingMarketMode::UpdateAutodeleverageEnabled),
            9 => Some(UpdateLendingMarketMode::UpdateBorrowingDisabled),
            _ => None,
        }
    }
}

/// The integer whose little-endian bytes are the first eight of `s`.
pub open spec fn le_u64_of(s: Seq<u8>) -> int {
    s[0] + s[1] * 0x100 + s[2] * 0x1_0000 + s[3] * 0x100_0000 + s[4] * 0x1_0000_0000 + s[5]
        * 0x100_0000_0000 + s[6] * 0x1_0000_0000_0000 + s[7] * 0x100_0000_0000_0000
}

/// The integer whose big-endian bytes are `s[start .. start + len]`.
pub open spec fn be_of(s: Seq<u8>, start: int, len: nat) -> int
    decreases len,
{
    if len == 0 {
        0
    } else {
        be_of(s, start, (len - 1) as nat) * 256 + s[start + len - 1]
    }
}

/// The largest integer of `len` bytes.
pub open spec fn be_max(len: nat) -> int
    decreases len,
{
    if len == 0 {
        0
    } else {
        be_max((len - 1) as nat) * 256 + 255
    }
}

fn read_le_u64(value: &[u8; 72]) -> (r: u64)
    ensures
        r == le_u64_of(value@),
{
    let v = value;
    v[0] as u64 + (v[1] as u64) * 0x100 + (v[2] as u64) * 0x1_0000 + (v[3] as u64) * 0x100_0000
        + (v[4] as u64) * 0x1_0000_0000 + (v[5] as u64) * 0x100_0000_0000 + (v[6] as u64)
        * 0x1_0000_0000_0000 + (v[7] as u64) * 0x100_0000_0000_0000
}

fn read_be_u128(value: &[u8; 72], start: usize) -> (r: u128)
    requires
        start + 16 <= 72,
    ensures
        r == be_of(value@, start as int, 16),
{
    let mut acc: u128 = 0;
    let mut i: usize = 0;
    proof {
        reveal_with_fuel(be_max, 17);
    }
    assert(be_max(16) == u128::MAX);
    while i < 16
        invariant
            i <= 16,
            start + 16 <= 72,
            acc == be_of(value@, start as int, i as nat),
            acc <= be_max(i as nat),
            be_max(16) == u128::MAX,
        decreases 16 - i,
    {
        proof {
            lemma_be_max_grows(i as nat);
        }
        acc = acc * 256 + value[start + i] as u128;
        i = i + 1;
    }
    acc
}

proof fn lemma_be_max_grows(i: nat)
    requires
        i < 16,
    ensures
        be_max(i) * 256 + 255 <= be_max(16),
    decreases 16 - i,
{
    if i + 1 < 16 {
        lemma_be_max_grows(i + 1);
        lemma_be_max_mono(i);
    }
}

proof fn lemma_be_max_mono(i: nat)
    ensures
        be_max(i) * 256 + 255 <= be_max(i + 1) * 256 + 255,
        be_max(i) >= 0,
    decreases i,
{
    if i > 0 {
        lemma_be_max_mono((i - 1) as nat);
    }
}

/// The market after an update of `mode` to `value`, or the reason it is refused.
pub open spec fn update_market_spec(m: LendingMarket, mode: u64, value: Seq<u8>) -> Result<
    LendingMarket,
    LendingError,
> {
    match mode_of(mode) {
        None => Err(LendingError::InvalidInstructionData),
        Some(UpdateLendingMarketMode::UpdateOwner) => Ok(
            LendingMarket {
                owner_cached: Pubkey { hi: be_of(value, 0, 16) as u128, lo: be_of(value, 16, 16) as u128 },
                ..m
            },
        ),
        Some(UpdateLendingMarketMode::UpdateEmergencyMode) => if value[0] <= 1 {
            Ok(LendingMarket { emergency_mode: value[0], ..m })
        } else {
            Err(LendingError::InvalidFlag)
        },
        Some(UpdateLendingMarketMode::UpdateLiquidationCloseFactor) => if 5 <= value[0] <= 100 {
            Ok(LendingMarket { liquidation_max_debt_close_factor_pct: value[0], ..m })
        } else {
            Err(LendingError::InvalidFlag)
        },
        Some(UpdateLendingMarketMode::UpdateLiquidationMaxValue) => if le_u64_of(value) == 0 {
            Err(LendingError::InvalidFlag)
        } else {
            Ok(LendingMarket { max_liquidatable_debt_market_value_at_once: le_u64_of(value) as u64, ..m })
        },
        Some(UpdateLendingMarketMode::UpdateGlobalAllowedBorrow) => Ok(
            LendingMarket { global_allowed_borrow_value: le_u64_of(value) as u64, ..m },
        ),
        Some(UpdateLendingMarketMode::UpdateGlobalUnhealthyBorrow) => Ok(
            LendingMarket { global_unhealthy_borrow_value: le_u64_of(value) as u64, ..m },
        ),
        Some(UpdateLendingMarketMode::UpdateMinFullLiquidationThreshold) => if le_u64_of(value) == 0 {
            Err(LendingError::InvalidFlag)
        } else {
            Ok(LendingMarket { min_full_liquidation_value_threshold: le_u64_of(value) as u64, ..m })
        },
        Some(UpdateLendingMarketMode::UpdatePriceRefreshTriggerToMaxAgePct) => if value[0] > 100 {
            Err(LendingError::InvalidConfig)
        } else {
            Ok(LendingMarket { price_refresh_trigger_to_max_age_pct: value[0], ..m })
        },
        Some(UpdateLendingMarketMode::UpdateAutodeleverageEnabled) => if value[0] <= 1 {
            Ok(LendingMarket { autodeleverage_enabled: value[0], ..m })
        } else {
            Err(LendingError::InvalidFlag)
        },
        Some(UpdateLendingMarketMode::UpdateBorrowingDisabled) => if value[0] <= 1 {
            Ok(LendingMarket { borrow_disabled: value[0], ..m })
        } else {
            Err(LendingError::InvalidFlag)
        },
    }
}

/// Changes one market setting. The owner update only records the new owner,
/// who takes over by a separate call; flags must be zero or one; the close
/// factor lies between 5 and 100 percent; the largest debt liquidated at once
/// and the full-liquidation threshold must be positive; the price refresh
/// trigger is a percentage. Nothing changes on failure.
pub fn process(
    market: &mut LendingMarket,
    mode: u64,
    value: &[u8; VALUE_BYTE_MAX_ARRAY_LEN_MARKET_UPDATE],
) -> (r: Result<(), LendingError>)
    ensures
        match r {
            Ok(_) => update_market_spec(*old(market), mode, value@) == Ok::<
                LendingMarket,
                LendingError,
            >(*final(market)),
            Err(e) => update_market_spec(*old(market), mode, value@) == Err::<
                LendingMarket,
                LendingError,
            >(e) && *final(market) == *old(market),
        },
{
    let mode = match UpdateLendingMarketMode::from_u64(mode) {
        Some(m) => m,
        None => return Err(LendingError::InvalidInstructionData),
    };
    match mode {
        UpdateLendingMarketMode::UpdateOwner => {
            let hi = read_be_u128(value, 0);
            let lo = read_be_u128(value, 16);
            market.owner_cached = Pubkey::new(hi, lo);
        },
        UpdateLendingMarketMode::UpdateEmergencyMode => {
            if value[0] > 1 {
                return Err(LendingError::InvalidFlag);
            }
            market.emergency_mode = value[0];
        },
        UpdateLendingMarketMode::UpdateLiquidationCloseFactor => {
            if value[0] < 5 || value[0] > 100 {
                return Err(LendingError::InvalidFlag);
            }
            market.liquidation_max_debt_close_factor_pct = value[0];
        },
        UpdateLendingMarketMode::UpdateLiquidationMaxValue => {
            let v = read_le_u64(value);
            if v == 0 {
                return Err(LendingError::InvalidFlag);
            }
            market.max_liquidatable_debt_market_value_at_once = v;
        },
        UpdateLendingMarketMode::UpdateGlobalAllowedBorrow => {
            market.global_allowed_borrow_value = read_le_u64(value);
        },
        UpdateLendingMarketMode::UpdateGlobalUnhealthyBorrow => {
            market.global_unhealthy_borrow_value = read_le_u64(value);
        },
        UpdateLendingMarketMode::UpdateMinFullLiquidationThreshold => {
            let v = read_le_u64(value);
            if v == 0 {
                return Err(LendingError::InvalidFlag);
            }
            market.min_full_liquidation_value_threshold = v;
        },
        UpdateLendingMarketMode::UpdatePriceRefreshTriggerToMaxAgePct => {
            if value[0] > 100 {
                return Err(LendingError::InvalidConfig);
            }
            market.price_refresh_trigger_to_max_age_pct = value[0];
        },
        UpdateLendingMarketMode::UpdateAutodeleverageEnabled => {
            if value[0] > 1 {
                return Err(LendingError::InvalidFlag);
            }
            market.autodeleverage_enabled = value[0];
        },
        UpdateLendingMarketMode::UpdateBorrowingDisabled => {
            if value[0] > 1 {
                return Err(LendingError::InvalidFlag);
            }
            market.borrow_disabled = value[0];
        },
    }
    Ok(())
}

} // verus!
