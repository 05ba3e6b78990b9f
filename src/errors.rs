use vstd::prelude::*;

verus! {

/// Every way an operation of the lending core can fail.
#[derive(Clone, Copy, Debug, PartialEq, Eq, Structural)]
pub enum LendingError {
    AlreadyInitialized,
    InvalidMarketAuthority,
    InvalidMarketOwner,
    InvalidAccountOwner,
    InvalidAmount,
    InvalidConfig,
    InvalidAccountInput,
    MathOverflow,
    IntegerOverflow,
    InsufficientLiquidity,
    ReserveStale,
    WithdrawTooSmall,
    WithdrawTooLarge,
    BorrowTooSmall,
    BorrowTooLarge,
    RepayTooSmall,
    LiquidationTooSmall,
    ObligationHealthy,
    ObligationStale,
    ObligationReserveLimit,
    InvalidObligationOwner,
    ObligationDepositsEmpty,
    ObligationBorrowsEmpty,
    ObligationDepositsZero,
    ObligationBorrowsZero,
    InvalidObligationCollateral,
    InvalidObligationLiquidity,
    ObligationCollateralEmpty,
    ObligationLiquidityEmpty,
    NegativeInterestRate,
    InvalidOracleConfig,
    NotEnoughLiquidityAfterFlashLoan,
    ExceededSlippage,
    DepositLimitExceeded,
    BorrowLimitExceeded,
    BorrowingDisabled,
    ReserveDeprecated,
    ReserveObsolete,
    NetValueRemainingTooSmall,
    WorseLtvBlocked,
    LiabilitiesBiggerThanAssets,
    ObligationInDeprecatedReserve,
    CollateralNonLiquidatable,
    LiquidationSlippageError,
    WithdrawalCapReached,
    ReserveTokenBalanceMismatch,
    ReserveVaultBalanceMismatch,
    ReserveAccountingMismatch,
    FlashLoansDisabled,
    GlobalEmergencyMode,
    InvalidFlag,
    InvalidInstructionData,
}

} // verus!
