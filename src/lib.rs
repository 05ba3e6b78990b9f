//! Accounting and risk core of a collateralized lending market: reserves,
//! obligations, interest accrual, health checks and liquidation math, with
//! every operation proved against its contract.

pub mod errors;
pub mod fraction;
pub mod pubkey;
pub mod last_update;
pub mod withdrawal_caps;
pub mod reserve;
pub mod obligation;
pub mod lending_market;
pub mod lending_operations;
pub mod health;
pub mod refresh;
pub mod liquidation;
pub mod laws;
pub mod lending_checks;
pub mod processors;
