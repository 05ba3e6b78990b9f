//! Administrative updates of a market, apart from who may sign them.

pub mod init_market;
pub mod update_lending_market;
pub mod update_lending_market_owner;
