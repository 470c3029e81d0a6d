//! A backtesting core for evaluating trading strategies against a historical
//! sequence of price bars.
//!
//! The crate tracks an account ledger (position, cash, realised and
//! unrealised profit-and-loss history, trade log) while a generic execution
//! loop couples a price feed and a strategy's buy/sell signals to position
//! sizing, fee computation and ledger mutation.
//!
//! All monetary quantities are exact rationals ([`rational::Rat`]); the
//! accounting identities are therefore stated and proved exactly rather than
//! up to a floating-point tolerance.

pub mod account;
pub mod binance_data;
pub mod indicators;
pub mod laws;
pub mod rational;
pub mod traders;
