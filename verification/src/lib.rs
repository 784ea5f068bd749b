//! A backtesting engine for rule-based trading strategies, verified with
//! Verus.
//!
//! The engine has two parts. The indicator engine derives series (moving
//! averages, oscillators, volatility bands) from the bars of a price series.
//! The ledger turns buy, sell and close orders into cash, commission and
//! slippage accounting, and keeps its position flat, long or short. A
//! strategy driver passes over the bars once, reads the indicators and gives
//! the ledger its orders.
//!
//! Every real-valued quantity is a fixed-point number: an `i64` that counts
//! millionths. Each operation states its result over unbounded integers and
//! fails with an overflow error exactly where that result cannot be stored.

pub mod backtest;
pub mod data;
pub mod error;
pub mod fixed;
pub mod indicators;
pub mod ledger;
pub mod series;
pub mod strategy;
pub mod table;
pub mod text;
