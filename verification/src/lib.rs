//! A technical-analysis engine that turns an ordered series of closing
//! prices into Buy/Sell/Hold trading signals.
//!
//! Prices are fixed-point integers (the caller picks the scale, e.g. cents),
//! so every indicator here is exact integer arithmetic: a trailing simple
//! moving average, Wilder's smoothed average gain/loss pair behind the
//! Relative Strength Index, and a crossover-based signal classifier whose
//! RSI gates are exact cross-multiplied comparisons.

pub mod indicators;
pub mod laws;
pub mod signals;
