//! Scheduling, signal and strategy rules of the quant API, verified.
pub mod text;
pub mod calendar;
pub mod schedule;
pub mod audit;
pub mod ordered;
pub mod strategy;
pub mod combos;
pub mod trade_block;
pub mod signal;
pub mod mail;
pub mod rebalance;
pub mod training;
pub mod pretrade;
pub mod ownership;
pub mod alerts;
pub mod tree;
pub mod factor_run;
