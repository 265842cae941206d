//! Hermes: verified core of an ICT trading system.
pub mod agents;
pub mod backtest;
pub mod decimal;
pub mod domain;
pub mod engine;
pub mod ict;
pub mod live;
pub mod mt5;
pub mod risk;
pub mod telegram;
pub mod text;
