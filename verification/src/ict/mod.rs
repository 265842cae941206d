//! ICT (Inner Circle Trader) strategy primitives and the signal they combine into.
pub mod analyzer;
pub mod detect;
pub mod laws;
pub mod rules;
pub mod swing;
pub mod types;
