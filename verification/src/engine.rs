//! Decisions of one trading cycle: sizing parameters per symbol, order codes and outcomes.
use vstd::prelude::*;

use crate::agents::Action;
use crate::decimal::Dec;
use crate::domain::{Side, Symbol, Timeframe};
use crate::risk::RiskConfig;

verus! {

/// `TRADE_ACTION_DEAL`: an order executed at market.
pub const TRADE_ACTION_DEAL: u32 = 1u32;

/// `TRADE_RETCODE_DONE`: the order was executed.
pub const TRADE_RETCODE_DONE: u32 = 10009u32;

/// Settings of a trading cycle.
#[derive(Clone, Copy, Debug)]
pub struct EngineConfig {
    pub timeframe: Timeframe,
    pub candle_count: u32,
    pub risk_pct: Dec,
    pub min_sl_distance: Dec,
}

/// How a cycle ended.
#[derive(Clone, Debug)]
pub enum EngineOutcome {
    Traded { symbol: String, action: Action, volume: Dec, order: u64 },
    NoSignal,
    Hold,
    NoApproval,
}

/// Sizing parameters of a symbol: the contract size is the value per lot, and the
/// broker's volume limits and step are used as they are.
pub fn risk_config_from_symbol(symbol: &Symbol, risk_pct: Dec) -> (r: RiskConfig)
    ensures
        r.risk_pct == risk_pct,
        r.value_per_lot == symbol.trade_contract_size,
        r.min_volume == symbol.volume_min,
        r.max_volume == symbol.volume_max,
        r.volume_step == symbol.volume_step,
{
    RiskConfig {
        risk_pct,
        value_per_lot: symbol.trade_contract_size,
        min_volume: symbol.volume_min,
        max_volume: symbol.volume_max,
        volume_step: symbol.volume_step,
    }
}

/// MT5 order type of a side: 0 (`ORDER_TYPE_BUY`) for long, 1 (`ORDER_TYPE_SELL`) for short.
pub fn order_type_for(side: Side) -> (r: u32)
    ensures
        side == Side::Long ==> r == 0,
        side == Side::Short ==> r == 1,
{
    match side {
        Side::Long => 0,
        Side::Short => 1,
    }
}

/// The action that follows a signal's side when the agents cannot be asked.
pub fn action_for_side(side: Side) -> (r: Action)
    ensures
        side == Side::Long ==> r == Action::Buy,
        side == Side::Short ==> r == Action::Sell,
{
    match side {
        Side::Long => Action::Buy,
        Side::Short => Action::Sell,
    }
}

/// Whether the bridge executed an order.
pub fn order_accepted(retcode: u32) -> (r: bool)
    ensures
        r == (retcode == TRADE_RETCODE_DONE),
{
    retcode == TRADE_RETCODE_DONE
}

/// The outcome of a cycle with no candidate left: no signal on any symbol, else every
/// decision was hold, else the sizing refused every candidate.
pub fn outcome_without_winner(had_signals: bool, had_buy_sell: bool) -> (r: EngineOutcome)
    ensures
        !had_signals ==> r is NoSignal,
        had_signals && !had_buy_sell ==> r is Hold,
        had_signals && had_buy_sell ==> r is NoApproval,
{
    if !had_signals {
        EngineOutcome::NoSignal
    } else if !had_buy_sell {
        EngineOutcome::Hold
    } else {
        EngineOutcome::NoApproval
    }
}

/// What a cycle has seen over its symbols so far: whether any gave a signal, and whether
/// the agents decided to buy or sell on any of them.
#[derive(Clone, Copy, Debug)]
pub struct CycleFlags {
    pub had_signals: bool,
    pub had_buy_sell: bool,
}

impl CycleFlags {
    /// A cycle that has seen nothing yet.
    pub fn new() -> (r: CycleFlags)
        ensures
            !r.had_signals && !r.had_buy_sell,
    {
        CycleFlags { had_signals: false, had_buy_sell: false }
    }

    /// Notes a symbol with a signal on which the agents decided `action`; gives whether
    /// the symbol goes on to sizing (not when the agents hold).
    pub fn note_decision(&mut self, action: Action) -> (proceed: bool)
        ensures
            final(self).had_signals,
            final(self).had_buy_sell == (old(self).had_buy_sell || action != Action::Hold),
            proceed == (action != Action::Hold),
    {
        self.had_signals = true;
        let proceed = action != Action::Hold;
        if proceed {
            self.had_buy_sell = true;
        }
        proceed
    }

    /// The outcome of the cycle when no candidate is left.
    pub fn outcome(&self) -> (r: EngineOutcome)
        ensures
            !self.had_signals ==> r is NoSignal,
            self.had_signals && !self.had_buy_sell ==> r is Hold,
            self.had_signals && self.had_buy_sell ==> r is NoApproval,
    {
        outcome_without_winner(self.had_signals, self.had_buy_sell)
    }
}

} // verus!
