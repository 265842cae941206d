//! Walk-forward simulation: exits of an open trade, its profit, and the running statistics.
use vstd::prelude::*;

use crate::decimal::{checked_add, checked_mul, checked_sub, dec_le, dec_lt, spec_add, spec_mul, spec_sub, spec_zero, Dec};
use crate::agents::Action;
use crate::domain::{AccountInfo, Candle, Side};
use crate::ict::types::TradeSignal;
use crate::risk::RiskDecision;

verus! {

/// How a simulated trade closed.
#[derive(Clone, Copy, Debug, PartialEq, Eq, Structural)]
pub enum ExitKind {
    StopLoss,
    TakeProfit,
    Timeout,
}

/// The exit of an open trade on a new candle: the stop is hit when the candle reaches it
/// (low at or below it for a long, high at or above it for a short), the target likewise;
/// when both are reached on the same candle the stop wins.
pub open spec fn exit_on(side: Side, sl: Dec, tp: Dec, candle: Candle) -> Option<(ExitKind, Dec)> {
    let (sl_hit, tp_hit) = match side {
        Side::Long => (dec_le(candle.low, sl), dec_le(tp, candle.high)),
        Side::Short => (dec_le(sl, candle.high), dec_le(candle.low, tp)),
    };
    if sl_hit {
        Some((ExitKind::StopLoss, sl))
    } else if tp_hit {
        Some((ExitKind::TakeProfit, tp))
    } else {
        None
    }
}

/// Checks an open trade against a new candle.
pub fn check_exit(side: Side, sl: Dec, tp: Dec, candle: &Candle) -> (r: Option<(ExitKind, Dec)>)
    ensures
        r == exit_on(side, sl, tp, *candle),
{
    let (sl_hit, tp_hit) = match side {
        Side::Long => (candle.low.le(&sl), tp.le(&candle.high)),
        Side::Short => (sl.le(&candle.high), candle.low.le(&tp)),
    };
    if sl_hit {
        Some((ExitKind::StopLoss, sl))
    } else if tp_hit {
        Some((ExitKind::TakeProfit, tp))
    } else {
        None
    }
}

/// Profit of a closed trade: `(exit - entry) * volume * contract_size` for a long,
/// `(entry - exit) * volume * contract_size` for a short; `None` where it overflows.
pub open spec fn pnl_outcome(side: Side, entry: Dec, exit: Dec, volume: Dec, contract_size: Dec) -> Option<Dec> {
    let move_ = match side {
        Side::Long => spec_sub(exit, entry),
        Side::Short => spec_sub(entry, exit),
    };
    match move_ {
        None => None,
        Some(m) => match spec_mul(m, volume) {
            None => None,
            Some(v) => spec_mul(v, contract_size),
        },
    }
}

fn pnl_checked(side: Side, entry: Dec, exit: Dec, volume: Dec, contract_size: Dec) -> (r: Option<Dec>)
    ensures
        r == pnl_outcome(side, entry, exit, volume, contract_size),
{
    let m = match side {
        Side::Long => checked_sub(exit, entry),
        Side::Short => checked_sub(entry, exit),
    };
    match m {
        None => None,
        Some(m) => match checked_mul(m, volume) {
            None => None,
            Some(v) => checked_mul(v, contract_size),
        },
    }
}

/// Profit of a closed trade.
pub fn trade_pnl(side: Side, entry: Dec, exit: Dec, volume: Dec, contract_size: Dec) -> (r: Dec)
    requires
        pnl_outcome(side, entry, exit, volume, contract_size) is Some,
    ensures
        Some(r) == pnl_outcome(side, entry, exit, volume, contract_size),
{
    pnl_checked(side, entry, exit, volume, contract_size).unwrap()
}

/// `trade_pnl`, or `None` where it would overflow a decimal.
pub fn try_trade_pnl(side: Side, entry: Dec, exit: Dec, volume: Dec, contract_size: Dec) -> (r: Option<Dec>)
    ensures
        r == pnl_outcome(side, entry, exit, volume, contract_size),
{
    pnl_checked(side, entry, exit, volume, contract_size)
}

/// A simulated account of the given balance, with all of it free as margin.
pub fn make_sim_account(balance: Dec) -> (r: AccountInfo)
    ensures
        r.balance == balance,
        r.equity == balance,
        r.margin_free == balance,
        r.profit == spec_zero(),
        r.credit == spec_zero(),
        r.margin == spec_zero(),
        r.margin_level == spec_zero(),
        r.login == 0,
        r.leverage == 100,
        r.trade_allowed,
        r.trade_expert,
        r.currency@ == "USD"@,
        r.currency_digits == 2,
        r.server@ == "sim"@,
        r.name@ == "sim"@,
        r.company@ == "sim"@,
{
    AccountInfo {
        login: 0,
        leverage: 100,
        trade_allowed: true,
        trade_expert: true,
        currency: String::from_str("USD"),
        currency_digits: 2,
        server: String::from_str("sim"),
        name: String::from_str("sim"),
        company: String::from_str("sim"),
        balance,
        equity: balance,
        profit: Dec::zero(),
        credit: Dec::zero(),
        margin: Dec::zero(),
        margin_free: balance,
        margin_level: Dec::zero(),
    }
}

/// Running statistics of a simulation.
#[derive(Clone, Copy, Debug)]
pub struct BacktestStats {
    pub balance: Dec,
    pub peak: Dec,
    pub max_drawdown: Dec,
    pub trades: u32,
    pub wins: u32,
    pub losses: u32,
    pub timeouts: u32,
    pub total_pnl: Dec,
}

/// The statistics after closing a trade with profit `pnl`; `None` where a sum overflows
/// a decimal or a counter its `u32`.
pub open spec fn record_outcome(st: BacktestStats, pnl: Dec, exit: ExitKind) -> Option<BacktestStats> {
    match spec_add(st.balance, pnl) {
        None => None,
        Some(balance) => {
            let peak = if dec_lt(st.peak, balance) { balance } else { st.peak };
            match spec_sub(balance, peak) {
                None => None,
                Some(dd) => {
                    let max_drawdown = if dec_lt(dd, st.max_drawdown) { dd } else { st.max_drawdown };
                    match spec_add(st.total_pnl, pnl) {
                        None => None,
                        Some(total_pnl) => if st.trades == u32::MAX || st.wins == u32::MAX || st.losses == u32::MAX
                            || st.timeouts == u32::MAX {
                            None
                        } else {
                            Some(BacktestStats {
                                balance,
                                peak,
                                max_drawdown,
                                trades: (st.trades + 1) as u32,
                                wins: if exit == ExitKind::TakeProfit { (st.wins + 1) as u32 } else { st.wins },
                                losses: if exit == ExitKind::StopLoss { (st.losses + 1) as u32 } else { st.losses },
                                timeouts: if exit == ExitKind::Timeout { (st.timeouts + 1) as u32 } else { st.timeouts },
                                total_pnl,
                            })
                        },
                    }
                },
            }
        },
    }
}

impl BacktestStats {
    /// Statistics of a fresh simulation with the given starting balance.
    pub fn new(balance: Dec) -> (r: BacktestStats)
        ensures
            r.balance == balance,
            r.peak == balance,
            r.max_drawdown == spec_zero(),
            r.trades == 0 && r.wins == 0 && r.losses == 0 && r.timeouts == 0,
            r.total_pnl == spec_zero(),
    {
        BacktestStats {
            balance,
            peak: balance,
            max_drawdown: Dec::zero(),
            trades: 0,
            wins: 0,
            losses: 0,
            timeouts: 0,
            total_pnl: Dec::zero(),
        }
    }

    fn record_checked(&self, pnl: Dec, exit: ExitKind) -> (r: Option<BacktestStats>)
        ensures
            r == record_outcome(*self, pnl, exit),
    {
        let balance = match checked_add(self.balance, pnl) {
            Some(b) => b,
            None => return None,
        };
        let peak = if self.peak.lt(&balance) { balance } else { self.peak };
        let dd = match checked_sub(balance, peak) {
            Some(d) => d,
            None => return None,
        };
        let max_drawdown = if dd.lt(&self.max_drawdown) { dd } else { self.max_drawdown };
        let total_pnl = match checked_add(self.total_pnl, pnl) {
            Some(t) => t,
            None => return None,
        };
        if self.trades == u32::MAX || self.wins == u32::MAX || self.losses == u32::MAX || self.timeouts == u32::MAX {
            return None;
        }
        Some(BacktestStats {
            balance,
            peak,
            max_drawdown,
            trades: self.trades + 1,
            wins: if exit == ExitKind::TakeProfit { self.wins + 1 } else { self.wins },
            losses: if exit == ExitKind::StopLoss { self.losses + 1 } else { self.losses },
            timeouts: if exit == ExitKind::Timeout { self.timeouts + 1 } else { self.timeouts },
            total_pnl,
        })
    }

    /// Records a closed trade: the balance grows by its profit, the peak follows the
    /// balance up, the drawdown from the peak updates the worst one, and the trade is
    /// counted as a win (target), a loss (stop) or a timeout.
    pub fn record(&mut self, pnl: Dec, exit: ExitKind)
        requires
            record_outcome(*old(self), pnl, exit) is Some,
        ensures
            Some(*final(self)) == record_outcome(*old(self), pnl, exit),
    {
        *self = self.record_checked(pnl, exit).unwrap();
    }

    /// `record`, when it has a result; the statistics stay unchanged and `false` is
    /// returned where a sum would overflow.
    pub fn try_record(&mut self, pnl: Dec, exit: ExitKind) -> (r: bool)
        ensures
            r == record_outcome(*old(self), pnl, exit) is Some,
            r ==> Some(*final(self)) == record_outcome(*old(self), pnl, exit),
            !r ==> *final(self) == *old(self),
    {
        match self.record_checked(pnl, exit) {
            Some(next) => {
                *self = next;
                true
            },
            None => false,
        }
    }
}

/// Recording a trade keeps the books consistent: the balance never exceeds the peak,
/// the peak never falls, the worst drawdown never improves (so, starting at zero, it is
/// never positive), and the trade count is the sum of wins, losses and timeouts when it
/// was before.
pub proof fn lemma_record_keeps_books(st: BacktestStats, pnl: Dec, exit: ExitKind)
    requires
        record_outcome(st, pnl, exit) is Some,
    ensures
        ({
            let next = record_outcome(st, pnl, exit).unwrap();
            &&& dec_le(next.balance, next.peak)
            &&& dec_le(st.peak, next.peak)
            &&& dec_le(next.max_drawdown, st.max_drawdown)
            &&& dec_le(st.max_drawdown, spec_zero()) ==> dec_le(next.max_drawdown, spec_zero())
            &&& next.trades == st.trades + 1
            &&& st.trades == st.wins + st.losses + st.timeouts ==> next.trades == next.wins + next.losses + next.timeouts
        }),
{
}

/// A trade open in the simulation: the signal it follows, its volume, and the time of
/// the candle it opened on.
#[derive(Clone, Copy, Debug)]
pub struct SimTrade {
    pub open_time: i64,
    pub signal: TradeSignal,
    pub volume: Dec,
}

/// What a new candle does to the simulation.
#[derive(Clone, Copy, Debug)]
pub enum CandleStep {
    /// The open trade reached its stop or target: it closes with that exit and price.
    Closed(SimTrade, ExitKind, Dec),
    /// The open trade stays open; no new signal is looked for on this candle.
    StillOpen(SimTrade),
    /// No trade is open: the window ending before this candle is analyzed.
    Analyze,
}

/// The step of the walk-forward loop on a new candle: an open trade is checked against
/// the candle (and no new trade is looked for on it, whether the trade closes or not);
/// without an open trade the candle calls for an analysis.
pub open spec fn candle_step_of(open: Option<SimTrade>, candle: Candle) -> CandleStep {
    match open {
        None => CandleStep::Analyze,
        Some(t) => match exit_on(t.signal.side, t.signal.sl, t.signal.tp, candle) {
            Some((kind, price)) => CandleStep::Closed(t, kind, price),
            None => CandleStep::StillOpen(t),
        },
    }
}

/// The step of the walk-forward loop on a new candle.
pub fn candle_step(open: Option<SimTrade>, candle: &Candle) -> (r: CandleStep)
    ensures
        r == candle_step_of(open, *candle),
{
    match open {
        None => CandleStep::Analyze,
        Some(t) => match check_exit(t.signal.side, t.signal.sl, t.signal.tp, candle) {
            Some((kind, price)) => CandleStep::Closed(t, kind, price),
            None => CandleStep::StillOpen(t),
        },
    }
}

/// The trade that a signal opens once the agents and the sizing have spoken: none when
/// the agents hold or the sizing refuses, else one of the sized volume.
pub open spec fn opened_trade(signal: TradeSignal, action: Action, decision: RiskDecision, time: i64) -> Option<SimTrade> {
    if action == Action::Hold || !decision.approved {
        None
    } else {
        Some(SimTrade { open_time: time, signal, volume: decision.volume })
    }
}

/// Opens a trade on a signal unless the agents hold or the sizing refuses it.
pub fn open_trade(signal: TradeSignal, action: Action, decision: &RiskDecision, time: i64) -> (r: Option<SimTrade>)
    ensures
        r == opened_trade(signal, action, *decision, time),
{
    if action == Action::Hold || !decision.approved {
        None
    } else {
        Some(SimTrade { open_time: time, signal, volume: decision.volume })
    }
}

/// At the end of the data a trade still open closes by timeout at the last close.
pub fn timeout_exit(open: Option<SimTrade>, last: &Candle) -> (r: Option<(SimTrade, ExitKind, Dec)>)
    ensures
        r == (match open {
            Some(t) => Some((t, ExitKind::Timeout, last.close)),
            None => None::<(SimTrade, ExitKind, Dec)>,
        }),
{
    match open {
        Some(t) => Some((t, ExitKind::Timeout, last.close)),
        None => None,
    }
}

/// A trade closed by a candle closes at its own stop or target, the stop when the candle
/// reaches both, and a candle that reaches neither leaves it open.
pub proof fn lemma_step_closes_at_stop_or_target(t: SimTrade, candle: Candle)
    ensures
        candle_step_of(Some(t), candle) matches CandleStep::Closed(u, kind, price) ==> u == t && (
            (kind == ExitKind::StopLoss && price == t.signal.sl) || (kind == ExitKind::TakeProfit && price == t.signal.tp)),
        candle_step_of(Some(t), candle) matches CandleStep::StillOpen(u) ==> u == t,
        !(candle_step_of(Some(t), candle) is Analyze),
{
}

/// The exit rules on a candle: a candle that reaches the stop (its low at or below it
/// for a long, its high at or above it for a short) closes the trade at the stop, whatever
/// else it reaches; one that reaches only the target (its high at or above it for a long,
/// its low at or below it for a short) closes it at the target; any other candle leaves
/// it open.
pub proof fn lemma_exit_rules(side: Side, sl: Dec, tp: Dec, candle: Candle)
    ensures
        ({
            let reaches_stop = match side {
                Side::Long => dec_le(candle.low, sl),
                Side::Short => dec_le(sl, candle.high),
            };
            let reaches_target = match side {
                Side::Long => dec_le(tp, candle.high),
                Side::Short => dec_le(candle.low, tp),
            };
            &&& reaches_stop ==> exit_on(side, sl, tp, candle) == Some((ExitKind::StopLoss, sl))
            &&& !reaches_stop && reaches_target ==> exit_on(side, sl, tp, candle) == Some((ExitKind::TakeProfit, tp))
            &&& !reaches_stop && !reaches_target ==> exit_on(side, sl, tp, candle) is None
        }),
{
}

} // verus!
