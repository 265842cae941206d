//! Agent votes: actions, their labels, the unanimous quorum, and what each agent is shown.
use vstd::prelude::*;

use crate::decimal::Dec;
use crate::domain::{AccountInfo, Candle, Position, Side};
use crate::ict::analyzer::IctAnalysis;
use crate::ict::types::{Ote, TradeSignal};
use crate::text::{lowercase, str_eq, to_lowercase};

verus! {

/// What an agent votes for.
#[derive(Clone, Copy, Debug, PartialEq, Eq, Structural)]
pub enum Action {
    Buy,
    Sell,
    Hold,
}

/// Author of a chat message.
#[derive(Clone, Copy, Debug, PartialEq, Eq, Structural)]
pub enum Role {
    System,
    User,
    Assistant,
}

/// One chat message sent to the language model.
#[derive(Clone, Debug)]
pub struct Message {
    pub role: Role,
    pub content: String,
}

/// Input of the fundamental agent.
pub struct FundamentalInput<'a> {
    pub symbol: &'a str,
    pub news_context: &'a str,
}

/// The action a lowercase label names: "buy" or "long", "sell" or "short",
/// "hold", "neutral" or "wait".
pub open spec fn action_of_label(s: Seq<char>) -> Option<Action> {
    if s == "buy"@ || s == "long"@ {
        Some(Action::Buy)
    } else if s == "sell"@ || s == "short"@ {
        Some(Action::Sell)
    } else if s == "hold"@ || s == "neutral"@ || s == "wait"@ {
        Some(Action::Hold)
    } else {
        None
    }
}

impl Action {
    /// The action a label already in lowercase names, if any.
    pub fn from_lowercase_label(s: &str) -> (r: Option<Action>)
        ensures
            r == action_of_label(s@),
    {
        if str_eq(s, "buy") || str_eq(s, "long") {
            Some(Action::Buy)
        } else if str_eq(s, "sell") || str_eq(s, "short") {
            Some(Action::Sell)
        } else if str_eq(s, "hold") || str_eq(s, "neutral") || str_eq(s, "wait") {
            Some(Action::Hold)
        } else {
            None
        }
    }

    /// The action a label names, ignoring case; `None` for any other label.
    pub fn parse_label(s: &str) -> (r: Option<Action>)
        ensures
            r == action_of_label(lowercase(s@)),
    {
        let lower = to_lowercase(s);
        Action::from_lowercase_label(lower.as_str())
    }
}

/// The action all four votes agree on, if they do.
pub open spec fn quorum_of(actions: [Action; 4]) -> Option<Action> {
    if actions[1] == actions[0] && actions[2] == actions[0] && actions[3] == actions[0] {
        Some(actions[0])
    } else {
        None
    }
}

/// The unanimous quorum: the common action when all four agents agree.
pub fn quorum_action(actions: [Action; 4]) -> (r: Option<Action>)
    ensures
        r == quorum_of(actions),
        r matches Some(a) ==> forall|i: int| 0 <= i < 4 ==> actions[i] == a,
        r is None ==> exists|i: int, j: int| 0 <= i < 4 && 0 <= j < 4 && actions[i] != actions[j],
{
    let a0 = actions[0];
    if actions[1] == a0 && actions[2] == a0 && actions[3] == a0 {
        Some(a0)
    } else {
        proof {
            if actions[1] != a0 {
                assert(actions[1] != actions[0]);
            } else if actions[2] != a0 {
                assert(actions[2] != actions[0]);
            } else {
                assert(actions[3] != actions[0]);
            }
        }
        None
    }
}

/// The last `n` candles, all of them when there are fewer, oldest first.
pub open spec fn last_window(c: Seq<Candle>, n: int) -> Seq<Candle> {
    c.subrange(if c.len() >= n { c.len() - n } else { 0 }, c.len() as int)
}

/// The last `n` candles, oldest first.
pub fn last_candles(candles: &[Candle], n: usize) -> (r: Vec<Candle>)
    ensures
        r@ == last_window(candles@, n as int),
{
    let len = candles.len();
    let start = if len >= n { len - n } else { 0 };
    let mut v: Vec<Candle> = Vec::new();
    let mut i = start;
    while i < len
        invariant
            start <= i <= len,
            len == candles@.len(),
            v@ == candles@.subrange(start as int, i as int),
        decreases len - i,
    {
        v.push(candles[i]);
        i = i + 1;
    }
    v
}

/// What the technical agent is shown: the symbol, the last five candles, how many gaps,
/// order blocks, structure events and sweeps the analysis found, the side of the latest
/// structure break, the OTE zone and the signal.
pub struct TechnicalPrompt {
    pub symbol: String,
    pub candles: Vec<Candle>,
    pub fvgs: usize,
    pub order_blocks: usize,
    pub structure_events: usize,
    pub sweeps: usize,
    pub bos_side: Option<Side>,
    pub ote: Option<Ote>,
    pub signal: Option<TradeSignal>,
}

/// Selects what the technical agent is shown.
pub fn technical_prompt(symbol: &str, candles: &[Candle], analysis: &IctAnalysis) -> (r: TechnicalPrompt)
    ensures
        r.symbol@ == symbol@,
        r.candles@ == last_window(candles@, 5),
        r.fvgs == analysis.fvgs@.len(),
        r.order_blocks == analysis.order_blocks@.len(),
        r.structure_events == analysis.structure@.len(),
        r.sweeps == analysis.sweeps@.len(),
        r.bos_side == (if analysis.structure@.len() > 0 {
            Some(analysis.structure@.last().side)
        } else {
            None::<Side>
        }),
        r.ote == analysis.ote,
        r.signal == analysis.signal,
{
    let n = analysis.structure.len();
    let bos_side = if n > 0 {
        Some(analysis.structure[n - 1].side)
    } else {
        None
    };
    TechnicalPrompt {
        symbol: String::from_str(symbol),
        candles: last_candles(candles, 5),
        fvgs: analysis.fvgs.len(),
        order_blocks: analysis.order_blocks.len(),
        structure_events: n,
        sweeps: analysis.sweeps.len(),
        bos_side,
        ote: analysis.ote,
        signal: analysis.signal,
    }
}

/// What the sentiment agent is shown: the symbol and the last ten candles (prices and
/// tick volume).
pub struct SentimentPrompt {
    pub symbol: String,
    pub candles: Vec<Candle>,
}

/// Selects what the sentiment agent is shown.
pub fn sentiment_prompt(symbol: &str, candles: &[Candle]) -> (r: SentimentPrompt)
    ensures
        r.symbol@ == symbol@,
        r.candles@ == last_window(candles@, 10),
{
    SentimentPrompt { symbol: String::from_str(symbol), candles: last_candles(candles, 10) }
}

/// What the risk agent is shown: balance, equity, free margin and currency of the
/// account, the number of open positions, and the proposed signal.
pub struct RiskPrompt {
    pub balance: Dec,
    pub equity: Dec,
    pub margin_free: Dec,
    pub currency: String,
    pub open_positions: usize,
    pub signal: Option<TradeSignal>,
}

/// Selects what the risk agent is shown.
pub fn risk_prompt(account: &AccountInfo, positions: &[Position], signal: Option<&TradeSignal>) -> (r: RiskPrompt)
    ensures
        r.balance == account.balance,
        r.equity == account.equity,
        r.margin_free == account.margin_free,
        r.currency@ == account.currency@,
        r.open_positions == positions@.len(),
        r.signal == (match signal {
            Some(s) => Some(*s),
            None => None::<TradeSignal>,
        }),
{
    RiskPrompt {
        balance: account.balance,
        equity: account.equity,
        margin_free: account.margin_free,
        currency: account.currency.clone(),
        open_positions: positions.len(),
        signal: match signal {
            Some(s) => Some(*s),
            None => None,
        },
    }
}

} // verus!
