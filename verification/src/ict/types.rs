//! Records produced by the ICT detectors.
use vstd::prelude::*;

use crate::decimal::Dec;
use crate::domain::Side;

verus! {

/// Fair value gap: a three-candle imbalance.  `formed_at` is the time of the middle candle.
#[derive(Clone, Copy, Debug)]
pub struct Fvg {
    pub top: Dec,
    pub bottom: Dec,
    pub formed_at: i64,
    pub side: Side,
    pub mitigated: bool,
}

/// Order block: the last opposite candle before a swing.
#[derive(Clone, Copy, Debug)]
pub struct OrderBlock {
    pub top: Dec,
    pub bottom: Dec,
    pub formed_at: i64,
    pub side: Side,
    pub mitigated: bool,
}

/// Break of structure, or change of character (a break against the previous one).
#[derive(Clone, Copy, Debug, PartialEq, Eq, Structural)]
pub enum StructureEvent {
    Bos,
    Choch,
}

/// A close beyond the latest unbroken swing level.
#[derive(Clone, Copy, Debug)]
pub struct BosChoch {
    pub kind: StructureEvent,
    pub level: Dec,
    pub broken_at: i64,
    pub side: Side,
}

/// A wick beyond a swing level with the close back inside.
#[derive(Clone, Copy, Debug)]
pub struct LiquiditySweep {
    pub level: Dec,
    pub swept_at: i64,
    pub side: Side,
}

/// Where the last close sits in the range: above, below or at its midpoint.
#[derive(Clone, Copy, Debug, PartialEq, Eq, Structural)]
pub enum PdZone {
    Premium,
    Discount,
    Equilibrium,
}

/// Premium/discount array of the latest impulse range.
#[derive(Clone, Copy, Debug)]
pub struct PdArray {
    pub range_high: Dec,
    pub range_low: Dec,
    pub equilibrium: Dec,
    pub current_zone: PdZone,
}

/// Optimal trade entry: the 61.8%-78.6% retracement of the latest impulse.
#[derive(Clone, Copy, Debug)]
pub struct Ote {
    pub top: Dec,
    pub bottom: Dec,
    pub side: Side,
}

/// Which confluence conditions a signal met.
#[derive(Clone, Copy, Debug, Default)]
pub struct ConfluenceFlags {
    pub has_bos_choch: bool,
    pub in_pd_zone: bool,
    pub ob_in_ote: bool,
    pub fvg_in_ote: bool,
    pub sweep_present: bool,
}

/// A complete entry signal.
#[derive(Clone, Copy, Debug)]
pub struct TradeSignal {
    pub side: Side,
    pub entry: Dec,
    pub sl: Dec,
    pub tp: Dec,
    pub confluence: ConfluenceFlags,
}

} // verus!
