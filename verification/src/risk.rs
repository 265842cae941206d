//! Fixed-fractional position sizing and the last checks before a trade.
use vstd::prelude::*;

use crate::decimal::{
    checked_div, checked_mul, checked_sub, dec_eq, dec_le, dec_lt, dec_min, spec_abs, spec_div, spec_floor,
    spec_mul, spec_sub, spec_zero, Dec,
};
use crate::domain::AccountInfo;
use crate::ict::types::TradeSignal;

verus! {

/// Per-symbol sizing parameters.
#[derive(Clone, Copy, Debug)]
pub struct RiskConfig {
    /// Fraction of the balance risked per trade (0.01 is 1%).
    pub risk_pct: Dec,
    /// Account currency per 1.0 lot per 1.0 price unit.
    pub value_per_lot: Dec,
    /// Broker minimum lot.
    pub min_volume: Dec,
    /// Broker maximum lot.
    pub max_volume: Dec,
    /// Broker lot step.
    pub volume_step: Dec,
}

/// The sizing result: the volume is zero and a reason is given when the trade is refused.
#[derive(Clone, Debug)]
pub struct RiskDecision {
    pub volume: Dec,
    pub approved: bool,
    pub reason: Option<String>,
}

/// The verdict of the sizing rules.
#[derive(Clone, Copy, Debug)]
pub enum RiskVerdict {
    SlEqualsEntry,
    BelowMinimum,
    InsufficientMargin,
    Approved(Dec),
}

/// The verdict once the floored volume is known: refused below the minimum, clamped to
/// the maximum, refused when the free margin is not positive.
pub open spec fn verdict_for_volume(volume: Dec, config: RiskConfig, margin_free: Dec) -> RiskVerdict {
    if dec_lt(volume, config.min_volume) {
        RiskVerdict::BelowMinimum
    } else if dec_le(margin_free, spec_zero()) {
        RiskVerdict::InsufficientMargin
    } else {
        RiskVerdict::Approved(dec_min(volume, config.max_volume))
    }
}

/// The verdict of the sizing rules, `None` where a step overflows a decimal or divides
/// by zero (where the computation has no result):
/// `distance = |entry - sl|`, refused when zero; `risk = balance * risk_pct`;
/// `raw = risk / (distance * value_per_lot)`; `volume = floor(raw / step) * step`.
pub open spec fn sizing_outcome(balance: Dec, margin_free: Dec, entry: Dec, sl: Dec, config: RiskConfig) -> Option<RiskVerdict> {
    match spec_sub(entry, sl) {
        None => None,
        Some(diff) => {
            let distance = spec_abs(diff);
            if dec_eq(distance, spec_zero()) {
                Some(RiskVerdict::SlEqualsEntry)
            } else {
                match (spec_mul(balance, config.risk_pct), spec_mul(distance, config.value_per_lot)) {
                    (Some(risk_amount), Some(per_lot)) => match spec_div(risk_amount, per_lot) {
                        None => None,
                        Some(raw) => match spec_div(raw, config.volume_step) {
                            None => None,
                            Some(steps) => match spec_mul(spec_floor(steps), config.volume_step) {
                                None => None,
                                Some(volume) => Some(verdict_for_volume(volume, config, margin_free)),
                            },
                        },
                    },
                    _ => None,
                }
            }
        },
    }
}

/// The rejection message of a verdict.
pub open spec fn verdict_message(v: RiskVerdict) -> Seq<char> {
    match v {
        RiskVerdict::SlEqualsEntry => "SL equals entry"@,
        RiskVerdict::BelowMinimum => "volume below minimum"@,
        RiskVerdict::InsufficientMargin => "insufficient margin"@,
        RiskVerdict::Approved(_) => Seq::empty(),
    }
}

/// A decision carries out a verdict.
pub open spec fn decision_matches(d: RiskDecision, v: RiskVerdict) -> bool {
    match v {
        RiskVerdict::Approved(volume) => d.approved && d.volume == volume && d.reason is None,
        _ => !d.approved && d.volume == spec_zero() && (d.reason matches Some(m) && m@ == verdict_message(v)),
    }
}

fn reject(v: RiskVerdict) -> (r: RiskDecision)
    requires
        !(v is Approved),
    ensures
        decision_matches(r, v),
{
    let message = match v {
        RiskVerdict::SlEqualsEntry => String::from_str("SL equals entry"),
        RiskVerdict::BelowMinimum => String::from_str("volume below minimum"),
        _ => String::from_str("insufficient margin"),
    };
    RiskDecision { volume: Dec::zero(), approved: false, reason: Some(message) }
}

/// The decision once the floored volume is known.
pub fn decide_volume(volume: Dec, config: &RiskConfig, margin_free: Dec) -> (r: RiskDecision)
    ensures
        decision_matches(r, verdict_for_volume(volume, *config, margin_free)),
{
    if volume.lt(&config.min_volume) {
        return reject(RiskVerdict::BelowMinimum);
    }
    let volume = volume.min(config.max_volume);
    if margin_free.le(&Dec::zero()) {
        return reject(RiskVerdict::InsufficientMargin);
    }
    RiskDecision { volume, approved: true, reason: None }
}

/// The sizing rules with `None` where a step has no result.
pub fn evaluate_checked(account: &AccountInfo, signal: &TradeSignal, config: &RiskConfig) -> (r: Option<RiskDecision>)
    ensures
        r is Some <==> sizing_outcome(account.balance, account.margin_free, signal.entry, signal.sl, *config) is Some,
        r matches Some(d) ==> decision_matches(
            d,
            sizing_outcome(account.balance, account.margin_free, signal.entry, signal.sl, *config).unwrap(),
        ),
{
    let diff = match checked_sub(signal.entry, signal.sl) {
        Some(d) => d,
        None => return None,
    };
    let sl_distance = diff.abs();
    if sl_distance.num_eq(&Dec::zero()) {
        return Some(reject(RiskVerdict::SlEqualsEntry));
    }
    let risk_amount = checked_mul(account.balance, config.risk_pct);
    let per_lot = checked_mul(sl_distance, config.value_per_lot);
    let (risk_amount, per_lot) = match (risk_amount, per_lot) {
        (Some(a), Some(b)) => (a, b),
        _ => return None,
    };
    let raw_volume = match checked_div(risk_amount, per_lot) {
        Some(v) => v,
        None => return None,
    };
    let steps = match checked_div(raw_volume, config.volume_step) {
        Some(s) => s,
        None => return None,
    };
    let volume = match checked_mul(steps.floor(), config.volume_step) {
        Some(v) => v,
        None => return None,
    };
    Some(decide_volume(volume, config, account.margin_free))
}

/// Fixed-fractional sizing: risk `balance * risk_pct` over the distance from entry to
/// stop, floor the volume to the lot step, refuse it below the minimum, clamp it to the
/// maximum, and refuse when the free margin is not positive.
pub fn evaluate(account: &AccountInfo, signal: &TradeSignal, config: &RiskConfig) -> (r: RiskDecision)
    requires
        sizing_outcome(account.balance, account.margin_free, signal.entry, signal.sl, *config) is Some,
    ensures
        decision_matches(r, sizing_outcome(account.balance, account.margin_free, signal.entry, signal.sl, *config).unwrap()),
        r.approved ==> dec_le(r.volume, config.max_volume),
        r.approved && dec_le(config.min_volume, config.max_volume) ==> dec_le(config.min_volume, r.volume),
        r.approved ==> dec_lt(spec_zero(), account.margin_free),
        r.approved ==> r.reason is None,
        !r.approved ==> r.volume == spec_zero() && r.reason is Some,
{
    evaluate_checked(account, signal, config).unwrap()
}

/// `evaluate`, or `None` where its arithmetic has no result (a decimal overflow, or a
/// zero divisor).
pub fn try_evaluate(account: &AccountInfo, signal: &TradeSignal, config: &RiskConfig) -> (r: Option<RiskDecision>)
    ensures
        r is Some <==> sizing_outcome(account.balance, account.margin_free, signal.entry, signal.sl, *config) is Some,
        r matches Some(d) ==> decision_matches(
            d,
            sizing_outcome(account.balance, account.margin_free, signal.entry, signal.sl, *config).unwrap(),
        ),
{
    evaluate_checked(account, signal, config)
}

} // verus!
