//! The ICT rules stated from their inputs: which swings the impulse range, the
//! premium/discount array and the OTE zone are drawn from, which levels a structure break
//! is measured against, what makes a fair value gap, an order block or a liquidity sweep
//! and when a zone counts as mitigated, and where the entry, stop and target of a signal lie.
use vstd::prelude::*;

use crate::decimal::{dec_le, dec_lt, dec_max, dec_min, spec_add, spec_div, spec_mul, spec_sub, spec_whole, spec_zero, Dec};
use crate::domain::{Candle, Side};
use crate::ict::analyzer::{confluence_outcome, last_fvg_in_zone, last_ob_in_zone};
use crate::ict::detect::{
    absorb_swings, closes_above_from, closes_at_or_above_after, closes_at_or_below_after, closes_below_from, fib618,
    fib786, fvgs_at, fvgs_upto, highest_high, impulse_range, last_bearish_before, last_bullish_before, latest_swing,
    lowest_low, ob_for, obs_upto, ote_outcome, pd_outcome, spec_detect_fvg, spec_detect_ob, spec_detect_structure,
    spec_detect_sweeps, structure_upto, sweep_of, sweeps_by, sweeps_upto, swings_within,
};
use crate::ict::laws::lemma_structure_no_lookahead;
use crate::ict::swing::{SwingKind, SwingPoint};
use crate::ict::types::{BosChoch, Fvg, LiquiditySweep, OrderBlock, Ote, PdArray, PdZone, TradeSignal};

verus! {

// ---------------------------------------------------------------------------
// The latest swing
// ---------------------------------------------------------------------------

/// Swing `s` is of `kind` and formed before candle `bound` (any candle when there is none).
pub open spec fn kind_before(s: SwingPoint, kind: SwingKind, bound: Option<usize>) -> bool {
    &&& s.kind == kind
    &&& bound matches Some(b) ==> s.index < b
}

/// `sw[i]` is the latest swing of `kind` before `bound` among swings `0 .. m`: no such
/// swing has a larger candle index, and none listed after it has the same index.
pub open spec fn latest_among(sw: Seq<SwingPoint>, kind: SwingKind, bound: Option<usize>, m: int, i: int) -> bool {
    &&& 0 <= i < m <= sw.len()
    &&& kind_before(sw[i], kind, bound)
    &&& forall|j: int| #![trigger sw[j]] 0 <= j < m && kind_before(sw[j], kind, bound) ==> sw[j].index <= sw[i].index
    &&& forall|j: int| #![trigger sw[j]] i < j < m && kind_before(sw[j], kind, bound) ==> sw[j].index < sw[i].index
}

/// `sw[i]` is the latest swing of `kind` before `bound`.
pub open spec fn is_latest(sw: Seq<SwingPoint>, kind: SwingKind, bound: Option<usize>, i: int) -> bool {
    latest_among(sw, kind, bound, sw.len() as int, i)
}

proof fn lemma_latest_swing_upto(sw: Seq<SwingPoint>, kind: SwingKind, bound: Option<usize>, m: int)
    requires
        0 <= m <= sw.len(),
    ensures
        latest_swing(sw, kind, bound, m) matches Some(s) ==> exists|i: int| latest_among(sw, kind, bound, m, i) && sw[i] == s,
        latest_swing(sw, kind, bound, m) is None ==> forall|j: int| #![trigger sw[j]] 0 <= j < m ==> !kind_before(sw[j], kind, bound),
    decreases m,
{
    if m > 0 {
        lemma_latest_swing_upto(sw, kind, bound, m - 1);
        let s = sw[m - 1];
        match latest_swing(sw, kind, bound, m - 1) {
            Some(a) => {
                let i = choose|i: int| latest_among(sw, kind, bound, m - 1, i) && sw[i] == a;
                if kind_before(s, kind, bound) && a.index <= s.index {
                    assert(latest_among(sw, kind, bound, m, m - 1));
                } else {
                    assert(latest_among(sw, kind, bound, m, i));
                }
            },
            None => {
                if kind_before(s, kind, bound) {
                    assert(latest_among(sw, kind, bound, m, m - 1));
                }
            },
        }
    }
}

/// Only one swing is the latest of a kind.
pub proof fn lemma_latest_is_unique(sw: Seq<SwingPoint>, kind: SwingKind, bound: Option<usize>, i: int, j: int)
    requires
        is_latest(sw, kind, bound, i),
        is_latest(sw, kind, bound, j),
    ensures
        i == j,
{
    assert(sw[j].index <= sw[i].index);
    assert(sw[i].index <= sw[j].index);
}

/// The swing the selection picks is the latest of its kind before the bound, and there is
/// none only when no swing of that kind formed before it.
pub proof fn lemma_latest_swing_is_latest(sw: Seq<SwingPoint>, kind: SwingKind, bound: Option<usize>)
    ensures
        latest_swing(sw, kind, bound, sw.len() as int) matches Some(s) ==> exists|i: int| is_latest(sw, kind, bound, i) && sw[i] == s,
        latest_swing(sw, kind, bound, sw.len() as int) is None <==> forall|j: int| #![trigger sw[j]] 0 <= j < sw.len() ==> !kind_before(sw[j], kind, bound),
{
    lemma_latest_swing_upto(sw, kind, bound, sw.len() as int);
}

/// The impulse of a bias as two swings: for a long, `sw[a]` is the latest swing high and
/// `sw[b]` the latest swing low formed before it; for a short, `sw[a]` is the latest swing
/// low and `sw[b]` the latest swing high formed before it.
pub open spec fn impulse_pair(sw: Seq<SwingPoint>, bias: Side, a: int, b: int) -> bool {
    let (anchor_kind, base_kind) = match bias {
        Side::Long => (SwingKind::High, SwingKind::Low),
        Side::Short => (SwingKind::Low, SwingKind::High),
    };
    &&& is_latest(sw, anchor_kind, None, a)
    &&& is_latest(sw, base_kind, Some(sw[a].index), b)
}

/// (high, low) of an impulse pair.
pub open spec fn pair_range(sw: Seq<SwingPoint>, bias: Side, a: int, b: int) -> (Dec, Dec) {
    match bias {
        Side::Long => (sw[a].price, sw[b].price),
        Side::Short => (sw[b].price, sw[a].price),
    }
}

/// The impulse range of a bias comes from the latest swing of the anchor kind and the
/// latest swing of the other kind before it; there is none exactly when no such pair
/// exists.
pub proof fn lemma_impulse_is_latest_pair(sw: Seq<SwingPoint>, bias: Side)
    ensures
        impulse_range(sw, bias) matches Some(hl) ==> exists|a: int, b: int| impulse_pair(sw, bias, a, b) && hl == pair_range(sw, bias, a, b),
        impulse_range(sw, bias) is None <==> !exists|a: int, b: int| impulse_pair(sw, bias, a, b),
{
    let (ak, bk) = match bias {
        Side::Long => (SwingKind::High, SwingKind::Low),
        Side::Short => (SwingKind::Low, SwingKind::High),
    };
    lemma_latest_swing_is_latest(sw, ak, None);
    match latest_swing(sw, ak, None, sw.len() as int) {
        Some(anchor) => {
            let a = choose|a: int| is_latest(sw, ak, None, a) && sw[a] == anchor;
            lemma_latest_swing_is_latest(sw, bk, Some(anchor.index));
            match latest_swing(sw, bk, Some(anchor.index), sw.len() as int) {
                Some(base) => {
                    let b = choose|b: int| is_latest(sw, bk, Some(anchor.index), b) && sw[b] == base;
                    assert(impulse_pair(sw, bias, a, b));
                },
                None => {
                    assert forall|a2: int, b2: int| !impulse_pair(sw, bias, a2, b2) by {
                        if impulse_pair(sw, bias, a2, b2) {
                            lemma_latest_is_unique(sw, ak, None, a, a2);
                            assert(kind_before(sw[b2], bk, Some(anchor.index)));
                        }
                    }
                },
            }
        },
        None => {
            assert forall|a2: int, b2: int| !impulse_pair(sw, bias, a2, b2) by {
                if impulse_pair(sw, bias, a2, b2) {
                    assert(kind_before(sw[a2], ak, None));
                }
            }
        },
    }
}

/// `p` is the highest swing-high price: some swing high has it, and none is higher.
pub open spec fn is_highest_high(sw: Seq<SwingPoint>, p: Dec) -> bool {
    &&& exists|i: int| #![trigger sw[i]] 0 <= i < sw.len() && sw[i].kind == SwingKind::High && sw[i].price == p
    &&& forall|j: int| #![trigger sw[j]] 0 <= j < sw.len() && sw[j].kind == SwingKind::High ==> dec_le(sw[j].price, p)
}

/// `p` is the lowest swing-low price: some swing low has it, and none is lower.
pub open spec fn is_lowest_low(sw: Seq<SwingPoint>, p: Dec) -> bool {
    &&& exists|i: int| #![trigger sw[i]] 0 <= i < sw.len() && sw[i].kind == SwingKind::Low && sw[i].price == p
    &&& forall|j: int| #![trigger sw[j]] 0 <= j < sw.len() && sw[j].kind == SwingKind::Low ==> dec_le(p, sw[j].price)
}

proof fn lemma_extremes_upto(sw: Seq<SwingPoint>, m: int)
    requires
        0 <= m <= sw.len(),
    ensures
        highest_high(sw, m) matches Some(p) ==> (exists|i: int| #![trigger sw[i]] 0 <= i < m && sw[i].kind == SwingKind::High && sw[i].price == p)
            && forall|j: int| #![trigger sw[j]] 0 <= j < m && sw[j].kind == SwingKind::High ==> dec_le(sw[j].price, p),
        highest_high(sw, m) is None ==> forall|j: int| #![trigger sw[j]] 0 <= j < m ==> sw[j].kind != SwingKind::High,
        lowest_low(sw, m) matches Some(p) ==> (exists|i: int| #![trigger sw[i]] 0 <= i < m && sw[i].kind == SwingKind::Low && sw[i].price == p)
            && forall|j: int| #![trigger sw[j]] 0 <= j < m && sw[j].kind == SwingKind::Low ==> dec_le(p, sw[j].price),
        lowest_low(sw, m) is None ==> forall|j: int| #![trigger sw[j]] 0 <= j < m ==> sw[j].kind != SwingKind::Low,
    decreases m,
{
    if m > 0 {
        lemma_extremes_upto(sw, m - 1);
        assert(sw[m - 1] == sw[m - 1]);
    }
}

/// The highest swing high and the lowest swing low are what their names say, and there is
/// none only when there is no swing of that kind.
pub proof fn lemma_extremes(sw: Seq<SwingPoint>)
    ensures
        highest_high(sw, sw.len() as int) matches Some(p) ==> is_highest_high(sw, p),
        highest_high(sw, sw.len() as int) is None <==> forall|j: int| #![trigger sw[j]] 0 <= j < sw.len() ==> sw[j].kind != SwingKind::High,
        lowest_low(sw, sw.len() as int) matches Some(p) ==> is_lowest_low(sw, p),
        lowest_low(sw, sw.len() as int) is None <==> forall|j: int| #![trigger sw[j]] 0 <= j < sw.len() ==> sw[j].kind != SwingKind::Low,
{
    lemma_extremes_upto(sw, sw.len() as int);
}

/// The zone of a close against an equilibrium: premium above it, discount below it,
/// equilibrium at it.
pub open spec fn zone_of_close(close: Dec, equilibrium: Dec, zone: PdZone) -> bool {
    &&& zone == PdZone::Premium <==> dec_lt(equilibrium, close)
    &&& zone == PdZone::Discount <==> dec_lt(close, equilibrium)
    &&& zone == PdZone::Equilibrium <==> !dec_lt(equilibrium, close) && !dec_lt(close, equilibrium)
}

/// Every premium/discount array classifies the last close against its equilibrium; without
/// a bias it is drawn over the highest swing high and the lowest swing low.
pub proof fn lemma_pd_array_zone_and_plain_range(c: Seq<Candle>, sw: Seq<SwingPoint>, bias: Option<Side>)
    ensures
        pd_outcome(c, sw, bias) matches Some(Some(pd)) ==> c.len() > 0 && zone_of_close(c.last().close, pd.equilibrium, pd.current_zone),
        bias is None ==> (pd_outcome(c, sw, bias) matches Some(Some(pd)) ==> is_highest_high(sw, pd.range_high) && is_lowest_low(sw, pd.range_low)
            && dec_lt(pd.range_low, pd.range_high)),
{
    lemma_extremes(sw);
}

// ---------------------------------------------------------------------------
// Premium / discount array and OTE zone
// ---------------------------------------------------------------------------

/// With a bias, the premium/discount array is drawn over the latest impulse: its high and
/// low are the prices of the impulse pair (for a long the latest swing high and the latest
/// swing low before it), its equilibrium their decimal midpoint; there is no array when
/// there is no such pair, when the high is not above the low, or when there are no candles.
pub proof fn lemma_pd_array_from_latest_impulse(c: Seq<Candle>, sw: Seq<SwingPoint>, bias: Side)
    ensures
        pd_outcome(c, sw, Some(bias)) matches Some(Some(pd)) ==> exists|a: int, b: int| #![trigger impulse_pair(sw, bias, a, b)]
            impulse_pair(sw, bias, a, b)
            && (pd.range_high, pd.range_low) == pair_range(sw, bias, a, b)
            && dec_lt(pd.range_low, pd.range_high)
            && (spec_add(pd.range_high, pd.range_low) matches Some(sum) && spec_div(sum, spec_whole(2)) == Some(pd.equilibrium)),
        (!exists|a: int, b: int| impulse_pair(sw, bias, a, b)) ==> pd_outcome(c, sw, Some(bias)) == Some(None::<PdArray>),
        forall|a: int, b: int| #![trigger impulse_pair(sw, bias, a, b)]
            impulse_pair(sw, bias, a, b) && dec_lt(pair_range(sw, bias, a, b).1, pair_range(sw, bias, a, b).0) && c.len() > 0
            ==> (pd_outcome(c, sw, Some(bias)) is None || (pd_outcome(c, sw, Some(bias)) matches Some(Some(pd))
                && (pd.range_high, pd.range_low) == pair_range(sw, bias, a, b))),
{
    lemma_impulse_is_latest_pair(sw, bias);
    assert forall|a: int, b: int| #![trigger impulse_pair(sw, bias, a, b)]
        impulse_pair(sw, bias, a, b) implies impulse_range(sw, bias) == Some(pair_range(sw, bias, a, b)) by {
        lemma_impulse_pair_unique(sw, bias, a, b);
    }
}

/// An impulse pair is the one the impulse range is drawn from.
proof fn lemma_impulse_pair_unique(sw: Seq<SwingPoint>, bias: Side, a: int, b: int)
    requires
        impulse_pair(sw, bias, a, b),
    ensures
        impulse_range(sw, bias) == Some(pair_range(sw, bias, a, b)),
{
    lemma_impulse_is_latest_pair(sw, bias);
    let hl = impulse_range(sw, bias).unwrap();
    let (a2, b2) = choose|a2: int, b2: int| impulse_pair(sw, bias, a2, b2) && hl == pair_range(sw, bias, a2, b2);
    let (ak, bk) = match bias {
        Side::Long => (SwingKind::High, SwingKind::Low),
        Side::Short => (SwingKind::Low, SwingKind::High),
    };
    lemma_latest_is_unique(sw, ak, None, a, a2);
    lemma_latest_is_unique(sw, bk, Some(sw[a].index), b, b2);
}

/// The OTE zone of a range (high, low) for a bias, as decimal arithmetic computes it: for
/// a long `[high - 0.786 * (high - low), high - 0.618 * (high - low)]`, for a short
/// `[low + 0.618 * (high - low), low + 0.786 * (high - low)]`.
pub open spec fn ote_bounds(h: Dec, l: Dec, bias: Side, top: Dec, bottom: Dec) -> bool {
    spec_sub(h, l) matches Some(range) && dec_lt(spec_zero(), range) && match bias {
        Side::Long => (spec_mul(fib618(), range) matches Some(a) && spec_sub(h, a) == Some(top))
            && (spec_mul(fib786(), range) matches Some(b) && spec_sub(h, b) == Some(bottom)),
        Side::Short => (spec_mul(fib786(), range) matches Some(a) && spec_add(l, a) == Some(top))
            && (spec_mul(fib618(), range) matches Some(b) && spec_add(l, b) == Some(bottom)),
    }
}

/// The OTE zone is the 61.8%-78.6% retracement of the latest impulse (not of the global
/// extremes): a zone is given only over an impulse pair with a positive range, and over
/// such a pair it is given unless the arithmetic overflows; with no pair there is none.
pub proof fn lemma_ote_from_latest_impulse(sw: Seq<SwingPoint>, bias: Side)
    ensures
        ote_outcome(sw, bias) matches Some(Some(o)) ==> o.side == bias && exists|a: int, b: int| #![trigger impulse_pair(sw, bias, a, b)]
            impulse_pair(sw, bias, a, b)
            && ote_bounds(pair_range(sw, bias, a, b).0, pair_range(sw, bias, a, b).1, bias, o.top, o.bottom),
        (!exists|a: int, b: int| impulse_pair(sw, bias, a, b)) ==> ote_outcome(sw, bias) == Some(None::<crate::ict::types::Ote>),
        forall|a: int, b: int, top: Dec, bottom: Dec| #![trigger impulse_pair(sw, bias, a, b), ote_bounds(pair_range(sw, bias, a, b).0, pair_range(sw, bias, a, b).1, bias, top, bottom)]
            impulse_pair(sw, bias, a, b) && ote_bounds(pair_range(sw, bias, a, b).0, pair_range(sw, bias, a, b).1, bias, top, bottom)
            ==> (ote_outcome(sw, bias) matches Some(Some(o)) && o.top == top && o.bottom == bottom),
{
    lemma_impulse_is_latest_pair(sw, bias);
    assert forall|a: int, b: int| #![trigger impulse_pair(sw, bias, a, b)]
        impulse_pair(sw, bias, a, b) implies impulse_range(sw, bias) == Some(pair_range(sw, bias, a, b)) by {
        lemma_impulse_pair_unique(sw, bias, a, b);
    }
}

// ---------------------------------------------------------------------------
// Fair value gaps
// ---------------------------------------------------------------------------

/// Some candle after `i` closes at or below `level`.
pub open spec fn later_close_at_or_below(c: Seq<Candle>, i: int, level: Dec) -> bool {
    exists|j: int| #![trigger c[j]] i < j < c.len() && dec_le(c[j].close, level)
}

/// Some candle after `i` closes at or above `level`.
pub open spec fn later_close_at_or_above(c: Seq<Candle>, i: int, level: Dec) -> bool {
    exists|j: int| #![trigger c[j]] i < j < c.len() && dec_le(level, c[j].close)
}

proof fn lemma_close_tests_agree(c: Seq<Candle>, i: int, level: Dec)
    ensures
        closes_at_or_below_after(c, i, level) == later_close_at_or_below(c, i, level),
        closes_at_or_above_after(c, i, level) == later_close_at_or_above(c, i, level),
{
    if closes_at_or_below_after(c, i, level) {
        let j = choose|j: int| #![trigger c[j]] i < j < c.len() && dec_le(c[j].close, level);
        assert(i < j < c.len() && dec_le(c[j].close, level));
    }
    if later_close_at_or_below(c, i, level) {
        let j = choose|j: int| #![trigger c[j]] i < j < c.len() && dec_le(c[j].close, level);
        assert(i < j < c.len() && dec_le(c[j].close, level));
    }
    if closes_at_or_above_after(c, i, level) {
        let j = choose|j: int| #![trigger c[j]] i < j < c.len() && dec_le(level, c[j].close);
        assert(i < j < c.len() && dec_le(level, c[j].close));
    }
    if later_close_at_or_above(c, i, level) {
        let j = choose|j: int| #![trigger c[j]] i < j < c.len() && dec_le(level, c[j].close);
        assert(i < j < c.len() && dec_le(level, c[j].close));
    }
}

/// `f` is the gap completed by candle `i`: a bullish gap between candle `i-2`'s high
/// (bottom) and candle `i`'s low (top) when the low is above that high, mitigated exactly
/// when a later candle closes at or below its top; or a bearish gap between candle `i`'s
/// high (bottom) and candle `i-2`'s low (top) when that low is above the high, mitigated
/// exactly when a later candle closes at or above its bottom.  It forms at candle `i-1`.
pub open spec fn gap_at(c: Seq<Candle>, i: int, f: Fvg) -> bool {
    &&& 2 <= i < c.len()
    &&& f.formed_at == c[i - 1].time
    &&& match f.side {
        Side::Long => {
            &&& f.bottom == c[i - 2].high
            &&& f.top == c[i].low
            &&& dec_lt(f.bottom, f.top)
            &&& f.mitigated == later_close_at_or_below(c, i, f.top)
        },
        Side::Short => {
            &&& f.top == c[i - 2].low
            &&& f.bottom == c[i].high
            &&& dec_lt(f.bottom, f.top)
            &&& f.mitigated == later_close_at_or_above(c, i, f.bottom)
        },
    }
}

proof fn lemma_gaps_at(c: Seq<Candle>, i: int)
    requires
        2 <= i < c.len(),
    ensures
        forall|n: int| #![trigger fvgs_at(c, i)[n]] 0 <= n < fvgs_at(c, i).len() ==> gap_at(c, i, fvgs_at(c, i)[n]),
        dec_lt(c[i - 2].high, c[i].low) ==> fvgs_at(c, i).len() >= 1 && fvgs_at(c, i)[0].side == Side::Long,
        dec_lt(c[i].high, c[i - 2].low) ==> fvgs_at(c, i).len() >= 1
            && fvgs_at(c, i)[fvgs_at(c, i).len() - 1].side == Side::Short,
{
    let bull = if dec_lt(c[i - 2].high, c[i].low) {
        seq![Fvg {
            top: c[i].low,
            bottom: c[i - 2].high,
            formed_at: c[i - 1].time,
            side: Side::Long,
            mitigated: closes_at_or_below_after(c, i, c[i].low),
        }]
    } else {
        Seq::empty()
    };
    let bear = if dec_lt(c[i].high, c[i - 2].low) {
        seq![Fvg {
            top: c[i - 2].low,
            bottom: c[i].high,
            formed_at: c[i - 1].time,
            side: Side::Short,
            mitigated: closes_at_or_above_after(c, i, c[i].high),
        }]
    } else {
        Seq::empty()
    };
    lemma_close_tests_agree(c, i, c[i].low);
    lemma_close_tests_agree(c, i, c[i].high);
    assert(fvgs_at(c, i) == bull + bear);
    assert forall|n: int| #![trigger fvgs_at(c, i)[n]] 0 <= n < fvgs_at(c, i).len() implies gap_at(c, i, fvgs_at(c, i)[n]) by {
        if n < bull.len() {
            assert((bull + bear)[n] == bull[n]);
        } else {
            assert((bull + bear)[n] == bear[n - bull.len()]);
        }
    }
    if dec_lt(c[i].high, c[i - 2].low) {
        assert((bull + bear)[(bull + bear).len() - 1] == bear[0]);
    }
    if dec_lt(c[i - 2].high, c[i].low) {
        assert((bull + bear)[0] == bull[0]);
    }
}

/// The candle that completed gap `n` of the gaps of candles `0 .. k`.
spec fn gap_origin(c: Seq<Candle>, k: int, n: int) -> int
    decreases k,
{
    if k <= 2 {
        0
    } else if n < fvgs_upto(c, k - 1).len() {
        gap_origin(c, k - 1, n)
    } else {
        k - 1
    }
}

/// Gap `n` of candles `0 .. k` is the gap of candle `gap_origin(c, k, n)`, before `k`.
spec fn traced(c: Seq<Candle>, k: int, n: int) -> bool {
    gap_origin(c, k, n) < k && gap_at(c, gap_origin(c, k, n), fvgs_upto(c, k)[n])
}

proof fn lemma_gaps_upto(c: Seq<Candle>, k: int)
    requires
        k <= c.len(),
    ensures
        forall|n: int| 0 <= n < fvgs_upto(c, k).len() ==> #[trigger] traced(c, k, n),
    decreases k,
{
    if k > 2 {
        lemma_gaps_upto(c, k - 1);
        let prev = fvgs_upto(c, k - 1);
        let here = fvgs_at(c, k - 1);
        assert(fvgs_upto(c, k) == prev + here);
        lemma_gaps_at(c, k - 1);
        assert forall|n: int| 0 <= n < fvgs_upto(c, k).len() implies #[trigger] traced(c, k, n) by {
            if n < prev.len() {
                assert((prev + here)[n] == prev[n]);
                assert(gap_origin(c, k, n) == gap_origin(c, k - 1, n));
                assert(traced(c, k - 1, n));
            } else {
                assert((prev + here)[n] == here[n - prev.len()]);
                assert(gap_origin(c, k, n) == k - 1);
                assert(gap_at(c, k - 1, here[n - prev.len()]));
            }
        }
    } else {
        assert(fvgs_upto(c, k).len() == 0);
    }
}

proof fn lemma_gaps_found_upto(c: Seq<Candle>, k: int, i: int)
    requires
        2 <= i < k <= c.len(),
    ensures
        dec_lt(c[i - 2].high, c[i].low) ==> exists|n: int| 0 <= n < fvgs_upto(c, k).len() && fvgs_upto(c, k)[n].side == Side::Long
            && gap_at(c, i, fvgs_upto(c, k)[n]),
        dec_lt(c[i].high, c[i - 2].low) ==> exists|n: int| 0 <= n < fvgs_upto(c, k).len() && fvgs_upto(c, k)[n].side == Side::Short
            && gap_at(c, i, fvgs_upto(c, k)[n]),
    decreases k,
{
    let prev = fvgs_upto(c, k - 1);
    let here = fvgs_at(c, k - 1);
    assert(fvgs_upto(c, k) == prev + here);
    if i < k - 1 {
        lemma_gaps_found_upto(c, k - 1, i);
        if dec_lt(c[i - 2].high, c[i].low) {
            let n = choose|n: int| 0 <= n < prev.len() && prev[n].side == Side::Long && gap_at(c, i, prev[n]);
            assert((prev + here)[n] == prev[n]);
        }
        if dec_lt(c[i].high, c[i - 2].low) {
            let n = choose|n: int| 0 <= n < prev.len() && prev[n].side == Side::Short && gap_at(c, i, prev[n]);
            assert((prev + here)[n] == prev[n]);
        }
    } else {
        lemma_gaps_at(c, i);
        if dec_lt(c[i - 2].high, c[i].low) {
            assert((prev + here)[prev.len() as int] == here[0]);
            assert(gap_at(c, i, here[0]));
        }
        if dec_lt(c[i].high, c[i - 2].low) {
            let m = here.len() - 1;
            assert((prev + here)[prev.len() + m] == here[m]);
            assert(gap_at(c, i, here[m]));
        }
    }
}

/// `f` is the gap of some candle.
pub open spec fn is_gap_of(c: Seq<Candle>, f: Fvg) -> bool {
    exists|i: int| gap_at(c, i, f)
}

/// The gap of `side` completed by candle `i` is among the gaps found.
pub open spec fn gap_found(c: Seq<Candle>, i: int, side: Side) -> bool {
    exists|n: int| 0 <= n < spec_detect_fvg(c).len() && spec_detect_fvg(c)[n].side == side && gap_at(c, i, #[trigger] spec_detect_fvg(c)[n])
}

/// Every fair value gap found is the bullish or bearish gap of some candle, with the
/// mitigation rule of its side (a bearish gap is mitigated exactly when a later close
/// reaches its bottom, a bullish one exactly when a later close reaches its top); and
/// every such gap of every candle is found.
pub proof fn lemma_fvgs_are_the_gaps(c: Seq<Candle>)
    ensures
        forall|n: int| 0 <= n < spec_detect_fvg(c).len() ==> #[trigger] is_gap_of(c, spec_detect_fvg(c)[n]),
        forall|i: int| 2 <= i < c.len() && dec_lt(c[i - 2].high, c[i].low) ==> #[trigger] gap_found(c, i, Side::Long),
        forall|i: int| 2 <= i < c.len() && dec_lt(c[i].high, c[i - 2].low) ==> #[trigger] gap_found(c, i, Side::Short),
{
    lemma_gaps_upto(c, c.len() as int);
    assert forall|n: int| 0 <= n < spec_detect_fvg(c).len() implies #[trigger] is_gap_of(c, spec_detect_fvg(c)[n]) by {
        assert(traced(c, c.len() as int, n));
        assert(gap_at(c, gap_origin(c, c.len() as int, n), spec_detect_fvg(c)[n]));
    }
    assert forall|i: int| 2 <= i < c.len() && dec_lt(c[i - 2].high, c[i].low) implies #[trigger] gap_found(c, i, Side::Long) by {
        lemma_gaps_found_upto(c, c.len() as int, i);
    }
    assert forall|i: int| 2 <= i < c.len() && dec_lt(c[i].high, c[i - 2].low) implies #[trigger] gap_found(c, i, Side::Short) by {
        lemma_gaps_found_upto(c, c.len() as int, i);
    }
}

// ---------------------------------------------------------------------------
// The entry of a signal
// ---------------------------------------------------------------------------

/// A zone (order block or gap) can carry a signal of `bias`: it is unmitigated, of the
/// bias side, and overlaps the OTE zone.
pub open spec fn zone_carries(top: Dec, bottom: Dec, mitigated: bool, side: Side, bias: Side, ote: Ote) -> bool {
    !mitigated && side == bias && dec_lt(ote.bottom, top) && dec_lt(bottom, ote.top)
}

/// `entry` is the decimal midpoint of a zone clamped to the OTE zone:
/// `(min(top, ote.top) + max(bottom, ote.bottom)) / 2`.
pub open spec fn clamped_midpoint(top: Dec, bottom: Dec, ote: Ote, entry: Dec) -> bool {
    spec_add(dec_min(top, ote.top), dec_max(bottom, ote.bottom)) matches Some(sum) && spec_div(sum, spec_whole(2)) == Some(entry)
}

/// The entry of a signal comes from order block `obs[i]`: it is the last order block that
/// can carry the signal, and the entry is its midpoint clamped to the OTE zone.
pub open spec fn entry_from_ob(obs: Seq<OrderBlock>, bias: Side, ote: Ote, entry: Dec, i: int) -> bool {
    &&& 0 <= i < obs.len()
    &&& zone_carries(obs[i].top, obs[i].bottom, obs[i].mitigated, obs[i].side, bias, ote)
    &&& forall|j: int| #![trigger obs[j]] i < j < obs.len() ==> !zone_carries(obs[j].top, obs[j].bottom, obs[j].mitigated, obs[j].side, bias, ote)
    &&& clamped_midpoint(obs[i].top, obs[i].bottom, ote, entry)
}

/// The entry of a signal comes from gap `fvgs[i]`, the last gap that can carry it.
pub open spec fn entry_from_fvg(fvgs: Seq<Fvg>, bias: Side, ote: Ote, entry: Dec, i: int) -> bool {
    &&& 0 <= i < fvgs.len()
    &&& zone_carries(fvgs[i].top, fvgs[i].bottom, fvgs[i].mitigated, fvgs[i].side, bias, ote)
    &&& forall|j: int| #![trigger fvgs[j]] i < j < fvgs.len() ==> !zone_carries(fvgs[j].top, fvgs[j].bottom, fvgs[j].mitigated, fvgs[j].side, bias, ote)
    &&& clamped_midpoint(fvgs[i].top, fvgs[i].bottom, ote, entry)
}

proof fn lemma_last_ob_carrying(obs: Seq<OrderBlock>, bias: Side, ote: Ote, m: int)
    requires
        0 <= m <= obs.len(),
    ensures
        last_ob_in_zone(obs, bias, ote, m) matches Some(x) ==> exists|i: int| #![trigger obs[i]] 0 <= i < m && obs[i] == x
            && zone_carries(x.top, x.bottom, x.mitigated, x.side, bias, ote)
            && forall|j: int| #![trigger obs[j]] i < j < m ==> !zone_carries(obs[j].top, obs[j].bottom, obs[j].mitigated, obs[j].side, bias, ote),
        last_ob_in_zone(obs, bias, ote, m) is None ==> forall|j: int| #![trigger obs[j]] 0 <= j < m ==> !zone_carries(obs[j].top, obs[j].bottom, obs[j].mitigated, obs[j].side, bias, ote),
    decreases m,
{
    if m > 0 {
        lemma_last_ob_carrying(obs, bias, ote, m - 1);
        assert(obs[m - 1] == obs[m - 1]);
    }
}

proof fn lemma_last_fvg_carrying(fvgs: Seq<Fvg>, bias: Side, ote: Ote, m: int)
    requires
        0 <= m <= fvgs.len(),
    ensures
        last_fvg_in_zone(fvgs, bias, ote, m) matches Some(x) ==> exists|i: int| #![trigger fvgs[i]] 0 <= i < m && fvgs[i] == x
            && zone_carries(x.top, x.bottom, x.mitigated, x.side, bias, ote)
            && forall|j: int| #![trigger fvgs[j]] i < j < m ==> !zone_carries(fvgs[j].top, fvgs[j].bottom, fvgs[j].mitigated, fvgs[j].side, bias, ote),
        last_fvg_in_zone(fvgs, bias, ote, m) is None ==> forall|j: int| #![trigger fvgs[j]] 0 <= j < m ==> !zone_carries(fvgs[j].top, fvgs[j].bottom, fvgs[j].mitigated, fvgs[j].side, bias, ote),
    decreases m,
{
    if m > 0 {
        lemma_last_fvg_carrying(fvgs, bias, ote, m - 1);
        assert(fvgs[m - 1] == fvgs[m - 1]);
    }
}

/// Where a signal's entry lies: with the bias of the latest structure break, the entry is
/// the midpoint, clamped to the OTE zone, of the last order block that can carry the
/// signal, or, when no order block can, of the last gap that can; the flags say which.
pub proof fn lemma_entry_from_last_carrying_zone(
    c: Seq<Candle>,
    fvgs: Seq<Fvg>,
    obs: Seq<OrderBlock>,
    structure: Seq<BosChoch>,
    sweeps: Seq<LiquiditySweep>,
    pd: Option<PdArray>,
    ote: Option<Ote>,
    sw: Seq<SwingPoint>,
    s: TradeSignal,
)
    requires
        confluence_outcome(c, fvgs, obs, structure, sweeps, pd, ote, sw) == Some(Some(s)),
    ensures
        structure.len() > 0,
        ote is Some,
        s.side == structure.last().side,
        (exists|i: int| #[trigger] entry_from_ob(obs, s.side, ote.unwrap(), s.entry, i)) <==> s.confluence.ob_in_ote,
        !s.confluence.ob_in_ote ==> exists|i: int| #[trigger] entry_from_fvg(fvgs, s.side, ote.unwrap(), s.entry, i),
        c.len() > 0 && dec_le(ote.unwrap().bottom, c.last().close) && dec_le(c.last().close, ote.unwrap().top),
        pd is Some,
        s.side == Side::Long ==> pd.unwrap().current_zone == PdZone::Discount && s.sl == pd.unwrap().range_low
            && dec_lt(s.sl, s.entry) && is_highest_high(sw, s.tp),
        s.side == Side::Short ==> pd.unwrap().current_zone == PdZone::Premium && s.sl == pd.unwrap().range_high
            && dec_lt(s.entry, s.sl) && is_lowest_low(sw, s.tp),
        s.confluence.sweep_present == exists|k: int| #![trigger sweeps[k]] 0 <= k < sweeps.len() && sweeps[k].side == s.side
            && sweeps[k].swept_at >= c[if c.len() >= 5 { c.len() - 5 } else { 0 }].time,
{
    let bias = structure.last().side;
    let o = ote.unwrap();
    lemma_extremes(sw);
    lemma_last_ob_carrying(obs, bias, o, obs.len() as int);
    lemma_last_fvg_carrying(fvgs, bias, o, fvgs.len() as int);
    match last_ob_in_zone(obs, bias, o, obs.len() as int) {
        Some(x) => {
            let i = choose|i: int| #![trigger obs[i]] 0 <= i < obs.len() && obs[i] == x
                && zone_carries(x.top, x.bottom, x.mitigated, x.side, bias, o)
                && forall|j: int| #![trigger obs[j]] i < j < obs.len() ==> !zone_carries(obs[j].top, obs[j].bottom, obs[j].mitigated, obs[j].side, bias, o);
            assert(entry_from_ob(obs, s.side, o, s.entry, i));
        },
        None => {
            assert forall|i: int| !#[trigger] entry_from_ob(obs, s.side, o, s.entry, i) by {
                if 0 <= i < obs.len() {
                    assert(!zone_carries(obs[i].top, obs[i].bottom, obs[i].mitigated, obs[i].side, bias, o));
                }
            }
            let x = last_fvg_in_zone(fvgs, bias, o, fvgs.len() as int).unwrap();
            let i = choose|i: int| #![trigger fvgs[i]] 0 <= i < fvgs.len() && fvgs[i] == x
                && zone_carries(x.top, x.bottom, x.mitigated, x.side, bias, o)
                && forall|j: int| #![trigger fvgs[j]] i < j < fvgs.len() ==> !zone_carries(fvgs[j].top, fvgs[j].bottom, fvgs[j].mitigated, fvgs[j].side, bias, o);
            assert(entry_from_fvg(fvgs, s.side, o, s.entry, i));
        },
    }
}

// ---------------------------------------------------------------------------
// Structure breaks
// ---------------------------------------------------------------------------

/// `sw[i]` is the latest swing of `kind` formed before candle `t`: no swing of that kind
/// before `t` has a larger candle index, and none listed after it has the same index.
pub open spec fn latest_before_candle(sw: Seq<SwingPoint>, kind: SwingKind, t: int, i: int) -> bool {
    &&& 0 <= i < sw.len()
    &&& sw[i].kind == kind
    &&& sw[i].index < t
    &&& forall|j: int| #![trigger sw[j]] 0 <= j < sw.len() && sw[j].kind == kind && sw[j].index < t ==> sw[j].index <= sw[i].index
    &&& forall|j: int| #![trigger sw[j]] i < j < sw.len() && sw[j].kind == kind && sw[j].index < t ==> sw[j].index < sw[i].index
}

/// A close breaks a level: above it for a swing high, below it for a swing low.
pub open spec fn close_breaks(kind: SwingKind, level: Dec, close: Dec) -> bool {
    match kind {
        SwingKind::High => dec_lt(level, close),
        SwingKind::Low => dec_lt(close, level),
    }
}

/// The reference level of `kind` that candle `t` is measured against: the price of the
/// latest swing of that kind formed before candle `t`, unless a close after that swing
/// and before candle `t` has already broken it; none when there is no such swing.
pub open spec fn reference_level(c: Seq<Candle>, sw: Seq<SwingPoint>, kind: SwingKind, t: int) -> Option<Dec> {
    if exists|i: int| latest_before_candle(sw, kind, t, i) {
        let i = choose|i: int| latest_before_candle(sw, kind, t, i);
        if exists|u: int| #![trigger c[u]] sw[i].index < u < t && close_breaks(kind, sw[i].price, c[u].close) {
            None
        } else {
            Some(sw[i].price)
        }
    } else {
        None
    }
}

proof fn lemma_latest_before_unique(sw: Seq<SwingPoint>, kind: SwingKind, t: int, i: int, j: int)
    requires
        latest_before_candle(sw, kind, t, i),
        latest_before_candle(sw, kind, t, j),
    ensures
        i == j,
{
    assert(sw[j].index <= sw[i].index);
    assert(sw[i].index <= sw[j].index);
}

/// The part of a pair of levels that belongs to `kind`.
pub open spec fn level_of(kind: SwingKind, levels: (Option<Dec>, Option<Dec>)) -> Option<Dec> {
    match kind {
        SwingKind::High => levels.0,
        SwingKind::Low => levels.1,
    }
}

proof fn lemma_absorb(sw: Seq<SwingPoint>, m: int, k: int, h: Option<Dec>, l: Option<Dec>, kind: SwingKind)
    requires
        0 <= m <= sw.len(),
    ensures
        (forall|j: int| #![trigger sw[j]] 0 <= j < m ==> !(sw[j].kind == kind && sw[j].index + 1 == k))
            ==> level_of(kind, absorb_swings(sw, m, k, h, l)) == level_of(kind, (h, l)),
        (exists|j: int| #![trigger sw[j]] 0 <= j < m && sw[j].kind == kind && sw[j].index + 1 == k) ==> exists|i: int| #![trigger sw[i]]
            0 <= i < m && sw[i].kind == kind && sw[i].index + 1 == k && level_of(kind, absorb_swings(sw, m, k, h, l)) == Some(sw[i].price)
            && forall|j: int| #![trigger sw[j]] i < j < m ==> !(sw[j].kind == kind && sw[j].index + 1 == k),
    decreases m,
{
    if m > 0 {
        lemma_absorb(sw, m - 1, k, h, l, kind);
        let s = sw[m - 1];
        if s.kind == kind && s.index + 1 == k {
            assert(sw[m - 1] == s);
        } else {
            if exists|j: int| #![trigger sw[j]] 0 <= j < m && sw[j].kind == kind && sw[j].index + 1 == k {
                let j = choose|j: int| #![trigger sw[j]] 0 <= j < m && sw[j].kind == kind && sw[j].index + 1 == k;
                assert(j < m - 1);
            }
        }
    }
}

proof fn lemma_reference_new_swing(c: Seq<Candle>, sw: Seq<SwingPoint>, kind: SwingKind, t: int, i: int)
    requires
        1 <= t,
        0 <= i < sw.len(),
        sw[i].kind == kind,
        sw[i].index + 1 == t,
        forall|j: int| #![trigger sw[j]] i < j < sw.len() ==> !(sw[j].kind == kind && sw[j].index + 1 == t),
    ensures
        reference_level(c, sw, kind, t) == Some(sw[i].price),
{
    assert(latest_before_candle(sw, kind, t, i));
    let i2 = choose|i: int| latest_before_candle(sw, kind, t, i);
    lemma_latest_before_unique(sw, kind, t, i, i2);
    assert(!exists|u: int| #![trigger c[u]] sw[i].index < u < t && close_breaks(kind, sw[i].price, c[u].close));
}

proof fn lemma_reference_no_new_swing(c: Seq<Candle>, sw: Seq<SwingPoint>, kind: SwingKind, t: int)
    requires
        1 <= t,
        forall|j: int| #![trigger sw[j]] 0 <= j < sw.len() ==> !(sw[j].kind == kind && sw[j].index + 1 == t),
    ensures
        reference_level(c, sw, kind, t) == (match reference_level(c, sw, kind, t - 1) {
            Some(p) => if close_breaks(kind, p, c[t - 1].close) { None::<Dec> } else { Some(p) },
            None => None::<Dec>,
        }),
{
    let tp = t - 1;
    assert forall|i: int| latest_before_candle(sw, kind, t, i) <==> latest_before_candle(sw, kind, tp, i) by {
        if latest_before_candle(sw, kind, t, i) {
            assert(sw[i].index + 1 != t);
        }
        if latest_before_candle(sw, kind, tp, i) {
            assert forall|j: int| #![trigger sw[j]] 0 <= j < sw.len() && sw[j].kind == kind && sw[j].index < t implies sw[j].index <= sw[i].index by {
                assert(sw[j].index + 1 != t);
            }
            assert forall|j: int| #![trigger sw[j]] i < j < sw.len() && sw[j].kind == kind && sw[j].index < t implies sw[j].index < sw[i].index by {
                assert(sw[j].index + 1 != t);
            }
        }
    }
    if exists|i: int| latest_before_candle(sw, kind, t, i) {
        let i = choose|i: int| latest_before_candle(sw, kind, t, i);
        let i1 = choose|i: int| latest_before_candle(sw, kind, tp, i);
        assert(latest_before_candle(sw, kind, tp, i));
        lemma_latest_before_unique(sw, kind, tp, i, i1);
        let p = sw[i].price;
        assert(sw[i].index + 1 != t);
        if exists|u: int| #![trigger c[u]] sw[i].index < u < tp && close_breaks(kind, p, c[u].close) {
            let u = choose|u: int| #![trigger c[u]] sw[i].index < u < tp && close_breaks(kind, p, c[u].close);
            assert(sw[i].index < u < t && close_breaks(kind, p, c[u].close));
        } else {
            if exists|u: int| #![trigger c[u]] sw[i].index < u < t && close_breaks(kind, p, c[u].close) {
                let u = choose|u: int| #![trigger c[u]] sw[i].index < u < t && close_breaks(kind, p, c[u].close);
                assert(u == tp);
            } else {
                assert(!close_breaks(kind, p, c[tp].close));
            }
        }
    } else {
        assert(!exists|i: int| latest_before_candle(sw, kind, tp, i));
    }
}

proof fn lemma_reference_at_start(c: Seq<Candle>, sw: Seq<SwingPoint>, kind: SwingKind)
    ensures
        reference_level(c, sw, kind, 0) is None,
{
    if exists|i: int| latest_before_candle(sw, kind, 0, i) {
        let i = choose|i: int| latest_before_candle(sw, kind, 0, i);
        assert(sw[i].index < 0);
    }
}

/// The levels the scan holds before candle `t` are the reference levels.
proof fn lemma_scan_levels(c: Seq<Candle>, sw: Seq<SwingPoint>, t: int, kind: SwingKind)
    requires
        0 <= t <= c.len(),
    ensures
        level_of(kind, absorb_swings(sw, sw.len() as int, t, structure_upto(c, sw, t).0, structure_upto(c, sw, t).1))
            == reference_level(c, sw, kind, t),
    decreases t,
{
    let st = structure_upto(c, sw, t);
    lemma_absorb(sw, sw.len() as int, t, st.0, st.1, kind);
    if t == 0 {
        lemma_reference_at_start(c, sw, kind);
        assert forall|j: int| #![trigger sw[j]] 0 <= j < sw.len() implies !(sw[j].kind == kind && sw[j].index + 1 == t) by {}
        return;
    }
    if exists|j: int| #![trigger sw[j]] 0 <= j < sw.len() && sw[j].kind == kind && sw[j].index + 1 == t {
        let i = choose|i: int| #![trigger sw[i]]
            0 <= i < sw.len() && sw[i].kind == kind && sw[i].index + 1 == t && level_of(kind, absorb_swings(sw, sw.len() as int, t, st.0, st.1)) == Some(sw[i].price)
            && forall|j: int| #![trigger sw[j]] i < j < sw.len() ==> !(sw[j].kind == kind && sw[j].index + 1 == t);
        lemma_reference_new_swing(c, sw, kind, t, i);
    } else {
        let tp = t - 1;
        lemma_scan_levels(c, sw, tp, kind);
        lemma_reference_no_new_swing(c, sw, kind, t);
        let prev = structure_upto(c, sw, tp);
        let levels = absorb_swings(sw, sw.len() as int, tp, prev.0, prev.1);
        assert(st == crate::ict::detect::structure_breaks(c, tp, levels.0, levels.1, prev.2, prev.3));
    }
}

/// Structure breaks are measured against the latest swing levels: on each new candle the
/// events found so far stay, a bullish break at the level follows when the candle closes
/// above the reference swing high, and then a bearish break at the level when it closes
/// below the reference swing low (the reference levels being the latest swing high and
/// low formed before the candle and not yet broken).
pub proof fn lemma_structure_breaks_latest_levels(c: Seq<Candle>, sw: Seq<SwingPoint>, t: int)
    requires
        0 <= t < c.len(),
    ensures
        ({
            let e0 = spec_detect_structure(c.take(t), sw);
            let e1 = spec_detect_structure(c.take(t + 1), sw);
            let up = reference_level(c, sw, SwingKind::High, t) matches Some(p) && dec_lt(p, c[t].close);
            let down = reference_level(c, sw, SwingKind::Low, t) matches Some(q) && dec_lt(c[t].close, q);
            &&& e1.len() == e0.len() + (if up { 1int } else { 0int }) + (if down { 1int } else { 0int })
            &&& e1.subrange(0, e0.len() as int) == e0
            &&& up ==> e1[e0.len() as int].side == Side::Long && Some(e1[e0.len() as int].level) == reference_level(c, sw, SwingKind::High, t)
                && e1[e0.len() as int].broken_at == c[t].time
            &&& down ==> e1.last().side == Side::Short && Some(e1.last().level) == reference_level(c, sw, SwingKind::Low, t)
                && e1.last().broken_at == c[t].time
        }),
{
    lemma_structure_no_lookahead(c, sw, t);
    lemma_structure_no_lookahead(c, sw, t + 1);
    lemma_scan_levels(c, sw, t, SwingKind::High);
    lemma_scan_levels(c, sw, t, SwingKind::Low);
    let e0 = structure_upto(c, sw, t).3;
    let e1 = structure_upto(c, sw, t + 1).3;
    assert(e1.subrange(0, e0.len() as int) =~= e0);
}

// ---------------------------------------------------------------------------
// Order blocks
// ---------------------------------------------------------------------------

/// Some candle from `k` on closes strictly below `level`.
pub open spec fn close_below_on_or_after(c: Seq<Candle>, k: int, level: Dec) -> bool {
    exists|u: int| #![trigger c[u]] k <= u < c.len() && dec_lt(c[u].close, level)
}

/// Some candle from `k` on closes strictly above `level`.
pub open spec fn close_above_on_or_after(c: Seq<Candle>, k: int, level: Dec) -> bool {
    exists|u: int| #![trigger c[u]] k <= u < c.len() && dec_lt(level, c[u].close)
}

/// Candle `j` closes below its open.
pub open spec fn bearish(c: Seq<Candle>, j: int) -> bool {
    dec_lt(c[j].close, c[j].open)
}

/// Candle `j` closes above its open.
pub open spec fn bullish(c: Seq<Candle>, j: int) -> bool {
    dec_lt(c[j].open, c[j].close)
}

/// `o` is the order block of swing `s` drawn on candle `j`: for a swing low, the last
/// bearish candle before it, giving a bullish block that is mitigated once a close from
/// the swing on falls below the candle's low; for a swing high, the last bullish candle
/// before it, giving a bearish block mitigated once a close from the swing on rises above
/// the candle's high.  The block spans the candle's low to high and forms at its time.
pub open spec fn block_from(c: Seq<Candle>, s: SwingPoint, j: int, o: OrderBlock) -> bool {
    &&& 0 <= j < s.index
    &&& j < c.len()
    &&& o.top == c[j].high
    &&& o.bottom == c[j].low
    &&& o.formed_at == c[j].time
    &&& match s.kind {
        SwingKind::Low => {
            &&& o.side == Side::Long
            &&& bearish(c, j)
            &&& forall|u: int| j < u < s.index ==> !#[trigger] bearish(c, u)
            &&& o.mitigated == close_below_on_or_after(c, s.index as int, c[j].low)
        },
        SwingKind::High => {
            &&& o.side == Side::Short
            &&& bullish(c, j)
            &&& forall|u: int| j < u < s.index ==> !#[trigger] bullish(c, u)
            &&& o.mitigated == close_above_on_or_after(c, s.index as int, c[j].high)
        },
    }
}

/// `o` is the order block of swing `sw[m]` for some swing.
pub open spec fn is_block_of_some_swing(c: Seq<Candle>, sw: Seq<SwingPoint>, o: OrderBlock) -> bool {
    exists|m: int, j: int| 0 <= m < sw.len() && #[trigger] block_from(c, sw[m], j, o)
}

/// Swing `sw[m]` has an order block among `obs`.
pub open spec fn swing_has_block(c: Seq<Candle>, sw: Seq<SwingPoint>, obs: Seq<OrderBlock>, m: int) -> bool {
    exists|n: int, j: int| 0 <= n < obs.len() && #[trigger] block_from(c, sw[m], j, obs[n])
}

/// The swing has a candle of the opposite direction before it to draw its block on.
pub open spec fn has_block_candle(c: Seq<Candle>, s: SwingPoint) -> bool {
    exists|j: int| 0 <= j < s.index && #[trigger] c[j] == c[j] && match s.kind {
        SwingKind::Low => bearish(c, j),
        SwingKind::High => bullish(c, j),
    }
}

proof fn lemma_last_opposite(c: Seq<Candle>, k: int)
    requires
        k <= c.len(),
    ensures
        last_bearish_before(c, k) matches Some(j) ==> 0 <= j < k && bearish(c, j) && forall|u: int| j < u < k ==> !#[trigger] bearish(c, u),
        last_bearish_before(c, k) is None ==> forall|u: int| 0 <= u < k ==> !#[trigger] bearish(c, u),
        last_bullish_before(c, k) matches Some(j) ==> 0 <= j < k && bullish(c, j) && forall|u: int| j < u < k ==> !#[trigger] bullish(c, u),
        last_bullish_before(c, k) is None ==> forall|u: int| 0 <= u < k ==> !#[trigger] bullish(c, u),
    decreases k,
{
    if k > 0 {
        lemma_last_opposite(c, k - 1);
    }
}

proof fn lemma_close_scans_agree(c: Seq<Candle>, k: int, level: Dec)
    ensures
        closes_below_from(c, k, level) == close_below_on_or_after(c, k, level),
        closes_above_from(c, k, level) == close_above_on_or_after(c, k, level),
{
    if closes_below_from(c, k, level) {
        let u = choose|u: int| #![trigger c[u]] k <= u < c.len() && dec_lt(c[u].close, level);
        assert(k <= u < c.len() && dec_lt(c[u].close, level));
    }
    if close_below_on_or_after(c, k, level) {
        let u = choose|u: int| #![trigger c[u]] k <= u < c.len() && dec_lt(c[u].close, level);
        assert(k <= u < c.len() && dec_lt(c[u].close, level));
    }
    if closes_above_from(c, k, level) {
        let u = choose|u: int| #![trigger c[u]] k <= u < c.len() && dec_lt(level, c[u].close);
        assert(k <= u < c.len() && dec_lt(level, c[u].close));
    }
    if close_above_on_or_after(c, k, level) {
        let u = choose|u: int| #![trigger c[u]] k <= u < c.len() && dec_lt(level, c[u].close);
        assert(k <= u < c.len() && dec_lt(level, c[u].close));
    }
}

/// The order blocks of one swing: one block drawn on the last opposite candle before it,
/// or none when there is no such candle.
proof fn lemma_ob_for(c: Seq<Candle>, s: SwingPoint)
    requires
        s.index <= c.len(),
    ensures
        ob_for(c, s).len() <= 1,
        ob_for(c, s).len() == 1 ==> exists|j: int| #[trigger] block_from(c, s, j, ob_for(c, s)[0]),
        ob_for(c, s).len() == 1 <==> has_block_candle(c, s),
{
    lemma_last_opposite(c, s.index as int);
    match s.kind {
        SwingKind::Low => match last_bearish_before(c, s.index as int) {
            Some(j) => {
                lemma_close_scans_agree(c, s.index as int, c[j].low);
                assert(block_from(c, s, j, ob_for(c, s)[0]));
                assert(c[j] == c[j]);
            },
            None => {
                if has_block_candle(c, s) {
                    let j = choose|j: int| 0 <= j < s.index && #[trigger] c[j] == c[j] && bearish(c, j);
                    assert(!bearish(c, j));
                }
            },
        },
        SwingKind::High => match last_bullish_before(c, s.index as int) {
            Some(j) => {
                lemma_close_scans_agree(c, s.index as int, c[j].high);
                assert(block_from(c, s, j, ob_for(c, s)[0]));
                assert(c[j] == c[j]);
            },
            None => {
                if has_block_candle(c, s) {
                    let j = choose|j: int| 0 <= j < s.index && #[trigger] c[j] == c[j] && bullish(c, j);
                    assert(!bullish(c, j));
                }
            },
        },
    }
}

/// Block `n` of swings `0 .. m` and the swing it belongs to.
spec fn block_origin(c: Seq<Candle>, sw: Seq<SwingPoint>, m: int, n: int) -> int
    decreases m,
{
    if m <= 0 {
        0
    } else if n < obs_upto(c, sw, m - 1).len() {
        block_origin(c, sw, m - 1, n)
    } else {
        m - 1
    }
}

spec fn block_traced(c: Seq<Candle>, sw: Seq<SwingPoint>, m: int, n: int) -> bool {
    0 <= block_origin(c, sw, m, n) < m && exists|j: int| #[trigger] block_from(c, sw[block_origin(c, sw, m, n)], j, obs_upto(c, sw, m)[n])
}

proof fn lemma_blocks_upto(c: Seq<Candle>, sw: Seq<SwingPoint>, m: int)
    requires
        0 <= m <= sw.len(),
        swings_within(c, sw),
    ensures
        forall|n: int| 0 <= n < obs_upto(c, sw, m).len() ==> #[trigger] block_traced(c, sw, m, n),
        forall|k: int| 0 <= k < m && has_block_candle(c, sw[k]) ==> #[trigger] swing_has_block(c, sw, obs_upto(c, sw, m), k),
    decreases m,
{
    if m > 0 {
        lemma_blocks_upto(c, sw, m - 1);
        let prev = obs_upto(c, sw, m - 1);
        let here = ob_for(c, sw[m - 1]);
        assert(obs_upto(c, sw, m) == prev + here);
        lemma_ob_for(c, sw[m - 1]);
        assert forall|n: int| 0 <= n < obs_upto(c, sw, m).len() implies #[trigger] block_traced(c, sw, m, n) by {
            if n < prev.len() {
                assert((prev + here)[n] == prev[n]);
                assert(block_traced(c, sw, m - 1, n));
            } else {
                assert((prev + here)[n] == here[n - prev.len()]);
                assert(n - prev.len() == 0);
            }
        }
        assert forall|k: int| 0 <= k < m && has_block_candle(c, sw[k]) implies #[trigger] swing_has_block(c, sw, obs_upto(c, sw, m), k) by {
            if k < m - 1 {
                assert(swing_has_block(c, sw, prev, k));
                let (n, j) = choose|n: int, j: int| 0 <= n < prev.len() && #[trigger] block_from(c, sw[k], j, prev[n]);
                assert((prev + here)[n] == prev[n]);
                assert(block_from(c, sw[k], j, obs_upto(c, sw, m)[n]));
            } else {
                let j = choose|j: int| #[trigger] block_from(c, sw[k], j, here[0]);
                assert((prev + here)[prev.len() as int] == here[0]);
                assert(block_from(c, sw[k], j, obs_upto(c, sw, m)[prev.len() as int]));
            }
        }
    }
}

/// Every order block found is the block of some swing, drawn on the last candle of the
/// opposite direction before it, with the mitigation rule of its side; and every swing
/// that has such a candle gives a block.
pub proof fn lemma_order_blocks_are_swing_blocks(c: Seq<Candle>, sw: Seq<SwingPoint>)
    requires
        swings_within(c, sw),
    ensures
        forall|n: int| 0 <= n < spec_detect_ob(c, sw).len() ==> #[trigger] is_block_of_some_swing(c, sw, spec_detect_ob(c, sw)[n]),
        forall|k: int| 0 <= k < sw.len() && has_block_candle(c, sw[k]) ==> #[trigger] swing_has_block(c, sw, spec_detect_ob(c, sw), k),
{
    lemma_blocks_upto(c, sw, sw.len() as int);
    assert forall|n: int| 0 <= n < spec_detect_ob(c, sw).len() implies #[trigger] is_block_of_some_swing(c, sw, spec_detect_ob(c, sw)[n]) by {
        assert(block_traced(c, sw, sw.len() as int, n));
        let m = block_origin(c, sw, sw.len() as int, n);
        let j = choose|j: int| #[trigger] block_from(c, sw[m], j, obs_upto(c, sw, sw.len() as int)[n]);
        assert(block_from(c, sw[m], j, spec_detect_ob(c, sw)[n]));
    }
}

// ---------------------------------------------------------------------------
// Liquidity sweeps
// ---------------------------------------------------------------------------

/// `w` is the sweep of swing `s` by candle `k`: the candle comes after the swing and
/// trades through its level but closes back on the other side: above a swing high's level
/// with its high and back below it (a bearish sweep), or below a swing low's level with
/// its low and back above it (a bullish sweep); the sweep is at the swing's level and at
/// the candle's time.
pub open spec fn sweep_by(c: Seq<Candle>, k: int, s: SwingPoint, w: LiquiditySweep) -> bool {
    &&& 0 <= k < c.len()
    &&& s.index < k
    &&& w.level == s.price
    &&& w.swept_at == c[k].time
    &&& match s.kind {
        SwingKind::High => w.side == Side::Short && dec_lt(s.price, c[k].high) && dec_lt(c[k].close, s.price),
        SwingKind::Low => w.side == Side::Long && dec_lt(c[k].low, s.price) && dec_lt(s.price, c[k].close),
    }
}

/// Candle `k` sweeps swing `s`.
pub open spec fn sweeps_swing(c: Seq<Candle>, k: int, s: SwingPoint) -> bool {
    &&& s.index < k
    &&& match s.kind {
        SwingKind::High => dec_lt(s.price, c[k].high) && dec_lt(c[k].close, s.price),
        SwingKind::Low => dec_lt(c[k].low, s.price) && dec_lt(s.price, c[k].close),
    }
}

/// `w` is the sweep of some swing by some candle.
pub open spec fn is_some_sweep(c: Seq<Candle>, sw: Seq<SwingPoint>, w: LiquiditySweep) -> bool {
    exists|k: int, m: int| 0 <= m < sw.len() && #[trigger] sweep_by(c, k, sw[m], w)
}

/// The sweep of swing `sw[m]` by candle `k` is among `ws`.
pub open spec fn sweep_listed(c: Seq<Candle>, sw: Seq<SwingPoint>, ws: Seq<LiquiditySweep>, k: int, m: int) -> bool {
    exists|n: int| 0 <= n < ws.len() && #[trigger] sweep_by(c, k, sw[m], ws[n])
}

spec fn sweep_candle(c: Seq<Candle>, sw: Seq<SwingPoint>, k: int, n: int) -> int
    decreases k,
{
    if k <= 0 {
        0
    } else if n < sweeps_upto(c, sw, k - 1).len() {
        sweep_candle(c, sw, k - 1, n)
    } else {
        k - 1
    }
}

spec fn sweep_swing_of(c: Seq<Candle>, sw: Seq<SwingPoint>, idx: int, m: int, n: int) -> int
    decreases m,
{
    if m <= 0 {
        0
    } else if n < sweeps_by(c, sw, idx, m - 1).len() {
        sweep_swing_of(c, sw, idx, m - 1, n)
    } else {
        m - 1
    }
}

spec fn by_traced(c: Seq<Candle>, sw: Seq<SwingPoint>, idx: int, m: int, n: int) -> bool {
    0 <= sweep_swing_of(c, sw, idx, m, n) < m && sweep_by(c, idx, sw[sweep_swing_of(c, sw, idx, m, n)], sweeps_by(c, sw, idx, m)[n])
}

proof fn lemma_sweeps_by(c: Seq<Candle>, sw: Seq<SwingPoint>, idx: int, m: int)
    requires
        0 <= idx < c.len(),
        0 <= m <= sw.len(),
    ensures
        forall|n: int| 0 <= n < sweeps_by(c, sw, idx, m).len() ==> #[trigger] by_traced(c, sw, idx, m, n),
        forall|q: int| 0 <= q < m && sweeps_swing(c, idx, sw[q]) ==> #[trigger] sweep_listed(c, sw, sweeps_by(c, sw, idx, m), idx, q),
    decreases m,
{
    if m > 0 {
        lemma_sweeps_by(c, sw, idx, m - 1);
        let prev = sweeps_by(c, sw, idx, m - 1);
        let here = sweep_of(c[idx], idx, sw[m - 1]);
        assert(sweeps_by(c, sw, idx, m) == prev + here);
        assert forall|n: int| 0 <= n < sweeps_by(c, sw, idx, m).len() implies #[trigger] by_traced(c, sw, idx, m, n) by {
            if n < prev.len() {
                assert((prev + here)[n] == prev[n]);
                assert(by_traced(c, sw, idx, m - 1, n));
            } else {
                assert((prev + here)[n] == here[n - prev.len()]);
            }
        }
        assert forall|q: int| 0 <= q < m && sweeps_swing(c, idx, sw[q]) implies #[trigger] sweep_listed(c, sw, sweeps_by(c, sw, idx, m), idx, q) by {
            if q < m - 1 {
                assert(sweep_listed(c, sw, prev, idx, q));
                let n = choose|n: int| 0 <= n < prev.len() && #[trigger] sweep_by(c, idx, sw[q], prev[n]);
                assert((prev + here)[n] == prev[n]);
                assert(sweep_by(c, idx, sw[q], sweeps_by(c, sw, idx, m)[n]));
            } else {
                assert((prev + here)[prev.len() as int] == here[0]);
                assert(sweep_by(c, idx, sw[q], sweeps_by(c, sw, idx, m)[prev.len() as int]));
            }
        }
    }
}

spec fn upto_traced(c: Seq<Candle>, sw: Seq<SwingPoint>, k: int, n: int) -> bool {
    exists|m: int| 0 <= m < sw.len() && #[trigger] sweep_by(c, sweep_candle(c, sw, k, n), sw[m], sweeps_upto(c, sw, k)[n])
}

proof fn lemma_sweeps_upto(c: Seq<Candle>, sw: Seq<SwingPoint>, k: int)
    requires
        0 <= k <= c.len(),
    ensures
        forall|n: int| 0 <= n < sweeps_upto(c, sw, k).len() ==> #[trigger] upto_traced(c, sw, k, n),
        forall|t: int, q: int| 0 <= t < k && 0 <= q < sw.len() && sweeps_swing(c, t, sw[q]) ==> #[trigger] sweep_listed(c, sw, sweeps_upto(c, sw, k), t, q),
    decreases k,
{
    if k > 0 {
        lemma_sweeps_upto(c, sw, k - 1);
        lemma_sweeps_by(c, sw, k - 1, sw.len() as int);
        let prev = sweeps_upto(c, sw, k - 1);
        let here = sweeps_by(c, sw, k - 1, sw.len() as int);
        assert(sweeps_upto(c, sw, k) == prev + here);
        assert forall|n: int| 0 <= n < sweeps_upto(c, sw, k).len() implies #[trigger] upto_traced(c, sw, k, n) by {
            if n < prev.len() {
                assert((prev + here)[n] == prev[n]);
                assert(upto_traced(c, sw, k - 1, n));
                let m = choose|m: int| 0 <= m < sw.len() && #[trigger] sweep_by(c, sweep_candle(c, sw, k - 1, n), sw[m], prev[n]);
                assert(sweep_by(c, sweep_candle(c, sw, k, n), sw[m], sweeps_upto(c, sw, k)[n]));
            } else {
                let r = n - prev.len();
                assert((prev + here)[n] == here[r]);
                assert(by_traced(c, sw, k - 1, sw.len() as int, r));
                let m = sweep_swing_of(c, sw, k - 1, sw.len() as int, r);
                assert(sweep_by(c, sweep_candle(c, sw, k, n), sw[m], sweeps_upto(c, sw, k)[n]));
            }
        }
        assert forall|t: int, q: int| 0 <= t < k && 0 <= q < sw.len() && sweeps_swing(c, t, sw[q]) implies #[trigger] sweep_listed(c, sw, sweeps_upto(c, sw, k), t, q) by {
            if t < k - 1 {
                assert(sweep_listed(c, sw, prev, t, q));
                let n = choose|n: int| 0 <= n < prev.len() && #[trigger] sweep_by(c, t, sw[q], prev[n]);
                assert((prev + here)[n] == prev[n]);
                assert(sweep_by(c, t, sw[q], sweeps_upto(c, sw, k)[n]));
            } else {
                assert(sweep_listed(c, sw, here, t, q));
                let n = choose|n: int| 0 <= n < here.len() && #[trigger] sweep_by(c, t, sw[q], here[n]);
                assert((prev + here)[prev.len() + n] == here[n]);
                assert(sweep_by(c, t, sw[q], sweeps_upto(c, sw, k)[prev.len() + n]));
            }
        }
    }
}

/// Every liquidity sweep found is the sweep of some swing by a later candle that trades
/// through the swing's level and closes back across it; and every such sweep is found.
pub proof fn lemma_sweeps_are_the_sweeps(c: Seq<Candle>, sw: Seq<SwingPoint>)
    ensures
        forall|n: int| 0 <= n < spec_detect_sweeps(c, sw).len() ==> #[trigger] is_some_sweep(c, sw, spec_detect_sweeps(c, sw)[n]),
        forall|t: int, q: int| 0 <= t < c.len() && 0 <= q < sw.len() && sweeps_swing(c, t, sw[q]) ==> #[trigger] sweep_listed(c, sw, spec_detect_sweeps(c, sw), t, q),
{
    lemma_sweeps_upto(c, sw, c.len() as int);
    assert forall|n: int| 0 <= n < spec_detect_sweeps(c, sw).len() implies #[trigger] is_some_sweep(c, sw, spec_detect_sweeps(c, sw)[n]) by {
        assert(upto_traced(c, sw, c.len() as int, n));
        let m = choose|m: int| 0 <= m < sw.len() && #[trigger] sweep_by(c, sweep_candle(c, sw, c.len() as int, n), sw[m], sweeps_upto(c, sw, c.len() as int)[n]);
        assert(sweep_by(c, sweep_candle(c, sw, c.len() as int, n), sw[m], spec_detect_sweeps(c, sw)[n]));
    }
}

} // verus!
