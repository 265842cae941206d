//! Detectors for fair value gaps, order blocks, structure breaks, liquidity sweeps,
//! the premium/discount array and the optimal trade entry zone.
use vstd::prelude::*;

use crate::decimal::{
    checked_add, checked_div, checked_mul, checked_sub, dec_le, dec_lt, spec_add, spec_div, spec_mul,
    spec_sub, spec_whole, spec_zero, dec_of, lemma_dec_of_view, Dec,
};
use crate::domain::{Candle, Side};
use crate::ict::swing::{SwingKind, SwingPoint};
use crate::ict::types::{BosChoch, Fvg, LiquiditySweep, OrderBlock, Ote, PdArray, PdZone, StructureEvent};

verus! {

// ---------------------------------------------------------------------------
// Fair value gaps
// ---------------------------------------------------------------------------

/// Some candle after `i` closes at or below `level`.
pub open spec fn closes_at_or_below_after(c: Seq<Candle>, i: int, level: Dec) -> bool {
    exists|j: int| #![trigger c[j]] i < j < c.len() && dec_le(c[j].close, level)
}

/// Some candle after `i` closes at or above `level`.
pub open spec fn closes_at_or_above_after(c: Seq<Candle>, i: int, level: Dec) -> bool {
    exists|j: int| #![trigger c[j]] i < j < c.len() && dec_le(level, c[j].close)
}

/// The gaps completed by candle `i` (bullish first, then bearish).
pub open spec fn fvgs_at(c: Seq<Candle>, i: int) -> Seq<Fvg> {
    let bull = if dec_lt(c[i - 2].high, c[i].low) {
        seq![Fvg {
            top: c[i].low,
            bottom: c[i - 2].high,
            formed_at: c[i - 1].time,
            side: Side::Long,
            mitigated: closes_at_or_below_after(c, i, c[i].low),
        }]
    } else {
        Seq::empty()
    };
    let bear = if dec_lt(c[i].high, c[i - 2].low) {
        seq![Fvg {
            top: c[i - 2].low,
            bottom: c[i].high,
            formed_at: c[i - 1].time,
            side: Side::Short,
            mitigated: closes_at_or_above_after(c, i, c[i].high),
        }]
    } else {
        Seq::empty()
    };
    bull + bear
}

/// The gaps completed by candles `2 .. k`, in candle order.
pub open spec fn fvgs_upto(c: Seq<Candle>, k: int) -> Seq<Fvg>
    decreases k,
{
    if k <= 2 {
        Seq::empty()
    } else {
        fvgs_upto(c, k - 1) + fvgs_at(c, k - 1)
    }
}

/// All fair value gaps of the candles.
pub open spec fn spec_detect_fvg(c: Seq<Candle>) -> Seq<Fvg> {
    fvgs_upto(c, c.len() as int)
}

fn any_close_at_or_below_after(candles: &[Candle], i: usize, level: Dec) -> (r: bool)
    requires
        i < candles@.len(),
    ensures
        r == closes_at_or_below_after(candles@, i as int, level),
{
    let len = candles.len();
    let mut j = i + 1;
    while j < len
        invariant
            len == candles@.len(),
            i < j <= len,
            forall|k: int| #![trigger candles@[k]] i < k < j ==> !dec_le(candles@[k].close, level),
        decreases len - j,
    {
        if candles[j].close.le(&level) {
            assert(candles@[j as int] == candles@[j as int]);
            return true;
        }
        j = j + 1;
    }
    false
}

fn any_close_at_or_above_after(candles: &[Candle], i: usize, level: Dec) -> (r: bool)
    requires
        i < candles@.len(),
    ensures
        r == closes_at_or_above_after(candles@, i as int, level),
{
    let len = candles.len();
    let mut j = i + 1;
    while j < len
        invariant
            len == candles@.len(),
            i < j <= len,
            forall|k: int| #![trigger candles@[k]] i < k < j ==> !dec_le(level, candles@[k].close),
        decreases len - j,
    {
        if level.le(&candles[j].close) {
            assert(candles@[j as int] == candles@[j as int]);
            return true;
        }
        j = j + 1;
    }
    false
}

/// Fair value gaps: a bullish gap where candle `i-2`'s high is below candle `i`'s low,
/// a bearish gap where candle `i-2`'s low is above candle `i`'s high.  A bullish gap is
/// mitigated once a later candle closes at or below its top, a bearish one once a later
/// candle closes at or above its bottom.
pub fn detect_fvg(candles: &[Candle]) -> (r: Vec<Fvg>)
    ensures
        r@ == spec_detect_fvg(candles@),
{
    let len = candles.len();
    let mut result: Vec<Fvg> = Vec::new();
    let mut i: usize = 2;
    if len < 2 {
        return result;
    }
    while i < len
        invariant
            len == candles@.len(),
            2 <= i <= len,
            result@ == fvgs_upto(candles@, i as int),
        decreases len - i,
    {
        let ghost before = result@;
        if candles[i - 2].high.lt(&candles[i].low) {
            let top = candles[i].low;
            let bottom = candles[i - 2].high;
            let formed_at = candles[i - 1].time;
            let mitigated = any_close_at_or_below_after(candles, i, top);
            result.push(Fvg { top, bottom, formed_at, side: Side::Long, mitigated });
        }
        if candles[i].high.lt(&candles[i - 2].low) {
            let top = candles[i - 2].low;
            let bottom = candles[i].high;
            let formed_at = candles[i - 1].time;
            let mitigated = any_close_at_or_above_after(candles, i, bottom);
            result.push(Fvg { top, bottom, formed_at, side: Side::Short, mitigated });
        }
        proof {
            assert(fvgs_upto(candles@, i + 1) == fvgs_upto(candles@, i as int) + fvgs_at(candles@, i as int));
            assert(result@ =~= before + fvgs_at(candles@, i as int));
        }
        i = i + 1;
    }
    result
}

// ---------------------------------------------------------------------------
// Order blocks
// ---------------------------------------------------------------------------

/// The last bearish candle (close below open) among candles `0 .. k`.
pub open spec fn last_bearish_before(c: Seq<Candle>, k: int) -> Option<int>
    decreases k,
{
    if k <= 0 {
        None
    } else if dec_lt(c[k - 1].close, c[k - 1].open) {
        Some(k - 1)
    } else {
        last_bearish_before(c, k - 1)
    }
}

/// The last bullish candle (close above open) among candles `0 .. k`.
pub open spec fn last_bullish_before(c: Seq<Candle>, k: int) -> Option<int>
    decreases k,
{
    if k <= 0 {
        None
    } else if dec_lt(c[k - 1].open, c[k - 1].close) {
        Some(k - 1)
    } else {
        last_bullish_before(c, k - 1)
    }
}

/// The candle found by `last_bearish_before` / `last_bullish_before` lies before `k`.
pub proof fn lemma_last_before_range(c: Seq<Candle>, k: int)
    ensures
        last_bearish_before(c, k) matches Some(j) ==> 0 <= j < k,
        last_bullish_before(c, k) matches Some(j) ==> 0 <= j < k,
    decreases k,
{
    if k > 0 {
        lemma_last_before_range(c, k - 1);
    }
}

/// Some candle from `k` on closes strictly below `level`.
pub open spec fn closes_below_from(c: Seq<Candle>, k: int, level: Dec) -> bool {
    exists|j: int| #![trigger c[j]] k <= j < c.len() && dec_lt(c[j].close, level)
}

/// Some candle from `k` on closes strictly above `level`.
pub open spec fn closes_above_from(c: Seq<Candle>, k: int, level: Dec) -> bool {
    exists|j: int| #![trigger c[j]] k <= j < c.len() && dec_lt(level, c[j].close)
}

/// The order block that swing `s` gives, if any.
pub open spec fn ob_for(c: Seq<Candle>, s: SwingPoint) -> Seq<OrderBlock> {
    match s.kind {
        SwingKind::Low => match last_bearish_before(c, s.index as int) {
            Some(j) => seq![OrderBlock {
                top: c[j].high,
                bottom: c[j].low,
                formed_at: c[j].time,
                side: Side::Long,
                mitigated: closes_below_from(c, s.index as int, c[j].low),
            }],
            None => Seq::empty(),
        },
        SwingKind::High => match last_bullish_before(c, s.index as int) {
            Some(j) => seq![OrderBlock {
                top: c[j].high,
                bottom: c[j].low,
                formed_at: c[j].time,
                side: Side::Short,
                mitigated: closes_above_from(c, s.index as int, c[j].high),
            }],
            None => Seq::empty(),
        },
    }
}

/// The order blocks of swings `0 .. m`, in swing order.
pub open spec fn obs_upto(c: Seq<Candle>, sw: Seq<SwingPoint>, m: int) -> Seq<OrderBlock>
    decreases m,
{
    if m <= 0 {
        Seq::empty()
    } else {
        obs_upto(c, sw, m - 1) + ob_for(c, sw[m - 1])
    }
}

/// All order blocks of the swings.
pub open spec fn spec_detect_ob(c: Seq<Candle>, sw: Seq<SwingPoint>) -> Seq<OrderBlock> {
    obs_upto(c, sw, sw.len() as int)
}

/// Every swing refers to a candle position within the candles (or just past them).
pub open spec fn swings_within(c: Seq<Candle>, sw: Seq<SwingPoint>) -> bool {
    forall|i: int| #![trigger sw[i]] 0 <= i < sw.len() ==> sw[i].index <= c.len()
}

fn find_last_bearish(candles: &[Candle], k: usize) -> (r: Option<usize>)
    requires
        k <= candles@.len(),
    ensures
        r == (match last_bearish_before(candles@, k as int) {
            Some(j) => Some(j as usize),
            None => None::<usize>,
        }),
        r matches Some(j) ==> j < k,
{
    let mut j = k;
    while j > 0
        invariant
            j <= k <= candles@.len(),
            last_bearish_before(candles@, k as int) == last_bearish_before(candles@, j as int),
        decreases j,
    {
        if candles[j - 1].close.lt(&candles[j - 1].open) {
            return Some(j - 1);
        }
        j = j - 1;
    }
    None
}

fn find_last_bullish(candles: &[Candle], k: usize) -> (r: Option<usize>)
    requires
        k <= candles@.len(),
    ensures
        r == (match last_bullish_before(candles@, k as int) {
            Some(j) => Some(j as usize),
            None => None::<usize>,
        }),
        r matches Some(j) ==> j < k,
{
    let mut j = k;
    while j > 0
        invariant
            j <= k <= candles@.len(),
            last_bullish_before(candles@, k as int) == last_bullish_before(candles@, j as int),
        decreases j,
    {
        if candles[j - 1].open.lt(&candles[j - 1].close) {
            return Some(j - 1);
        }
        j = j - 1;
    }
    None
}

fn any_close_below_from(candles: &[Candle], k: usize, level: Dec) -> (r: bool)
    ensures
        r == closes_below_from(candles@, k as int, level),
{
    let len = candles.len();
    let mut j = k;
    while j < len
        invariant
            len == candles@.len(),
            k <= j,
            forall|i: int| #![trigger candles@[i]] k <= i < j ==> !dec_lt(candles@[i].close, level),
        decreases len - j,
    {
        if candles[j].close.lt(&level) {
            assert(candles@[j as int] == candles@[j as int]);
            return true;
        }
        j = j + 1;
    }
    false
}

fn any_close_above_from(candles: &[Candle], k: usize, level: Dec) -> (r: bool)
    ensures
        r == closes_above_from(candles@, k as int, level),
{
    let len = candles.len();
    let mut j = k;
    while j < len
        invariant
            len == candles@.len(),
            k <= j,
            forall|i: int| #![trigger candles@[i]] k <= i < j ==> !dec_lt(level, candles@[i].close),
        decreases len - j,
    {
        if level.lt(&candles[j].close) {
            assert(candles@[j as int] == candles@[j as int]);
            return true;
        }
        j = j + 1;
    }
    false
}

/// Order blocks: for a swing low, the last bearish candle before it (a bullish block,
/// mitigated once a candle from the swing on closes below the block's low); for a swing
/// high, the last bullish candle before it (a bearish block, mitigated once a candle from
/// the swing on closes above the block's high).
pub fn detect_ob(candles: &[Candle], swings: &[SwingPoint]) -> (r: Vec<OrderBlock>)
    requires
        swings_within(candles@, swings@),
    ensures
        r@ == spec_detect_ob(candles@, swings@),
{
    let mut result: Vec<OrderBlock> = Vec::new();
    let mut m: usize = 0;
    while m < swings.len()
        invariant
            swings_within(candles@, swings@),
            m <= swings@.len(),
            result@ == obs_upto(candles@, swings@, m as int),
        decreases swings@.len() - m,
    {
        let swing = swings[m];
        let ghost before = result@;
        proof {
            lemma_last_before_range(candles@, swing.index as int);
        }
        assert(swings@[m as int] == swing);
        match swing.kind {
            SwingKind::Low => {
                match find_last_bearish(candles, swing.index) {
                    Some(j) => {
                        let top = candles[j].high;
                        let bottom = candles[j].low;
                        let mitigated = any_close_below_from(candles, swing.index, bottom);
                        result.push(OrderBlock { top, bottom, formed_at: candles[j].time, side: Side::Long, mitigated });
                    },
                    None => {},
                }
            },
            SwingKind::High => {
                match find_last_bullish(candles, swing.index) {
                    Some(j) => {
                        let top = candles[j].high;
                        let bottom = candles[j].low;
                        let mitigated = any_close_above_from(candles, swing.index, top);
                        result.push(OrderBlock { top, bottom, formed_at: candles[j].time, side: Side::Short, mitigated });
                    },
                    None => {},
                }
            },
        }
        proof {
            assert(obs_upto(candles@, swings@, m + 1) == obs_upto(candles@, swings@, m as int) + ob_for(candles@, swing));
            assert(result@ =~= before + ob_for(candles@, swing));
        }
        m = m + 1;
    }
    result
}

// ---------------------------------------------------------------------------
// Break of structure / change of character
// ---------------------------------------------------------------------------

/// The reference levels after taking in, in swing order, the swings among `0 .. m`
/// that formed on the candle just before candle `k`.
pub open spec fn absorb_swings(
    sw: Seq<SwingPoint>,
    m: int,
    k: int,
    high: Option<Dec>,
    low: Option<Dec>,
) -> (Option<Dec>, Option<Dec>)
    decreases m,
{
    if m <= 0 {
        (high, low)
    } else {
        let prev = absorb_swings(sw, m - 1, k, high, low);
        let s = sw[m - 1];
        if s.index + 1 == k {
            match s.kind {
                SwingKind::High => (Some(s.price), prev.1),
                SwingKind::Low => (prev.0, Some(s.price)),
            }
        } else {
            prev
        }
    }
}

/// The kind of a break given the side of the previous break.
pub open spec fn break_kind(last: Option<Side>, side: Side) -> StructureEvent {
    if last == Some(if side == Side::Long { Side::Short } else { Side::Long }) {
        StructureEvent::Choch
    } else {
        StructureEvent::Bos
    }
}

/// Scanner state: unbroken swing high, unbroken swing low, side of the last break, events so far.
pub type StructureScan = (Option<Dec>, Option<Dec>, Option<Side>, Seq<BosChoch>);

/// The scan after candle `k`, whose reference levels are `high` and `low`.
pub open spec fn structure_breaks(c: Seq<Candle>, k: int, high: Option<Dec>, low: Option<Dec>, last: Option<Side>, events: Seq<BosChoch>) -> StructureScan {
    let candle = c[k];
    let up = match high {
        Some(p) => dec_lt(p, candle.close),
        None => false,
    };
    let high1 = if up { None } else { high };
    let last1 = if up { Some(Side::Long) } else { last };
    let events1 = if up {
        events.push(BosChoch { kind: break_kind(last, Side::Long), level: high.unwrap(), broken_at: candle.time, side: Side::Long })
    } else {
        events
    };
    let down = match low {
        Some(p) => dec_lt(candle.close, p),
        None => false,
    };
    let low1 = if down { None } else { low };
    let last2 = if down { Some(Side::Short) } else { last1 };
    let events2 = if down {
        events1.push(BosChoch { kind: break_kind(last1, Side::Short), level: low.unwrap(), broken_at: candle.time, side: Side::Short })
    } else {
        events1
    };
    (high1, low1, last2, events2)
}

/// The scan after candles `0 .. k`.
pub open spec fn structure_upto(c: Seq<Candle>, sw: Seq<SwingPoint>, k: int) -> StructureScan
    decreases k,
{
    if k <= 0 {
        (None, None, None, Seq::empty())
    } else {
        let st = structure_upto(c, sw, k - 1);
        let levels = absorb_swings(sw, sw.len() as int, k - 1, st.0, st.1);
        structure_breaks(c, k - 1, levels.0, levels.1, st.2, st.3)
    }
}

/// All structure events of the candles.
pub open spec fn spec_detect_structure(c: Seq<Candle>, sw: Seq<SwingPoint>) -> Seq<BosChoch> {
    structure_upto(c, sw, c.len() as int).3
}

/// Break of structure and change of character.  Candles are scanned in order; before
/// candle `k`, swings that formed on earlier candles become the reference levels (the
/// latest swing high and swing low, in candle order).  A close above the swing high is a
/// bullish break, a close below the swing low a bearish one; a break against the side of
/// the previous break is a change of character, otherwise a break of structure.  A broken
/// level is consumed.
pub fn detect_structure(candles: &[Candle], swings: &[SwingPoint]) -> (r: Vec<BosChoch>)
    ensures
        r@ == spec_detect_structure(candles@, swings@),
{
    let mut result: Vec<BosChoch> = Vec::new();
    let mut last_side: Option<Side> = None;
    let mut cur_high: Option<Dec> = None;
    let mut cur_low: Option<Dec> = None;
    let len = candles.len();
    let mut k: usize = 0;
    while k < len
        invariant
            len == candles@.len(),
            k <= len,
            (cur_high, cur_low, last_side, result@) == structure_upto(candles@, swings@, k as int),
        decreases len - k,
    {
        // Take in the swings formed on the previous candle, in swing order.
        let ghost h0 = cur_high;
        let ghost l0 = cur_low;
        let mut m: usize = 0;
        while m < swings.len()
            invariant
                len == candles@.len(),
                k < len,
                m <= swings@.len(),
                (cur_high, cur_low) == absorb_swings(swings@, m as int, k as int, h0, l0),
            decreases swings@.len() - m,
        {
            let s = swings[m];
            if k >= 1 && s.index == k - 1 {
                match s.kind {
                    SwingKind::High => {
                        cur_high = Some(s.price);
                    },
                    SwingKind::Low => {
                        cur_low = Some(s.price);
                    },
                }
            }
            m = m + 1;
        }
        let candle = candles[k];
        let ghost levels = (cur_high, cur_low);
        let ghost st = (h0, l0, last_side, result@);
        let prev_side = last_side;
        let mut broke_up = false;
        if let Some(sh) = cur_high {
            if sh.lt(&candle.close) {
                let kind = if prev_side == Some(Side::Short) {
                    StructureEvent::Choch
                } else {
                    StructureEvent::Bos
                };
                result.push(BosChoch { kind, level: sh, broken_at: candle.time, side: Side::Long });
                last_side = Some(Side::Long);
                cur_high = None;
                broke_up = true;
            }
        }
        let mid_side = last_side;
        if let Some(sl) = cur_low {
            if candle.close.lt(&sl) {
                let kind = if mid_side == Some(Side::Long) {
                    StructureEvent::Choch
                } else {
                    StructureEvent::Bos
                };
                result.push(BosChoch { kind, level: sl, broken_at: candle.time, side: Side::Short });
                last_side = Some(Side::Short);
                cur_low = None;
            }
        }
        proof {
            assert(candles@[k as int] == candle);
            let expect = structure_breaks(candles@, k as int, levels.0, levels.1, st.2, st.3);
            assert(structure_upto(candles@, swings@, k + 1) == expect);
            assert(result@ =~= expect.3);
        }
        k = k + 1;
    }
    result
}

// ---------------------------------------------------------------------------
// Liquidity sweeps
// ---------------------------------------------------------------------------

/// The sweep of swing `s` by candle `candle` at position `idx`, if any.
pub open spec fn sweep_of(candle: Candle, idx: int, s: SwingPoint) -> Seq<LiquiditySweep> {
    if s.index < idx {
        match s.kind {
            SwingKind::High => if dec_lt(s.price, candle.high) && dec_lt(candle.close, s.price) {
                seq![LiquiditySweep { level: s.price, swept_at: candle.time, side: Side::Short }]
            } else {
                Seq::empty()
            },
            SwingKind::Low => if dec_lt(candle.low, s.price) && dec_lt(s.price, candle.close) {
                seq![LiquiditySweep { level: s.price, swept_at: candle.time, side: Side::Long }]
            } else {
                Seq::empty()
            },
        }
    } else {
        Seq::empty()
    }
}

/// The sweeps by candle `idx` of swings `0 .. m`, in swing order.
pub open spec fn sweeps_by(c: Seq<Candle>, sw: Seq<SwingPoint>, idx: int, m: int) -> Seq<LiquiditySweep>
    decreases m,
{
    if m <= 0 {
        Seq::empty()
    } else {
        sweeps_by(c, sw, idx, m - 1) + sweep_of(c[idx], idx, sw[m - 1])
    }
}

/// The sweeps by candles `0 .. k`.
pub open spec fn sweeps_upto(c: Seq<Candle>, sw: Seq<SwingPoint>, k: int) -> Seq<LiquiditySweep>
    decreases k,
{
    if k <= 0 {
        Seq::empty()
    } else {
        sweeps_upto(c, sw, k - 1) + sweeps_by(c, sw, k - 1, sw.len() as int)
    }
}

/// All liquidity sweeps of the candles.
pub open spec fn spec_detect_sweeps(c: Seq<Candle>, sw: Seq<SwingPoint>) -> Seq<LiquiditySweep> {
    sweeps_upto(c, sw, c.len() as int)
}

/// Liquidity sweeps: a candle after a swing high whose high is above it and whose close is
/// below it (a bearish sweep), or after a swing low whose low is below it and whose close
/// is above it (a bullish sweep).
pub fn detect_sweeps(candles: &[Candle], swings: &[SwingPoint]) -> (r: Vec<LiquiditySweep>)
    ensures
        r@ == spec_detect_sweeps(candles@, swings@),
{
    let mut result: Vec<LiquiditySweep> = Vec::new();
    let len = candles.len();
    let mut k: usize = 0;
    while k < len
        invariant
            len == candles@.len(),
            k <= len,
            result@ == sweeps_upto(candles@, swings@, k as int),
        decreases len - k,
    {
        let candle = candles[k];
        let ghost start = result@;
        let mut m: usize = 0;
        while m < swings.len()
            invariant
                len == candles@.len(),
                k < len,
                candle == candles@[k as int],
                m <= swings@.len(),
                result@ == start + sweeps_by(candles@, swings@, k as int, m as int),
            decreases swings@.len() - m,
        {
            let s = swings[m];
            let ghost before = result@;
            if s.index < k {
                match s.kind {
                    SwingKind::High => {
                        if s.price.lt(&candle.high) && candle.close.lt(&s.price) {
                            result.push(LiquiditySweep { level: s.price, swept_at: candle.time, side: Side::Short });
                        }
                    },
                    SwingKind::Low => {
                        if candle.low.lt(&s.price) && s.price.lt(&candle.close) {
                            result.push(LiquiditySweep { level: s.price, swept_at: candle.time, side: Side::Long });
                        }
                    },
                }
            }
            proof {
                assert(swings@[m as int] == s);
                assert(result@ =~= before + sweep_of(candle, k as int, s));
                assert(result@ =~= start + sweeps_by(candles@, swings@, k as int, m + 1));
            }
            m = m + 1;
        }
        proof {
            assert(result@ =~= sweeps_upto(candles@, swings@, k + 1));
        }
        k = k + 1;
    }
    result
}

// ---------------------------------------------------------------------------
// Swing selection
// ---------------------------------------------------------------------------

/// Whether swing `s` is of `kind` and, when `below` is given, formed before that candle.
pub open spec fn selectable(s: SwingPoint, kind: SwingKind, below: Option<usize>) -> bool {
    s.kind == kind && match below {
        Some(b) => s.index < b,
        None => true,
    }
}

/// Among swings `0 .. m` that are selectable, the one with the largest candle index,
/// the later one on ties (`Iterator::max_by_key` on the index).
pub open spec fn latest_swing(sw: Seq<SwingPoint>, kind: SwingKind, below: Option<usize>, m: int) -> Option<SwingPoint>
    decreases m,
{
    if m <= 0 {
        None
    } else {
        let acc = latest_swing(sw, kind, below, m - 1);
        let s = sw[m - 1];
        if selectable(s, kind, below) {
            match acc {
                Some(a) => if a.index <= s.index { Some(s) } else { Some(a) },
                None => Some(s),
            }
        } else {
            acc
        }
    }
}

/// The highest swing-high price among swings `0 .. m`, the later one on ties (`Iterator::max`).
pub open spec fn highest_high(sw: Seq<SwingPoint>, m: int) -> Option<Dec>
    decreases m,
{
    if m <= 0 {
        None
    } else {
        let acc = highest_high(sw, m - 1);
        let s = sw[m - 1];
        if s.kind == SwingKind::High {
            match acc {
                Some(a) => if dec_le(a, s.price) { Some(s.price) } else { Some(a) },
                None => Some(s.price),
            }
        } else {
            acc
        }
    }
}

/// The lowest swing-low price among swings `0 .. m`, the earlier one on ties (`Iterator::min`).
pub open spec fn lowest_low(sw: Seq<SwingPoint>, m: int) -> Option<Dec>
    decreases m,
{
    if m <= 0 {
        None
    } else {
        let acc = lowest_low(sw, m - 1);
        let s = sw[m - 1];
        if s.kind == SwingKind::Low {
            match acc {
                Some(a) => if dec_le(a, s.price) { Some(a) } else { Some(s.price) },
                None => Some(s.price),
            }
        } else {
            acc
        }
    }
}

/// The latest impulse for a side, as (high, low): for `Long` the latest swing high and the
/// latest swing low before it; for `Short` the latest swing low and the latest swing high
/// before it.
pub open spec fn impulse_range(sw: Seq<SwingPoint>, side: Side) -> Option<(Dec, Dec)> {
    let n = sw.len() as int;
    match side {
        Side::Long => match latest_swing(sw, SwingKind::High, None, n) {
            Some(anchor) => match latest_swing(sw, SwingKind::Low, Some(anchor.index), n) {
                Some(base) => Some((anchor.price, base.price)),
                None => None,
            },
            None => None,
        },
        Side::Short => match latest_swing(sw, SwingKind::Low, None, n) {
            Some(anchor) => match latest_swing(sw, SwingKind::High, Some(anchor.index), n) {
                Some(base) => Some((base.price, anchor.price)),
                None => None,
            },
            None => None,
        },
    }
}

/// The swing with the largest candle index among those of `kind` (before `below`, if given).
pub fn select_latest(swings: &[SwingPoint], kind: SwingKind, below: Option<usize>) -> (r: Option<SwingPoint>)
    ensures
        r == latest_swing(swings@, kind, below, swings@.len() as int),
{
    let mut acc: Option<SwingPoint> = None;
    let mut m: usize = 0;
    while m < swings.len()
        invariant
            m <= swings@.len(),
            acc == latest_swing(swings@, kind, below, m as int),
        decreases swings@.len() - m,
    {
        let s = swings[m];
        let ok = s.kind == kind && match below {
            Some(b) => s.index < b,
            None => true,
        };
        if ok {
            acc = match acc {
                Some(a) => if a.index <= s.index { Some(s) } else { Some(a) },
                None => Some(s),
            };
        }
        proof {
            assert(swings@[m as int] == s);
        }
        m = m + 1;
    }
    acc
}

/// The highest swing-high price (`Iterator::max`), if there is a swing high.
pub fn select_highest_high(swings: &[SwingPoint]) -> (r: Option<Dec>)
    ensures
        r == highest_high(swings@, swings@.len() as int),
{
    let mut acc: Option<Dec> = None;
    let mut m: usize = 0;
    while m < swings.len()
        invariant
            m <= swings@.len(),
            acc == highest_high(swings@, m as int),
        decreases swings@.len() - m,
    {
        let s = swings[m];
        if s.kind == SwingKind::High {
            acc = match acc {
                Some(a) => if a.le(&s.price) { Some(s.price) } else { Some(a) },
                None => Some(s.price),
            };
        }
        proof {
            assert(swings@[m as int] == s);
        }
        m = m + 1;
    }
    acc
}

/// The lowest swing-low price (`Iterator::min`), if there is a swing low.
pub fn select_lowest_low(swings: &[SwingPoint]) -> (r: Option<Dec>)
    ensures
        r == lowest_low(swings@, swings@.len() as int),
{
    let mut acc: Option<Dec> = None;
    let mut m: usize = 0;
    while m < swings.len()
        invariant
            m <= swings@.len(),
            acc == lowest_low(swings@, m as int),
        decreases swings@.len() - m,
    {
        let s = swings[m];
        if s.kind == SwingKind::Low {
            acc = match acc {
                Some(a) => if a.le(&s.price) { Some(a) } else { Some(s.price) },
                None => Some(s.price),
            };
        }
        proof {
            assert(swings@[m as int] == s);
        }
        m = m + 1;
    }
    acc
}

/// The latest impulse for a side, as (high, low).
pub fn select_impulse(swings: &[SwingPoint], side: Side) -> (r: Option<(Dec, Dec)>)
    ensures
        r == impulse_range(swings@, side),
{
    match side {
        Side::Long => {
            let anchor = match select_latest(swings, SwingKind::High, None) {
                Some(a) => a,
                None => return None,
            };
            let base = match select_latest(swings, SwingKind::Low, Some(anchor.index)) {
                Some(b) => b,
                None => return None,
            };
            Some((anchor.price, base.price))
        },
        Side::Short => {
            let anchor = match select_latest(swings, SwingKind::Low, None) {
                Some(a) => a,
                None => return None,
            };
            let base = match select_latest(swings, SwingKind::High, Some(anchor.index)) {
                Some(b) => b,
                None => return None,
            };
            Some((base.price, anchor.price))
        },
    }
}

// ---------------------------------------------------------------------------
// Premium / discount array
// ---------------------------------------------------------------------------

/// The range the array is drawn over, as (high, low): the latest impulse of the bias, or
/// with no bias the highest swing high and the lowest swing low.
pub open spec fn pd_range(sw: Seq<SwingPoint>, bias: Option<Side>) -> Option<(Dec, Dec)> {
    match bias {
        Some(side) => impulse_range(sw, side),
        None => match (highest_high(sw, sw.len() as int), lowest_low(sw, sw.len() as int)) {
            (Some(h), Some(l)) => Some((h, l)),
            _ => None,
        },
    }
}

/// The zone of a close against the equilibrium.
pub open spec fn zone_of(close: Dec, equilibrium: Dec) -> PdZone {
    if dec_lt(equilibrium, close) {
        PdZone::Premium
    } else if dec_lt(close, equilibrium) {
        PdZone::Discount
    } else {
        PdZone::Equilibrium
    }
}

/// What `compute_pd` gives: `None` where the midpoint arithmetic overflows (where the
/// computation has no result), else the array, if there is one.
pub open spec fn pd_outcome(c: Seq<Candle>, sw: Seq<SwingPoint>, bias: Option<Side>) -> Option<Option<PdArray>> {
    match pd_range(sw, bias) {
        None => Some(None),
        Some(range) => {
            let (h, l) = range;
            if dec_le(h, l) {
                Some(None)
            } else {
                match spec_add(h, l) {
                    None => None,
                    Some(sum) => match spec_div(sum, spec_whole(2)) {
                        None => None,
                        Some(eq) => if c.len() == 0 {
                            Some(None)
                        } else {
                            Some(Some(PdArray {
                                range_high: h,
                                range_low: l,
                                equilibrium: eq,
                                current_zone: zone_of(c.last().close, eq),
                            }))
                        },
                    },
                }
            }
        },
    }
}

/// The zone of the last close: above the equilibrium is premium, below it discount.
pub fn classify_zone(close: Dec, equilibrium: Dec) -> (r: PdZone)
    ensures
        r == zone_of(close, equilibrium),
{
    if equilibrium.lt(&close) {
        PdZone::Premium
    } else if close.lt(&equilibrium) {
        PdZone::Discount
    } else {
        PdZone::Equilibrium
    }
}

/// `compute_pd`, with `None` where its arithmetic overflows.
pub fn compute_pd_checked(candles: &[Candle], swings: &[SwingPoint], bias: Option<Side>) -> (r: Option<Option<PdArray>>)
    ensures
        r == pd_outcome(candles@, swings@, bias),
{
    let range = match bias {
        Some(side) => select_impulse(swings, side),
        None => match (select_highest_high(swings), select_lowest_low(swings)) {
            (Some(h), Some(l)) => Some((h, l)),
            _ => None,
        },
    };
    let (range_high, range_low) = match range {
        Some(p) => p,
        None => return Some(None),
    };
    if range_high.le(&range_low) {
        return Some(None);
    }
    let sum = match checked_add(range_high, range_low) {
        Some(s) => s,
        None => return None,
    };
    let equilibrium = match checked_div(sum, Dec::from_u32(2)) {
        Some(e) => e,
        None => return None,
    };
    if candles.len() == 0 {
        return Some(None);
    }
    let last_close = candles[candles.len() - 1].close;
    let current_zone = classify_zone(last_close, equilibrium);
    Some(Some(PdArray { range_high, range_low, equilibrium, current_zone }))
}

/// Premium/discount array over the latest impulse of the bias (or, with no bias, over the
/// highest swing high and the lowest swing low): the equilibrium is the midpoint of the
/// range and the zone is that of the last close.  `None` when there is no such range, the
/// range is empty, or there are no candles.
pub fn compute_pd(candles: &[Candle], swings: &[SwingPoint], bias: Option<Side>) -> (r: Option<PdArray>)
    requires
        pd_outcome(candles@, swings@, bias) is Some,
    ensures
        Some(r) == pd_outcome(candles@, swings@, bias),
{
    compute_pd_checked(candles, swings, bias).unwrap()
}

// ---------------------------------------------------------------------------
// Optimal trade entry
// ---------------------------------------------------------------------------

/// The Fibonacci ratio 0.618.
pub open spec fn fib618() -> Dec {
    dec_of((618int, 3int))
}

/// The Fibonacci ratio 0.786.
pub open spec fn fib786() -> Dec {
    dec_of((786int, 3int))
}

/// What `compute_ote` gives: `None` where its arithmetic overflows (where the computation
/// has no result), else the zone, if there is one.  For `Long` the zone is
/// `[high - 0.786 * range, high - 0.618 * range]`, for `Short`
/// `[low + 0.618 * range, low + 0.786 * range]`.
pub open spec fn ote_outcome(sw: Seq<SwingPoint>, bias: Side) -> Option<Option<Ote>> {
    match impulse_range(sw, bias) {
        None => Some(None),
        Some(hl) => {
            let (h, l) = hl;
            match spec_sub(h, l) {
                None => None,
                Some(range) => if dec_le(range, spec_zero()) {
                    Some(None)
                } else {
                    match bias {
                        Side::Long => match (spec_mul(fib618(), range), spec_mul(fib786(), range)) {
                            (Some(a), Some(b)) => match (spec_sub(h, a), spec_sub(h, b)) {
                                (Some(top), Some(bottom)) => Some(Some(Ote { top, bottom, side: Side::Long })),
                                _ => None,
                            },
                            _ => None,
                        },
                        Side::Short => match (spec_mul(fib786(), range), spec_mul(fib618(), range)) {
                            (Some(a), Some(b)) => match (spec_add(l, a), spec_add(l, b)) {
                                (Some(top), Some(bottom)) => Some(Some(Ote { top, bottom, side: Side::Short })),
                                _ => None,
                            },
                            _ => None,
                        },
                    }
                },
            }
        },
    }
}

fn fib_ratio(thousandths: i128) -> (r: Dec)
    requires
        0 <= thousandths <= 1000,
    ensures
        r == dec_of((thousandths as int, 3int)),
{
    let d = Dec::new(thousandths, 3).unwrap();
    proof {
        lemma_dec_of_view(d);
    }
    d
}

/// `compute_ote`, with `None` where its arithmetic overflows.
pub fn compute_ote_checked(swings: &[SwingPoint], bias: Side) -> (r: Option<Option<Ote>>)
    ensures
        r == ote_outcome(swings@, bias),
{
    let (swing_high, swing_low) = match select_impulse(swings, bias) {
        Some(p) => p,
        None => return Some(None),
    };
    let range = match checked_sub(swing_high, swing_low) {
        Some(r) => r,
        None => return None,
    };
    if range.le(&Dec::zero()) {
        return Some(None);
    }
    let fib618 = fib_ratio(618);
    let fib786 = fib_ratio(786);
    match bias {
        Side::Long => {
            let a = checked_mul(fib618, range);
            let b = checked_mul(fib786, range);
            match (a, b) {
                (Some(a), Some(b)) => match (checked_sub(swing_high, a), checked_sub(swing_high, b)) {
                    (Some(top), Some(bottom)) => Some(Some(Ote { top, bottom, side: Side::Long })),
                    _ => None,
                },
                _ => None,
            }
        },
        Side::Short => {
            let a = checked_mul(fib786, range);
            let b = checked_mul(fib618, range);
            match (a, b) {
                (Some(a), Some(b)) => match (checked_add(swing_low, a), checked_add(swing_low, b)) {
                    (Some(top), Some(bottom)) => Some(Some(Ote { top, bottom, side: Side::Short })),
                    _ => None,
                },
                _ => None,
            }
        },
    }
}

/// Optimal trade entry: the 61.8%-78.6% retracement of the latest impulse of the bias.
/// `None` when there is no impulse or its range is not positive.
pub fn compute_ote(swings: &[SwingPoint], bias: Side) -> (r: Option<Ote>)
    requires
        ote_outcome(swings@, bias) is Some,
    ensures
        Some(r) == ote_outcome(swings@, bias),
{
    compute_ote_checked(swings, bias).unwrap()
}

} // verus!
