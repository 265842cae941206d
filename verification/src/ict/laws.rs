//! Properties that hold of every analysis.
use vstd::prelude::*;

use crate::decimal::{lemma_dec_of_valid, dec_eq, dec_le, dec_lt, dec_max, dec_min, spec_abs, spec_add, spec_div, spec_sub, spec_whole, spec_zero, Dec};
use crate::domain::{Candle, Side};
use crate::ict::analyzer::{
    bias_of, confluence_outcome, filter_outcome, fvg_in_zone, last_fvg_in_zone, last_ob_in_zone, ob_in_zone, recent_sweep,
    signal_from_entry, signal_outcome, stop_price, stop_protects, target_price, zone_fits,
};
use crate::ict::detect::{
    break_kind, fvgs_at, fvgs_upto, ote_outcome, pd_outcome, spec_detect_fvg, spec_detect_ob,
    spec_detect_structure, spec_detect_sweeps, structure_breaks, structure_upto, absorb_swings,
};
use crate::ict::swing::{is_pivot_high, is_pivot_low, spec_detect_swings, swings_at, swings_between, SwingKind, SwingPoint};
use crate::ict::types::{BosChoch, Fvg, LiquiditySweep, OrderBlock, Ote, PdArray, StructureEvent, TradeSignal};

verus! {

/// Every signal of the analysis is backed by all confluence conditions: at least five
/// candles; its side is that of the latest structure break; the premium/discount zone of
/// the last close fits that side and the stop is the range boundary behind it, on the
/// protective side of the entry; the last close lies inside the OTE zone; an order block
/// or a gap overlaps that zone; the target is the furthest swing extreme; the sweep flag
/// records whether a sweep of the same side happened within the last five candles (it is
/// not required); and the stop is at least the minimum distance from the entry unless that
/// minimum is zero.
pub proof fn lemma_signal_backed_by_confluence(c: Seq<Candle>, min_sl_distance: Dec, period: int, s: TradeSignal)
    requires
        signal_outcome(c, min_sl_distance, period) == Some(Some(s)),
    ensures
        c.len() >= 5,
        ({
            let sw = spec_detect_swings(c, period);
            let structure = spec_detect_structure(c, sw);
            &&& bias_of(structure) == Some(s.side)
            &&& pd_outcome(c, sw, Some(s.side)) matches Some(Some(pd)) && zone_fits(pd.current_zone, s.side)
                && s.sl == stop_price(pd, s.side)
            &&& ote_outcome(sw, s.side) matches Some(Some(ote)) && dec_le(ote.bottom, c.last().close)
                && dec_le(c.last().close, ote.top)
            &&& Some(s.tp) == target_price(sw, s.side)
            &&& s.confluence.sweep_present == recent_sweep(c, spec_detect_sweeps(c, sw), s.side)
        }),
        stop_protects(s.sl, s.entry, s.side),
        s.confluence.has_bos_choch && s.confluence.in_pd_zone,
        s.confluence.ob_in_ote || s.confluence.fvg_in_ote,
        dec_eq(min_sl_distance, spec_zero()) || (spec_sub(s.entry, s.sl) matches Some(d) && dec_le(min_sl_distance, spec_abs(d))),
{
}

/// A signal's stop is on the protective side of its entry: below it for a long, above it
/// for a short.
pub proof fn lemma_stop_on_protective_side(c: Seq<Candle>, min_sl_distance: Dec, period: int, s: TradeSignal)
    requires
        signal_outcome(c, min_sl_distance, period) == Some(Some(s)),
    ensures
        s.side == Side::Long ==> dec_lt(s.sl, s.entry),
        s.side == Side::Short ==> dec_lt(s.entry, s.sl),
{
    lemma_signal_backed_by_confluence(c, min_sl_distance, period, s);
}

/// A signal's entry lies in the retracement window: it is the midpoint, as decimal
/// arithmetic computes it, of a window `[lo, hi]` inside the OTE zone, namely the overlap
/// of the chosen order block (or gap) with that zone.
pub proof fn lemma_entry_is_midpoint_of_ote_window(c: Seq<Candle>, min_sl_distance: Dec, period: int, s: TradeSignal)
    requires
        signal_outcome(c, min_sl_distance, period) == Some(Some(s)),
    ensures
        ({
            let sw = spec_detect_swings(c, period);
            ote_outcome(sw, s.side) matches Some(Some(ote)) && exists|lo: Dec, hi: Dec|
                #![trigger spec_add(hi, lo)]
                dec_le(ote.bottom, lo) && dec_le(hi, ote.top) && (spec_add(hi, lo) matches Some(sum)
                    && spec_div(sum, spec_whole(2)) == Some(s.entry))
        }),
{
    lemma_signal_backed_by_confluence(c, min_sl_distance, period, s);
    let sw = spec_detect_swings(c, period);
    let ote = ote_outcome(sw, s.side).unwrap().unwrap();
    let obs = spec_detect_ob(c, sw);
    let fvgs = spec_detect_fvg(c);
    let ob = last_ob_in_zone(obs, s.side, ote, obs.len() as int);
    let fvg = last_fvg_in_zone(fvgs, s.side, ote, fvgs.len() as int);
    let z = match ob {
        Some(x) => (x.bottom, x.top),
        None => (fvg.unwrap().bottom, fvg.unwrap().top),
    };
    let lo = dec_max(z.0, ote.bottom);
    let hi = dec_min(z.1, ote.top);
    assert(dec_le(ote.bottom, lo));
    assert(dec_le(hi, ote.top));
    assert(spec_add(hi, lo) matches Some(sum) && spec_div(sum, spec_whole(2)) == Some(s.entry));
}

/// Every swing point is a pivot of its candle: a swing high's price is that candle's high
/// and is strictly above the highs of the `n` candles on each side; a swing low mirrors it.
pub proof fn lemma_swings_are_pivots(c: Seq<Candle>, n: int)
    requires
        0 <= n,
        c.len() <= usize::MAX,
    ensures
        forall|i: int| #![trigger spec_detect_swings(c, n)[i]] 0 <= i < spec_detect_swings(c, n).len() ==> {
            let s = spec_detect_swings(c, n)[i];
            &&& n <= s.index < c.len() - n
            &&& s.kind == SwingKind::High ==> s.price == c[s.index as int].high && is_pivot_high(c, n, s.index as int)
            &&& s.kind == SwingKind::Low ==> s.price == c[s.index as int].low && is_pivot_low(c, n, s.index as int)
        },
{
    if c.len() >= 2 * n + 1 {
        lemma_swings_between_are_pivots(c, n, c.len() - n);
    }
}

proof fn lemma_swings_between_are_pivots(c: Seq<Candle>, n: int, k: int)
    requires
        0 <= n,
        k <= c.len() - n,
        c.len() <= usize::MAX,
    ensures
        forall|i: int| #![trigger swings_between(c, n, k)[i]] 0 <= i < swings_between(c, n, k).len() ==> {
            let s = swings_between(c, n, k)[i];
            &&& n <= s.index < k
            &&& s.kind == SwingKind::High ==> s.price == c[s.index as int].high && is_pivot_high(c, n, s.index as int)
            &&& s.kind == SwingKind::Low ==> s.price == c[s.index as int].low && is_pivot_low(c, n, s.index as int)
        },
    decreases k - n,
{
    if k > n {
        lemma_swings_between_are_pivots(c, n, k - 1);
        let prev = swings_between(c, n, k - 1);
        let here = swings_at(c, n, k - 1);
        assert(swings_between(c, n, k) == prev + here);
        assert forall|i: int| #![trigger (prev + here)[i]] 0 <= i < (prev + here).len() implies {
            let s = (prev + here)[i];
            &&& n <= s.index < k
            &&& s.kind == SwingKind::High ==> s.price == c[s.index as int].high && is_pivot_high(c, n, s.index as int)
            &&& s.kind == SwingKind::Low ==> s.price == c[s.index as int].low && is_pivot_low(c, n, s.index as int)
        } by {
            if i < prev.len() {
                assert((prev + here)[i] == prev[i]);
            } else {
                assert((prev + here)[i] == here[i - prev.len()]);
            }
        }
    }
}

/// Every candle that is a pivot high (or low) with `n` candles on each side appears as a
/// swing high (or low) at its index.
pub proof fn lemma_pivots_are_swings(c: Seq<Candle>, n: int, i: int)
    requires
        0 <= n,
        n <= i < c.len() - n,
        c.len() <= usize::MAX,
    ensures
        is_pivot_high(c, n, i) ==> exists|j: int| #![trigger spec_detect_swings(c, n)[j]] 0 <= j < spec_detect_swings(c, n).len()
            && spec_detect_swings(c, n)[j].index == i && spec_detect_swings(c, n)[j].kind == SwingKind::High,
        is_pivot_low(c, n, i) ==> exists|j: int| #![trigger spec_detect_swings(c, n)[j]] 0 <= j < spec_detect_swings(c, n).len()
            && spec_detect_swings(c, n)[j].index == i && spec_detect_swings(c, n)[j].kind == SwingKind::Low,
{
    lemma_swings_between_contain(c, n, c.len() - n, i);
    let all = spec_detect_swings(c, n);
    let sb = swings_between(c, n, c.len() - n);
    assert(all == sb);
    if is_pivot_high(c, n, i) {
        let j = choose|j: int| #![trigger sb[j]] 0 <= j < sb.len() && sb[j].index == i && sb[j].kind == SwingKind::High;
        assert(all[j] == sb[j]);
    }
    if is_pivot_low(c, n, i) {
        let j = choose|j: int| #![trigger sb[j]] 0 <= j < sb.len() && sb[j].index == i && sb[j].kind == SwingKind::Low;
        assert(all[j] == sb[j]);
    }
}

proof fn lemma_swings_between_contain(c: Seq<Candle>, n: int, k: int, i: int)
    requires
        0 <= n,
        n <= i < k <= c.len() - n,
        c.len() <= usize::MAX,
    ensures
        is_pivot_high(c, n, i) ==> exists|j: int| #![trigger swings_between(c, n, k)[j]] 0 <= j < swings_between(c, n, k).len()
            && swings_between(c, n, k)[j].index == i && swings_between(c, n, k)[j].kind == SwingKind::High,
        is_pivot_low(c, n, i) ==> exists|j: int| #![trigger swings_between(c, n, k)[j]] 0 <= j < swings_between(c, n, k).len()
            && swings_between(c, n, k)[j].index == i && swings_between(c, n, k)[j].kind == SwingKind::Low,
    decreases k - n,
{
    let prev = swings_between(c, n, k - 1);
    let here = swings_at(c, n, k - 1);
    assert(swings_between(c, n, k) == prev + here);
    if i < k - 1 {
        lemma_swings_between_contain(c, n, k - 1, i);
        if is_pivot_high(c, n, i) {
            let j = choose|j: int| #![trigger prev[j]] 0 <= j < prev.len() && prev[j].index == i && prev[j].kind == SwingKind::High;
            assert((prev + here)[j] == prev[j]);
        }
        if is_pivot_low(c, n, i) {
            let j = choose|j: int| #![trigger prev[j]] 0 <= j < prev.len() && prev[j].index == i && prev[j].kind == SwingKind::Low;
            assert((prev + here)[j] == prev[j]);
        }
    } else {
        if is_pivot_high(c, n, i) {
            assert((prev + here)[prev.len() as int] == here[0]);
        }
        if is_pivot_low(c, n, i) {
            let j = here.len() - 1;
            assert((prev + here)[prev.len() + j] == here[j]);
        }
    }
}

/// Every fair value gap has its bottom strictly below its top.
pub proof fn lemma_fvg_bottom_below_top(c: Seq<Candle>)
    ensures
        forall|i: int| #![trigger spec_detect_fvg(c)[i]] 0 <= i < spec_detect_fvg(c).len()
            ==> dec_lt(spec_detect_fvg(c)[i].bottom, spec_detect_fvg(c)[i].top),
{
    lemma_fvgs_upto_ordered(c, c.len() as int);
}

proof fn lemma_fvgs_upto_ordered(c: Seq<Candle>, k: int)
    ensures
        forall|i: int| #![trigger fvgs_upto(c, k)[i]] 0 <= i < fvgs_upto(c, k).len()
            ==> dec_lt(fvgs_upto(c, k)[i].bottom, fvgs_upto(c, k)[i].top),
    decreases k,
{
    if k > 2 {
        lemma_fvgs_upto_ordered(c, k - 1);
        let prev = fvgs_upto(c, k - 1);
        let here = fvgs_at(c, k - 1);
        assert(fvgs_upto(c, k) == prev + here);
        assert forall|i: int| 0 <= i < (prev + here).len() implies dec_lt((prev + here)[i].bottom, (prev + here)[i].top) by {
            if i < prev.len() {
                assert((prev + here)[i] == prev[i]);
            } else {
                assert((prev + here)[i] == here[i - prev.len()]);
            }
        }
    }
}

/// The structure events alternate as documented: an event is a change of character
/// exactly when it is not the first and breaks the opposite way from the event before it;
/// otherwise it is a break of structure.
pub proof fn lemma_choch_marks_reversal(c: Seq<Candle>, sw: Seq<SwingPoint>)
    ensures
        forall|i: int| #![trigger spec_detect_structure(c, sw)[i]] 0 <= i < spec_detect_structure(c, sw).len() ==>
            (spec_detect_structure(c, sw)[i].kind == StructureEvent::Choch <==> (i > 0
                && spec_detect_structure(c, sw)[i - 1].side != spec_detect_structure(c, sw)[i].side)),
{
    lemma_structure_alternation(c, sw, c.len() as int);
    reveal(scan_consistent);
}

/// The scanner's remembered side is that of its last event, and events alternate.
#[verifier::opaque]
pub open spec fn scan_consistent(last: Option<Side>, ev: Seq<BosChoch>) -> bool {
    &&& ev.len() == 0 ==> last is None
    &&& ev.len() > 0 ==> last == Some(ev.last().side)
    &&& forall|i: int| #![trigger ev[i]] 0 <= i < ev.len() ==> (ev[i].kind == StructureEvent::Choch <==> (i > 0
        && ev[i - 1].side != ev[i].side))
}

proof fn lemma_push_keeps_consistent(last: Option<Side>, ev: Seq<BosChoch>, e: BosChoch)
    requires
        scan_consistent(last, ev),
        e.kind == break_kind(last, e.side),
    ensures
        scan_consistent(Some(e.side), ev.push(e)),
{
    reveal(scan_consistent);
    let ev2 = ev.push(e);
    assert forall|i: int| 0 <= i < ev2.len() implies (ev2[i].kind == StructureEvent::Choch <==> (i > 0
        && ev2[i - 1].side != ev2[i].side)) by {
        if i < ev.len() {
            assert(ev2[i] == ev[i]);
            if i > 0 {
                assert(ev2[i - 1] == ev[i - 1]);
            }
        } else {
            assert(ev2[i] == e);
            if i > 0 {
                assert(ev2[i - 1] == ev.last());
            }
        }
    }
}

proof fn lemma_breaks_keep_consistent(
    c: Seq<Candle>,
    k: int,
    high: Option<Dec>,
    low: Option<Dec>,
    last: Option<Side>,
    events: Seq<BosChoch>,
)
    requires
        scan_consistent(last, events),
    ensures
        scan_consistent(structure_breaks(c, k, high, low, last, events).2, structure_breaks(c, k, high, low, last, events).3),
{
    let candle = c[k];
    let up = match high {
        Some(p) => dec_lt(p, candle.close),
        None => false,
    };
    let last1 = if up { Some(Side::Long) } else { last };
    let events1 = if up {
        events.push(BosChoch { kind: break_kind(last, Side::Long), level: high.unwrap(), broken_at: candle.time, side: Side::Long })
    } else {
        events
    };
    if up {
        lemma_push_keeps_consistent(last, events, BosChoch { kind: break_kind(last, Side::Long), level: high.unwrap(), broken_at: candle.time, side: Side::Long });
    }
    let down = match low {
        Some(p) => dec_lt(candle.close, p),
        None => false,
    };
    if down {
        lemma_push_keeps_consistent(last1, events1, BosChoch { kind: break_kind(last1, Side::Short), level: low.unwrap(), broken_at: candle.time, side: Side::Short });
    }
}

proof fn lemma_structure_alternation(c: Seq<Candle>, sw: Seq<SwingPoint>, k: int)
    ensures
        scan_consistent(structure_upto(c, sw, k).2, structure_upto(c, sw, k).3),
    decreases k,
{
    if k <= 0 {
        reveal(scan_consistent);
    } else {
        lemma_structure_alternation(c, sw, k - 1);
        let st = structure_upto(c, sw, k - 1);
        let levels = absorb_swings(sw, sw.len() as int, k - 1, st.0, st.1);
        lemma_breaks_keep_consistent(c, k - 1, levels.0, levels.1, st.2, st.3);
    }
}

/// The structure scan up to candle `j` reads only candles `0 .. j`.
proof fn lemma_structure_scan_reads_prefix(c: Seq<Candle>, d: Seq<Candle>, sw: Seq<SwingPoint>, j: int)
    requires
        0 <= j <= c.len(),
        j <= d.len(),
        forall|i: int| 0 <= i < j ==> c[i] == d[i],
    ensures
        structure_upto(c, sw, j) == structure_upto(d, sw, j),
    decreases j,
{
    if j > 0 {
        lemma_structure_scan_reads_prefix(c, d, sw, j - 1);
        assert(c[j - 1] == d[j - 1]);
    }
}

/// Events once found stay: the events after candle `j` begin the events after candle `k`.
proof fn lemma_structure_events_grow(c: Seq<Candle>, sw: Seq<SwingPoint>, j: int, k: int)
    requires
        0 <= j <= k <= c.len(),
    ensures
        structure_upto(c, sw, j).3.len() <= structure_upto(c, sw, k).3.len(),
        structure_upto(c, sw, k).3.subrange(0, structure_upto(c, sw, j).3.len() as int) == structure_upto(c, sw, j).3,
    decreases k,
{
    if j < k {
        lemma_structure_events_grow(c, sw, j, k - 1);
        let a = structure_upto(c, sw, j).3;
        let b = structure_upto(c, sw, k - 1).3;
        let e = structure_upto(c, sw, k).3;
        assert(e.len() >= b.len());
        assert(e.subrange(0, b.len() as int) =~= b);
        assert(e.subrange(0, a.len() as int) =~= b.subrange(0, a.len() as int));
    } else {
        let e = structure_upto(c, sw, k).3;
        assert(e.subrange(0, e.len() as int) =~= e);
    }
}

/// Structure detection never looks ahead: on the first `k` candles it finds exactly the
/// events that the scan of all candles has found after candle `k`, and these begin the
/// events of all candles.
pub proof fn lemma_structure_no_lookahead(c: Seq<Candle>, sw: Seq<SwingPoint>, k: int)
    requires
        0 <= k <= c.len(),
    ensures
        spec_detect_structure(c.take(k), sw) == structure_upto(c, sw, k).3,
        spec_detect_structure(c.take(k), sw).len() <= spec_detect_structure(c, sw).len(),
        spec_detect_structure(c, sw).subrange(0, spec_detect_structure(c.take(k), sw).len() as int)
            == spec_detect_structure(c.take(k), sw),
{
    lemma_structure_scan_reads_prefix(c, c.take(k), sw, k);
    lemma_structure_events_grow(c, sw, k, c.len() as int);
}

/// The order blocks that can carry a signal of the bias: unmitigated, of the bias side and
/// overlapping the OTE zone, in their order.
pub open spec fn eligible_obs(obs: Seq<OrderBlock>, bias: Side, ote: Ote) -> Seq<OrderBlock> {
    obs.filter(|o: OrderBlock| ob_in_zone(o, bias, ote))
}

/// The gaps that can carry a signal of the bias, in their order.
pub open spec fn eligible_fvgs(fvgs: Seq<Fvg>, bias: Side, ote: Ote) -> Seq<Fvg> {
    fvgs.filter(|f: Fvg| fvg_in_zone(f, bias, ote))
}

proof fn lemma_last_ob_is_last_eligible(obs: Seq<OrderBlock>, bias: Side, ote: Ote, m: int)
    requires
        0 <= m <= obs.len(),
    ensures
        last_ob_in_zone(obs, bias, ote, m) == (if eligible_obs(obs.take(m), bias, ote).len() > 0 {
            Some(eligible_obs(obs.take(m), bias, ote).last())
        } else {
            None::<OrderBlock>
        }),
    decreases m,
{
    reveal(Seq::filter);
    let t = obs.take(m);
    if m > 0 {
        lemma_last_ob_is_last_eligible(obs, bias, ote, m - 1);
        assert(t.drop_last() =~= obs.take(m - 1));
        assert(t.last() == obs[m - 1]);
        assert(eligible_obs(t, bias, ote) == (if ob_in_zone(t.last(), bias, ote) {
            eligible_obs(t.drop_last(), bias, ote).push(t.last())
        } else {
            eligible_obs(t.drop_last(), bias, ote)
        }));
    } else {
        assert(eligible_obs(t, bias, ote).len() == 0);
    }
}

proof fn lemma_last_fvg_is_last_eligible(fvgs: Seq<Fvg>, bias: Side, ote: Ote, m: int)
    requires
        0 <= m <= fvgs.len(),
    ensures
        last_fvg_in_zone(fvgs, bias, ote, m) == (if eligible_fvgs(fvgs.take(m), bias, ote).len() > 0 {
            Some(eligible_fvgs(fvgs.take(m), bias, ote).last())
        } else {
            None::<Fvg>
        }),
    decreases m,
{
    reveal(Seq::filter);
    let t = fvgs.take(m);
    if m > 0 {
        lemma_last_fvg_is_last_eligible(fvgs, bias, ote, m - 1);
        assert(t.drop_last() =~= fvgs.take(m - 1));
        assert(t.last() == fvgs[m - 1]);
        assert(eligible_fvgs(t, bias, ote) == (if fvg_in_zone(t.last(), bias, ote) {
            eligible_fvgs(t.drop_last(), bias, ote).push(t.last())
        } else {
            eligible_fvgs(t.drop_last(), bias, ote)
        }));
    } else {
        assert(eligible_fvgs(t, bias, ote).len() == 0);
    }
}

/// Zones that cannot carry the signal never change it: order blocks and gaps that are
/// mitigated, of the other side or outside the OTE zone may be added or removed anywhere,
/// and the confluence check gives the same result, as long as the eligible ones stay the
/// same and in the same order.
pub proof fn lemma_ineligible_zones_do_not_matter(
    c: Seq<Candle>,
    fvgs: Seq<Fvg>,
    obs: Seq<OrderBlock>,
    fvgs2: Seq<Fvg>,
    obs2: Seq<OrderBlock>,
    structure: Seq<BosChoch>,
    sweeps: Seq<LiquiditySweep>,
    pd: Option<PdArray>,
    ote: Option<Ote>,
    sw: Seq<SwingPoint>,
)
    requires
        structure.len() > 0 && ote is Some ==> {
            &&& eligible_obs(obs2, structure.last().side, ote.unwrap()) == eligible_obs(obs, structure.last().side, ote.unwrap())
            &&& eligible_fvgs(fvgs2, structure.last().side, ote.unwrap()) == eligible_fvgs(fvgs, structure.last().side, ote.unwrap())
        },
    ensures
        confluence_outcome(c, fvgs2, obs2, structure, sweeps, pd, ote, sw) == confluence_outcome(c, fvgs, obs, structure, sweeps, pd, ote, sw),
{
    if structure.len() > 0 && ote is Some {
        let bias = structure.last().side;
        let o = ote.unwrap();
        lemma_last_ob_is_last_eligible(obs, bias, o, obs.len() as int);
        lemma_last_ob_is_last_eligible(obs2, bias, o, obs2.len() as int);
        lemma_last_fvg_is_last_eligible(fvgs, bias, o, fvgs.len() as int);
        lemma_last_fvg_is_last_eligible(fvgs2, bias, o, fvgs2.len() as int);
        assert(obs.take(obs.len() as int) =~= obs);
        assert(obs2.take(obs2.len() as int) =~= obs2);
        assert(fvgs.take(fvgs.len() as int) =~= fvgs);
        assert(fvgs2.take(fvgs2.len() as int) =~= fvgs2);
    }
}

/// Whether an order block cannot carry a signal: mitigated, with no bias, of the other
/// side, with no OTE zone, or not overlapping that zone.
pub open spec fn ob_ineligible(z: OrderBlock, structure: Seq<BosChoch>, ote: Option<Ote>) -> bool {
    z.mitigated || structure.len() == 0 || z.side != structure.last().side || ote is None
        || !dec_lt(ote.unwrap().bottom, z.top) || !dec_lt(z.bottom, ote.unwrap().top)
}

/// Whether a gap cannot carry a signal, as for order blocks.
pub open spec fn fvg_ineligible(z: Fvg, structure: Seq<BosChoch>, ote: Option<Ote>) -> bool {
    z.mitigated || structure.len() == 0 || z.side != structure.last().side || ote is None
        || !dec_lt(ote.unwrap().bottom, z.top) || !dec_lt(z.bottom, ote.unwrap().top)
}

/// Inserting, at any position, an order block or a gap that cannot carry a signal
/// leaves the confluence check unchanged (so does any number of such insertions, one
/// after another).
pub proof fn lemma_inserting_ineligible_zone_keeps_signal(
    c: Seq<Candle>,
    fvgs: Seq<Fvg>,
    obs: Seq<OrderBlock>,
    structure: Seq<BosChoch>,
    sweeps: Seq<LiquiditySweep>,
    pd: Option<PdArray>,
    ote: Option<Ote>,
    sw: Seq<SwingPoint>,
    i: int,
    j: int,
    zo: OrderBlock,
    zf: Fvg,
)
    requires
        0 <= i <= obs.len(),
        0 <= j <= fvgs.len(),
        ob_ineligible(zo, structure, ote),
        fvg_ineligible(zf, structure, ote),
    ensures
        confluence_outcome(c, fvgs, obs.insert(i, zo), structure, sweeps, pd, ote, sw)
            == confluence_outcome(c, fvgs, obs, structure, sweeps, pd, ote, sw),
        confluence_outcome(c, fvgs.insert(j, zf), obs, structure, sweeps, pd, ote, sw)
            == confluence_outcome(c, fvgs, obs, structure, sweeps, pd, ote, sw),
{
    if structure.len() > 0 && ote is Some {
        let bias = structure.last().side;
        let o = ote.unwrap();
        reveal(Seq::filter);
        let po = |x: OrderBlock| ob_in_zone(x, bias, o);
        let pf = |x: Fvg| fvg_in_zone(x, bias, o);
        let a = obs.take(i);
        let b = obs.skip(i);
        assert(obs.insert(i, zo) =~= a + seq![zo] + b);
        assert(obs =~= a + b);
        Seq::filter_distributes_over_add(a + seq![zo], b, po);
        Seq::filter_distributes_over_add(a, seq![zo], po);
        Seq::filter_distributes_over_add(a, b, po);
        assert(seq![zo].drop_last() =~= Seq::<OrderBlock>::empty());
        assert(Seq::<OrderBlock>::empty().filter(po) =~= Seq::<OrderBlock>::empty());
        assert(!po(zo));
        assert(seq![zo].last() == zo);
        assert(seq![zo].filter(po) =~= Seq::<OrderBlock>::empty());
        assert(a.filter(po) + Seq::<OrderBlock>::empty() =~= a.filter(po));
        assert(eligible_obs(obs.insert(i, zo), bias, o) == eligible_obs(obs, bias, o));
        let fa = fvgs.take(j);
        let fb = fvgs.skip(j);
        assert(fvgs.insert(j, zf) =~= fa + seq![zf] + fb);
        assert(fvgs =~= fa + fb);
        Seq::filter_distributes_over_add(fa + seq![zf], fb, pf);
        Seq::filter_distributes_over_add(fa, seq![zf], pf);
        Seq::filter_distributes_over_add(fa, fb, pf);
        assert(seq![zf].drop_last() =~= Seq::<Fvg>::empty());
        assert(Seq::<Fvg>::empty().filter(pf) =~= Seq::<Fvg>::empty());
        assert(!pf(zf));
        assert(seq![zf].last() == zf);
        assert(seq![zf].filter(pf) =~= Seq::<Fvg>::empty());
        assert(fa.filter(pf) + Seq::<Fvg>::empty() =~= fa.filter(pf));
        assert(eligible_fvgs(fvgs.insert(j, zf), bias, o) == eligible_fvgs(fvgs, bias, o));
    }
    lemma_ineligible_zones_do_not_matter(c, fvgs, obs, fvgs, obs.insert(i, zo), structure, sweeps, pd, ote, sw);
    lemma_ineligible_zones_do_not_matter(c, fvgs, obs, fvgs.insert(j, zf), obs, structure, sweeps, pd, ote, sw);
}

/// The minimum stop distance only filters the signal: the analysis with minimum `d`
/// gives the signal of the analysis with no minimum, kept when `d` is zero or
/// `|entry - sl|` reaches `d` (and without a result where `entry - sl` overflows).
pub proof fn lemma_min_distance_only_filters(c: Seq<Candle>, d: Dec, period: int)
    ensures
        signal_outcome(c, d, period) == (match signal_outcome(c, spec_zero(), period) {
            None => None,
            Some(z) => filter_outcome(z, d),
        }),
{
    lemma_dec_of_valid((0int, 0int));
}

/// A signal kept under a minimum stop distance is kept under any smaller non-negative
/// minimum; a zero minimum keeps every signal.
pub proof fn lemma_smaller_minimum_keeps_signal(c: Seq<Candle>, d1: Dec, d2: Dec, period: int, s: TradeSignal)
    requires
        dec_le(spec_zero(), d1),
        dec_le(d1, d2),
        signal_outcome(c, d2, period) == Some(Some(s)),
    ensures
        signal_outcome(c, d1, period) == Some(Some(s)),
        signal_outcome(c, spec_zero(), period) == Some(Some(s)),
{
    lemma_dec_of_valid((0int, 0int));
    lemma_min_distance_only_filters(c, d1, period);
    lemma_min_distance_only_filters(c, d2, period);
    lemma_min_distance_only_filters(c, spec_zero(), period);
}

} // verus!
