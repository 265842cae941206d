//! The ICT analyzer: runs every detector over a candle window and combines them into a
//! trade signal when all confluence conditions hold.
use vstd::prelude::*;

use crate::decimal::{
    checked_add, checked_div, checked_sub, dec_eq, dec_le, dec_lt, dec_max, dec_min, spec_abs, spec_add,
    spec_div, spec_sub, spec_whole, spec_zero, Dec,
};
use crate::domain::{Candle, Side};
use crate::ict::detect::{
    compute_ote_checked, compute_pd_checked, detect_fvg, detect_ob, detect_structure,
    detect_sweeps, highest_high, lowest_low, ote_outcome, pd_outcome, select_highest_high, select_lowest_low,
    spec_detect_fvg, spec_detect_ob, spec_detect_structure, spec_detect_sweeps, swings_within,
};
use crate::ict::swing::{detect_swings, spec_detect_swings, swings_between, swings_at, SwingPoint};
use crate::ict::types::{BosChoch, ConfluenceFlags, Fvg, LiquiditySweep, OrderBlock, Ote, PdArray, PdZone, TradeSignal};

verus! {

/// The zone a bias needs: discount for a long, premium for a short.
pub open spec fn zone_fits(zone: PdZone, bias: Side) -> bool {
    match bias {
        Side::Long => zone == PdZone::Discount,
        Side::Short => zone == PdZone::Premium,
    }
}

/// An unmitigated order block of the bias side that overlaps the OTE zone.
pub open spec fn ob_in_zone(o: OrderBlock, bias: Side, ote: Ote) -> bool {
    !o.mitigated && o.side == bias && dec_lt(ote.bottom, o.top) && dec_lt(o.bottom, ote.top)
}

/// An unmitigated gap of the bias side that overlaps the OTE zone.
pub open spec fn fvg_in_zone(f: Fvg, bias: Side, ote: Ote) -> bool {
    !f.mitigated && f.side == bias && dec_lt(ote.bottom, f.top) && dec_lt(f.bottom, ote.top)
}

/// The last of order blocks `0 .. m` that is in the zone.
pub open spec fn last_ob_in_zone(obs: Seq<OrderBlock>, bias: Side, ote: Ote, m: int) -> Option<OrderBlock>
    decreases m,
{
    if m <= 0 {
        None
    } else if ob_in_zone(obs[m - 1], bias, ote) {
        Some(obs[m - 1])
    } else {
        last_ob_in_zone(obs, bias, ote, m - 1)
    }
}

/// The last of gaps `0 .. m` that is in the zone.
pub open spec fn last_fvg_in_zone(fvgs: Seq<Fvg>, bias: Side, ote: Ote, m: int) -> Option<Fvg>
    decreases m,
{
    if m <= 0 {
        None
    } else if fvg_in_zone(fvgs[m - 1], bias, ote) {
        Some(fvgs[m - 1])
    } else {
        last_fvg_in_zone(fvgs, bias, ote, m - 1)
    }
}

/// The time from which a sweep counts as recent: that of the fifth-last candle (or the first).
pub open spec fn sweep_cutoff(c: Seq<Candle>) -> i64 {
    c[if c.len() >= 5 { c.len() - 5 } else { 0 }].time
}

/// A sweep of the bias side happened at or after the cutoff.
pub open spec fn recent_sweep(c: Seq<Candle>, sweeps: Seq<LiquiditySweep>, bias: Side) -> bool {
    exists|i: int| #![trigger sweeps[i]] 0 <= i < sweeps.len() && sweeps[i].swept_at >= sweep_cutoff(c) && sweeps[i].side == bias
}

/// The take-profit: the highest swing high for a long, the lowest swing low for a short.
pub open spec fn target_price(sw: Seq<SwingPoint>, bias: Side) -> Option<Dec> {
    match bias {
        Side::Long => highest_high(sw, sw.len() as int),
        Side::Short => lowest_low(sw, sw.len() as int),
    }
}

/// The stop-loss: the low of the range for a long, its high for a short.
pub open spec fn stop_price(pd: PdArray, bias: Side) -> Dec {
    match bias {
        Side::Long => pd.range_low,
        Side::Short => pd.range_high,
    }
}

/// The stop is on the protective side of the entry.
pub open spec fn stop_protects(sl: Dec, entry: Dec, bias: Side) -> bool {
    match bias {
        Side::Long => dec_lt(sl, entry),
        Side::Short => dec_lt(entry, sl),
    }
}

/// The signal once its entry is known.
pub open spec fn signal_from_entry(
    c: Seq<Candle>,
    sw: Seq<SwingPoint>,
    sweeps: Seq<LiquiditySweep>,
    pd: PdArray,
    bias: Side,
    entry: Dec,
    ob_found: bool,
    fvg_found: bool,
) -> Option<TradeSignal> {
    let sl = stop_price(pd, bias);
    if !stop_protects(sl, entry, bias) {
        None
    } else {
        match target_price(sw, bias) {
            None => None,
            Some(tp) => Some(TradeSignal {
                side: bias,
                entry,
                sl,
                tp,
                confluence: ConfluenceFlags {
                    has_bos_choch: true,
                    in_pd_zone: true,
                    ob_in_ote: ob_found,
                    fvg_in_ote: fvg_found,
                    sweep_present: recent_sweep(c, sweeps, bias),
                },
            }),
        }
    }
}

/// What the confluence check gives: `None` where its arithmetic overflows (where the
/// computation has no result), else the signal, if all conditions hold.
pub open spec fn confluence_outcome(
    c: Seq<Candle>,
    fvgs: Seq<Fvg>,
    obs: Seq<OrderBlock>,
    structure: Seq<BosChoch>,
    sweeps: Seq<LiquiditySweep>,
    pd: Option<PdArray>,
    ote: Option<Ote>,
    sw: Seq<SwingPoint>,
) -> Option<Option<TradeSignal>> {
    if structure.len() == 0 {
        Some(None)
    } else {
        let bias = structure.last().side;
        match pd {
            None => Some(None),
            Some(p) => if !zone_fits(p.current_zone, bias) {
                Some(None)
            } else {
                match ote {
                    None => Some(None),
                    Some(o) => if c.len() == 0 {
                        Some(None)
                    } else if dec_lt(c.last().close, o.bottom) || dec_lt(o.top, c.last().close) {
                        Some(None)
                    } else {
                        let ob = last_ob_in_zone(obs, bias, o, obs.len() as int);
                        let fvg = last_fvg_in_zone(fvgs, bias, o, fvgs.len() as int);
                        let zone = match ob {
                            Some(x) => Some((x.bottom, x.top)),
                            None => match fvg {
                                Some(f) => Some((f.bottom, f.top)),
                                None => None,
                            },
                        };
                        match zone {
                            None => Some(None),
                            Some(z) => {
                                let inter_bottom = dec_max(z.0, o.bottom);
                                let inter_top = dec_min(z.1, o.top);
                                match spec_add(inter_top, inter_bottom) {
                                    None => None,
                                    Some(sum) => match spec_div(sum, spec_whole(2)) {
                                        None => None,
                                        Some(entry) => Some(
                                            signal_from_entry(c, sw, sweeps, p, bias, entry, ob is Some, fvg is Some),
                                        ),
                                    },
                                }
                            },
                        }
                    },
                }
            },
        }
    }
}

/// The signal once its entry is known: the stop is the range boundary behind the entry
/// and must be on the protective side of it, and the target is the furthest swing extreme.
/// A sweep of the bias side within the last five candles is only recorded as a flag.
pub fn finish_signal(
    candles: &[Candle],
    swings: &[SwingPoint],
    sweeps: &[LiquiditySweep],
    pd: PdArray,
    bias: Side,
    entry: Dec,
    ob_found: bool,
    fvg_found: bool,
) -> (r: Option<TradeSignal>)
    requires
        candles@.len() > 0,
    ensures
        r == signal_from_entry(candles@, swings@, sweeps@, pd, bias, entry, ob_found, fvg_found),
{
    let sl = match bias {
        Side::Long => pd.range_low,
        Side::Short => pd.range_high,
    };
    let valid_sl = match bias {
        Side::Long => sl.lt(&entry),
        Side::Short => entry.lt(&sl),
    };
    if !valid_sl {
        return None;
    }
    let tp = match bias {
        Side::Long => select_highest_high(swings),
        Side::Short => select_lowest_low(swings),
    };
    let tp = match tp {
        Some(t) => t,
        None => return None,
    };
    let len = candles.len();
    let start = if len >= 5 { len - 5 } else { 0 };
    let cutoff_time = candles[start].time;
    let mut sweep_present = false;
    let mut i: usize = 0;
    while i < sweeps.len()
        invariant
            i <= sweeps@.len(),
            cutoff_time == sweep_cutoff(candles@),
            sweep_present <==> exists|j: int| #![trigger sweeps@[j]] 0 <= j < i && sweeps@[j].swept_at >= cutoff_time && sweeps@[j].side == bias,
        decreases sweeps@.len() - i,
    {
        if sweeps[i].swept_at >= cutoff_time && sweeps[i].side == bias {
            sweep_present = true;
        }
        proof {
            assert(sweeps@[i as int] == sweeps[i as int]);
        }
        i = i + 1;
    }
    let confluence = ConfluenceFlags {
        has_bos_choch: true,
        in_pd_zone: true,
        ob_in_ote: ob_found,
        fvg_in_ote: fvg_found,
        sweep_present,
    };
    Some(TradeSignal { side: bias, entry, sl, tp, confluence })
}

fn find_ob_in_zone(obs: &[OrderBlock], bias: Side, ote: Ote) -> (r: Option<OrderBlock>)
    ensures
        r == last_ob_in_zone(obs@, bias, ote, obs@.len() as int),
{
    let mut m = obs.len();
    while m > 0
        invariant
            m <= obs@.len(),
            last_ob_in_zone(obs@, bias, ote, obs@.len() as int) == last_ob_in_zone(obs@, bias, ote, m as int),
        decreases m,
    {
        let o = obs[m - 1];
        if !o.mitigated && o.side == bias && ote.bottom.lt(&o.top) && o.bottom.lt(&ote.top) {
            return Some(o);
        }
        m = m - 1;
    }
    None
}

fn find_fvg_in_zone(fvgs: &[Fvg], bias: Side, ote: Ote) -> (r: Option<Fvg>)
    ensures
        r == last_fvg_in_zone(fvgs@, bias, ote, fvgs@.len() as int),
{
    let mut m = fvgs.len();
    while m > 0
        invariant
            m <= fvgs@.len(),
            last_fvg_in_zone(fvgs@, bias, ote, fvgs@.len() as int) == last_fvg_in_zone(fvgs@, bias, ote, m as int),
        decreases m,
    {
        let f = fvgs[m - 1];
        if !f.mitigated && f.side == bias && ote.bottom.lt(&f.top) && f.bottom.lt(&ote.top) {
            return Some(f);
        }
        m = m - 1;
    }
    None
}

/// Combines the detections into a signal: the latest structure break gives the bias,
/// the PD zone must fit it, the last close must lie in the OTE zone, an unmitigated
/// order block (preferred) or gap of the bias side must overlap that zone, and the
/// entry is the midpoint of that overlap clamped to the zone.  `None` where its
/// arithmetic overflows.
pub fn check_confluence_checked(
    candles: &[Candle],
    fvgs: &[Fvg],
    order_blocks: &[OrderBlock],
    structure: &[BosChoch],
    sweeps: &[LiquiditySweep],
    pd_array: &Option<PdArray>,
    ote: &Option<Ote>,
    swings: &[SwingPoint],
) -> (r: Option<Option<TradeSignal>>)
    ensures
        r == confluence_outcome(candles@, fvgs@, order_blocks@, structure@, sweeps@, *pd_array, *ote, swings@),
{
    if structure.len() == 0 {
        return Some(None);
    }
    let bias = structure[structure.len() - 1].side;
    let pd = match pd_array {
        Some(p) => *p,
        None => return Some(None),
    };
    let zone_ok = match bias {
        Side::Long => pd.current_zone == PdZone::Discount,
        Side::Short => pd.current_zone == PdZone::Premium,
    };
    if !zone_ok {
        return Some(None);
    }
    let o = match ote {
        Some(o) => *o,
        None => return Some(None),
    };
    if candles.len() == 0 {
        return Some(None);
    }
    let last_close = candles[candles.len() - 1].close;
    if last_close.lt(&o.bottom) || o.top.lt(&last_close) {
        return Some(None);
    }
    let overlapping_ob = find_ob_in_zone(order_blocks, bias, o);
    let overlapping_fvg = find_fvg_in_zone(fvgs, bias, o);
    let (zone_bottom, zone_top) = match (overlapping_ob, overlapping_fvg) {
        (Some(ob), _) => (ob.bottom, ob.top),
        (None, Some(fvg)) => (fvg.bottom, fvg.top),
        (None, None) => return Some(None),
    };
    let inter_bottom = zone_bottom.max(o.bottom);
    let inter_top = zone_top.min(o.top);
    let sum = match checked_add(inter_top, inter_bottom) {
        Some(s) => s,
        None => return None,
    };
    let entry = match checked_div(sum, Dec::from_u32(2)) {
        Some(e) => e,
        None => return None,
    };
    Some(
        finish_signal(
            candles,
            swings,
            sweeps,
            pd,
            bias,
            entry,
            overlapping_ob.is_some(),
            overlapping_fvg.is_some(),
        ),
    )
}

/// The minimum-distance filter on a signal: `None` where `entry - sl` overflows.
pub open spec fn filter_outcome(signal: Option<TradeSignal>, min_sl_distance: Dec) -> Option<Option<TradeSignal>> {
    match signal {
        None => Some(None),
        Some(s) => if dec_eq(min_sl_distance, spec_zero()) {
            Some(Some(s))
        } else {
            match spec_sub(s.entry, s.sl) {
                None => None,
                Some(d) => if dec_le(min_sl_distance, spec_abs(d)) {
                    Some(Some(s))
                } else {
                    Some(None)
                },
            }
        },
    }
}

/// The bias: the side of the latest structure break.
pub open spec fn bias_of(structure: Seq<BosChoch>) -> Option<Side> {
    if structure.len() > 0 {
        Some(structure.last().side)
    } else {
        None
    }
}

/// The OTE of the analysis: only with a bias.
pub open spec fn ote_for_bias(sw: Seq<SwingPoint>, bias: Option<Side>) -> Option<Option<Ote>> {
    match bias {
        Some(b) => ote_outcome(sw, b),
        None => Some(None),
    }
}

/// What the analysis gives for the signal: `None` where some step's arithmetic overflows.
pub open spec fn signal_outcome(c: Seq<Candle>, min_sl_distance: Dec, period: int) -> Option<Option<TradeSignal>> {
    if c.len() < 5 {
        Some(None)
    } else {
        let sw = spec_detect_swings(c, period);
        let structure = spec_detect_structure(c, sw);
        let bias = bias_of(structure);
        match pd_outcome(c, sw, bias) {
            None => None,
            Some(pd) => match ote_for_bias(sw, bias) {
                None => None,
                Some(ote) => match confluence_outcome(
                    c,
                    spec_detect_fvg(c),
                    spec_detect_ob(c, sw),
                    structure,
                    spec_detect_sweeps(c, sw),
                    pd,
                    ote,
                    sw,
                ) {
                    None => None,
                    Some(sig) => filter_outcome(sig, min_sl_distance),
                },
            },
        }
    }
}

/// Every swing found lies within the candles.
pub proof fn lemma_swings_within(c: Seq<Candle>, n: int)
    requires
        n >= 0,
        c.len() <= usize::MAX,
    ensures
        swings_within(c, spec_detect_swings(c, n)),
{
    if c.len() >= 2 * n + 1 {
        lemma_swings_between_within(c, n, c.len() - n);
    }
}

proof fn lemma_swings_between_within(c: Seq<Candle>, n: int, k: int)
    requires
        n >= 0,
        k <= c.len() <= usize::MAX,
    ensures
        forall|i: int| #![trigger swings_between(c, n, k)[i]] 0 <= i < swings_between(c, n, k).len() ==> swings_between(c, n, k)[i].index < k,
    decreases k - n,
{
    if k > n {
        lemma_swings_between_within(c, n, k - 1);
        let prev = swings_between(c, n, k - 1);
        let here = swings_at(c, n, k - 1);
        assert(swings_between(c, n, k) == prev + here);
        assert forall|i: int| 0 <= i < (prev + here).len() implies (prev + here)[i].index < k by {
            if i < prev.len() {
                assert((prev + here)[i] == prev[i]);
            } else {
                assert((prev + here)[i] == here[i - prev.len()]);
            }
        }
    }
}

/// Runs the ICT detectors over a candle window.
pub struct IctAnalyzer<'a> {
    candles: &'a [Candle],
    min_sl_distance: Dec,
    swing_period: usize,
}

/// Everything the analyzer found, and the signal if all conditions hold.
pub struct IctAnalysis {
    pub fvgs: Vec<Fvg>,
    pub order_blocks: Vec<OrderBlock>,
    pub structure: Vec<BosChoch>,
    pub sweeps: Vec<LiquiditySweep>,
    pub pd_array: Option<PdArray>,
    pub ote: Option<Ote>,
    pub signal: Option<TradeSignal>,
}

impl<'a> IctAnalyzer<'a> {
    /// The candles analyzed.
    pub closed spec fn spec_candles(&self) -> Seq<Candle> {
        self.candles@
    }

    /// The minimum entry-to-stop distance a signal needs (zero: no minimum).
    pub closed spec fn spec_min_sl_distance(&self) -> Dec {
        self.min_sl_distance
    }

    /// The number of candles on each side of a swing point.
    pub closed spec fn spec_swing_period(&self) -> usize {
        self.swing_period
    }

    /// Whether the whole analysis has a result (no arithmetic overflow).
    pub open spec fn defined(&self) -> bool {
        signal_outcome(self.spec_candles(), self.spec_min_sl_distance(), self.spec_swing_period() as int) is Some
    }

    /// Whether `r` is what the analysis finds: with fewer than five candles nothing;
    /// otherwise every detection over the candles and the swings of the set period,
    /// the PD array and OTE of the bias, and the signal.
    pub open spec fn is_analysis(&self, r: IctAnalysis) -> bool {
        let c = self.spec_candles();
        let sw = spec_detect_swings(c, self.spec_swing_period() as int);
        let structure = spec_detect_structure(c, sw);
        &&& c.len() < 5 ==> r.fvgs@.len() == 0 && r.order_blocks@.len() == 0 && r.structure@.len() == 0
            && r.sweeps@.len() == 0 && r.pd_array is None && r.ote is None
        &&& c.len() >= 5 ==> {
            &&& r.fvgs@ == spec_detect_fvg(c)
            &&& r.order_blocks@ == spec_detect_ob(c, sw)
            &&& r.structure@ == structure
            &&& r.sweeps@ == spec_detect_sweeps(c, sw)
            &&& Some(r.pd_array) == pd_outcome(c, sw, bias_of(structure))
            &&& Some(r.ote) == ote_for_bias(sw, bias_of(structure))
        }
        &&& Some(r.signal) == signal_outcome(c, self.spec_min_sl_distance(), self.spec_swing_period() as int)
    }

    /// An analyzer over `candles` with swing period 2.
    pub fn new(candles: &'a [Candle], min_sl_distance: Dec) -> (r: Self)
        ensures
            r.spec_candles() == candles@,
            r.spec_min_sl_distance() == min_sl_distance,
            r.spec_swing_period() == 2,
    {
        IctAnalyzer { candles, min_sl_distance, swing_period: 2 }
    }

    /// The same analyzer with swing period `n` (at least 1).
    pub fn with_swing_period(self, n: usize) -> (r: Self)
        ensures
            r.spec_candles() == self.spec_candles(),
            r.spec_min_sl_distance() == self.spec_min_sl_distance(),
            r.spec_swing_period() == (if n < 1 { 1 } else { n }),
    {
        let period = if n < 1 { 1 } else { n };
        IctAnalyzer { candles: self.candles, min_sl_distance: self.min_sl_distance, swing_period: period }
    }

    /// Runs every detector.  With fewer than five candles nothing is found.  A signal is
    /// kept only when the minimum distance is zero or `|entry - sl|` reaches it.
    pub fn analyze(&self) -> (r: IctAnalysis)
        requires
            self.defined(),
        ensures
            self.is_analysis(r),
    {
        self.analyze_checked().unwrap()
    }

    /// The analysis, with `None` where some step's arithmetic overflows.
    fn analyze_checked(&self) -> (r: Option<IctAnalysis>)
        ensures
            r is Some <==> self.defined(),
            r matches Some(a) ==> self.is_analysis(a),
    {
        if self.candles.len() < 5 {
            return Some(IctAnalysis {
                fvgs: Vec::new(),
                order_blocks: Vec::new(),
                structure: Vec::new(),
                sweeps: Vec::new(),
                pd_array: None,
                ote: None,
                signal: None,
            });
        }
        let swings = detect_swings(self.candles, self.swing_period);
        proof {
            lemma_swings_within(self.candles@, self.swing_period as int);
        }
        let fvgs = detect_fvg(self.candles);
        let order_blocks = detect_ob(self.candles, &swings);
        let structure = detect_structure(self.candles, &swings);
        let sweeps = detect_sweeps(self.candles, &swings);
        let bias = if structure.len() > 0 {
            Some(structure[structure.len() - 1].side)
        } else {
            None
        };
        let pd_array = match compute_pd_checked(self.candles, &swings, bias) {
            Some(p) => p,
            None => return None,
        };
        let ote = match bias {
            Some(b) => match compute_ote_checked(&swings, b) {
                Some(o) => o,
                None => return None,
            },
            None => None,
        };
        let signal = match check_confluence_checked(
            self.candles,
            &fvgs,
            &order_blocks,
            &structure,
            &sweeps,
            &pd_array,
            &ote,
            &swings,
        ) {
            Some(s) => s,
            None => return None,
        };
        let signal = match signal {
            Some(s) => {
                if self.min_sl_distance.num_eq(&Dec::zero()) {
                    Some(s)
                } else {
                    match checked_sub(s.entry, s.sl) {
                        Some(d) => if self.min_sl_distance.le(&d.abs()) {
                            Some(s)
                        } else {
                            None
                        },
                        None => return None,
                    }
                }
            },
            None => None,
        };
        Some(IctAnalysis { fvgs, order_blocks, structure, sweeps, pd_array, ote, signal })
    }

    /// `analyze`, or `None` where its arithmetic would overflow a decimal.
    pub fn try_analyze(&self) -> (r: Option<IctAnalysis>)
        ensures
            r is Some <==> self.defined(),
            r matches Some(a) ==> self.is_analysis(a),
    {
        self.analyze_checked()
    }
}

} // verus!
