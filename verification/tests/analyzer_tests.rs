use hermes::decimal::Dec;
use hermes::domain::{Candle, Side};
use hermes::ict::analyzer::{check_confluence_checked, finish_signal, IctAnalyzer};
use hermes::ict::detect::{compute_ote, compute_pd, detect_fvg, detect_ob, detect_structure, detect_sweeps};
use hermes::ict::types::{Fvg, OrderBlock};
use hermes::ict::swing::detect_swings;
use rust_decimal::Decimal;

fn dec(s: &str) -> Dec {
    let x: Decimal = s.parse().unwrap();
    Dec::new(x.mantissa(), x.scale()).unwrap()
}

fn num(d: Dec) -> Decimal {
    Decimal::from_i128_with_scale(d.mantissa(), d.scale())
}

fn make_candle(o: &str, h: &str, l: &str, c: &str) -> Candle {
    Candle {
        time: 0,
        open: dec(o),
        high: dec(h),
        low: dec(l),
        close: dec(c),
        tick_volume: 100,
        spread: 10,
        real_volume: 0,
    }
}

fn full_confluence_candles() -> Vec<Candle> {
    vec![
        make_candle("1.5", "1.6", "1.4", "1.4"),
        make_candle("1.4", "1.45", "1.25", "1.3"),
        make_candle("1.3", "1.30", "1.0", "1.25"),
        make_candle("1.25", "1.35", "1.20", "1.3"),
        make_candle("1.3", "1.40", "1.32", "1.35"),
        make_candle("1.35", "1.50", "1.35", "1.45"),
        make_candle("1.45", "1.80", "1.45", "1.70"),
        make_candle("1.7", "2.00", "1.70", "1.90"),
        make_candle("1.9", "1.95", "1.80", "1.90"),
        make_candle("1.9", "1.95", "1.90", "2.10"),
        make_candle("2.1", "2.10", "0.95", "1.35"),
    ]
}

fn two_swing_lows_candles() -> Vec<Candle> {
    vec![
        make_candle("1.5", "1.60", "1.40", "1.40"),
        make_candle("1.40", "1.45", "1.25", "1.30"),
        make_candle("1.30", "1.32", "1.00", "1.25"),
        make_candle("1.25", "1.30", "1.20", "1.28"),
        make_candle("1.28", "1.35", "1.24", "1.32"),
        make_candle("1.32", "1.40", "1.28", "1.38"),
        make_candle("1.38", "1.50", "1.35", "1.45"),
        make_candle("1.45", "1.50", "1.42", "1.48"),
        make_candle("1.48", "1.80", "1.50", "1.75"),
        make_candle("1.75", "2.00", "1.75", "1.90"),
        make_candle("1.90", "1.95", "1.80", "1.85"),
        make_candle("1.85", "1.95", "1.90", "1.92"),
        make_candle("1.92", "1.95", "1.22", "1.25"),
        make_candle("1.25", "1.32", "1.28", "1.32"),
        make_candle("1.32", "1.40", "1.26", "1.35"),
        make_candle("1.35", "1.45", "1.34", "1.42"),
        make_candle("1.42", "2.10", "1.40", "2.05"),
        make_candle("2.05", "2.10", "0.95", "1.35"),
    ]
}

#[test]
fn full_confluence_generates_signal() {
    let candles = full_confluence_candles();
    let analysis = IctAnalyzer::new(&candles, Dec::zero()).analyze();
    assert!(analysis.signal.is_some(), "expected a TradeSignal but got None");
    let sig = analysis.signal.unwrap();
    assert_eq!(sig.side, Side::Long);
    assert!(num(sig.entry) > Decimal::ZERO);
    assert!(num(sig.sl) < num(sig.entry));
    assert!(num(sig.tp) > num(sig.entry));
    assert_eq!(num(sig.entry), "1.316".parse::<Decimal>().unwrap(), "entry should be OB∩OTE midpoint");
    assert_eq!(num(sig.sl), "1.0".parse::<Decimal>().unwrap(), "sl should be pd.range_low");
    assert_eq!(num(sig.tp), "2.0".parse::<Decimal>().unwrap(), "tp should be max swing high");
    assert!(sig.confluence.ob_in_ote, "OB must be in OTE");
    assert!(sig.confluence.fvg_in_ote, "FVG must be in OTE");
}

#[test]
fn no_bos_returns_no_signal() {
    let candles = vec![
        make_candle("1.0", "1.1", "0.9", "1.0"),
        make_candle("1.0", "1.1", "0.9", "1.0"),
        make_candle("1.0", "1.2", "0.9", "1.0"),
        make_candle("1.0", "1.1", "0.9", "1.0"),
        make_candle("1.0", "1.1", "0.9", "1.0"),
    ];
    let analysis = IctAnalyzer::new(&candles, Dec::zero()).analyze();
    assert!(analysis.signal.is_none());
}

#[test]
fn wrong_pd_zone_returns_no_signal() {
    let mut candles = full_confluence_candles();
    *candles.last_mut().unwrap() = make_candle("1.9", "2.0", "1.7", "1.8");
    let analysis = IctAnalyzer::new(&candles, Dec::zero()).analyze();
    assert!(analysis.signal.is_none());
}

#[test]
fn no_structure_in_ote_returns_no_signal() {
    let mut candles = full_confluence_candles();
    *candles.last_mut().unwrap() = make_candle("1.3", "1.3", "1.0", "1.1");
    let analysis = IctAnalyzer::new(&candles, Dec::zero()).analyze();
    assert!(analysis.signal.is_none());
}

#[test]
fn no_ob_or_fvg_in_ote_returns_no_signal() {
    let mut candles = full_confluence_candles();
    let last = candles.pop().unwrap();
    candles.push(make_candle("1.3", "1.3", "1.1", "1.2"));
    candles.push(last);
    let analysis = IctAnalyzer::new(&candles, Dec::zero()).analyze();
    assert!(analysis.signal.is_none(), "expected None when no OB/FVG overlaps OTE");
}

#[test]
fn ob_without_fvg_still_generates_signal() {
    let mut candles = full_confluence_candles();
    let last = candles.pop().unwrap();
    candles.push(make_candle("1.35", "1.40", "1.28", "1.31"));
    candles.push(last);
    let analysis = IctAnalyzer::new(&candles, Dec::zero()).analyze();
    assert!(analysis.signal.is_some(), "OB alone (OR logic) should produce a signal");
    let sig = analysis.signal.unwrap();
    assert!(sig.confluence.ob_in_ote, "OB must be flagged");
    assert!(!sig.confluence.fvg_in_ote, "FVG must NOT be flagged (mitigated)");
}

#[test]
fn sl_too_close_filtered_out() {
    let candles = full_confluence_candles();
    let analysis = IctAnalyzer::new(&candles, dec("0.5")).analyze();
    assert!(analysis.signal.is_none());
}

#[test]
fn sl_wide_enough_passes() {
    let candles = full_confluence_candles();
    let analysis = IctAnalyzer::new(&candles, dec("0.05")).analyze();
    assert!(analysis.signal.is_some());
    let sig = analysis.signal.unwrap();
    assert_eq!(sig.side, Side::Long);
    assert_eq!(num(sig.entry), "1.316".parse::<Decimal>().unwrap());
    assert_eq!(num(sig.sl), "1.0".parse::<Decimal>().unwrap());
}

#[test]
fn sl_is_on_correct_side_of_entry() {
    let candles = full_confluence_candles();
    let analysis = IctAnalyzer::new(&candles, Dec::zero()).analyze();
    let sig = analysis.signal.expect("full_confluence_candles should produce a signal");
    match sig.side {
        Side::Long => assert!(num(sig.sl) < num(sig.entry), "Long SL must be below entry"),
        Side::Short => assert!(num(sig.sl) > num(sig.entry), "Short SL must be above entry"),
    }
}

#[test]
fn sl_uses_pd_range_low_not_nearest_swing() {
    let candles = two_swing_lows_candles();
    let analysis = IctAnalyzer::new(&candles, Dec::zero()).analyze();
    let sig = analysis.signal.expect("two_swing_lows_candles should produce a signal");
    assert_eq!(
        num(sig.sl),
        "1.0".parse::<Decimal>().unwrap(),
        "sl should be pd.range_low (1.0), not nearest swing low (1.22)"
    );
}

#[test]
fn fewer_than_five_candles_find_nothing() {
    let candles = full_confluence_candles()[..4].to_vec();
    let analysis = IctAnalyzer::new(&candles, Dec::zero()).analyze();
    assert!(analysis.fvgs.is_empty() && analysis.structure.is_empty() && analysis.signal.is_none());
    assert!(analysis.pd_array.is_none() && analysis.ote.is_none());
}

#[test]
fn try_analyze_agrees_with_analyze() {
    let candles = full_confluence_candles();
    let analyzer = IctAnalyzer::new(&candles, Dec::zero());
    let a = analyzer.try_analyze().expect("no overflow on ordinary prices");
    let b = analyzer.analyze();
    assert_eq!(num(a.signal.unwrap().entry), num(b.signal.unwrap().entry));
}

#[test]
fn full_confluence_analysis_exposes_pd_and_ote() {
    let candles = full_confluence_candles();
    let analysis = IctAnalyzer::new(&candles, Dec::zero()).analyze();
    let pd = analysis.pd_array.unwrap();
    assert_eq!(num(pd.range_low), "1.0".parse::<Decimal>().unwrap());
    assert_eq!(num(pd.range_high), "2.0".parse::<Decimal>().unwrap());
    let ote = analysis.ote.unwrap();
    assert_eq!(num(ote.bottom), "1.214".parse::<Decimal>().unwrap());
    assert_eq!(num(ote.top), "1.382".parse::<Decimal>().unwrap());
    assert!(analysis.structure.iter().any(|s| s.side == Side::Long));
}

#[test]
fn wider_swing_period_changes_the_pivots() {
    let candles = full_confluence_candles();
    let analysis = IctAnalyzer::new(&candles, Dec::zero()).with_swing_period(5).analyze();
    assert!(analysis.signal.is_none());
    let clamped = IctAnalyzer::new(&candles, Dec::zero()).with_swing_period(0).analyze();
    let period_one = IctAnalyzer::new(&candles, Dec::zero()).with_swing_period(1).analyze();
    assert_eq!(clamped.structure.len(), period_one.structure.len());
}

#[test]
fn signal_entry_lies_inside_the_ote_zone() {
    for candles in [full_confluence_candles(), two_swing_lows_candles()] {
        let analysis = IctAnalyzer::new(&candles, Dec::zero()).analyze();
        let sig = analysis.signal.unwrap();
        let ote = analysis.ote.unwrap();
        assert!(num(ote.bottom) <= num(sig.entry) && num(sig.entry) <= num(ote.top));
    }
}

#[test]
fn missing_sweep_only_clears_the_flag() {
    let candles = full_confluence_candles();
    let analysis = IctAnalyzer::new(&candles, Dec::zero()).analyze();
    let sig = analysis.signal.unwrap();
    assert!(sig.confluence.sweep_present);
    let swings = detect_swings(&candles, 2);
    let pd = analysis.pd_array.unwrap();
    let without = finish_signal(&candles, &swings, &[], pd, sig.side, sig.entry, true, true).unwrap();
    assert!(!without.confluence.sweep_present);
    assert_eq!(without.side, sig.side);
    assert_eq!(num(without.entry), num(sig.entry));
    assert_eq!(num(without.sl), num(sig.sl));
    assert_eq!(num(without.tp), num(sig.tp));
}

#[test]
fn structure_detection_never_looks_ahead() {
    let candles = two_swing_lows_candles();
    let swings = detect_swings(&candles, 2);
    let all = detect_structure(&candles, &swings);
    for k in 0..=candles.len() {
        let part = detect_structure(&candles[..k], &swings);
        assert!(part.len() <= all.len());
        for (a, b) in part.iter().zip(all.iter()) {
            assert_eq!(a.kind, b.kind);
            assert_eq!(a.side, b.side);
            assert_eq!(a.broken_at, b.broken_at);
            assert_eq!(num(a.level), num(b.level));
        }
    }
}

#[test]
fn ineligible_zones_do_not_change_the_signal() {
    let candles = full_confluence_candles();
    let swings = detect_swings(&candles, 2);
    let fvgs = detect_fvg(&candles);
    let obs = detect_ob(&candles, &swings);
    let structure = detect_structure(&candles, &swings);
    let sweeps = detect_sweeps(&candles, &swings);
    let bias = structure.last().map(|s| s.side);
    let pd = compute_pd(&candles, &swings, bias);
    let ote = compute_ote(&swings, bias.unwrap());
    let base = check_confluence_checked(&candles, &fvgs, &obs, &structure, &sweeps, &pd, &ote, &swings)
        .unwrap()
        .unwrap();
    let o = ote.unwrap();
    let mitigated = OrderBlock { top: o.top, bottom: o.bottom, formed_at: 0, side: bias.unwrap(), mitigated: true };
    let other_side = OrderBlock { mitigated: false, side: Side::Short, ..mitigated };
    let outside = OrderBlock { mitigated: false, top: o.bottom, bottom: dec("0.5"), ..mitigated };
    let mut obs2 = vec![mitigated, other_side];
    obs2.extend(obs.iter().copied());
    obs2.push(outside);
    obs2.push(other_side);
    let gap = Fvg { top: o.top, bottom: o.bottom, formed_at: 0, side: bias.unwrap(), mitigated: true };
    let mut fvgs2 = fvgs.clone();
    fvgs2.push(gap);
    let again = check_confluence_checked(&candles, &fvgs2, &obs2, &structure, &sweeps, &pd, &ote, &swings)
        .unwrap()
        .unwrap();
    assert_eq!(again.side, base.side);
    assert_eq!(num(again.entry), num(base.entry));
    assert_eq!(num(again.sl), num(base.sl));
    assert_eq!(num(again.tp), num(base.tp));
    assert_eq!(again.confluence.ob_in_ote, base.confluence.ob_in_ote);
    assert_eq!(again.confluence.fvg_in_ote, base.confluence.fvg_in_ote);
}

#[test]
fn minimum_stop_distance_only_filters() {
    let candles = full_confluence_candles();
    let free = IctAnalyzer::new(&candles, Dec::zero()).analyze();
    let sig = free.signal.unwrap();
    let distance = (num(sig.entry) - num(sig.sl)).abs();
    for d in ["0", "0.01", "0.05", "0.316", "0.317", "0.5"] {
        let a = IctAnalyzer::new(&candles, dec(d)).analyze();
        let kept = d.parse::<Decimal>().unwrap() <= distance;
        assert_eq!(a.signal.is_some(), kept, "minimum {d}");
        if let Some(s) = a.signal {
            assert_eq!(num(s.entry), num(sig.entry));
            assert_eq!(num(s.sl), num(sig.sl));
            assert_eq!(num(s.tp), num(sig.tp));
        }
        assert_eq!(a.structure.len(), free.structure.len());
        assert_eq!(a.fvgs.len(), free.fvgs.len());
        assert_eq!(a.order_blocks.len(), free.order_blocks.len());
        assert_eq!(a.sweeps.len(), free.sweeps.len());
    }
}
