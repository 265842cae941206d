use hermes::decimal::Dec;
use hermes::domain::{Candle, Side};
use hermes::ict::detect::{
    compute_ote, compute_pd, detect_fvg, detect_ob, detect_structure, detect_sweeps,
};
use hermes::ict::swing::{SwingKind, SwingPoint};
use hermes::ict::types::{PdZone, StructureEvent};
use rust_decimal::Decimal;

fn dec(s: &str) -> Dec {
    let x: Decimal = s.parse().unwrap();
    Dec::new(x.mantissa(), x.scale()).unwrap()
}

fn num(d: Dec) -> Decimal {
    Decimal::from_i128_with_scale(d.mantissa(), d.scale())
}

fn make_candle(o: &str, h: &str, l: &str, c: &str) -> Candle {
    Candle {
        time: 0,
        open: dec(o),
        high: dec(h),
        low: dec(l),
        close: dec(c),
        tick_volume: 100,
        spread: 10,
        real_volume: 0,
    }
}

fn make_swing(index: usize, price: &str, kind: SwingKind) -> SwingPoint {
    SwingPoint { index, price: dec(price), kind, time: 0 }
}

#[test]
fn bullish_fvg() {
    let candles = vec![
        make_candle("1.0", "1.0", "0.9", "1.0"),
        make_candle("1.1", "1.2", "1.0", "1.1"),
        make_candle("1.1", "1.3", "1.1", "1.2"),
    ];
    let fvgs = detect_fvg(&candles);
    assert_eq!(fvgs.len(), 1);
    assert_eq!(fvgs[0].side, Side::Long);
    assert_eq!(num(fvgs[0].top).to_string(), "1.1");
    assert_eq!(num(fvgs[0].bottom).to_string(), "1.0");
    assert!(!fvgs[0].mitigated);
}

#[test]
fn bearish_fvg() {
    let candles = vec![
        make_candle("1.2", "1.3", "1.1", "1.2"),
        make_candle("1.0", "1.1", "0.9", "1.0"),
        make_candle("0.9", "1.0", "0.8", "0.9"),
    ];
    let fvgs = detect_fvg(&candles);
    assert_eq!(fvgs.len(), 1);
    assert_eq!(fvgs[0].side, Side::Short);
    assert_eq!(num(fvgs[0].top).to_string(), "1.1");
    assert_eq!(num(fvgs[0].bottom).to_string(), "1.0");
    assert!(!fvgs[0].mitigated);
}

#[test]
fn fvg_mitigated_after_touch() {
    let candles = vec![
        make_candle("1.0", "1.0", "0.9", "1.0"),
        make_candle("1.1", "1.2", "1.0", "1.1"),
        make_candle("1.1", "1.3", "1.1", "1.2"),
        make_candle("1.2", "1.2", "1.05", "1.0"),
    ];
    let fvgs = detect_fvg(&candles);
    assert_eq!(fvgs.len(), 1);
    assert!(fvgs[0].mitigated);
}

#[test]
fn fvg_wick_touch_does_not_mitigate() {
    let candles = vec![
        make_candle("1.0", "1.0", "0.9", "1.0"),
        make_candle("1.1", "1.2", "1.0", "1.1"),
        make_candle("1.1", "1.3", "1.1", "1.2"),
        make_candle("1.2", "1.3", "1.05", "1.15"),
    ];
    let fvgs = detect_fvg(&candles);
    assert_eq!(fvgs.len(), 1);
    assert!(!fvgs[0].mitigated);
}

#[test]
fn bullish_ob() {
    let candles = vec![
        make_candle("1.2", "1.3", "1.1", "1.2"),
        make_candle("1.1", "1.2", "1.0", "1.1"),
        make_candle("1.1", "1.2", "0.9", "1.0"),
        make_candle("1.0", "1.1", "0.8", "0.9"),
        make_candle("1.0", "1.2", "0.9", "1.1"),
    ];
    let swings = vec![make_swing(3, "0.8", SwingKind::Low)];
    let obs = detect_ob(&candles, &swings);
    assert!(obs.iter().any(|o| o.side == Side::Long));
}

#[test]
fn bearish_ob() {
    let candles = vec![
        make_candle("0.9", "1.0", "0.8", "0.9"),
        make_candle("1.0", "1.1", "0.9", "1.0"),
        make_candle("1.0", "1.2", "1.0", "1.1"),
        make_candle("1.1", "1.4", "1.1", "1.3"),
        make_candle("1.3", "1.3", "1.1", "1.2"),
    ];
    let swings = vec![make_swing(3, "1.4", SwingKind::High)];
    let obs = detect_ob(&candles, &swings);
    assert!(obs.iter().any(|o| o.side == Side::Short));
}

#[test]
fn bullish_ob_uses_last_bearish_candle_and_mitigation_by_close() {
    let candles = vec![
        make_candle("1.2", "1.3", "1.1", "1.1"),
        make_candle("1.1", "1.2", "1.0", "1.15"),
        make_candle("1.1", "1.2", "0.9", "1.0"),
        make_candle("1.0", "1.1", "0.8", "0.9"),
        make_candle("1.0", "1.2", "0.85", "0.89"),
    ];
    let swings = vec![make_swing(3, "0.8", SwingKind::Low)];
    let obs = detect_ob(&candles, &swings);
    assert_eq!(obs.len(), 1);
    assert!(num(obs[0].top) == "1.2".parse::<Decimal>().unwrap());
    assert!(num(obs[0].bottom) == "0.9".parse::<Decimal>().unwrap());
    assert!(obs[0].mitigated);
}

#[test]
fn bos_bullish() {
    let candles = vec![
        make_candle("1.0", "1.1", "0.9", "1.0"),
        make_candle("1.1", "1.3", "1.0", "1.2"),
        make_candle("1.2", "1.5", "1.2", "1.4"),
    ];
    let swings = vec![make_swing(1, "1.3", SwingKind::High)];
    let structure = detect_structure(&candles, &swings);
    assert!(structure.iter().any(|s| s.side == Side::Long));
}

#[test]
fn choch_bearish() {
    let candles = vec![
        make_candle("1.0", "1.1", "0.9", "1.0"),
        make_candle("1.1", "1.3", "1.0", "1.2"),
        make_candle("1.2", "1.5", "1.2", "1.4"),
        make_candle("1.4", "1.4", "0.7", "0.8"),
    ];
    let swings = vec![make_swing(0, "0.9", SwingKind::Low), make_swing(1, "1.3", SwingKind::High)];
    let structure = detect_structure(&candles, &swings);
    assert!(structure.iter().any(|s| s.kind == StructureEvent::Choch && s.side == Side::Short));
}

#[test]
fn swing_is_not_a_reference_on_its_own_candle() {
    let candles = vec![
        make_candle("1.0", "1.1", "0.9", "1.0"),
        make_candle("1.1", "1.3", "1.0", "1.4"),
    ];
    let swings = vec![make_swing(1, "1.3", SwingKind::High)];
    let structure = detect_structure(&candles, &swings);
    assert!(structure.is_empty());
}

#[test]
fn first_break_is_bos_and_level_is_consumed() {
    let candles = vec![
        make_candle("1.0", "1.1", "0.9", "1.0"),
        make_candle("1.1", "1.3", "1.0", "1.2"),
        make_candle("1.2", "1.5", "1.2", "1.4"),
        make_candle("1.4", "1.6", "1.3", "1.5"),
    ];
    let swings = vec![make_swing(1, "1.3", SwingKind::High)];
    let structure = detect_structure(&candles, &swings);
    assert_eq!(structure.len(), 1);
    assert_eq!(structure[0].kind, StructureEvent::Bos);
    assert!(num(structure[0].level) == "1.3".parse::<Decimal>().unwrap());
}

#[test]
fn sweep_above_high() {
    let candles = vec![make_candle("1.3", "1.3", "1.2", "1.3"), make_candle("1.2", "1.4", "1.1", "1.2")];
    let swings = vec![make_swing(0, "1.3", SwingKind::High)];
    let sweeps = detect_sweeps(&candles, &swings);
    assert!(sweeps.iter().any(|s| s.side == Side::Short));
}

#[test]
fn sweep_below_low() {
    let candles = vec![make_candle("1.0", "1.1", "0.9", "1.0"), make_candle("1.0", "1.1", "0.8", "1.0")];
    let swings = vec![make_swing(0, "0.9", SwingKind::Low)];
    let sweeps = detect_sweeps(&candles, &swings);
    assert!(sweeps.iter().any(|s| s.side == Side::Long));
}

#[test]
fn sweep_needs_a_swing_formed_before_the_candle() {
    let candles = vec![make_candle("1.0", "1.1", "0.8", "1.0")];
    let swings = vec![make_swing(0, "0.9", SwingKind::Low)];
    let sweeps = detect_sweeps(&candles, &swings);
    assert!(sweeps.is_empty());
}

#[test]
fn pd_discount() {
    let candles = vec![make_candle("1.0", "1.1", "0.9", "1.1")];
    let swings = vec![make_swing(0, "1.0", SwingKind::Low), make_swing(1, "1.4", SwingKind::High)];
    let pd = compute_pd(&candles, &swings, Some(Side::Long)).unwrap();
    assert_eq!(pd.current_zone, PdZone::Discount);
}

#[test]
fn pd_premium() {
    let candles = vec![make_candle("1.2", "1.4", "1.2", "1.3")];
    let swings = vec![make_swing(0, "1.4", SwingKind::High), make_swing(1, "1.0", SwingKind::Low)];
    let pd = compute_pd(&candles, &swings, Some(Side::Short)).unwrap();
    assert_eq!(pd.current_zone, PdZone::Premium);
}

#[test]
fn pd_equilibrium_is_the_midpoint() {
    let candles = vec![make_candle("1.2", "1.4", "1.2", "1.2")];
    let swings = vec![make_swing(0, "1.0", SwingKind::Low), make_swing(1, "1.4", SwingKind::High)];
    let pd = compute_pd(&candles, &swings, Some(Side::Long)).unwrap();
    assert!(num(pd.equilibrium) == "1.2".parse::<Decimal>().unwrap());
    assert_eq!(pd.current_zone, PdZone::Equilibrium);
}

#[test]
fn pd_without_bias_uses_extremes() {
    let candles = vec![make_candle("1.2", "1.4", "1.2", "1.3")];
    let swings = vec![
        make_swing(0, "1.5", SwingKind::High),
        make_swing(1, "0.9", SwingKind::Low),
        make_swing(2, "1.4", SwingKind::High),
        make_swing(3, "1.1", SwingKind::Low),
    ];
    let pd = compute_pd(&candles, &swings, None).unwrap();
    assert!(num(pd.range_high) == "1.5".parse::<Decimal>().unwrap());
    assert!(num(pd.range_low) == "0.9".parse::<Decimal>().unwrap());
}

#[test]
fn pd_needs_a_low_before_the_anchor_high() {
    let candles = vec![make_candle("1.2", "1.4", "1.2", "1.3")];
    let swings = vec![make_swing(1, "1.4", SwingKind::High), make_swing(2, "1.0", SwingKind::Low)];
    assert!(compute_pd(&candles, &swings, Some(Side::Long)).is_none());
}

#[test]
fn ote_long() {
    let swings = vec![make_swing(0, "1.0", SwingKind::Low), make_swing(1, "2.0", SwingKind::High)];
    let ote = compute_ote(&swings, Side::Long).unwrap();
    assert_eq!(ote.side, Side::Long);
    assert_eq!(num(ote.top), "1.382".parse::<Decimal>().unwrap());
    assert_eq!(num(ote.bottom), "1.214".parse::<Decimal>().unwrap());
}

#[test]
fn ote_short() {
    let swings = vec![make_swing(0, "2.0", SwingKind::High), make_swing(1, "1.0", SwingKind::Low)];
    let ote = compute_ote(&swings, Side::Short).unwrap();
    assert_eq!(ote.side, Side::Short);
    assert_eq!(num(ote.top), "1.786".parse::<Decimal>().unwrap());
    assert_eq!(num(ote.bottom), "1.618".parse::<Decimal>().unwrap());
}

#[test]
fn ote_needs_a_positive_range() {
    let swings = vec![make_swing(0, "2.0", SwingKind::Low), make_swing(1, "2.0", SwingKind::High)];
    assert!(compute_ote(&swings, Side::Long).is_none());
}
