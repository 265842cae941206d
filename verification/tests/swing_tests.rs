use hermes::decimal::Dec;
use hermes::domain::Candle;
use hermes::ict::swing::{detect_swings, SwingKind};

fn dec(s: &str) -> Dec {
    let x: rust_decimal::Decimal = s.parse().unwrap();
    Dec::new(x.mantissa(), x.scale()).unwrap()
}

fn make_candle(o: &str, h: &str, l: &str, c: &str) -> Candle {
    Candle {
        time: 0,
        open: dec(o),
        high: dec(h),
        low: dec(l),
        close: dec(c),
        tick_volume: 100,
        spread: 10,
        real_volume: 0,
    }
}

#[test]
fn swing_high_detected() {
    let candles = vec![
        make_candle("1.0", "1.1", "0.9", "1.0"),
        make_candle("1.0", "1.2", "0.9", "1.0"),
        make_candle("1.0", "1.5", "0.9", "1.0"),
        make_candle("1.0", "1.2", "0.9", "1.0"),
        make_candle("1.0", "1.1", "0.9", "1.0"),
    ];
    let swings = detect_swings(&candles, 2);
    assert!(swings.iter().any(|s| s.index == 2 && s.kind == SwingKind::High));
}

#[test]
fn swing_low_detected() {
    let candles = vec![
        make_candle("1.0", "1.1", "0.9", "1.0"),
        make_candle("1.0", "1.1", "0.8", "1.0"),
        make_candle("1.0", "1.1", "0.5", "1.0"),
        make_candle("1.0", "1.1", "0.8", "1.0"),
        make_candle("1.0", "1.1", "0.9", "1.0"),
    ];
    let swings = detect_swings(&candles, 2);
    assert!(swings.iter().any(|s| s.index == 2 && s.kind == SwingKind::Low));
}

#[test]
fn insufficient_candles_returns_empty() {
    let candles = vec![
        make_candle("1.0", "1.1", "0.9", "1.0"),
        make_candle("1.0", "1.2", "0.8", "1.0"),
        make_candle("1.0", "1.3", "0.7", "1.0"),
        make_candle("1.0", "1.1", "0.9", "1.0"),
    ];
    let swings = detect_swings(&candles, 2);
    assert!(swings.is_empty());
}

#[test]
fn equal_neighbour_high_is_not_a_swing() {
    let candles = vec![
        make_candle("1.0", "1.1", "0.9", "1.0"),
        make_candle("1.0", "1.5", "0.9", "1.0"),
        make_candle("1.0", "1.50", "0.9", "1.0"),
        make_candle("1.0", "1.2", "0.9", "1.0"),
        make_candle("1.0", "1.1", "0.9", "1.0"),
    ];
    let swings = detect_swings(&candles, 2);
    assert!(!swings.iter().any(|s| s.kind == SwingKind::High));
}

#[test]
fn swing_records_price_and_time_of_its_candle() {
    let mut candles = vec![
        make_candle("1.0", "1.1", "0.9", "1.0"),
        make_candle("1.0", "1.1", "0.8", "1.0"),
        make_candle("1.0", "1.4", "0.5", "1.0"),
        make_candle("1.0", "1.1", "0.8", "1.0"),
        make_candle("1.0", "1.1", "0.9", "1.0"),
    ];
    candles[2].time = 1700000000;
    let swings = detect_swings(&candles, 2);
    assert_eq!(swings.len(), 2);
    assert_eq!(swings[0].kind, SwingKind::High);
    assert!(swings[0].price.num_eq(&dec("1.4")));
    assert_eq!(swings[1].kind, SwingKind::Low);
    assert!(swings[1].price.num_eq(&dec("0.5")));
    assert_eq!(swings[1].time, 1700000000);
}

#[test]
fn period_zero_marks_every_candle() {
    let candles = vec![make_candle("1.0", "1.1", "0.9", "1.0"), make_candle("1.0", "1.2", "0.8", "1.0")];
    let swings = detect_swings(&candles, 0);
    assert_eq!(swings.len(), 4);
}
