use hermes::agents::{last_candles, risk_prompt, sentiment_prompt, technical_prompt};
use hermes::decimal::Dec;
use hermes::domain::{AccountInfo, Candle, Side};
use hermes::ict::analyzer::{IctAnalysis, IctAnalyzer};
use hermes::ict::types::{ConfluenceFlags, TradeSignal};
use rust_decimal::Decimal;

fn dec(s: &str) -> Dec {
    let x: Decimal = s.parse().unwrap();
    Dec::new(x.mantissa(), x.scale()).unwrap()
}

fn num(d: Dec) -> Decimal {
    Decimal::from_i128_with_scale(d.mantissa(), d.scale())
}

fn candle(time: i64, close: &str) -> Candle {
    Candle { time, open: dec(close), high: dec(close), low: dec(close), close: dec(close), tick_volume: 100, spread: 10, real_volume: 0 }
}

fn make_account() -> AccountInfo {
    AccountInfo {
        login: 123456,
        leverage: 100,
        trade_allowed: true,
        trade_expert: true,
        currency: "USD".to_string(),
        currency_digits: 2,
        server: "TestServer".to_string(),
        name: "Test".to_string(),
        company: "TestCo".to_string(),
        balance: dec("5000"),
        equity: dec("5000"),
        profit: dec("0"),
        credit: dec("0"),
        margin: dec("0"),
        margin_free: dec("5000"),
        margin_level: dec("0"),
    }
}

fn make_signal() -> TradeSignal {
    TradeSignal { side: Side::Long, entry: dec("1.1000"), sl: dec("1.0950"), tp: dec("1.1100"), confluence: ConfluenceFlags::default() }
}

#[test]
fn prompt_contains_symbol_and_ict_data() {
    let candles = vec![candle(0, "1.1020"); 3];
    let analysis = IctAnalysis {
        fvgs: vec![],
        order_blocks: vec![],
        structure: vec![],
        sweeps: vec![],
        pd_array: None,
        ote: None,
        signal: None,
    };
    let p = technical_prompt("EURUSD", &candles, &analysis);
    assert_eq!(p.symbol, "EURUSD");
    assert_eq!(p.candles.len(), 3);
    assert_eq!((p.fvgs, p.order_blocks, p.structure_events, p.sweeps), (0, 0, 0, 0));
    assert!(p.bos_side.is_none() && p.ote.is_none() && p.signal.is_none());
}

#[test]
fn technical_prompt_summarizes_the_analysis() {
    let candles: Vec<Candle> = (0..12).map(|i| candle(i, &format!("1.{}", 10 + i))).collect();
    let analysis = IctAnalyzer::new(&candles, Dec::zero()).analyze();
    let p = technical_prompt("EURUSD", &candles, &analysis);
    let times: Vec<i64> = p.candles.iter().map(|c| c.time).collect();
    assert_eq!(times, vec![7, 8, 9, 10, 11]);
    assert_eq!(p.structure_events, analysis.structure.len());
    assert_eq!(p.bos_side, analysis.structure.last().map(|s| s.side));
}

#[test]
fn prompt_contains_symbol_and_price_action() {
    let candles: Vec<Candle> = (0..15).map(|i| candle(i, "59200")).collect();
    let p = sentiment_prompt("BTCUSD", &candles);
    assert_eq!(p.symbol, "BTCUSD");
    let times: Vec<i64> = p.candles.iter().map(|c| c.time).collect();
    assert_eq!(times, (5..15).collect::<Vec<i64>>());
    assert_eq!(sentiment_prompt("BTCUSD", &candles[..5]).candles.len(), 5);
}

#[test]
fn prompt_contains_account_and_signal() {
    let account = make_account();
    let signal = make_signal();
    let p = risk_prompt(&account, &[], Some(&signal));
    assert_eq!(num(p.balance), "5000".parse::<Decimal>().unwrap());
    assert_eq!(num(p.margin_free), "5000".parse::<Decimal>().unwrap());
    assert_eq!(p.currency, "USD");
    assert_eq!(p.open_positions, 0);
    assert_eq!(num(p.signal.unwrap().entry), "1.1000".parse::<Decimal>().unwrap());
    assert!(risk_prompt(&account, &[], None).signal.is_none());
}

#[test]
fn last_candles_keeps_the_newest_in_order() {
    let candles: Vec<Candle> = (0..4).map(|i| candle(i, "1")).collect();
    assert_eq!(last_candles(&candles, 2).iter().map(|c| c.time).collect::<Vec<_>>(), vec![2, 3]);
    assert_eq!(last_candles(&candles, 9).len(), 4);
    assert!(last_candles(&candles, 0).is_empty());
}
