use hermes::decimal::Dec;
use hermes::domain::{AccountInfo, Side};
use hermes::engine::risk_config_from_symbol;
use hermes::domain::Symbol;
use hermes::ict::types::{ConfluenceFlags, TradeSignal};
use hermes::risk::{decide_volume, evaluate, try_evaluate, RiskConfig};
use rust_decimal::Decimal;

fn dec(s: &str) -> Dec {
    let x: Decimal = s.parse().unwrap();
    Dec::new(x.mantissa(), x.scale()).unwrap()
}

fn num(d: Dec) -> Decimal {
    Decimal::from_i128_with_scale(d.mantissa(), d.scale())
}

fn make_account(balance: &str, margin_free: &str) -> AccountInfo {
    AccountInfo {
        login: 1,
        leverage: 100,
        trade_allowed: true,
        trade_expert: true,
        currency: "USD".to_string(),
        currency_digits: 2,
        server: "Test".to_string(),
        name: "Test".to_string(),
        company: "Test".to_string(),
        balance: dec(balance),
        equity: dec(balance),
        profit: dec("0"),
        credit: dec("0"),
        margin: dec("0"),
        margin_free: dec(margin_free),
        margin_level: dec("0"),
    }
}

fn make_signal(entry: &str, sl: &str) -> TradeSignal {
    TradeSignal {
        side: Side::Long,
        entry: dec(entry),
        sl: dec(sl),
        tp: dec("1.2000"),
        confluence: ConfluenceFlags::default(),
    }
}

fn make_config() -> RiskConfig {
    RiskConfig {
        risk_pct: dec("0.01"),
        value_per_lot: dec("10000"),
        min_volume: dec("0.01"),
        max_volume: dec("10.0"),
        volume_step: dec("0.01"),
    }
}

#[test]
fn calculates_volume_correctly() {
    let account = make_account("5000", "5000");
    let signal = make_signal("1.1000", "1.0950");
    let config = make_config();
    let d = evaluate(&account, &signal, &config);
    assert!(d.approved);
    assert_eq!(num(d.volume), "1.00".parse::<Decimal>().unwrap());
    assert!(d.reason.is_none());
}

#[test]
fn volume_floored_to_step() {
    let account = make_account("5000", "5000");
    let signal = make_signal("10.00", "8.65");
    let config = RiskConfig {
        risk_pct: dec("0.01"),
        value_per_lot: dec("1000"),
        min_volume: dec("0.01"),
        max_volume: dec("10.0"),
        volume_step: dec("0.01"),
    };
    let d = evaluate(&account, &signal, &config);
    assert!(d.approved);
    assert_eq!(num(d.volume), "0.03".parse::<Decimal>().unwrap());
}

#[test]
fn rejects_when_sl_equals_entry() {
    let account = make_account("5000", "5000");
    let signal = make_signal("1.1000", "1.1000");
    let config = make_config();
    let d = evaluate(&account, &signal, &config);
    assert!(!d.approved);
    assert_eq!(num(d.volume), Decimal::ZERO);
    assert!(d.reason.as_deref().unwrap_or("").contains("SL"));
}

#[test]
fn rejects_when_volume_below_minimum() {
    let account = make_account("100", "100");
    let signal = make_signal("1.1000", "1.0000");
    let config = make_config();
    let d = evaluate(&account, &signal, &config);
    assert!(!d.approved);
    assert_eq!(num(d.volume), Decimal::ZERO);
    assert!(d.reason.as_deref().unwrap_or("").contains("minimum"));
}

#[test]
fn rejects_when_margin_free_zero() {
    let account = make_account("5000", "0");
    let signal = make_signal("1.1000", "1.0950");
    let config = make_config();
    let d = evaluate(&account, &signal, &config);
    assert!(!d.approved);
    assert_eq!(num(d.volume), Decimal::ZERO);
    assert!(d.reason.as_deref().unwrap_or("").contains("margin"));
}

#[test]
fn volume_clamped_to_max() {
    let account = make_account("500000", "500000");
    let signal = make_signal("1.1000", "1.0950");
    let config = make_config();
    let d = evaluate(&account, &signal, &config);
    assert!(d.approved);
    assert_eq!(num(d.volume), "10.0".parse::<Decimal>().unwrap());
    assert!(d.reason.is_none());
}

#[test]
fn sizing_works_for_a_short_signal_too() {
    let account = make_account("5000", "5000");
    let signal = make_signal("1.0950", "1.1000");
    let d = evaluate(&account, &signal, &make_config());
    assert!(d.approved);
    assert_eq!(num(d.volume), "1.00".parse::<Decimal>().unwrap());
}

#[test]
fn zero_lot_step_has_no_result() {
    let account = make_account("5000", "5000");
    let signal = make_signal("1.1000", "1.0950");
    let mut config = make_config();
    config.volume_step = dec("0");
    assert!(try_evaluate(&account, &signal, &config).is_none());
}

#[test]
fn try_evaluate_agrees_with_evaluate() {
    let account = make_account("5000", "5000");
    let signal = make_signal("1.1000", "1.0950");
    let config = make_config();
    let d = try_evaluate(&account, &signal, &config).unwrap();
    assert_eq!(num(d.volume), num(evaluate(&account, &signal, &config).volume));
}

#[test]
fn decide_volume_messages() {
    let config = make_config();
    let d = decide_volume(dec("0.001"), &config, dec("100"));
    assert_eq!(d.reason.as_deref(), Some("volume below minimum"));
    let d = decide_volume(dec("0.5"), &config, dec("-1"));
    assert_eq!(d.reason.as_deref(), Some("insufficient margin"));
    let d = decide_volume(dec("0.5"), &config, dec("1"));
    assert!(d.approved);
    assert_eq!(num(d.volume), "0.5".parse::<Decimal>().unwrap());
}

#[test]
fn risk_config_from_symbol_maps_fields() {
    let sym = Symbol {
        name: "TEST".to_string(),
        description: "Test".to_string(),
        digits: 5,
        point: dec("0.00001"),
        bid: dec("1.1000"),
        ask: dec("1.1001"),
        spread: 10,
        spread_float: true,
        volume_min: dec("0.01"),
        volume_max: dec("200.0"),
        volume_step: dec("0.01"),
        trade_contract_size: dec("100000.0"),
        currency_base: "EUR".to_string(),
        currency_profit: "USD".to_string(),
        category: "Forex".to_string(),
    };
    let cfg = risk_config_from_symbol(&sym, dec("0.01"));
    assert_eq!(num(cfg.risk_pct), "0.01".parse::<Decimal>().unwrap());
    assert_eq!(num(cfg.value_per_lot), "100000.0".parse::<Decimal>().unwrap());
    assert_eq!(num(cfg.min_volume), "0.01".parse::<Decimal>().unwrap());
    assert_eq!(num(cfg.max_volume), "200.0".parse::<Decimal>().unwrap());
    assert_eq!(num(cfg.volume_step), "0.01".parse::<Decimal>().unwrap());
}

#[test]
fn approved_volume_stays_within_broker_limits() {
    let config = make_config();
    for (balance, entry, sl) in [("5000", "1.1000", "1.0950"), ("100000", "1.1000", "1.0999"), ("60", "1.1000", "1.0950")] {
        let d = evaluate(&make_account(balance, balance), &make_signal(entry, sl), &config);
        if d.approved {
            assert!(num(config.min_volume) <= num(d.volume) && num(d.volume) <= num(config.max_volume));
        } else {
            assert_eq!(num(d.volume), Decimal::ZERO);
        }
    }
}
