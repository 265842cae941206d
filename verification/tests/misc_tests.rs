use hermes::agents::{quorum_action, Action};
use hermes::backtest::{
    candle_step, check_exit, make_sim_account, open_trade, timeout_exit, try_trade_pnl, BacktestStats, CandleStep, ExitKind,
    SimTrade,
};
use hermes::decimal::Dec;
use hermes::domain::{Candle, Deal, Side};
use hermes::engine::{
    action_for_side, order_accepted, order_type_for, outcome_without_winner, CycleFlags, EngineOutcome, TRADE_ACTION_DEAL,
};
use hermes::ict::types::{ConfluenceFlags, TradeSignal};
use hermes::risk::RiskDecision;
use hermes::live::{is_market_closed, summary_trigger, try_summarize_deals, MAGIC};
use hermes::mt5::{account_url, first_record, symbol_url, tick_url};
use hermes::telegram::TelegramConfig;
use hermes::text::{contains_text, trim_price_text};
use rust_decimal::Decimal;

fn dec(s: &str) -> Dec {
    let x: Decimal = s.parse().unwrap();
    Dec::new(x.mantissa(), x.scale()).unwrap()
}

fn num(d: Dec) -> Decimal {
    Decimal::from_i128_with_scale(d.mantissa(), d.scale())
}

fn make_candle(o: &str, h: &str, l: &str, c: &str) -> Candle {
    Candle { time: 0, open: dec(o), high: dec(h), low: dec(l), close: dec(c), tick_volume: 1, spread: 1, real_volume: 0 }
}

#[test]
fn action_aliases() {
    let cases = [
        ("buy", Action::Buy),
        ("long", Action::Buy),
        ("sell", Action::Sell),
        ("short", Action::Sell),
        ("hold", Action::Hold),
        ("neutral", Action::Hold),
        ("wait", Action::Hold),
        ("BUY", Action::Buy),
        ("SHORT", Action::Sell),
    ];
    for (input, expected) in cases {
        let got = Action::parse_label(input).unwrap();
        assert_eq!(got, expected, "input={input}");
    }
}

#[test]
fn unknown_action_label_is_refused() {
    assert_eq!(Action::parse_label("maybe"), None);
    assert_eq!(Action::from_lowercase_label("BUY"), None);
}

#[test]
fn unanimous_votes_form_a_quorum() {
    assert_eq!(quorum_action([Action::Buy; 4]), Some(Action::Buy));
    assert_eq!(quorum_action([Action::Buy, Action::Hold, Action::Buy, Action::Buy]), None);
    assert_eq!(quorum_action([Action::Sell, Action::Sell, Action::Sell, Action::Hold]), None);
}

#[test]
fn order_codes() {
    assert_eq!(TRADE_ACTION_DEAL, 1);
    assert_eq!(order_type_for(Side::Long), 0);
    assert_eq!(order_type_for(Side::Short), 1);
    assert!(order_accepted(10009));
    assert!(!order_accepted(10018));
    assert_eq!(action_for_side(Side::Short), Action::Sell);
}

#[test]
fn outcome_without_winner_classifies() {
    assert!(matches!(outcome_without_winner(false, false), EngineOutcome::NoSignal));
    assert!(matches!(outcome_without_winner(true, false), EngineOutcome::Hold));
    assert!(matches!(outcome_without_winner(true, true), EngineOutcome::NoApproval));
}

#[test]
fn telegram_url_format() {
    let tg = TelegramConfig { token: "123:abc".to_string(), chat_id: 5, thread_id: None };
    assert_eq!(tg.url("sendMessage"), "https://api.telegram.org/bot123:abc/sendMessage");
}

#[test]
fn bridge_urls() {
    assert_eq!(account_url("http://h:8000"), "http://h:8000/account");
    assert_eq!(symbol_url("http://h", "EURUSD"), "http://h/symbols/EURUSD");
    assert_eq!(tick_url("http://h", "EURUSD"), "http://h/symbols/EURUSD/tick");
}

#[test]
fn first_record_of_response_list() {
    let empty: Vec<u32> = vec![];
    assert_eq!(first_record(empty), None);
    assert_eq!(first_record(vec![7, 8]), Some(7));
}

#[test]
fn stop_loss_wins_when_both_levels_are_hit() {
    let candle = make_candle("1.1", "1.2", "1.0", "1.1");
    let exit = check_exit(Side::Long, dec("1.05"), dec("1.15"), &candle).unwrap();
    assert_eq!(exit.0, ExitKind::StopLoss);
    assert!(num(exit.1) == "1.05".parse::<Decimal>().unwrap());
    let exit = check_exit(Side::Short, dec("1.3"), dec("1.05"), &candle).unwrap();
    assert_eq!(exit.0, ExitKind::TakeProfit);
    assert!(check_exit(Side::Long, dec("0.9"), dec("1.3"), &candle).is_none());
}

#[test]
fn trade_profit_follows_the_side() {
    let long = try_trade_pnl(Side::Long, dec("1.10"), dec("1.15"), dec("2"), dec("100")).unwrap();
    assert_eq!(num(long), "10".parse::<Decimal>().unwrap());
    let short = try_trade_pnl(Side::Short, dec("1.10"), dec("1.15"), dec("2"), dec("100")).unwrap();
    assert_eq!(num(short), "-10".parse::<Decimal>().unwrap());
}

#[test]
fn stats_track_peak_and_drawdown() {
    let mut st = BacktestStats::new(dec("1000"));
    assert!(st.try_record(dec("100"), ExitKind::TakeProfit));
    assert!(st.try_record(dec("-300"), ExitKind::StopLoss));
    assert!(st.try_record(dec("50"), ExitKind::Timeout));
    assert_eq!(num(st.balance), "850".parse::<Decimal>().unwrap());
    assert_eq!(num(st.peak), "1100".parse::<Decimal>().unwrap());
    assert_eq!(num(st.max_drawdown), "-300".parse::<Decimal>().unwrap());
    assert_eq!((st.trades, st.wins, st.losses, st.timeouts), (3, 1, 1, 1));
    assert_eq!(num(st.total_pnl), "-150".parse::<Decimal>().unwrap());
}

#[test]
fn sim_account_uses_the_balance() {
    let a = make_sim_account(dec("5000"));
    assert_eq!(num(a.balance), "5000".parse::<Decimal>().unwrap());
    assert_eq!(num(a.margin_free), "5000".parse::<Decimal>().unwrap());
    assert_eq!(a.currency, "USD");
}

#[test]
fn summary_fires_once_in_its_hour() {
    let (fire, last) = summary_trigger(20, 20, None);
    assert!(fire);
    let (fire, last) = summary_trigger(20, 20, last);
    assert!(!fire);
    let (fire, last) = summary_trigger(20, 21, last);
    assert!(!fire && last.is_none());
    assert!(summary_trigger(20, 20, last).0);
}

#[test]
fn market_closed_errors_are_recognised() {
    assert!(is_market_closed("order rejected: retcode=10018, comment=Market closed"));
    assert!(is_market_closed("MARKET CLOSED"));
    assert!(!is_market_closed("request failed: timeout"));
}

#[test]
fn text_helpers() {
    assert!(contains_text("abcde", "cd"));
    assert!(contains_text("abc", ""));
    assert!(!contains_text("ab", "abc"));
    assert_eq!(trim_price_text("1.10000"), "1.1");
    assert_eq!(trim_price_text("2.00000"), "2");
    assert_eq!(trim_price_text("100"), "1");
}

fn deal(entry: u32, magic: u64, profit: &str) -> Deal {
    Deal {
        ticket: 1,
        order: 1,
        time: "t".to_string(),
        kind: 0,
        entry,
        symbol: "X".to_string(),
        volume: dec("1"),
        price: dec("1"),
        commission: dec("-1"),
        swap: dec("0.5"),
        profit: dec(profit),
        comment: String::new(),
        magic,
    }
}

#[test]
fn deal_summary_counts_closing_deals_of_this_system() {
    let deals = vec![deal(1, MAGIC, "10"), deal(1, MAGIC, "-4"), deal(0, MAGIC, "99"), deal(1, 7, "99")];
    let s = try_summarize_deals(&deals, MAGIC).unwrap();
    assert_eq!((s.total, s.wins, s.losses), (2, 1, 1));
    assert_eq!(num(s.net), "5".parse::<Decimal>().unwrap());
}

fn long_trade() -> SimTrade {
    let signal = TradeSignal {
        side: Side::Long,
        entry: dec("1.10"),
        sl: dec("1.05"),
        tp: dec("1.20"),
        confluence: ConfluenceFlags::default(),
    };
    SimTrade { open_time: 7, signal, volume: dec("0.10") }
}

#[test]
fn walk_forward_steps() {
    assert!(matches!(candle_step(None, &make_candle("1.1", "1.3", "1.0", "1.2")), CandleStep::Analyze));
    match candle_step(Some(long_trade()), &make_candle("1.1", "1.15", "1.08", "1.12")) {
        CandleStep::StillOpen(t) => assert_eq!(t.open_time, 7),
        _ => panic!("the trade should stay open"),
    }
    match candle_step(Some(long_trade()), &make_candle("1.1", "1.25", "1.08", "1.2")) {
        CandleStep::Closed(_, kind, price) => {
            assert_eq!(kind, ExitKind::TakeProfit);
            assert_eq!(num(price), "1.20".parse::<Decimal>().unwrap());
        }
        _ => panic!("the target should close the trade"),
    }
    match candle_step(Some(long_trade()), &make_candle("1.1", "1.25", "1.00", "1.2")) {
        CandleStep::Closed(_, kind, price) => {
            assert_eq!(kind, ExitKind::StopLoss);
            assert_eq!(num(price), "1.05".parse::<Decimal>().unwrap());
        }
        _ => panic!("the stop should close the trade"),
    }
    let last = make_candle("1.1", "1.15", "1.08", "1.12");
    let (_, kind, price) = timeout_exit(Some(long_trade()), &last).unwrap();
    assert_eq!(kind, ExitKind::Timeout);
    assert_eq!(num(price), "1.12".parse::<Decimal>().unwrap());
    assert!(timeout_exit(None, &last).is_none());
}

#[test]
fn trades_open_only_when_agents_and_sizing_agree() {
    let signal = long_trade().signal;
    let approved = RiskDecision { volume: dec("0.30"), approved: true, reason: None };
    let refused = RiskDecision { volume: Dec::zero(), approved: false, reason: Some("volume below minimum".to_string()) };
    let t = open_trade(signal, Action::Buy, &approved, 42).unwrap();
    assert_eq!(t.open_time, 42);
    assert_eq!(num(t.volume), "0.30".parse::<Decimal>().unwrap());
    assert!(open_trade(signal, Action::Hold, &approved, 42).is_none());
    assert!(open_trade(signal, Action::Sell, &refused, 42).is_none());
}

#[test]
fn cycle_flags_gate_symbols() {
    let mut flags = CycleFlags::new();
    assert!(matches!(flags.outcome(), EngineOutcome::NoSignal));
    assert!(!flags.note_decision(Action::Hold));
    assert!(matches!(flags.outcome(), EngineOutcome::Hold));
    assert!(flags.note_decision(Action::Sell));
    assert!(matches!(flags.outcome(), EngineOutcome::NoApproval));
}
