use rust_decimal::Decimal;
use std::str::FromStr;
use trading_engine::api::{
    account_mode, asset_class_for, live_message, manual_order, manual_trade, parse_side,
    placed_message, requested_mode, stake_or_default, usd, SetMode,
};
use trading_engine::decimal::Dec;
use trading_engine::domain::{
    default_content_type, default_risk, one_weight, AppError, AssetClass, OrderType, Side, Trade,
    TradeStatus, TradingMode,
};
use trading_engine::ingest::{class_of, extraction_prompt, strategy_from_extract, ExtractedRule, ExtractedStrategy};
use trading_engine::insights::{build, AnalyticsSummary};
use trading_engine::learning::{learn, new_scores, scores_from_text};

fn d(s: &str) -> Dec {
    let x = Decimal::from_str(s).unwrap();
    Dec { mantissa: x.mantissa(), scale: x.scale() }
}

fn dec(x: Dec) -> Decimal {
    Decimal::from_i128_with_scale(x.mantissa, x.scale)
}

fn closed(symbol: &str, side: Side, pnl: Option<&str>, status: TradeStatus) -> Trade {
    let mut t = manual_trade(1, 2, 3, symbol, side, TradingMode::Paper, d("1"), d("1"), d("0.9"), d("1.2"), 0);
    t.pnl = pnl.map(d);
    t.status = status;
    t
}

#[test]
fn account_defaults() {
    assert_eq!(usd(), "USD");
    assert_eq!(default_content_type(), "markdown");
    assert_eq!(dec(default_risk()), Decimal::from_str("0.01").unwrap());
    assert_eq!(dec(one_weight()), Decimal::ONE);
    assert_eq!(account_mode(Some("LIVE"), "paper"), TradingMode::Live);
    assert_eq!(account_mode(Some("nonsense"), "signals"), TradingMode::Signals);
    assert_eq!(account_mode(None, "nonsense"), TradingMode::Paper);
    assert_eq!(account_mode(None, "paper"), TradingMode::Paper);
}

#[test]
fn setting_a_mode() {
    assert!(matches!(requested_mode(&SetMode { mode: "live".to_string() }), Ok(TradingMode::Live)));
    match requested_mode(&SetMode { mode: "turbo".to_string() }) {
        Err(AppError::BadRequest(m)) => assert_eq!(m, "invalid mode (paper|signals|live)"),
        _ => panic!("expected an error"),
    }
}

#[test]
fn manual_trade_requests() {
    assert_eq!(asset_class_for("frxEURUSD", None), AssetClass::Forex);
    assert_eq!(asset_class_for("R_100", None), AssetClass::DerivIndex);
    assert_eq!(asset_class_for("R_100", Some(AssetClass::Forex)), AssetClass::Forex);
    assert!(matches!(parse_side("buy"), Ok(Side::Buy)));
    assert!(matches!(parse_side("sell"), Ok(Side::Sell)));
    match parse_side("hold") {
        Err(AppError::BadRequest(m)) => assert_eq!(m, "direction must be 'buy' or 'sell'"),
        _ => panic!("expected an error"),
    }
    assert_eq!(dec(stake_or_default(None, d("1000")).unwrap()), Decimal::from(10));
    assert_eq!(dec(stake_or_default(Some(d("3")), d("1000")).unwrap()), Decimal::from(3));
    let o = manual_order("frxEURUSD", Side::Buy, d("10"), 5, d("1.09"), d("1.12")).unwrap();
    assert_eq!(o.duration_secs, Some(15));
    assert_eq!(dec(o.take_profit_amount.unwrap()), Decimal::from(20));
    assert_eq!(dec(o.stop_loss_amount.unwrap()), Decimal::from(10));
    let o = manual_order("frxEURUSD", Side::Buy, d("10"), 300, d("1.09"), d("1.12")).unwrap();
    assert_eq!(o.duration_secs, Some(300));
    let t = manual_trade(5, 6, 7, "frxEURUSD", Side::Sell, TradingMode::Live, d("10"), d("1.1"), d("1.2"), d("0.9"), 99);
    assert_eq!(t.signal_id, None);
    assert_eq!(t.order_type, OrderType::Market);
    assert_eq!(t.status, TradeStatus::Open);
    assert_eq!(live_message("buy", "frxEURUSD", d("1.1")), "LIVE trade placed via broker: buy frxEURUSD at 1.1");
    assert_eq!(placed_message(TradingMode::Paper, "sell", "R_100", d("250.5")), "Trade placed (paper): sell R_100 at 250.5");
}

#[test]
fn notes_become_strategies() {
    assert_eq!(class_of("FX"), AssetClass::Forex);
    assert_eq!(class_of("Forex"), AssetClass::Forex);
    assert_eq!(class_of("derivindex"), AssetClass::DerivIndex);
    assert_eq!(
        extraction_prompt("T", "text", "C"),
        "Convert the following trading notes into a strategy JSON.\n\nNote title: T\nContent type: text\n\nContent:\nC\n\nReturn the strategy JSON object only."
    );
    let s = strategy_from_extract(ExtractedStrategy {
        name: "RSI reversal".to_string(),
        description: None,
        asset_class: "forex".to_string(),
        symbols: vec!["EUR/USD".to_string()],
        stop_loss: Some(d("30")),
        take_profit: Some(d("60")),
        risk_per_trade: None,
        rules: vec![
            ExtractedRule { name: "rsi_oversold".to_string(), expr: "rsi(14) < 30".to_string(), weight: None },
            ExtractedRule { name: "trend".to_string(), expr: "price > ema(50)".to_string(), weight: Some(d("2")) },
        ],
    });
    assert_eq!(s.asset_class, AssetClass::Forex);
    assert_eq!(dec(s.risk_per_trade), Decimal::from_str("0.01").unwrap());
    assert_eq!(s.rules.len(), 2);
    assert_eq!(dec(s.rules[0].weight), Decimal::ONE);
    assert_eq!(dec(s.rules[1].weight), Decimal::from(2));
    assert_eq!(s.rules[1].expr, "price > ema(50)");
}

#[test]
fn learning_counts_closed_trades() {
    let mut scores = new_scores();
    let trades = vec![
        closed("EURUSD", Side::Buy, Some("5"), TradeStatus::Closed),
        closed("EURUSD", Side::Buy, Some("-2"), TradeStatus::Closed),
        closed("EURUSD", Side::Sell, None, TradeStatus::Closed),
        closed("EURUSD", Side::Sell, Some("9"), TradeStatus::Open),
    ];
    learn(&mut scores, &trades);
    assert_eq!(scores.get("EURUSD:buy"), Some((1, 1)));
    assert_eq!(scores.get("EURUSD:sell"), Some((0, 1)));
    assert_eq!(scores.get("EURUSD:_all"), Some((1, 2)));
    // Learning again only adds.
    learn(&mut scores, &trades[..1]);
    assert_eq!(scores.get("EURUSD:buy"), Some((2, 1)));
    assert_eq!(scores.get("EURUSD:_all"), Some((2, 2)));
}

fn summary(closed: i64, open: i64, win_rate: &str, pnl: &str) -> AnalyticsSummary {
    AnalyticsSummary { total_trades: closed + open, open_trades: open, closed_trades: closed, win_rate: d(win_rate), total_pnl: d(pnl) }
}

#[test]
fn insights_speak_plainly() {
    let i = build(summary(10, 1, "0.6", "100"), 0, d("0")).unwrap();
    assert_eq!(i.notes, vec!["Strong edge: 60.0% win rate across 10 trades.".to_string()]);
    let i = build(summary(10, 0, "0.3", "-50"), 3, d("80")).unwrap();
    assert_eq!(
        i.notes,
        vec![
            "Underperforming: 30.0% win rate. Consider disabling weak strategies.".to_string(),
            "Net negative PnL \u{2014} review stop-loss sizing and strategy risk_per_trade.".to_string(),
            "Significant open exposure relative to realized PnL; watch margin.".to_string(),
            "Signals firing but no open trades \u{2014} check trading mode (paper/signals/live).".to_string(),
        ]
    );
    let i = build(summary(2, 1, "0.5", "10"), 0, d("0")).unwrap();
    assert_eq!(i.notes, vec!["Performance looks balanced. Keep monitoring strategy decay.".to_string()]);
}

#[test]
fn stored_scores_read_back() {
    let s = scores_from_text("{\"EURUSD:buy\": [3, 1], \"EURUSD:_all\": [4, 2]}").unwrap();
    assert_eq!(s.get("EURUSD:buy"), Some((3, 1)));
    assert_eq!(s.get("EURUSD:_all"), Some((4, 2)));
    assert_eq!(s.get("GBPUSD:sell"), None);
    assert!(scores_from_text("{\"k\": [1, 2, 3]}").is_none());
    assert!(scores_from_text("{\"k\": [1.5, 2]}").is_none());
    assert!(scores_from_text("{\"k\": [-1, 2]}").is_none());
    assert!(scores_from_text("{\"k\": [4294967296, 2]}").is_none());
    assert_eq!(scores_from_text("{\"k\": [4294967295, 0]}").unwrap().get("k"), Some((u32::MAX, 0)));
    assert!(scores_from_text("[1, 2]").is_none());
    assert!(scores_from_text("not json").is_none());
    assert_eq!(scores_from_text("{}").unwrap().entries.len(), 0);
}
