use trading_engine::api::{manual_signal, route_manual, signal_message, ManualRoute};
use rust_decimal::Decimal;
use std::str::FromStr;
use trading_engine::decimal::Dec;
use trading_engine::domain::{
    AppError, AssetClass, OrderType, Quote, Side, Signal, Trade, TradeStatus, TradingMode,
};
use trading_engine::execution::{
    compute_pnl, fill_price, live_balance_delta, live_order_request, live_trade, monetary_limit,
    offset_price, open_trade, position_size, route_signal, settle, should_exit, stake_from_risk,
    Route, DURATION_SECS,
};

fn d(s: &str) -> Dec {
    let x = Decimal::from_str(s).unwrap();
    Dec { mantissa: x.mantissa(), scale: x.scale() }
}

fn dec(x: Dec) -> Decimal {
    Decimal::from_i128_with_scale(x.mantissa, x.scale)
}

fn num(s: &str) -> Decimal {
    Decimal::from_str(s).unwrap()
}

fn quote(bid: &str, ask: &str) -> Quote {
    Quote { symbol: "EURUSD".to_string(), bid: d(bid), ask: d(ask), ts: 0 }
}

fn signal(mode: TradingMode, side: Side) -> Signal {
    Signal {
        id: 7,
        strategy_id: 3,
        account_id: 2,
        symbol: "EURUSD".to_string(),
        side,
        price: d("1.1"),
        strength: d("0.8"),
        rationale: "rsi".to_string(),
        mode,
        created_at: 0,
    }
}

fn trade(side: Side, entry: &str, size: &str, sl: Option<&str>, tp: Option<&str>) -> Trade {
    Trade {
        id: 1,
        account_id: 2,
        strategy_id: 3,
        signal_id: None,
        symbol: "EURUSD".to_string(),
        side,
        order_type: OrderType::Market,
        mode: TradingMode::Paper,
        size: d(size),
        entry_price: d(entry),
        exit_price: None,
        stop_loss: sl.map(d),
        take_profit: tp.map(d),
        pnl: None,
        status: TradeStatus::Open,
        opened_at: 0,
        closed_at: None,
    }
}

#[test]
fn position_size_risks_the_stop_distance() {
    let s = position_size(d("10000"), d("0.01"), d("1.1"), Some(d("1.09"))).unwrap();
    assert_eq!(dec(s), num("10000"));
    // Without a stop: 1% of the balance in notional over the entry.
    let s = position_size(d("10000"), d("0.01"), d("2"), None).unwrap();
    assert_eq!(dec(s), num("50"));
    // A stop at the entry is no stop.
    let s = position_size(d("10000"), d("0.01"), d("2"), Some(d("2.0"))).unwrap();
    assert_eq!(dec(s), num("50"));
    // A zero entry without a stop cannot be sized.
    assert!(position_size(d("10000"), d("0.01"), d("0"), None).is_none());
}

#[test]
fn fills_buy_at_ask_sell_at_bid() {
    let q = quote("1.1", "1.2");
    assert_eq!(dec(fill_price(&q, Side::Buy)), num("1.2"));
    assert_eq!(dec(fill_price(&q, Side::Sell)), num("1.1"));
}

#[test]
fn exits_at_stop_then_target() {
    let t = trade(Side::Buy, "1.1", "1000", Some("1.0"), Some("1.2"));
    let (why, hit, px) = should_exit(&t, &quote("0.99", "1.0"));
    assert_eq!((why, hit), ("stop", true));
    assert_eq!(dec(px), num("0.99"));
    let (why, hit, _) = should_exit(&t, &quote("1.25", "1.26"));
    assert_eq!((why, hit), ("tp", true));
    let (why, hit, _) = should_exit(&t, &quote("1.15", "1.16"));
    assert_eq!((why, hit), ("none", false));
    let s = trade(Side::Sell, "1.1", "1000", Some("1.2"), Some("1.0"));
    let (why, hit, px) = should_exit(&s, &quote("1.19", "1.21"));
    assert_eq!((why, hit), ("stop", true));
    assert_eq!(dec(px), num("1.21"));
}

#[test]
fn stop_wins_over_target() {
    // Both levels reached at once: the stop decides.
    let t = trade(Side::Buy, "1.1", "1000", Some("1.2"), Some("1.0"));
    let (why, hit, _) = should_exit(&t, &quote("1.1", "1.11"));
    assert_eq!((why, hit), ("stop", true));
}

#[test]
fn pnl_follows_the_side() {
    let b = trade(Side::Buy, "1.1", "1000", None, None);
    assert_eq!(dec(compute_pnl(&b, d("1.2")).unwrap()), num("100"));
    let s = trade(Side::Sell, "1.1", "1000", None, None);
    assert_eq!(dec(compute_pnl(&s, d("1.2")).unwrap()), num("-100"));
}

#[test]
fn settle_closes_a_hit_trade() {
    let t = trade(Side::Buy, "1.1", "1000", Some("1.0"), Some("1.2"));
    match settle(&t, &quote("1.3", "1.31")) {
        Ok(Some((exit, pnl))) => {
            assert_eq!(dec(exit), num("1.3"));
            assert_eq!(dec(pnl), num("200"));
        },
        _ => panic!("expected a settlement"),
    }
    assert!(matches!(settle(&t, &quote("1.1", "1.11")), Ok(None)));
}

#[test]
fn signals_mode_never_trades() {
    let sig = signal(TradingMode::Signals, Side::Buy);
    let r = open_trade(&sig, Some(&quote("1.1", "1.2")), None, None, d("10000"), d("0.01"), 9, 100);
    assert!(matches!(r, Ok(None)));
}

#[test]
fn paper_mode_opens_a_trade() {
    let sig = signal(TradingMode::Paper, Side::Buy);
    let r = open_trade(&sig, Some(&quote("1.9", "2")), Some(d("1.9")), Some(d("2.2")), d("10000"), d("0.01"), 9, 100);
    match r {
        Ok(Some(t)) => {
            assert_eq!(t.id, 9);
            assert_eq!(t.signal_id, Some(7));
            assert_eq!(t.mode, TradingMode::Paper);
            assert_eq!(t.status, TradeStatus::Open);
            assert_eq!(dec(t.entry_price), num("2"));
            // 100 at risk over a 0.1 stop distance.
            assert_eq!(dec(t.size), num("1000"));
            assert_eq!(t.opened_at, 100);
        },
        _ => panic!("expected a trade"),
    }
    // Without a quote the signal's price is the entry.
    match open_trade(&sig, None, None, None, d("10000"), d("0.01"), 9, 100) {
        Ok(Some(t)) => assert_eq!(dec(t.entry_price), num("1.1")),
        _ => panic!("expected a trade"),
    }
}

#[test]
fn overflow_is_reported() {
    let sig = signal(TradingMode::Paper, Side::Buy);
    let huge = Dec { mantissa: 79228162514264337593543950335, scale: 0 };
    match open_trade(&sig, None, None, None, huge, huge, 9, 100) {
        Err(AppError::Internal(m)) => assert_eq!(m, "decimal overflow"),
        _ => panic!("expected an overflow"),
    }
}

#[test]
fn live_orders_and_trades() {
    let sig = signal(TradingMode::Live, Side::Sell);
    let o = live_order_request(&sig, d("5"), Some(d("1.2")), None, Some(d("5")), Some(d("5")));
    assert_eq!(o.duration_secs, Some(DURATION_SECS));
    assert_eq!(o.duration_secs, Some(300));
    assert_eq!(o.side, Side::Sell);
    assert_eq!(o.symbol, "EURUSD");
    let t = live_trade(&sig, d("5"), Some(d("1.2")), None, d("1.15"), 11, 50);
    assert_eq!(t.mode, TradingMode::Live);
    assert_eq!(dec(t.entry_price), num("1.15"));
    assert_eq!(dec(t.size), num("5"));
    assert_eq!(dec(live_balance_delta(d("5"), d("-95")).unwrap()), num("-90"));
}

#[test]
fn stakes_and_limits() {
    assert_eq!(dec(stake_from_risk(d("100"), d("0.001")).unwrap()), num("0.35"));
    assert_eq!(dec(stake_from_risk(d("10000"), d("0.01")).unwrap()), num("100"));
    assert_eq!(dec(monetary_limit(d("10000"), d("0.01")).unwrap()), num("100"));
}

#[test]
fn pips_become_prices() {
    let tp = offset_price(d("1.1"), Side::Buy, d("30"), AssetClass::Forex, true).unwrap();
    assert_eq!(dec(tp), num("1.103"));
    let sl = offset_price(d("1.1"), Side::Buy, d("30"), AssetClass::Forex, false).unwrap();
    assert_eq!(dec(sl), num("1.097"));
    let sl = offset_price(d("100"), Side::Sell, d("5"), AssetClass::DerivIndex, false).unwrap();
    assert_eq!(dec(sl), num("105"));
    // Mirrored sides.
    let a = offset_price(d("1.1"), Side::Sell, d("30"), AssetClass::Forex, false).unwrap();
    assert_eq!(dec(a), dec(tp));
}

#[test]
fn routing_by_mode() {
    match route_signal(TradingMode::Live, true, d("1000"), d("0.01")) {
        Some(Route::Live { stake, limit }) => {
            assert_eq!(dec(stake), num("10"));
            assert_eq!(dec(limit), num("10"));
        },
        _ => panic!("expected a live route"),
    }
    assert!(matches!(route_signal(TradingMode::Live, false, d("1000"), d("0.01")), Some(Route::Simulated)));
    assert!(matches!(route_signal(TradingMode::Paper, true, d("1000"), d("0.01")), Some(Route::Simulated)));
    assert!(matches!(route_signal(TradingMode::Signals, true, d("1000"), d("0.01")), Some(Route::Simulated)));
}

#[test]
fn pnl_is_zero_at_entry() {
    let b = trade(Side::Buy, "1.1", "1000", None, None);
    assert_eq!(dec(compute_pnl(&b, d("1.10")).unwrap()), Decimal::ZERO);
    let s = trade(Side::Sell, "1.1", "1000", None, None);
    assert_eq!(dec(compute_pnl(&s, d("1.1")).unwrap()), Decimal::ZERO);
}

#[test]
fn manual_trades_reach_the_broker_only_from_live_accounts() {
    assert_eq!(route_manual(TradingMode::Live, true), ManualRoute::Broker);
    assert_eq!(route_manual(TradingMode::Live, false), ManualRoute::Simulated);
    assert_eq!(route_manual(TradingMode::Paper, true), ManualRoute::Simulated);
    assert_eq!(route_manual(TradingMode::Signals, true), ManualRoute::SignalOnly);
    assert_eq!(route_manual(TradingMode::Signals, false), ManualRoute::SignalOnly);
}

#[test]
fn signals_mode_records_a_manual_signal() {
    let s = manual_signal(7, 1, 2, "EURUSD", Side::Sell, d("1.25"), 1_700_000_000);
    assert_eq!(s.id, 7);
    assert_eq!(s.account_id, 1);
    assert_eq!(s.strategy_id, 2);
    assert_eq!(s.symbol, "EURUSD");
    assert_eq!(s.side, Side::Sell);
    assert_eq!(dec(s.price), num("1.25"));
    assert_eq!(dec(s.strength), Decimal::ONE);
    assert_eq!(s.mode, TradingMode::Signals);
    assert_eq!(signal_message("sell", "EURUSD", d("1.25")), "Signal recorded (signals): sell EURUSD at 1.25");
}

#[test]
fn opposite_sides_give_opposite_pnl() {
    let b = trade(Side::Buy, "1.1", "0.3", None, None);
    let s = trade(Side::Sell, "1.1", "0.3", None, None);
    for x in ["1.2", "0.95", "1.1", "3.14159"] {
        assert_eq!(dec(compute_pnl(&s, d(x)).unwrap()), -dec(compute_pnl(&b, d(x)).unwrap()));
    }
}

#[test]
fn pnl_sign_follows_the_move_across_scales() {
    let b = trade(Side::Buy, "1.1", "2", None, None);
    assert!(dec(compute_pnl(&b, d("1.12345")).unwrap()) > Decimal::ZERO);
    assert!(dec(compute_pnl(&b, d("1.09999")).unwrap()) < Decimal::ZERO);
    let s = trade(Side::Sell, "1.1", "2", None, None);
    assert!(dec(compute_pnl(&s, d("1.09999")).unwrap()) > Decimal::ZERO);
}
