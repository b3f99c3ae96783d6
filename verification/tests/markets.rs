use rust_decimal::Decimal;
use std::str::FromStr;
use trading_engine::decimal::Dec;
use trading_engine::domain::{AppError, Side, TradingMode};
use trading_engine::llm::{chat_target, first_choice, insight_of, reply_json, trim_end_slashes};
use trading_engine::market::{
    decimal_from_text, granularity_to_oanda, oanda_fill, oanda_order_body, oanda_reply, oanda_units,
    to_oanda_instrument, try_oanda_instrument, FillPrice, OrderRequest,
};

fn d(s: &str) -> Dec {
    let x = Decimal::from_str(s).unwrap();
    Dec { mantissa: x.mantissa(), scale: x.scale() }
}

fn dec(x: Dec) -> Decimal {
    Decimal::from_i128_with_scale(x.mantissa, x.scale)
}

#[test]
fn oanda_instruments() {
    assert_eq!(to_oanda_instrument("EUR/USD"), "EUR_USD");
    assert_eq!(to_oanda_instrument("EURUSD"), "EUR_USD");
    assert_eq!(to_oanda_instrument("EUR_USD"), "EUR_USD");
    assert_eq!(to_oanda_instrument("R_100"), "R100");
    assert_eq!(to_oanda_instrument("frxEURUSD"), "frxEURUSD");
    assert_eq!(to_oanda_instrument(""), "");
    assert_eq!(try_oanda_instrument("gbp-jpy"), Some("gbp_jpy".to_string()));
    // Three two-byte letters: the first 3 bytes end inside a letter.
    assert_eq!(try_oanda_instrument("\u{e9}\u{e9}\u{e9}"), None);
    assert_eq!(try_oanda_instrument("ab\u{e9}cd"), None);
    assert_eq!(try_oanda_instrument("abc\u{e9}d"), Some("abc_\u{e9}d".to_string()));
}

#[test]
fn oanda_granularities() {
    assert_eq!(granularity_to_oanda(60), "M1");
    assert_eq!(granularity_to_oanda(300), "M5");
    assert_eq!(granularity_to_oanda(0), "S5");
    // 45 s lies as far from 30 s as from 60 s: the shorter wins.
    assert_eq!(granularity_to_oanda(45), "S30");
    assert_eq!(granularity_to_oanda(4000), "H1");
    assert_eq!(granularity_to_oanda(1_000_000), "D");
}

#[test]
fn oanda_order_units() {
    assert_eq!(dec(oanda_units(Side::Buy, d("1000"), d("1.25")).unwrap()), Decimal::from(800));
    assert_eq!(dec(oanda_units(Side::Sell, d("1000"), d("1.25")).unwrap()), Decimal::from(-800));
    match oanda_units(Side::Buy, d("1000"), d("0")) {
        Err(AppError::Execution(m)) => assert_eq!(m, "oanda: zero reference price"),
        _ => panic!("expected an error"),
    }
    match oanda_units(Side::Buy, d("0.1"), d("1.25")) {
        Err(AppError::Execution(m)) => assert_eq!(m, "oanda: stake too small for 1 unit"),
        _ => panic!("expected an error"),
    }
}

#[test]
fn payload_decimals() {
    assert_eq!(dec(decimal_from_text("1.2345").unwrap()), Decimal::from_str("1.2345").unwrap());
    assert!(matches!(decimal_from_text("abc"), Err(AppError::Market(_))));
}

#[test]
fn model_endpoint() {
    match chat_target("http://llm.local/v1//", "k", "") {
        Ok((url, model)) => {
            assert_eq!(url, "http://llm.local/v1/chat/completions");
            assert_eq!(model, "gpt-4o-mini");
        },
        Err(_) => panic!("expected a target"),
    }
    match chat_target("http://x", "k", "m") {
        Ok((_, model)) => assert_eq!(model, "m"),
        Err(_) => panic!("expected a target"),
    }
    match chat_target("", "", "m") {
        Err(AppError::Llm(msg)) => assert_eq!(msg, "no LLM API key set \u{2014} configure it in Settings"),
        _ => panic!("expected an error"),
    }
    match chat_target("", "k", "m") {
        Err(AppError::Llm(msg)) => assert_eq!(msg, "no LLM base URL set \u{2014} configure it in Settings"),
        _ => panic!("expected an error"),
    }
    assert_eq!(trim_end_slashes("a//"), "a");
}

#[test]
fn modes_parse_in_any_case() {
    assert_eq!(TradingMode::parse("LIVE"), Some(TradingMode::Live));
    assert_eq!(TradingMode::parse("Paper"), Some(TradingMode::Paper));
    assert_eq!(TradingMode::parse("signals"), Some(TradingMode::Signals));
    assert_eq!(TradingMode::parse("bogus"), None);
    assert_eq!(TradingMode::default(), TradingMode::Paper);
    for m in [TradingMode::Paper, TradingMode::Signals, TradingMode::Live] {
        assert_eq!(TradingMode::parse(m.name()), Some(m));
    }
}

#[test]
fn instruments_are_stable() {
    for s in ["EUR/USD", "EURUSD", "EUR_USD", "R_100", "frxEURUSD", "gbp-jpy", "", "BOOM300N"] {
        let once = to_oanda_instrument(s);
        assert_eq!(to_oanda_instrument(&once), once);
    }
}

#[test]
fn llm_replies_are_read_as_json() {
    let v = reply_json("{\"insight\": \"Momentum is fading.\", \"n\": 3}").unwrap();
    assert_eq!(insight_of(&v), Some("Momentum is fading.".to_string()));
    let v = reply_json("{\"insight\": 5}").unwrap();
    assert_eq!(insight_of(&v), None);
    match reply_json("not json") {
        Err(AppError::Llm(m)) => assert!(m.starts_with("invalid JSON from LLM: "), "{}", m),
        _ => panic!("expected an LLM error"),
    }
    match first_choice(vec![]) {
        Err(AppError::Llm(m)) => assert_eq!(m, "no choices in LLM response"),
        _ => panic!("expected an LLM error"),
    }
    assert_eq!(first_choice(vec!["a".to_string(), "b".to_string()]).unwrap(), "a");
}

#[test]
fn oanda_replies_and_fills() {
    match oanda_reply("POST", false, "400 Bad Request", "nope") {
        Err(AppError::Market(m)) => assert_eq!(m, "oanda POST HTTP 400 Bad Request: nope"),
        _ => panic!("expected a market error"),
    }
    match oanda_reply("GET", true, "200 OK", "{") {
        Err(AppError::Market(m)) => assert!(m.starts_with("oanda GET json: "), "{}", m),
        _ => panic!("expected a market error"),
    }
    let ok = oanda_reply("POST", true, "201 Created", "{\"orderFillTransaction\": {\"price\": \"1.10250\", \"id\": \"42\"}}").unwrap();
    let fill = oanda_fill(&ok, d("1.1")).unwrap();
    match fill.price {
        FillPrice::Exact(p) => assert_eq!(dec(p), Decimal::from_str("1.10250").unwrap()),
        _ => panic!("expected a text price"),
    }
    assert_eq!(fill.broker_ref, Some("42".to_string()));
    let num = oanda_reply("POST", true, "201", "{\"orderFillTransaction\": {\"price\": 1.5}}").unwrap();
    match oanda_fill(&num, d("1.1")).unwrap().price {
        FillPrice::Number(t) => assert_eq!(t, "1.5"),
        _ => panic!("expected a number price"),
    }
    let bare = oanda_reply("POST", true, "201", "{\"orderFillTransaction\": {}}").unwrap();
    let f = oanda_fill(&bare, d("1.1")).unwrap();
    assert!(matches!(f.price, FillPrice::Exact(p) if dec(p) == Decimal::from_str("1.1").unwrap()));
    assert_eq!(f.broker_ref, None);
    let err = oanda_reply("POST", true, "201", "{\"errorMessage\": \"Insufficient margin\"}").unwrap();
    match oanda_fill(&err, d("1.1")) {
        Err(AppError::Execution(m)) => assert_eq!(m, "oanda order: \"Insufficient margin\""),
        _ => panic!("expected an execution error"),
    }
    let none = oanda_reply("POST", true, "201", "{}").unwrap();
    match oanda_fill(&none, d("1.1")) {
        Err(AppError::Execution(m)) => assert_eq!(m, "oanda: no orderFillTransaction"),
        _ => panic!("expected an execution error"),
    }
}

#[test]
fn oanda_order_bodies() {
    let req = OrderRequest {
        symbol: "EUR/USD".to_string(),
        side: Side::Buy,
        stake: d("100"),
        duration_secs: Some(60),
        stop_loss_price: Some(d("1.09")),
        take_profit_price: None,
        stop_loss_amount: Some(d("100")),
        take_profit_amount: Some(d("200")),
    };
    let o = oanda_order_body(&req, d("-800"), "EUR_USD");
    assert_eq!(o.units, "-800");
    assert_eq!(o.instrument, "EUR_USD");
    assert_eq!(o.order_type, "MARKET");
    assert_eq!(o.position_fill, "DEFAULT");
    assert_eq!(o.stop_loss_on_fill, Some("1.09".to_string()));
    assert_eq!(o.take_profit_on_fill, None);
}
