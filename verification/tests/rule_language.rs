use rust_decimal::Decimal;
use std::str::FromStr;
use trading_engine::decimal::Dec;
use trading_engine::domain::{AppError, Candle};
use trading_engine::rules::compute::band_variances;
use trading_engine::rules::eval::evaluate;
use trading_engine::rules::indicators::Indicators;

fn d(s: &str) -> Dec {
    let x = Decimal::from_str(s).unwrap();
    Dec { mantissa: x.mantissa(), scale: x.scale() }
}

fn rising(n: i64) -> Vec<Candle> {
    (0..n)
        .map(|i| {
            let o = 100 + i;
            Candle {
                symbol: "EURUSD".to_string(),
                ts: i,
                open: d(&o.to_string()),
                high: d(&(o + 2).to_string()),
                low: d(&(o - 1).to_string()),
                close: d(&(o + 1).to_string()),
                volume: d("10"),
            }
        })
        .collect()
}

fn ind() -> Indicators {
    let cs = rising(60);
    let stds: Vec<Dec> = band_variances(&cs).unwrap().iter().map(|_| d("1")).collect();
    match Indicators::compute(&cs, &stds) {
        Ok(i) => i,
        Err(_) => panic!("indicators"),
    }
}

fn bad(expr: &str) -> String {
    match evaluate(expr, &ind()) {
        Err(AppError::BadRequest(m)) => m,
        Err(_) => panic!("unexpected error kind"),
        Ok(b) => panic!("expected an error, got {b}"),
    }
}

fn truth(expr: &str) -> bool {
    match evaluate(expr, &ind()) {
        Ok(b) => b,
        Err(_) => panic!("evaluation failed for {expr}"),
    }
}

#[test]
fn readme_examples_evaluate() {
    assert!(!truth("rsi(14) < 30"));
    assert!(truth("price > ema(50) and macd() > 0"));
    assert!(truth("crossup(ema(50), ema(200))") == truth("ema(50) > ema(200)"));
    assert!(!truth("close < sma(200) or pct_change < -2"));
}

#[test]
fn arithmetic_and_logic() {
    assert!(truth("1 + 2 * 3 == 7"));
    assert!(truth("(1 + 2) * 3 == 9"));
    assert!(truth("-2 < 1"));
    assert!(!truth("not (1 < 2)"));
    assert!(truth("1 < 2 AND 2 <= 2 OR 0"));
    assert!(truth("10 / 4 == 2.5"));
    assert!(truth("3 != 4"));
    assert!(truth("price >= 160"));
    assert!(truth("close == 160"));
    assert!(!truth("0"));
    assert!(truth("high - low == 3"));
}

#[test]
fn patterns_and_previous_candle() {
    assert!(truth("prev_close == 159"));
    assert!(truth("prev_high == 160"));
    assert!(truth("bullish_candle == 1 or weak_bullish == 1"));
}

#[test]
fn errors_name_the_problem() {
    assert_eq!(bad("1 = 2"), "expected '=='");
    assert_eq!(bad("1 ! 2"), "expected '!='");
    assert_eq!(bad("price $ 1"), "unexpected char '$'");
    assert_eq!(bad("1 / 0 > 0"), "div by zero");
    assert_eq!(bad("foo > 1"), "unknown identifier: foo");
    assert_eq!(bad("bar(1) > 1"), "unknown function or pattern: bar");
    assert_eq!(bad("(1 < 2"), "expected ')'");
    assert_eq!(bad("rsi(14 2)"), "expected ',' or ')'");
    assert_eq!(bad("rsi(7) > 1"), "rsi not available");
    assert!(bad("1..2 > 0").starts_with("bad number 1..2: "));
}
