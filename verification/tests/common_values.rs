use rust_decimal::Decimal;
use std::str::FromStr;
use trading_engine::decimal::Dec;
use trading_engine::domain::{AppError, Candle};
use trading_engine::rules::compute::band_variances;
use trading_engine::rules::indicators::Indicators;

fn d(s: &str) -> Dec {
    let x = Decimal::from_str(s).unwrap();
    Dec { mantissa: x.mantissa(), scale: x.scale() }
}

fn dec(x: Dec) -> Decimal {
    Decimal::from_i128_with_scale(x.mantissa, x.scale)
}

fn candle(i: i64, o: &str, h: &str, l: &str, c: &str) -> Candle {
    Candle { symbol: "EURUSD".to_string(), ts: i, open: d(o), high: d(h), low: d(l), close: d(c), volume: d("10") }
}

fn rising(n: i64) -> Vec<Candle> {
    (0..n)
        .map(|i| {
            let o = 100 + i;
            candle(i, &o.to_string(), &(o + 2).to_string(), &(o - 1).to_string(), &(o + 1).to_string())
        })
        .collect()
}

fn deviations(cs: &[Candle]) -> Vec<Dec> {
    band_variances(cs)
        .unwrap()
        .into_iter()
        .map(|v| {
            let f: f64 = dec(v).to_string().parse().unwrap();
            let s = Decimal::try_from(f.sqrt()).unwrap_or(Decimal::ZERO);
            Dec { mantissa: s.mantissa(), scale: s.scale() }
        })
        .collect()
}

fn indicators(cs: &[Candle]) -> Indicators {
    let stds = deviations(cs);
    match Indicators::compute(cs, &stds) {
        Ok(i) => i,
        Err(_) => panic!("indicators"),
    }
}

#[test]
fn compute_without_candles_fails() {
    match Indicators::compute(&[], &[]) {
        Err(AppError::Internal(m)) => assert_eq!(m, "no candles"),
        _ => panic!("expected an error"),
    }
}

#[test]
fn compute_on_rising_candles() {
    let cs = rising(60);
    let ind = indicators(&cs);
    assert_eq!(dec(ind.price), Decimal::from(160));
    assert_eq!(dec(ind.close), Decimal::from(160));
    assert_eq!(dec(*ind.rsi.get(&14).unwrap()), Decimal::from(100));
    // (160 - 159) / 159 * 100, to 4 places.
    assert_eq!(dec(ind.pct_change), Decimal::from_str("0.6289").unwrap());
    assert_eq!(ind.consecutive_bullish, 60);
    assert_eq!(ind.consecutive_bearish, 0);
    assert_eq!(ind.candle_sequence.len(), 5);
    assert_eq!(ind.candle_sequence[4], "bullish");
    assert_eq!(ind.volatility_regime, "stable");
    assert_eq!(ind.rsi_divergence, "none");
    assert_eq!(dec(ind.swing_high), Decimal::from(161));
    assert_eq!(dec(ind.swing_low), Decimal::from(139));
    assert_eq!(dec(ind.volume_ratio), Decimal::from(1));
    assert_eq!(dec(*ind.sma.get(&50).unwrap()), Decimal::from_str("135.5").unwrap());
    // Not enough candles for the 200-period averages: the last close stands in.
    assert_eq!(dec(*ind.sma.get(&200).unwrap()), Decimal::from(160));
    // True ranges of the last 14 candles against the close before them:
    // 3, 3, 4, 5, ..., 15, summing to 120, over 14 to 10 places.
    assert_eq!(dec(*ind.atr.get(&14).unwrap()), Decimal::from_str("8.5714285714").unwrap());
    assert_eq!(dec(ind.prev_atr), Decimal::from_str("8.5714285714").unwrap());
}

#[test]
fn band_variances_cover_every_window() {
    let cs = rising(25);
    let v = band_variances(&cs).unwrap();
    assert_eq!(v.len(), 6);
    // Twenty consecutive integers have a population variance of (20^2 - 1) / 12.
    assert_eq!(dec(v[0]), Decimal::from_str("33.25").unwrap());
    assert!(band_variances(&rising(10)).unwrap().is_empty());
}
