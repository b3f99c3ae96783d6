use trading_engine::rules::oscillators::adx;
use rust_decimal::Decimal;
use std::str::FromStr;
use trading_engine::ai::analyze::{analyze, default_tf, AnalyzeRequest};
use trading_engine::ai::candle::{conviction_label, market_session};
use trading_engine::ai::evidence::{decide, pattern_sentiment};
use trading_engine::ai::report::{count_text, with_insight};
use trading_engine::decimal::Dec;
use trading_engine::domain::{AppError, Candle};
use trading_engine::rules::chart::detect_patterns;
use trading_engine::rules::compute::band_variances;
use trading_engine::rules::divergence::detect_divergence;

fn d(s: &str) -> Dec {
    let x = Decimal::from_str(s).unwrap();
    Dec { mantissa: x.mantissa(), scale: x.scale() }
}

fn dec(x: Dec) -> Decimal {
    Decimal::from_i128_with_scale(x.mantissa, x.scale)
}

fn candle(i: i64, o: &str, h: &str, l: &str, c: &str) -> Candle {
    Candle { symbol: "R_100".to_string(), ts: i, open: d(o), high: d(h), low: d(l), close: d(c), volume: d("10") }
}

fn rising(n: i64) -> Vec<Candle> {
    (0..n)
        .map(|i| {
            let o = 100 + i;
            candle(i, &o.to_string(), &(o + 2).to_string(), &(o - 1).to_string(), &(o + 1).to_string())
        })
        .collect()
}

#[test]
fn sentiments_of_patterns() {
    let (dir, w) = pattern_sentiment("hammer");
    assert_eq!((dir, dec(w)), (1, Decimal::from(2)));
    let (dir, w) = pattern_sentiment("evening_star");
    assert_eq!((dir, dec(w)), (-1, Decimal::from(3)));
    let (dir, w) = pattern_sentiment("bullish_candle");
    assert_eq!((dir, dec(w)), (1, Decimal::from_str("0.5").unwrap()));
    let (dir, w) = pattern_sentiment("nothing");
    assert_eq!((dir, dec(w)), (0, Decimal::ZERO));
}

#[test]
fn decisions_need_a_clear_majority() {
    let (dir, c) = decide(d("3"), d("1")).unwrap();
    assert_eq!(dir, "buy");
    assert_eq!(dec(c), Decimal::from_str("0.75").unwrap());
    let (dir, c) = decide(d("1"), d("3")).unwrap();
    assert_eq!(dir, "sell");
    assert_eq!(dec(c), Decimal::from_str("0.75").unwrap());
    let (dir, c) = decide(d("1"), d("1")).unwrap();
    assert_eq!(dir, "hold");
    assert_eq!(dec(c), Decimal::from_str("0.5").unwrap());
    let (dir, c) = decide(d("0"), d("0")).unwrap();
    assert_eq!(dir, "hold");
    assert_eq!(dec(c), Decimal::ZERO);
}

#[test]
fn labels_and_sessions() {
    assert_eq!(conviction_label(d("0.75")), "HIGH-conviction.");
    assert_eq!(conviction_label(d("0.65")), "MODERATE-conviction.");
    assert_eq!(conviction_label(d("0.6")), "MARGINAL \u{2014} monitor closely.");
    assert_eq!(market_session(3), "Asian Session");
    assert_eq!(market_session(8), "London Session");
    assert_eq!(market_session(14), "London-NY Overlap (High Volatility)");
    assert_eq!(market_session(21), "New York Session");
    assert_eq!(market_session(23), "Off-Hours (Low Liquidity)");
    assert_eq!(default_tf(), 5);
    assert_eq!(count_text(0), "0");
    assert_eq!(count_text(1207), "1207");
    assert_eq!(with_insight("r", "i"), "r\n\nAI Insight: i");
}

#[test]
fn flat_candle_is_only_a_doji() {
    let cs = vec![candle(0, "1", "1", "1", "1")];
    let p = detect_patterns(&cs).unwrap();
    assert_eq!(dec(*p.get("doji").unwrap()), Decimal::ONE);
    assert!(p.get("hammer").is_none());
    assert!(detect_patterns(&[]).unwrap().get("doji").is_none());
}

#[test]
fn hammer_after_a_fall() {
    // Ten falling candles, then a small bullish body with a long lower wick.
    let mut cs: Vec<Candle> = (0..10)
        .map(|i| {
            let o = 200 - 2 * i;
            candle(i, &o.to_string(), &(o + 1).to_string(), &(o - 3).to_string(), &(o - 2).to_string())
        })
        .collect();
    cs.push(candle(10, "180", "181.1", "170", "181"));
    let p = detect_patterns(&cs).unwrap();
    assert_eq!(dec(*p.get("hammer").unwrap()), Decimal::ONE);
    // 0.5 + 10 * 0.2 + 1.5, capped at 1.
    assert_eq!(dec(*p.get("hammer_strength").unwrap()), Decimal::ONE);
    assert_eq!(dec(*p.get("long_lower_shadow").unwrap()), Decimal::ONE);
    assert_eq!(dec(*p.get("doji").unwrap()), Decimal::ZERO);
}

#[test]
fn engulfing_pair() {
    let cs = vec![candle(0, "10", "10.5", "8.5", "9"), candle(1, "8.8", "11.5", "8.7", "11")];
    let p = detect_patterns(&cs).unwrap();
    assert_eq!(dec(*p.get("bullish_engulfing").unwrap()), Decimal::ONE);
    // Body 2.2 over the previous body 1, capped at 2, halved.
    assert_eq!(dec(*p.get("bullish_engulfing_strength").unwrap()), Decimal::ONE);
    assert_eq!(dec(*p.get("bearish_engulfing").unwrap()), Decimal::ZERO);
}

#[test]
fn rising_run_patterns() {
    let p = detect_patterns(&rising(25)).unwrap();
    assert_eq!(dec(*p.get("four_bull_exhaustion").unwrap()), Decimal::ONE);
    assert_eq!(dec(*p.get("five_bull_exhaustion").unwrap()), Decimal::ONE);
    assert_eq!(dec(*p.get("three_white_soldiers").unwrap()), Decimal::ONE);
    assert_eq!(dec(*p.get("uptrend_structure").unwrap()), Decimal::ONE);
    // The last close equals the highest earlier high: no breakout.
    assert!(p.get("resistance_breakout").is_none());
    assert!(p.get("support_breakdown").is_none());
    assert!(p.get("narrowing_range").is_none());
}

#[test]
fn divergence_needs_35_candles() {
    assert_eq!(detect_divergence(&rising(20)).unwrap(), ("none".to_string(), "none".to_string()));
    let (rsi, macd) = detect_divergence(&rising(40)).unwrap();
    assert_eq!(rsi, "none");
    assert_eq!(macd, "none");
}

#[test]
fn analysis_needs_fifty_candles() {
    let req = AnalyzeRequest { symbol: "R_100".to_string(), timeframe_minutes: 5, asset_class: None };
    let cs = rising(10);
    match analyze(&req, &cs, &[], &[], 1000, 10, "2024-01-01 10:00:00 UTC") {
        Err(AppError::Market(m)) => assert_eq!(m, "not enough candle data for analysis"),
        _ => panic!("expected an error"),
    }
}

#[test]
fn analysis_of_a_rising_market() {
    let req = AnalyzeRequest { symbol: "R_100".to_string(), timeframe_minutes: 5, asset_class: None };
    let cs = rising(60);
    let stds: Vec<Dec> = band_variances(&cs).unwrap().iter().map(|_| d("1")).collect();
    let p = match analyze(&req, &cs, &stds, &[], 1000, 10, "2024-01-01 10:00:00 UTC") {
        Ok(p) => p,
        Err(_) => panic!("analysis failed"),
    };
    assert_eq!(p.symbol, "R_100");
    assert_eq!(p.timeframe_secs, 300);
    assert_eq!(p.expiry, 1300);
    assert_eq!(p.analysis_time_utc, 1000);
    assert_eq!(p.market_session, "London Session");
    assert!(p.direction == "buy" || p.direction == "sell" || p.direction == "hold");
    assert!(p.reasoning.starts_with("\u{2550}\u{2550}\u{2550} AI MARKET ANALYSIS \u{2550}\u{2550}\u{2550}\nSymbol: R_100\nTime (UTC): 2024-01-01 10:00:00 UTC\nSession: London Session\n"));
    assert!(p.reasoning.contains("\n\u{2500}\u{2500} LAST CANDLE \u{2500}\u{2500}\nDirection: bullish\n"));
    assert!(p.scientific_basis.starts_with("ADX of "));
    assert!(p.signals.iter().any(|f| f.name == "RSI(14)" && f.direction == "bearish"));
    assert_eq!(dec(p.entry_price), Decimal::from(160));
    assert_eq!(p.last_candle.direction, "bullish");
    assert_eq!(dec(p.last_candle.body), Decimal::ONE);
}

const PATTERN_NAMES: &[&str] = &[
    "bearish_engulfing", "bearish_engulfing_strength", "bearish_harami", "bullish_candle",
    "bullish_engulfing", "bullish_engulfing_strength", "bullish_harami", "dark_cloud_cover", "doji",
    "double_bottom", "double_top", "downtrend_structure", "dragonfly_doji", "dragonfly_strength",
    "evening_star", "evening_star_strength", "expanding_range", "failed_breakout_down",
    "failed_breakout_down_strength", "failed_breakout_up", "failed_breakout_up_strength",
    "five_bear_exhaustion", "five_bull_exhaustion", "four_bear_exhaustion", "four_bull_exhaustion",
    "gravestone_doji", "gravestone_strength", "hammer", "hammer_strength", "hanging_man", "inside_bar",
    "inverted_hammer", "long_upper_shadow", "marubozu", "marubozu_strength", "morning_star",
    "morning_star_strength", "narrowing_range", "piercing_line", "piercing_strength",
    "resistance_breakout", "shooting_star", "spinning_top", "support_breakdown",
    "three_bar_bull_reversal", "three_black_crows", "three_crows_reversal", "three_soldiers_reversal",
    "three_white_soldiers", "tweezer_bottom", "uptrend_structure", "weak_bullish",
];

#[test]
fn patterns_read_only_the_last_twenty_candles() {
    // A spike far back in the history changes nothing.
    let mut cs = rising(40);
    cs[3] = candle(3, "103", "500", "1", "104");
    let all = detect_patterns(&cs).unwrap();
    let last = detect_patterns(&cs[20..]).unwrap();
    assert_eq!(all.len(), last.len());
    for name in PATTERN_NAMES {
        assert_eq!(all.get(name).map(|v| dec(*v)), last.get(name).map(|v| dec(*v)), "{}", name);
    }
}

#[test]
fn adx_is_zero_on_short_input() {
    // Fewer than 2 * 14 + 1 candles.
    assert_eq!(dec(adx(&rising(28), 14).unwrap()), Decimal::ZERO);
    assert_eq!(dec(adx(&rising(30), usize::MAX).unwrap()), Decimal::ZERO);
    assert_eq!(dec(adx(&rising(1), 0).unwrap()), Decimal::ZERO);
    // Every move is up: all directional movement is positive.
    assert_eq!(dec(adx(&rising(30), 14).unwrap()), Decimal::from(100));
}

#[test]
fn flat_last_candle_is_only_a_doji() {
    let mut cs = rising(20);
    cs.push(candle(20, "121", "121", "121", "121"));
    let p = detect_patterns(&cs).unwrap();
    assert_eq!(p.len(), 1);
    assert_eq!(dec(*p.get("doji").unwrap()), Decimal::ONE);
}
