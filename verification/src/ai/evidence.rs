//! Evidence for the next candle: the sentiment of candlestick patterns, the
//! readings of indicators, and the rules learned from notes, each as a
//! weighted factor for or against a rise.
use crate::decimal::{
    checked_add, checked_div, decimal_add, decimal_display, decimal_div, display, dn, is_zero,
    is_zero_dec, less, lt, same, equal, one, spec_int, spec_one, spec_zero, whole, zero, Dec, fits_at, lemma_units_sign, max_scale,
};
use crate::domain::{Rule, Strategy};
use crate::rules::eval::{evaluate, spec_evaluate};
use crate::rules::lexer::ErrV;
use crate::rules::indicators::Indicators;
use crate::text::{contains, seq_contains, str_eq, str_lowercase, to_lowercase};
use vstd::prelude::*;

verus! {

/// One piece of evidence.
#[derive(Clone, Debug)]
pub struct SignalFactor {
    pub source: String,
    pub name: String,
    /// "bullish", "bearish" or "neutral".
    pub direction: String,
    pub weight: Dec,
    pub detail: String,
}

/// A factor as plain values: source, name, direction, weight, detail.
pub type FactorV = (Seq<char>, Seq<char>, Seq<char>, Dec, Seq<char>);

pub open spec fn fview(f: SignalFactor) -> FactorV {
    (f.source@, f.name@, f.direction@, f.weight, f.detail@)
}

pub open spec fn fviews(fs: Seq<SignalFactor>) -> Seq<FactorV> {
    fs.map_values(|f: SignalFactor| fview(f))
}

/// Every factor's weight is a valid decimal.
pub open spec fn weights_wf(fs: Seq<SignalFactor>) -> bool {
    forall|i: int| 0 <= i < fs.len() ==> (#[trigger] fs[i]).weight.wf()
}

fn factor(source: &str, name: String, direction: &str, weight: Dec, detail: String) -> (r: SignalFactor)
    ensures
        fview(r) == (source@, name@, direction@, weight, detail@),
        r.weight == weight,
        r.direction@ == direction@,
{
    SignalFactor { source: String::from_str(source), name, direction: String::from_str(direction), weight, detail }
}

// ------------------------------------------------------------ patterns

/// Direction (1 up, -1 down, 0 none) and weight of a candlestick pattern.
pub open spec fn spec_sentiment(name: Seq<char>) -> (int, Dec) {
    if name == "hammer"@ {
        (1, dn(2, 0))
    } else if name == "bullish_engulfing"@ {
        (1, dn(3, 0))
    } else if name == "bullish_harami"@ {
        (1, dn(2, 0))
    } else if name == "piercing_line"@ {
        (1, dn(2, 0))
    } else if name == "morning_star"@ {
        (1, dn(3, 0))
    } else if name == "three_white_soldiers"@ {
        (1, dn(3, 0))
    } else if name == "dragonfly_doji"@ {
        (1, dn(2, 0))
    } else if name == "long_lower_shadow"@ {
        (1, dn(1, 0))
    } else if name == "tweezer_bottom"@ {
        (1, dn(1, 0))
    } else if name == "inverted_hammer"@ {
        (1, dn(1, 0))
    } else if name == "shooting_star"@ {
        (-1, dn(2, 0))
    } else if name == "bearish_engulfing"@ {
        (-1, dn(3, 0))
    } else if name == "bearish_harami"@ {
        (-1, dn(2, 0))
    } else if name == "dark_cloud_cover"@ {
        (-1, dn(2, 0))
    } else if name == "evening_star"@ {
        (-1, dn(3, 0))
    } else if name == "three_black_crows"@ {
        (-1, dn(3, 0))
    } else if name == "gravestone_doji"@ {
        (-1, dn(2, 0))
    } else if name == "long_upper_shadow"@ {
        (-1, dn(1, 0))
    } else if name == "tweezer_top"@ {
        (-1, dn(1, 0))
    } else if name == "hanging_man"@ {
        (-1, dn(1, 0))
    } else if name == "doji"@ {
        (0, dn(0, 0))
    } else if name == "spinning_top"@ {
        (0, dn(0, 0))
    } else if name == "marubozu"@ {
        (0, dn(0, 0))
    } else if name == "bullish_candle"@ {
        (1, dn(5, 1))
    } else if name == "bearish_candle"@ {
        (-1, dn(5, 1))
    } else {
        (0, spec_zero())
    }
}

pub fn pattern_sentiment(name: &str) -> (r: (i32, Dec))
    ensures
        (r.0 as int, r.1) == spec_sentiment(name@),
        r.1.wf(),
{
    if str_eq(name, "hammer") {
        (1, Dec::new(2, 0))
    } else if str_eq(name, "bullish_engulfing") {
        (1, Dec::new(3, 0))
    } else if str_eq(name, "bullish_harami") {
        (1, Dec::new(2, 0))
    } else if str_eq(name, "piercing_line") {
        (1, Dec::new(2, 0))
    } else if str_eq(name, "morning_star") {
        (1, Dec::new(3, 0))
    } else if str_eq(name, "three_white_soldiers") {
        (1, Dec::new(3, 0))
    } else if str_eq(name, "dragonfly_doji") {
        (1, Dec::new(2, 0))
    } else if str_eq(name, "long_lower_shadow") {
        (1, Dec::new(1, 0))
    } else if str_eq(name, "tweezer_bottom") {
        (1, Dec::new(1, 0))
    } else if str_eq(name, "inverted_hammer") {
        (1, Dec::new(1, 0))
    } else if str_eq(name, "shooting_star") {
        (-1, Dec::new(2, 0))
    } else if str_eq(name, "bearish_engulfing") {
        (-1, Dec::new(3, 0))
    } else if str_eq(name, "bearish_harami") {
        (-1, Dec::new(2, 0))
    } else if str_eq(name, "dark_cloud_cover") {
        (-1, Dec::new(2, 0))
    } else if str_eq(name, "evening_star") {
        (-1, Dec::new(3, 0))
    } else if str_eq(name, "three_black_crows") {
        (-1, Dec::new(3, 0))
    } else if str_eq(name, "gravestone_doji") {
        (-1, Dec::new(2, 0))
    } else if str_eq(name, "long_upper_shadow") {
        (-1, Dec::new(1, 0))
    } else if str_eq(name, "tweezer_top") {
        (-1, Dec::new(1, 0))
    } else if str_eq(name, "hanging_man") {
        (-1, Dec::new(1, 0))
    } else if str_eq(name, "doji") {
        (0, Dec::new(0, 0))
    } else if str_eq(name, "spinning_top") {
        (0, Dec::new(0, 0))
    } else if str_eq(name, "marubozu") {
        (0, Dec::new(0, 0))
    } else if str_eq(name, "bullish_candle") {
        (1, Dec::new(5, 1))
    } else if str_eq(name, "bearish_candle") {
        (-1, Dec::new(5, 1))
    } else {
        (0, zero())
    }
}

/// The patterns that carry a sentiment, in a fixed order.
pub open spec fn sentiment_names() -> Seq<Seq<char>> {
    seq![
        "hammer"@,
        "bullish_engulfing"@,
        "bullish_harami"@,
        "piercing_line"@,
        "morning_star"@,
        "three_white_soldiers"@,
        "dragonfly_doji"@,
        "long_lower_shadow"@,
        "tweezer_bottom"@,
        "inverted_hammer"@,
        "shooting_star"@,
        "bearish_engulfing"@,
        "bearish_harami"@,
        "dark_cloud_cover"@,
        "evening_star"@,
        "three_black_crows"@,
        "gravestone_doji"@,
        "long_upper_shadow"@,
        "tweezer_top"@,
        "hanging_man"@,
        "doji"@,
        "spinning_top"@,
        "marubozu"@,
        "bullish_candle"@,
        "bearish_candle"@,
    ]
}

pub(crate) fn sentiment_name(i: usize) -> (r: &'static str)
    requires
        i < 25,
    ensures
        r@ == sentiment_names()[i as int],
{
    match i {
        0 => "hammer",
        1 => "bullish_engulfing",
        2 => "bullish_harami",
        3 => "piercing_line",
        4 => "morning_star",
        5 => "three_white_soldiers",
        6 => "dragonfly_doji",
        7 => "long_lower_shadow",
        8 => "tweezer_bottom",
        9 => "inverted_hammer",
        10 => "shooting_star",
        11 => "bearish_engulfing",
        12 => "bearish_harami",
        13 => "dark_cloud_cover",
        14 => "evening_star",
        15 => "three_black_crows",
        16 => "gravestone_doji",
        17 => "long_upper_shadow",
        18 => "tweezer_top",
        19 => "hanging_man",
        20 => "doji",
        21 => "spinning_top",
        22 => "marubozu",
        23 => "bullish_candle",
        24 => "bearish_candle",
        _ => "bearish_candle",
    }
}

/// "bullish", "bearish" or "neutral" for a direction.
pub open spec fn dir_label(d: int) -> Seq<char> {
    if d > 0 {
        "bullish"@
    } else if d < 0 {
        "bearish"@
    } else {
        "neutral"@
    }
}

fn dir_label_exec(d: i32) -> (r: &'static str)
    ensures
        r@ == dir_label(d as int),
{
    if d > 0 {
        "bullish"
    } else if d < 0 {
        "bearish"
    } else {
        "neutral"
    }
}

/// The pattern is present (its flag is 1) in the map.
pub open spec fn present(p: Map<Seq<char>, Dec>, name: Seq<char>) -> bool {
    p.contains_key(name) && same(p[name], spec_one())
}

/// The factor of a present pattern with a weight.
pub open spec fn pattern_factor(name: Seq<char>) -> FactorV {
    let (d, w) = spec_sentiment(name);
    ("candlestick"@, name, dir_label(d), w, name + " pattern detected on last candle"@)
}

/// Factors of the first `k` sentiment patterns that are present with a weight.
pub open spec fn pattern_factors_upto(p: Map<Seq<char>, Dec>, k: int) -> Seq<FactorV>
    decreases k,
{
    if k <= 0 {
        Seq::empty()
    } else {
        let prev = pattern_factors_upto(p, k - 1);
        let name = sentiment_names()[k - 1];
        if present(p, name) && !is_zero(spec_sentiment(name).1) {
            prev.push(pattern_factor(name))
        } else {
            prev
        }
    }
}

/// Factors of the present patterns with a weight.
pub open spec fn pattern_factors_of(p: Map<Seq<char>, Dec>) -> Seq<FactorV> {
    pattern_factors_upto(p, 25)
}

fn concat2(a: &str, b: &str) -> (r: String)
    ensures
        r@ == a@ + b@,
{
    let mut s = String::from_str(a);
    s.append(b);
    s
}

/// Factors of the candlestick patterns present in the indicator set.
pub fn pattern_factors(ind: &Indicators) -> (r: Vec<SignalFactor>)
    requires
        ind.wf(),
    ensures
        fviews(r@) == pattern_factors_of(ind.patterns@),
        weights_wf(r@),
{
    let mut out: Vec<SignalFactor> = Vec::new();
    let mut i: usize = 0;
    while i < 25
        invariant
            i <= 25,
            ind.wf(),
            fviews(out@) == pattern_factors_upto(ind.patterns@, i as int),
            weights_wf(out@),
        decreases 25 - i,
    {
        let name = sentiment_name(i);
        let fires = match ind.patterns.get(name) {
            Some(v) => {
                assert(ind.patterns@.contains_key(name@));
                equal(*v, one())
            },
            None => false,
        };
        if fires {
            let (d, w) = pattern_sentiment(name);
            if !is_zero_dec(w) {
                let f = factor(
                    "candlestick",
                    String::from_str(name),
                    dir_label_exec(d),
                    w,
                    concat2(name, " pattern detected on last candle"),
                );
                push_f(&mut out, f);
                assert(fviews(out@) =~= pattern_factors_upto(ind.patterns@, i as int).push(
                    pattern_factor(name@),
                ));
            }
        }
        i += 1;
    }
    out
}

// ------------------------------------------------------------ indicators

pub(crate) fn cat3(a: &str, b: &str, c: &str) -> (r: String)
    ensures
        r@ == a@ + b@ + c@,
{
    let mut s = String::from_str(a);
    s.append(b);
    s.append(c);
    s
}

pub(crate) fn cat4(a: &str, b: &str, c: &str, d: &str) -> (r: String)
    ensures
        r@ == a@ + b@ + c@ + d@,
{
    let mut s = String::from_str(a);
    s.append(b);
    s.append(c);
    s.append(d);
    s
}

pub(crate) fn cat5(a: &str, b: &str, c: &str, d: &str, e: &str) -> (r: String)
    ensures
        r@ == a@ + b@ + c@ + d@ + e@,
{
    let mut s = String::from_str(a);
    s.append(b);
    s.append(c);
    s.append(d);
    s.append(e);
    s
}

/// An indicator factor.
pub open spec fn ind_factor(name: Seq<char>, d: int, w: int, detail: Seq<char>) -> FactorV {
    ("indicator"@, name, dir_label(d), spec_int(w), detail)
}

fn ind_factor_exec(name: &str, d: i32, w: i64, detail: String) -> (r: SignalFactor)
    ensures
        fview(r) == ind_factor(name@, d as int, w as int, detail@),
        r.weight.wf(),
{
    factor("indicator", String::from_str(name), dir_label_exec(d), whole(w), detail)
}

/// The RSI(14) reading: oversold below 30, overbought above 70, leaning
/// below 45 or above 55, neutral between.
#[verifier::opaque]
pub open spec fn rsi_factor(rsi: Dec) -> FactorV {
    let t = decimal_display(rsi);
    if lt(rsi, spec_int(30)) {
        ind_factor("RSI(14)"@, 1, 3, "RSI "@ + t + " — oversold (<30). Statistically, price reverses upward in ~68% of cases from this level."@)
    } else if lt(spec_int(70), rsi) {
        ind_factor("RSI(14)"@, -1, 3, "RSI "@ + t + " — overbought (>70). Statistically, price reverses downward in ~68% of cases from this level."@)
    } else if lt(rsi, spec_int(45)) {
        ind_factor("RSI(14)"@, 1, 1, "RSI "@ + t + " — below midpoint, selling pressure exhausting."@)
    } else if lt(spec_int(55), rsi) {
        ind_factor("RSI(14)"@, -1, 1, "RSI "@ + t + " — above midpoint, buying pressure exhausting."@)
    } else {
        ind_factor("RSI(14)"@, 0, 0, "RSI "@ + t + " — neutral zone (45-55)."@)
    }
}

fn rsi_factor_exec(rsi: Dec) -> (r: SignalFactor)
    requires
        rsi.wf(),
    ensures
        r.weight.wf(),
        fview(r) == rsi_factor(rsi),
{
    reveal(rsi_factor);
    let t = display(rsi);
    if less(rsi, whole(30)) {
        ind_factor_exec("RSI(14)", 1, 3, cat3("RSI ", t.as_str(), " — oversold (<30). Statistically, price reverses upward in ~68% of cases from this level."))
    } else if less(whole(70), rsi) {
        ind_factor_exec("RSI(14)", -1, 3, cat3("RSI ", t.as_str(), " — overbought (>70). Statistically, price reverses downward in ~68% of cases from this level."))
    } else if less(rsi, whole(45)) {
        ind_factor_exec("RSI(14)", 1, 1, cat3("RSI ", t.as_str(), " — below midpoint, selling pressure exhausting."))
    } else if less(whole(55), rsi) {
        ind_factor_exec("RSI(14)", -1, 1, cat3("RSI ", t.as_str(), " — above midpoint, buying pressure exhausting."))
    } else {
        ind_factor_exec("RSI(14)", 0, 0, cat3("RSI ", t.as_str(), " — neutral zone (45-55)."))
    }
}

/// Price against EMA(50): above is a bullish structure, otherwise bearish.
#[verifier::opaque]
pub open spec fn ema50_factor(price: Dec, e: Dec) -> FactorV {
    if lt(e, price) {
        ind_factor("EMA(50)"@, 1, 2, "Price "@ + decimal_display(price) + " above EMA50 "@ + decimal_display(e) + " — bullish structure. The 50-period EMA acts as dynamic support."@)
    } else {
        ind_factor("EMA(50)"@, -1, 2, "Price "@ + decimal_display(price) + " below EMA50 "@ + decimal_display(e) + " — bearish structure. The 50-period EMA acts as dynamic resistance."@)
    }
}

fn ema50_factor_exec(price: Dec, e: Dec) -> (r: SignalFactor)
    requires
        price.wf(),
        e.wf(),
    ensures
        r.weight.wf(),
        fview(r) == ema50_factor(price, e),
{
    reveal(ema50_factor);
    let p = display(price);
    let t = display(e);
    if less(e, price) {
        ind_factor_exec("EMA(50)", 1, 2, cat5("Price ", p.as_str(), " above EMA50 ", t.as_str(), " — bullish structure. The 50-period EMA acts as dynamic support."))
    } else {
        ind_factor_exec("EMA(50)", -1, 2, cat5("Price ", p.as_str(), " below EMA50 ", t.as_str(), " — bearish structure. The 50-period EMA acts as dynamic resistance."))
    }
}

/// Price against EMA(200): the long-term trend.
#[verifier::opaque]
pub open spec fn ema200_factor(price: Dec, e: Dec) -> FactorV {
    if lt(e, price) {
        ind_factor("EMA(200)"@, 1, 2, "Price above EMA200 "@ + decimal_display(e) + " — long-term uptrend confirmed. Institutional bias is bullish."@)
    } else {
        ind_factor("EMA(200)"@, -1, 2, "Price below EMA200 "@ + decimal_display(e) + " — long-term downtrend confirmed. Institutional bias is bearish."@)
    }
}

fn ema200_factor_exec(price: Dec, e: Dec) -> (r: SignalFactor)
    requires
        price.wf(),
        e.wf(),
    ensures
        r.weight.wf(),
        fview(r) == ema200_factor(price, e),
{
    reveal(ema200_factor);
    let t = display(e);
    if less(e, price) {
        ind_factor_exec("EMA(200)", 1, 2, cat3("Price above EMA200 ", t.as_str(), " — long-term uptrend confirmed. Institutional bias is bullish."))
    } else {
        ind_factor_exec("EMA(200)", -1, 2, cat3("Price below EMA200 ", t.as_str(), " — long-term downtrend confirmed. Institutional bias is bearish."))
    }
}

/// The MACD line: positive is bullish momentum, otherwise bearish.
#[verifier::opaque]
pub open spec fn macd_factor(m: Dec) -> FactorV {
    if lt(spec_zero(), m) {
        ind_factor("MACD"@, 1, 2, "MACD positive ("@ + decimal_display(m) + ") — bullish momentum. Fast EMA above slow EMA."@)
    } else {
        ind_factor("MACD"@, -1, 2, "MACD negative ("@ + decimal_display(m) + ") — bearish momentum. Fast EMA below slow EMA."@)
    }
}

fn macd_factor_exec(m: Dec) -> (r: SignalFactor)
    requires
        m.wf(),
    ensures
        r.weight.wf(),
        fview(r) == macd_factor(m),
{
    reveal(macd_factor);
    let t = display(m);
    if less(zero(), m) {
        ind_factor_exec("MACD", 1, 2, cat3("MACD positive (", t.as_str(), ") — bullish momentum. Fast EMA above slow EMA."))
    } else {
        ind_factor_exec("MACD", -1, 2, cat3("MACD negative (", t.as_str(), ") — bearish momentum. Fast EMA below slow EMA."))
    }
}

/// Price against the Bollinger bands: outside a band, mean reversion;
/// inside, a lean toward the nearer band.
#[verifier::opaque]
pub open spec fn bb_factor(price: Dec, upper: Dec, middle: Dec, lower: Dec) -> FactorV {
    if lt(upper, price) {
        ind_factor("Bollinger Bands"@, -1, 2, "Price "@ + decimal_display(price) + " above upper Bollinger Band "@ + decimal_display(upper) + ". Occurs <5% of the time — statistical mean reversion expected."@)
    } else if lt(price, lower) {
        ind_factor("Bollinger Bands"@, 1, 2, "Price "@ + decimal_display(price) + " below lower Bollinger Band "@ + decimal_display(lower) + ". Occurs <5% of the time — statistical mean reversion expected."@)
    } else if lt(middle, price) {
        ind_factor("Bollinger Bands"@, -1, 1, "Price in upper Bollinger half — leaning toward resistance at "@ + decimal_display(upper) + "."@)
    } else {
        ind_factor("Bollinger Bands"@, 1, 1, "Price in lower Bollinger half — leaning toward support at "@ + decimal_display(lower) + "."@)
    }
}

fn bb_factor_exec(price: Dec, upper: Dec, middle: Dec, lower: Dec) -> (r: SignalFactor)
    requires
        price.wf(),
        upper.wf(),
        middle.wf(),
        lower.wf(),
    ensures
        r.weight.wf(),
        fview(r) == bb_factor(price, upper, middle, lower),
{
    reveal(bb_factor);
    let p = display(price);
    let u = display(upper);
    let l = display(lower);
    if less(upper, price) {
        ind_factor_exec("Bollinger Bands", -1, 2, cat5("Price ", p.as_str(), " above upper Bollinger Band ", u.as_str(), ". Occurs <5% of the time — statistical mean reversion expected."))
    } else if less(price, lower) {
        ind_factor_exec("Bollinger Bands", 1, 2, cat5("Price ", p.as_str(), " below lower Bollinger Band ", l.as_str(), ". Occurs <5% of the time — statistical mean reversion expected."))
    } else if less(middle, price) {
        ind_factor_exec("Bollinger Bands", -1, 1, cat3("Price in upper Bollinger half — leaning toward resistance at ", u.as_str(), "."))
    } else {
        ind_factor_exec("Bollinger Bands", 1, 1, cat3("Price in lower Bollinger half — leaning toward support at ", l.as_str(), "."))
    }
}

/// Stochastic %K: oversold below 20, overbought above 80.
#[verifier::opaque]
pub open spec fn stoch_factor(k: Dec) -> FactorV {
    let t = decimal_display(k);
    if lt(k, spec_int(20)) {
        ind_factor("Stochastic"@, 1, 2, "Stochastic %K "@ + t + " — oversold (<20). Bullish crossover likely."@)
    } else if lt(spec_int(80), k) {
        ind_factor("Stochastic"@, -1, 2, "Stochastic %K "@ + t + " — overbought (>80). Bearish crossover likely."@)
    } else {
        ind_factor("Stochastic"@, 0, 0, "Stochastic %K "@ + t + " — neutral zone."@)
    }
}

fn stoch_factor_exec(k: Dec) -> (r: SignalFactor)
    requires
        k.wf(),
    ensures
        r.weight.wf(),
        fview(r) == stoch_factor(k),
{
    reveal(stoch_factor);
    let t = display(k);
    if less(k, whole(20)) {
        ind_factor_exec("Stochastic", 1, 2, cat3("Stochastic %K ", t.as_str(), " — oversold (<20). Bullish crossover likely."))
    } else if less(whole(80), k) {
        ind_factor_exec("Stochastic", -1, 2, cat3("Stochastic %K ", t.as_str(), " — overbought (>80). Bearish crossover likely."))
    } else {
        ind_factor_exec("Stochastic", 0, 0, cat3("Stochastic %K ", t.as_str(), " — neutral zone."))
    }
}

/// ADX note without weight: a strong trend above 25, a weak one below 20.
#[verifier::opaque]
pub open spec fn adx_factor(a: Dec) -> Seq<FactorV> {
    let t = decimal_display(a);
    if lt(spec_int(25), a) {
        seq![ind_factor("ADX"@, 0, 0, "ADX "@ + t + " — strong trend (>25). Signals are reliable; follow the dominant direction."@)]
    } else if lt(a, spec_int(20)) {
        seq![ind_factor("ADX"@, 0, 0, "ADX "@ + t + " — weak trend (<20). Range-bound conditions; reversal patterns are less reliable."@)]
    } else {
        Seq::empty()
    }
}

/// Momentum of the last candle's change.
#[verifier::opaque]
pub open spec fn momentum_factor(pc: Dec) -> FactorV {
    if lt(spec_zero(), pc) {
        ("momentum"@, "Price Change"@, "bullish"@, spec_int(1), "Last candle closed +"@ + decimal_display(pc) + "% — upward momentum."@)
    } else {
        ("momentum"@, "Price Change"@, "bearish"@, spec_int(1), "Last candle closed "@ + decimal_display(pc) + "% — downward momentum."@)
    }
}

/// An optional factor as a sequence.
pub open spec fn opt_factor(present: bool, f: FactorV) -> Seq<FactorV> {
    if present {
        seq![f]
    } else {
        Seq::empty()
    }
}

/// The factors of RSI, the EMAs and MACD, each when present.
pub open spec fn trend_factors_of(ind: Indicators) -> Seq<FactorV> {
    opt_factor(ind.rsi@.contains_key(14), rsi_factor(ind.rsi@[14])) + opt_factor(
        ind.ema@.contains_key(50),
        ema50_factor(ind.price, ind.ema@[50]),
    ) + opt_factor(ind.ema@.contains_key(200), ema200_factor(ind.price, ind.ema@[200]))
        + opt_factor(ind.macd is Some, macd_factor(ind.macd.unwrap()))
}

/// The factors of the Bollinger bands, the stochastic, ADX and momentum.
pub open spec fn range_factors_of(ind: Indicators) -> Seq<FactorV> {
    seq![bb_factor(ind.price, ind.bb_upper, ind.bb_middle, ind.bb_lower), stoch_factor(ind.stoch_k)]
        + adx_factor(ind.adx) + seq![momentum_factor(ind.pct_change)]
}

/// The indicator factors, in the order they are read.
pub open spec fn indicator_factors_of(ind: Indicators) -> Seq<FactorV> {
    trend_factors_of(ind) + range_factors_of(ind)
}

pub(crate) fn push_f(out: &mut Vec<SignalFactor>, f: SignalFactor)
    ensures
        weights_wf(old(out)@) && f.weight.wf() ==> weights_wf(final(out)@),
        fviews(final(out)@) == fviews(old(out)@).push(fview(f)),
        final(out)@ == old(out)@.push(f),
{
    out.push(f);
    assert(fviews(final(out)@) =~= fviews(old(out)@).push(fview(f)));
}

/// Append `b` to `a`, factor views concatenating.
pub(crate) fn append_f(a: &mut Vec<SignalFactor>, b: Vec<SignalFactor>)
    ensures
        weights_wf(old(a)@) && weights_wf(b@) ==> weights_wf(final(a)@),
        fviews(final(a)@) == fviews(old(a)@) + fviews(b@),
{
    let mut b = b;
    let ghost bv = b@;
    a.append(&mut b);
    assert(fviews(final(a)@) =~= fviews(old(a)@) + fviews(bv));
    assert(final(a)@ =~= old(a)@ + bv);
}

fn trend_factors(ind: &Indicators) -> (r: Vec<SignalFactor>)
    requires
        ind.wf(),
    ensures
        fviews(r@) == trend_factors_of(*ind),
        weights_wf(r@),
{
    let mut out: Vec<SignalFactor> = Vec::new();
    match ind.rsi.get(&14) {
        Some(v) => {
            assert(ind.rsi@.contains_key(14usize));
            push_f(&mut out, rsi_factor_exec(*v));
        },
        None => {},
    }
    let ghost g1 = fviews(out@);
    assert(g1 =~= opt_factor(ind.rsi@.contains_key(14), rsi_factor(ind.rsi@[14])));
    match ind.ema.get(&50) {
        Some(v) => {
            assert(ind.ema@.contains_key(50usize));
            push_f(&mut out, ema50_factor_exec(ind.price, *v));
        },
        None => {},
    }
    let ghost g2 = fviews(out@);
    assert(g2 =~= g1 + opt_factor(ind.ema@.contains_key(50), ema50_factor(ind.price, ind.ema@[50])));
    match ind.ema.get(&200) {
        Some(v) => {
            assert(ind.ema@.contains_key(200usize));
            push_f(&mut out, ema200_factor_exec(ind.price, *v));
        },
        None => {},
    }
    let ghost g3 = fviews(out@);
    assert(g3 =~= g2 + opt_factor(ind.ema@.contains_key(200), ema200_factor(ind.price, ind.ema@[200])));
    match ind.macd {
        Some(m) => push_f(&mut out, macd_factor_exec(m)),
        None => {},
    }
    assert(fviews(out@) =~= g3 + opt_factor(ind.macd is Some, macd_factor(ind.macd.unwrap())));
    out
}

fn range_factors(price: Dec, upper: Dec, middle: Dec, lower: Dec, k: Dec, adx: Dec, pct: Dec) -> (r: Vec<SignalFactor>)
    requires
        price.wf(),
        upper.wf(),
        middle.wf(),
        lower.wf(),
        k.wf(),
        adx.wf(),
        pct.wf(),
    ensures
        fviews(r@) == seq![bb_factor(price, upper, middle, lower), stoch_factor(k)] + adx_factor(adx)
            + seq![momentum_factor(pct)],
        weights_wf(r@),
{
    let mut out: Vec<SignalFactor> = Vec::new();
    push_f(&mut out, bb_factor_exec(price, upper, middle, lower));
    push_f(&mut out, stoch_factor_exec(k));
    let ghost g5 = fviews(out@);
    assert(g5 =~= seq![bb_factor(price, upper, middle, lower), stoch_factor(k)]);
    let t = display(adx);
    proof {
        reveal(adx_factor);
        reveal(momentum_factor);
    }
    if less(whole(25), adx) {
        push_f(&mut out, ind_factor_exec("ADX", 0, 0, cat3("ADX ", t.as_str(), " — strong trend (>25). Signals are reliable; follow the dominant direction.")));
    } else if less(adx, whole(20)) {
        push_f(&mut out, ind_factor_exec("ADX", 0, 0, cat3("ADX ", t.as_str(), " — weak trend (<20). Range-bound conditions; reversal patterns are less reliable.")));
    }
    let ghost g6 = fviews(out@);
    assert(g6 =~= g5 + adx_factor(adx));
    let pc = display(pct);
    if less(zero(), pct) {
        push_f(&mut out, factor("momentum", String::from_str("Price Change"), "bullish", whole(1), cat3("Last candle closed +", pc.as_str(), "% — upward momentum.")));
    } else {
        push_f(&mut out, factor("momentum", String::from_str("Price Change"), "bearish", whole(1), cat3("Last candle closed ", pc.as_str(), "% — downward momentum.")));
    }
    assert(fviews(out@) =~= g6 + seq![momentum_factor(pct)]);
    out
}

/// Factors read from the indicators, after the pattern factors.
pub fn indicator_factors(ind: &Indicators) -> (r: Vec<SignalFactor>)
    requires
        ind.wf(),
    ensures
        fviews(r@) == indicator_factors_of(*ind),
        weights_wf(r@),
{
    let mut out = trend_factors(ind);
    let rest = range_factors(ind.price, ind.bb_upper, ind.bb_middle, ind.bb_lower, ind.stoch_k, ind.adx, ind.pct_change);
    append_f(&mut out, rest);
    out
}

// ------------------------------------------------------------ notes

/// The strategy covers the symbol: it lists no symbols, or one that equals
/// the symbol or occurs in it.
pub open spec fn covers(symbols: Seq<String>, symbol: Seq<char>) -> bool {
    symbols.len() == 0 || exists|i: int|
        0 <= i < symbols.len() && ((#[trigger] symbols[i])@ == symbol || seq_contains(
            symbol,
            symbols[i]@,
        ))
}

/// A rule reads as bearish when its lower-cased text mentions "bearish",
/// "short", "overbought", "> 65" or "> 70".
pub open spec fn bearish_rule(expr: Seq<char>) -> bool {
    let l = str_lowercase(expr);
    seq_contains(l, "bearish"@) || seq_contains(l, "short"@) || seq_contains(l, "overbought"@)
        || seq_contains(l, "> 65"@) || seq_contains(l, "> 70"@)
}

/// An enabled rule whose expression evaluates to true.
pub open spec fn fires(r: Rule, ind: Indicators) -> bool {
    r.enabled && spec_evaluate(r.expr@, ind) == Ok::<bool, ErrV>(true)
}

/// The factor of a fired rule of the strategy named `sname`.
pub open spec fn rule_factor(r: Rule, sname: Seq<char>) -> FactorV {
    (
        "note"@,
        r.name@ + " ("@ + sname + ")"@,
        if bearish_rule(r.expr@) {
            "bearish"@
        } else {
            "bullish"@
        },
        r.weight,
        "Learned rule fired: "@ + r.expr@,
    )
}

/// Factors of the fired rules among the first `k`.
pub open spec fn rule_factors_upto(rules: Seq<Rule>, sname: Seq<char>, ind: Indicators, k: int) -> Seq<FactorV>
    decreases k,
{
    if k <= 0 {
        Seq::empty()
    } else {
        let prev = rule_factors_upto(rules, sname, ind, k - 1);
        if fires(rules[k - 1], ind) {
            prev.push(rule_factor(rules[k - 1], sname))
        } else {
            prev
        }
    }
}

/// Factors of the fired rules of the first `k` strategies that cover the symbol.
pub open spec fn note_factors_upto(
    notes: Seq<(Strategy, Vec<Rule>)>,
    symbol: Seq<char>,
    ind: Indicators,
    k: int,
) -> Seq<FactorV>
    decreases k,
{
    if k <= 0 {
        Seq::empty()
    } else {
        let prev = note_factors_upto(notes, symbol, ind, k - 1);
        let (st, rules) = notes[k - 1];
        if covers(st.symbols@, symbol) {
            prev + rule_factors_upto(rules@, st.name@, ind, rules@.len() as int)
        } else {
            prev
        }
    }
}

/// Every rule weight is a valid decimal.
pub open spec fn notes_wf(notes: Seq<(Strategy, Vec<Rule>)>) -> bool {
    forall|i: int, j: int|
        0 <= i < notes.len() && 0 <= j < notes[i].1@.len() ==> (#[trigger] notes[i].1@[j]).weight.wf()
}

fn covers_exec(symbols: &Vec<String>, symbol: &str) -> (r: bool)
    ensures
        r == covers(symbols@, symbol@),
{
    if symbols.len() == 0 {
        return true;
    }
    let mut i: usize = 0;
    while i < symbols.len()
        invariant
            i <= symbols@.len(),
            forall|j: int|
                0 <= j < i ==> !((#[trigger] symbols@[j])@ == symbol@ || seq_contains(
                    symbol@,
                    symbols@[j]@,
                )),
        decreases symbols@.len() - i,
    {
        let s = &symbols[i];
        if str_eq(s.as_str(), symbol) || contains(symbol, s.as_str()) {
            assert(symbols@[i as int]@ == s@);
            return true;
        }
        i += 1;
    }
    false
}

fn bearish_exec(expr: &str) -> (r: bool)
    ensures
        r == bearish_rule(expr@),
{
    let l = to_lowercase(expr);
    let ls = l.as_str();
    contains(ls, "bearish") || contains(ls, "short") || contains(ls, "overbought") || contains(
        ls,
        "> 65",
    ) || contains(ls, "> 70")
}

fn rule_fires(r: &Rule, ind: &Indicators) -> (b: bool)
    requires
        ind.wf(),
    ensures
        b == fires(*r, *ind),
{
    if !r.enabled {
        return false;
    }
    match evaluate(r.expr.as_str(), ind) {
        Ok(v) => v,
        Err(_) => false,
    }
}

fn rule_factor_exec(r: &Rule, sname: &str) -> (f: SignalFactor)
    requires
        r.weight.wf(),
    ensures
        fview(f) == rule_factor(*r, sname@),
        f.weight.wf(),
{
    let dir = if bearish_exec(r.expr.as_str()) {
        "bearish"
    } else {
        "bullish"
    };
    let name = cat4(r.name.as_str(), " (", sname, ")");
    let detail = concat2("Learned rule fired: ", r.expr.as_str());
    factor("note", name, dir, r.weight, detail)
}

fn rule_factors(rules: &Vec<Rule>, sname: &str, ind: &Indicators, out: &mut Vec<SignalFactor>)
    requires
        ind.wf(),
        forall|j: int| 0 <= j < rules@.len() ==> (#[trigger] rules@[j]).weight.wf(),
        weights_wf(old(out)@),
    ensures
        fviews(final(out)@) == fviews(old(out)@) + rule_factors_upto(
            rules@,
            sname@,
            *ind,
            rules@.len() as int,
        ),
        weights_wf(final(out)@),
{
    let ghost start = fviews(out@);
    let mut i: usize = 0;
    while i < rules.len()
        invariant
            i <= rules@.len(),
            ind.wf(),
            forall|j: int| 0 <= j < rules@.len() ==> (#[trigger] rules@[j]).weight.wf(),
            weights_wf(out@),
            fviews(out@) == start + rule_factors_upto(rules@, sname@, *ind, i as int),
        decreases rules@.len() - i,
    {
        let r = &rules[i];
        assert(r.weight.wf());
        if rule_fires(r, ind) {
            push_f(out, rule_factor_exec(r, sname));
            assert(fviews(out@) =~= start + rule_factors_upto(rules@, sname@, *ind, i + 1));
        }
        i += 1;
    }
}

/// Factors of the rules, learned from notes, that fire on the indicators,
/// for the strategies that cover the symbol.
pub fn note_factors(symbol: &str, notes: &[(Strategy, Vec<Rule>)], ind: &Indicators) -> (r: Vec<SignalFactor>)
    requires
        ind.wf(),
        notes_wf(notes@),
    ensures
        fviews(r@) == note_factors_upto(notes@, symbol@, *ind, notes@.len() as int),
        weights_wf(r@),
{
    let mut out: Vec<SignalFactor> = Vec::new();
    let mut k: usize = 0;
    while k < notes.len()
        invariant
            k <= notes@.len(),
            ind.wf(),
            notes_wf(notes@),
            weights_wf(out@),
            fviews(out@) == note_factors_upto(notes@, symbol@, *ind, k as int),
        decreases notes@.len() - k,
    {
        let (st, rules) = &notes[k];
        if covers_exec(&st.symbols, symbol) {
            assert forall|j: int| 0 <= j < rules@.len() implies (#[trigger] rules@[j]).weight.wf() by {
                assert(notes@[k as int].1@[j].weight.wf());
            }
            rule_factors(rules, st.name.as_str(), ind, &mut out);
        }
        k += 1;
    }
    out
}

// ------------------------------------------------------------ decision

/// Sum of the weights of the first `k` factors pointing `dir`, added in order.
pub open spec fn weight_sum(fs: Seq<FactorV>, dir: Seq<char>, k: int) -> Option<Dec>
    decreases k,
{
    if k <= 0 {
        Some(spec_zero())
    } else {
        match weight_sum(fs, dir, k - 1) {
            Some(a) => if fs[k - 1].2 == dir {
                decimal_add(a, fs[k - 1].3)
            } else {
                Some(a)
            },
            None => None,
        }
    }
}

/// Bullish and bearish weight of the factors.
pub fn weigh(fs: &Vec<SignalFactor>) -> (r: Option<(Dec, Dec)>)
    requires
        weights_wf(fs@),
    ensures
        r is None <==> (weight_sum(fviews(fs@), "bullish"@, fs@.len() as int) is None || weight_sum(
            fviews(fs@),
            "bearish"@,
            fs@.len() as int,
        ) is None),
        r matches Some((a, b)) ==> Some(a) == weight_sum(fviews(fs@), "bullish"@, fs@.len() as int)
            && Some(b) == weight_sum(fviews(fs@), "bearish"@, fs@.len() as int) && a.wf() && b.wf(),
{
    let ghost v = fviews(fs@);
    let mut bull = zero();
    let mut bear = zero();
    let mut i: usize = 0;
    let mut bull_ok = true;
    let mut bear_ok = true;
    while i < fs.len()
        invariant
            i <= fs@.len(),
            v == fviews(fs@),
            weights_wf(fs@),
            bull.wf(),
            bear.wf(),
            bull_ok ==> weight_sum(v, "bullish"@, i as int) == Some(bull),
            !bull_ok ==> weight_sum(v, "bullish"@, i as int) is None,
            bear_ok ==> weight_sum(v, "bearish"@, i as int) == Some(bear),
            !bear_ok ==> weight_sum(v, "bearish"@, i as int) is None,
        decreases fs@.len() - i,
    {
        let f = &fs[i];
        assert(v[i as int] == fview(fs@[i as int]));
        assert(f.weight.wf());
        if str_eq(f.direction.as_str(), "bullish") && bull_ok {
            match checked_add(bull, f.weight) {
                Some(x) => bull = x,
                None => bull_ok = false,
            }
        }
        if str_eq(f.direction.as_str(), "bearish") && bear_ok {
            match checked_add(bear, f.weight) {
                Some(x) => bear = x,
                None => bear_ok = false,
            }
        }
        i += 1;
    }
    if bull_ok && bear_ok {
        Some((bull, bear))
    } else {
        None
    }
}

/// "buy" or "sell" with the share of the larger side as confidence, when
/// that share is at least 0.55; "hold" otherwise (confidence 0 without any
/// weight).
pub open spec fn spec_decide(bull: Dec, bear: Dec) -> Option<(Seq<char>, Dec)> {
    match decimal_add(bull, bear) {
        Some(total) => if is_zero(total) {
            Some(("hold"@, spec_zero()))
        } else {
            let top = if lt(bear, bull) {
                bull
            } else {
                bear
            };
            match decimal_div(top, total) {
                Some(ratio) => if lt(ratio, dn(55, 2)) {
                    Some(("hold"@, ratio))
                } else if lt(bear, bull) {
                    Some(("buy"@, ratio))
                } else {
                    Some(("sell"@, ratio))
                },
                None => None,
            }
        },
        None => None,
    }
}

pub fn decide(bull: Dec, bear: Dec) -> (r: Option<(String, Dec)>)
    requires
        bull.wf(),
        bear.wf(),
    ensures
        r is None <==> spec_decide(bull, bear) is None,
        r matches Some((d, c)) ==> spec_decide(bull, bear) == Some((d@, c)) && c.wf(),
        (bull.mantissa >= 0 && bear.mantissa >= 0 && fits_at(bull.units() + bear.units(), max_scale(bull, bear)))
            ==> r is Some && 0 <= r.unwrap().1.units() <= spec_one().units(),
{
    let total = match checked_add(bull, bear) {
        Some(t) => t,
        None => return None,
    };
    proof {
        lemma_units_sign(bull);
        lemma_units_sign(bear);
        lemma_units_sign(spec_one());
        lemma_units_sign(spec_zero());
    }
    if is_zero_dec(total) {
        return Some((String::from_str("hold"), zero()));
    }
    let top = if less(bear, bull) {
        bull
    } else {
        bear
    };
    let ratio = match checked_div(top, total) {
        Some(r) => r,
        None => return None,
    };
    if less(ratio, Dec::new(55, 2)) {
        Some((String::from_str("hold"), ratio))
    } else if less(bear, bull) {
        Some((String::from_str("buy"), ratio))
    } else {
        Some((String::from_str("sell"), ratio))
    }
}

} // verus!
