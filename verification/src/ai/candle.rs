//! The last candle described, the next one predicted, and the levels of a
//! trade on the prediction.
use crate::ai::evidence::{pattern_sentiment, present, sentiment_names, spec_sentiment};
use crate::decimal::{
    abs, checked_add, checked_mul, checked_sub, decimal_add, decimal_mul, decimal_round_dp,
    decimal_sub, dn, equal, less, lt, max, min, one, round_dp, spec_int, spec_max, spec_min,
    spec_one, spec_zero, whole, zero, Dec,
};
use crate::domain::Candle;
use crate::rules::indicators::Indicators;
use crate::rules::series::spec_abs;
use crate::text::{starts_with, str_eq};
use vstd::prelude::*;

verus! {

/// A candle described: direction, prices, body and wicks, and its pattern.
#[derive(Clone, Debug)]
pub struct CandleSummary {
    /// "bullish", "bearish" or "neutral".
    pub direction: String,
    pub open: Dec,
    pub high: Dec,
    pub low: Dec,
    pub close: Dec,
    pub body: Dec,
    pub upper_wick: Dec,
    pub lower_wick: Dec,
    pub pattern: String,
}

pub type SummaryV = (Seq<char>, Dec, Dec, Dec, Dec, Dec, Dec, Dec, Seq<char>);

pub open spec fn sview(s: CandleSummary) -> SummaryV {
    (s.direction@, s.open, s.high, s.low, s.close, s.body, s.upper_wick, s.lower_wick, s.pattern@)
}

/// The strongest present pattern among the first `k` sentiment patterns,
/// the first one on a tie; "none" with weight 0 when none has a weight.
pub open spec fn best_pattern_upto(p: Map<Seq<char>, Dec>, k: int) -> (Seq<char>, Dec)
    decreases k,
{
    if k <= 0 {
        ("none"@, spec_zero())
    } else {
        let prev = best_pattern_upto(p, k - 1);
        let name = sentiment_names()[k - 1];
        let w = spec_sentiment(name).1;
        if present(p, name) && lt(prev.1, w) {
            (name, w)
        } else {
            prev
        }
    }
}

/// "bullish", "bearish" or "neutral" by the close against the open.
pub open spec fn candle_dir(c: Candle) -> Seq<char> {
    if lt(c.open, c.close) {
        "bullish"@
    } else if lt(c.close, c.open) {
        "bearish"@
    } else {
        "neutral"@
    }
}

/// The last candle described, its pattern the strongest present one.
pub open spec fn spec_summarize(c: Candle, p: Map<Seq<char>, Dec>) -> Option<SummaryV> {
    match (
        decimal_sub(c.close, c.open),
        decimal_sub(c.high, spec_max(c.open, c.close)),
        decimal_sub(spec_min(c.open, c.close), c.low),
    ) {
        (Some(b), Some(u), Some(l)) => Some(
            (
                candle_dir(c),
                c.open,
                c.high,
                c.low,
                c.close,
                decimal_round_dp(spec_abs(b), 6),
                decimal_round_dp(u, 6),
                decimal_round_dp(l, 6),
                best_pattern_upto(p, 25).0,
            ),
        ),
        _ => None,
    }
}

fn best_pattern(ind: &Indicators) -> (r: String)
    requires
        ind.wf(),
    ensures
        r@ == best_pattern_upto(ind.patterns@, 25).0,
{
    let mut best: &str = "none";
    let mut best_w = zero();
    let mut i: usize = 0;
    while i < 25
        invariant
            i <= 25,
            ind.wf(),
            (best@, best_w) == best_pattern_upto(ind.patterns@, i as int),
            best_w.wf(),
        decreases 25 - i,
    {
        let name = crate::ai::evidence::sentiment_name(i);
        let fires = match ind.patterns.get(name) {
            Some(v) => {
                assert(ind.patterns@.contains_key(name@));
                equal(*v, one())
            },
            None => false,
        };
        let (_, w) = pattern_sentiment(name);
        if fires && less(best_w, w) {
            best = name;
            best_w = w;
        }
        i += 1;
    }
    String::from_str(best)
}

/// Describe the last candle.
pub fn summarize_candle(c: &Candle, ind: &Indicators) -> (r: Option<CandleSummary>)
    requires
        c.wf(),
        ind.wf(),
    ensures
        r is None <==> spec_summarize(*c, ind.patterns@) is None,
        r matches Some(s) ==> spec_summarize(*c, ind.patterns@) == Some(sview(s)) && s.open.wf()
            && s.high.wf() && s.low.wf() && s.close.wf() && s.body.wf() && s.upper_wick.wf()
            && s.lower_wick.wf(),
{
    let b = match checked_sub(c.close, c.open) {
        Some(v) => v,
        None => return None,
    };
    let u = match checked_sub(c.high, max(c.open, c.close)) {
        Some(v) => v,
        None => return None,
    };
    let l = match checked_sub(min(c.open, c.close), c.low) {
        Some(v) => v,
        None => return None,
    };
    let direction = if less(c.open, c.close) {
        "bullish"
    } else if less(c.close, c.open) {
        "bearish"
    } else {
        "neutral"
    };
    Some(
        CandleSummary {
            direction: String::from_str(direction),
            open: c.open,
            high: c.high,
            low: c.low,
            close: c.close,
            body: round_dp(abs(b), 6),
            upper_wick: round_dp(u, 6),
            lower_wick: round_dp(l, 6),
            pattern: best_pattern(ind),
        },
    )
}

/// ATR(14) from the indicator set, or `d` without one.
pub open spec fn atr_or(ind: Indicators, d: Dec) -> Dec {
    if ind.atr@.contains_key(14) {
        ind.atr@[14]
    } else {
        d
    }
}

fn atr_or_exec(ind: &Indicators, d: Dec) -> (r: Dec)
    requires
        ind.wf(),
        d.wf(),
    ensures
        r == atr_or(*ind, d),
        r.wf(),
{
    match ind.atr.get(&14) {
        Some(v) => {
            assert(ind.atr@.contains_key(14usize));
            *v
        },
        None => d,
    }
}

/// The predicted next candle: it opens at the last close and moves by
/// `ATR * 3e-10` (to 6 places) up for "buy", down for "sell", not at all
/// otherwise, with wicks of a fifth of 1.3 times the body, scaled by 1e-9.
pub open spec fn spec_predict(direction: Seq<char>, atr: Dec, last_close: Dec) -> Option<SummaryV> {
    let moving = direction == "buy"@ || direction == "sell"@;
    let pd = if direction == "buy"@ {
        "bullish"@
    } else if direction == "sell"@ {
        "bearish"@
    } else {
        "neutral"@
    };
    let body_o = if moving {
        match decimal_mul(atr, dn(3, 10)) {
            Some(x) => Some(decimal_round_dp(x, 6)),
            None => None,
        }
    } else {
        Some(spec_zero())
    };
    match body_o {
        Some(body) => {
            let open = last_close;
            let close_o = if direction == "buy"@ {
                decimal_add(last_close, body)
            } else if direction == "sell"@ {
                decimal_sub(last_close, body)
            } else {
                Some(last_close)
            };
            match close_o {
                Some(close) => match decimal_mul(body, dn(3, 10)) {
                    Some(bx) => match decimal_add(body, bx) {
                        Some(range) => match decimal_mul(range, dn(2, 10)) {
                            Some(w) => match (
                                decimal_add(spec_max(open, close), w),
                                decimal_sub(spec_min(open, close), w),
                            ) {
                                (Some(high), Some(low)) => match (
                                    decimal_sub(high, spec_max(open, close)),
                                    decimal_sub(spec_min(open, close), low),
                                ) {
                                    (Some(uw), Some(lw)) => Some(
                                        (
                                            pd,
                                            decimal_round_dp(open, 6),
                                            decimal_round_dp(high, 6),
                                            decimal_round_dp(low, 6),
                                            decimal_round_dp(close, 6),
                                            body,
                                            decimal_round_dp(uw, 6),
                                            decimal_round_dp(lw, 6),
                                            "predicted_"@ + pd,
                                        ),
                                    ),
                                    _ => None,
                                },
                                _ => None,
                            },
                            None => None,
                        },
                        None => None,
                    },
                    None => None,
                },
                None => None,
            }
        },
        None => None,
    }
}

/// Predict the next candle for a decision.
pub fn predict_next_candle(direction: &str, ind: &Indicators, last: &Candle) -> (r: Option<CandleSummary>)
    requires
        ind.wf(),
        last.wf(),
    ensures
        r is None <==> spec_predict(direction@, atr_or(*ind, spec_zero()), last.close) is None,
        r matches Some(s) ==> spec_predict(direction@, atr_or(*ind, spec_zero()), last.close) == Some(
            sview(s),
        ) && s.open.wf() && s.high.wf() && s.low.wf() && s.close.wf(),
{
    let atr = atr_or_exec(ind, zero());
    let buy = str_eq(direction, "buy");
    let sell = str_eq(direction, "sell");
    let pd: &str = if buy {
        "bullish"
    } else if sell {
        "bearish"
    } else {
        "neutral"
    };
    let body = if buy || sell {
        match checked_mul(atr, Dec::new(3, 10)) {
            Some(x) => round_dp(x, 6),
            None => return None,
        }
    } else {
        zero()
    };
    let open = last.close;
    let close = if buy {
        match checked_add(open, body) {
            Some(x) => x,
            None => return None,
        }
    } else if sell {
        match checked_sub(open, body) {
            Some(x) => x,
            None => return None,
        }
    } else {
        open
    };
    let bx = match checked_mul(body, Dec::new(3, 10)) {
        Some(x) => x,
        None => return None,
    };
    let range = match checked_add(body, bx) {
        Some(x) => x,
        None => return None,
    };
    let w = match checked_mul(range, Dec::new(2, 10)) {
        Some(x) => x,
        None => return None,
    };
    let (high_o, low_o) = (checked_add(max(open, close), w), checked_sub(min(open, close), w));
    let (high, low) = match (high_o, low_o) {
        (Some(h), Some(l)) => (h, l),
        _ => return None,
    };
    let (uw_o, lw_o) = (checked_sub(high, max(open, close)), checked_sub(min(open, close), low));
    let (uw, lw) = match (uw_o, lw_o) {
        (Some(a), Some(b)) => (a, b),
        _ => return None,
    };
    let pattern = crate::ai::evidence::cat3("predicted_", pd, "");
    proof {
        reveal_strlit("");
        assert(pattern@ =~= "predicted_"@ + pd@);
    }
    Some(
        CandleSummary {
            direction: String::from_str(pd),
            open: round_dp(open, 6),
            high: round_dp(high, 6),
            low: round_dp(low, 6),
            close: round_dp(close, 6),
            body,
            upper_wick: round_dp(uw, 6),
            lower_wick: round_dp(lw, 6),
            pattern,
        },
    )
}

/// Entry, stop-loss and take-profit (each to 6 places): the stop one
/// stop-distance against the direction, the target two in its favour
/// ("hold" is laid out as a buy).  The stop distance is the larger of
/// ATR(14) (0.5% of the price without it) and 20 pips (0.0001 for "frx"
/// symbols, 1 otherwise).
pub open spec fn spec_levels(direction: Seq<char>, ind: Indicators, symbol: Seq<char>) -> Option<(Dec, Dec, Dec)> {
    let entry = ind.price;
    let frx = 3 <= symbol.len() && symbol.subrange(0, 3) == "frx"@;
    let pip = if frx {
        dn(1, 4)
    } else {
        spec_one()
    };
    match (decimal_mul(entry, dn(5, 3)), decimal_mul(pip, spec_int(20))) {
        (Some(fallback), Some(pips)) => {
            let sl_dist = spec_max(atr_or(ind, fallback), pips);
            match decimal_mul(sl_dist, spec_int(2)) {
                Some(tp_dist) => {
                    let (s, t) = if direction == "sell"@ {
                        (decimal_add(entry, sl_dist), decimal_sub(entry, tp_dist))
                    } else {
                        (decimal_sub(entry, sl_dist), decimal_add(entry, tp_dist))
                    };
                    match (s, t) {
                        (Some(sl), Some(tp)) => Some(
                            (decimal_round_dp(entry, 6), decimal_round_dp(sl, 6), decimal_round_dp(tp, 6)),
                        ),
                        _ => None,
                    }
                },
                None => None,
            }
        },
        _ => None,
    }
}

pub fn trade_levels(direction: &str, ind: &Indicators, symbol: &str) -> (r: Option<(Dec, Dec, Dec)>)
    requires
        ind.wf(),
    ensures
        r == spec_levels(direction@, *ind, symbol@),
        r matches Some((a, b, c)) ==> a.wf() && b.wf() && c.wf(),
{
    let entry = ind.price;
    let pip = if starts_with(symbol, "frx") {
        Dec::new(1, 4)
    } else {
        one()
    };
    proof {
        reveal_strlit("frx");
    }
    let fallback = match checked_mul(entry, Dec::new(5, 3)) {
        Some(x) => x,
        None => return None,
    };
    let pips = match checked_mul(pip, whole(20)) {
        Some(x) => x,
        None => return None,
    };
    let sl_dist = max(atr_or_exec(ind, fallback), pips);
    let tp_dist = match checked_mul(sl_dist, whole(2)) {
        Some(x) => x,
        None => return None,
    };
    let (s, t) = if str_eq(direction, "sell") {
        (checked_add(entry, sl_dist), checked_sub(entry, tp_dist))
    } else {
        (checked_sub(entry, sl_dist), checked_add(entry, tp_dist))
    };
    match (s, t) {
        (Some(sl), Some(tp)) => Some((round_dp(entry, 6), round_dp(sl, 6), round_dp(tp, 6))),
        _ => None,
    }
}

/// How firm a confidence is.
pub open spec fn spec_conviction(c: Dec) -> Seq<char> {
    if lt(dn(70, 2), c) {
        "HIGH-conviction."@
    } else if lt(dn(60, 2), c) {
        "MODERATE-conviction."@
    } else {
        "MARGINAL — monitor closely."@
    }
}

pub fn conviction_label(confidence: Dec) -> (r: &'static str)
    requires
        confidence.wf(),
    ensures
        r@ == spec_conviction(confidence),
{
    if less(Dec::new(70, 2), confidence) {
        "HIGH-conviction."
    } else if less(Dec::new(60, 2), confidence) {
        "MODERATE-conviction."
    } else {
        "MARGINAL — monitor closely."
    }
}

/// The trading session of a UTC hour.
pub open spec fn spec_session(hour: u32) -> Seq<char> {
    if hour <= 7 {
        "Asian Session"@
    } else if hour <= 12 {
        "London Session"@
    } else if hour <= 16 {
        "London-NY Overlap (High Volatility)"@
    } else if hour <= 21 {
        "New York Session"@
    } else {
        "Off-Hours (Low Liquidity)"@
    }
}

pub fn market_session(hour: u32) -> (r: String)
    ensures
        r@ == spec_session(hour),
{
    if hour <= 7 {
        String::from_str("Asian Session")
    } else if hour <= 12 {
        String::from_str("London Session")
    } else if hour <= 16 {
        String::from_str("London-NY Overlap (High Volatility)")
    } else if hour <= 21 {
        String::from_str("New York Session")
    } else {
        String::from_str("Off-Hours (Low Liquidity)")
    }
}

} // verus!
