//! Candlestick and chart pattern detection on the latest candles.
//!
//! Each pattern is a named entry: presence flags are 1 or 0, strengths are
//! between 0 and 1.  An overall `None` means that a decimal operation
//! overflowed.
use crate::decimal::{
    abs, checked_add, checked_div, checked_mul, checked_sub, decimal_add, decimal_div, decimal_mul,
    decimal_round_dp, decimal_sub, dn, equal, is_zero, is_zero_dec, le, less, less_eq, lt, max, min,
    one, round_dp, same, spec_int, spec_max, spec_min, spec_one, spec_zero, whole, zero, Dec,
};
use crate::domain::{candles_wf, Candle};
use crate::rules::indicators::map_wf;
use crate::rules::series::{atr, spec_abs, spec_atr};
use vstd::hash_map::StringHashMap;
use vstd::prelude::*;

verus! {

/// Pattern entries by name.
pub type PMap = Map<Seq<char>, Dec>;

/// Direction of the last ten closes.
#[derive(Clone, Copy, Debug, PartialEq, Eq, Structural)]
pub enum Trend {
    Up,
    Down,
    Flat,
}

/// Measurements of the latest candle that the patterns read.
#[derive(Clone, Copy, Debug)]
pub struct Shape {
    pub o: Dec,
    pub h: Dec,
    pub l: Dec,
    pub cl: Dec,
    /// |close - open| to 10 places.
    pub body: Dec,
    /// |high - low| to 10 places.
    pub range: Dec,
    /// |high - max(open, close)| to 10 places.
    pub upper: Dec,
    /// |min(open, close) - low| to 10 places.
    pub lower: Dec,
    /// Body over ATR(14) (ATR falls back to the range), or 1 without a positive ATR.
    pub body_vs_atr: Dec,
    pub trend: Trend,
    pub is_bull: bool,
    pub is_bear: bool,
}

impl Shape {
    pub open spec fn wf(&self) -> bool {
        &&& self.o.wf()
        &&& self.h.wf()
        &&& self.l.wf()
        &&& self.cl.wf()
        &&& self.body.wf()
        &&& self.range.wf()
        &&& self.upper.wf()
        &&& self.lower.wf()
        &&& self.body_vs_atr.wf()
    }
}

/// 1 or 0.
pub open spec fn flag(b: bool) -> Dec {
    if b {
        spec_one()
    } else {
        spec_zero()
    }
}

/// A candle whose high and low are one price, with open and close between them.
pub open spec fn flat_candle(c: Candle) -> bool {
    &&& c.high.units() == c.low.units()
    &&& le(c.low, c.open) && le(c.open, c.high)
    &&& le(c.low, c.close) && le(c.close, c.high)
}

/// `round(|a - b|, 10)`.
pub open spec fn ras(a: Dec, b: Dec) -> Option<Dec> {
    match decimal_sub(a, b) {
        Some(x) => Some(decimal_round_dp(spec_abs(x), 10)),
        None => None,
    }
}

/// Trend of the last ten closes: up, down, or flat (also with fewer candles).
pub open spec fn trend_of(cs: Seq<Candle>) -> Trend {
    if cs.len() >= 10 {
        let starts = cs[cs.len() - 10].close;
        let ends = cs[cs.len() - 1].close;
        if lt(starts, ends) {
            Trend::Up
        } else if lt(ends, starts) {
            Trend::Down
        } else {
            Trend::Flat
        }
    } else {
        Trend::Flat
    }
}

/// The measurements of the latest candle.
pub open spec fn spec_shape(cs: Seq<Candle>) -> Option<Shape> {
    let c = cs[cs.len() - 1];
    match (
        ras(c.close, c.open),
        ras(c.high, c.low),
        ras(c.high, spec_max(c.open, c.close)),
        ras(spec_min(c.open, c.close), c.low),
        spec_atr(cs, 14),
    ) {
        (Some(body), Some(range), Some(upper), Some(lower), Some(atr_opt)) => {
            let atr_val = match atr_opt {
                Some(a) => a,
                None => range,
            };
            let bva = if lt(spec_zero(), atr_val) {
                decimal_div(body, atr_val)
            } else {
                Some(spec_one())
            };
            match bva {
                Some(b) => Some(
                    Shape {
                        o: c.open,
                        h: c.high,
                        l: c.low,
                        cl: c.close,
                        body,
                        range,
                        upper,
                        lower,
                        body_vs_atr: b,
                        trend: trend_of(cs),
                        is_bull: lt(c.open, c.close),
                        is_bear: lt(c.close, c.open),
                    },
                ),
                None => None,
            }
        },
        _ => None,
    }
}

/// `round(x / range, 6)`.
pub open spec fn pct(x: Dec, range: Dec) -> Option<Dec> {
    match decimal_div(x, range) {
        Some(q) => Some(decimal_round_dp(q, 6)),
        None => None,
    }
}

/// `min(a + b * c + d, 1)`, the strength formula of wick patterns.
pub open spec fn wick_strength(a: Dec, b: Dec, c: Dec, d: Dec) -> Option<Dec> {
    match decimal_mul(b, c) {
        Some(bc) => match decimal_add(a, bc) {
            Some(x) => match decimal_add(x, d) {
                Some(y) => Some(spec_min(y, spec_one())),
                None => None,
            },
            None => None,
        },
        None => None,
    }
}

/// `x >= body * 2` and then `y <= body * 0.1` and `body > 0`, evaluated left
/// to right, so that a product is only formed when the test before it held.
pub open spec fn wick_cond(body: Dec, x: Dec, y: Dec) -> Option<bool> {
    match decimal_mul(body, spec_int(2)) {
        Some(b2) => if le(b2, x) {
            match decimal_mul(body, dn(1, 1)) {
                Some(bt) => Some(le(y, bt) && lt(spec_zero(), body)),
                None => None,
            }
        } else {
            Some(false)
        },
        None => None,
    }
}

/// Hammer: long lower wick; strength boosted in a downtrend.
pub open spec fn st_hammer(s: Shape, p: PMap) -> Option<PMap> {
    match wick_cond(s.body, s.lower, s.upper) {
        Some(true) => {
            let wr = if lt(spec_zero(), s.body) {
                decimal_div(s.lower, s.body)
            } else {
                Some(spec_zero())
            };
            let boost = if s.trend == Trend::Down {
                dn(15, 1)
            } else {
                spec_zero()
            };
            match wr {
                Some(w) => match wick_strength(dn(5, 1), w, dn(2, 1), boost) {
                    Some(st) => Some(
                        p.insert("hammer"@, spec_one()).insert("hammer_strength"@, st),
                    ),
                    None => None,
                },
                None => None,
            }
        },
        Some(false) => Some(p),
        None => None,
    }
}

/// The hammer flag is always present: 0 unless set.
pub open spec fn st_hammer_default(p: PMap) -> PMap {
    p.insert(
        "hammer"@,
        if p.contains_key("hammer"@) {
            p["hammer"@]
        } else {
            spec_zero()
        },
    )
}

/// Inverted hammer (downtrend) or shooting star (uptrend): long upper wick.
pub open spec fn st_inverted(s: Shape, p: PMap) -> Option<PMap> {
    match wick_cond(s.body, s.upper, s.lower) {
        Some(true) => if s.trend == Trend::Down {
            Some(p.insert("inverted_hammer"@, spec_one()))
        } else if s.trend == Trend::Up {
            let wr = if lt(spec_zero(), s.body) {
                decimal_div(s.upper, s.body)
            } else {
                Some(spec_zero())
            };
            match wr {
                Some(w) => match wick_strength(dn(5, 1), w, dn(2, 1), spec_zero()) {
                    Some(st) => Some(
                        p.insert("shooting_star"@, spec_one()).insert(
                            "shooting_star_strength"@,
                            st,
                        ),
                    ),
                    None => None,
                },
                None => None,
            }
        } else {
            Some(p)
        },
        Some(false) => Some(p),
        None => None,
    }
}

/// Doji (body at most 5% of range), dragonfly and gravestone doji.
pub open spec fn st_doji(s: Shape, body_pct: Dec, upper_pct: Dec, lower_pct: Dec, p: PMap) -> Option<
    PMap,
> {
    let is_doji = le(body_pct, dn(5, 2));
    let p1 = p.insert("doji"@, flag(is_doji));
    let p2 = if is_doji && le(dn(60, 2), lower_pct) && s.trend == Trend::Down {
        match decimal_div(lower_pct, spec_int(100)) {
            Some(x) => Some(
                p1.insert("dragonfly_doji"@, spec_one()).insert("dragonfly_strength"@, x),
            ),
            None => None,
        }
    } else {
        Some(p1)
    };
    match p2 {
        Some(q) => if is_doji && le(dn(60, 2), upper_pct) && s.trend == Trend::Up {
            match decimal_div(upper_pct, spec_int(100)) {
                Some(x) => Some(
                    q.insert("gravestone_doji"@, spec_one()).insert("gravestone_strength"@, x),
                ),
                None => None,
            }
        } else {
            Some(q)
        },
        None => None,
    }
}

/// Bullish/bearish candles, strong when the body exceeds half an ATR.
pub open spec fn st_candles(s: Shape, p: PMap) -> PMap {
    let strong = lt(dn(5, 1), s.body_vs_atr);
    p.insert("bullish_candle"@, flag(s.is_bull && strong)).insert(
        "bearish_candle"@,
        flag(s.is_bear && strong),
    ).insert("weak_bullish"@, flag(s.is_bull && !strong)).insert(
        "weak_bearish"@,
        flag(s.is_bear && !strong),
    )
}

/// Marubozu (body at least 90% of range), spinning top, hanging man and long shadows.
pub open spec fn st_body(s: Shape, body_pct: Dec, upper_pct: Dec, lower_pct: Dec, p: PMap) -> Option<
    PMap,
> {
    let is_marubozu = le(dn(90, 2), body_pct);
    let p1 = p.insert("marubozu"@, flag(is_marubozu));
    let p2 = if is_marubozu {
        p1.insert("marubozu_strength"@, body_pct).insert(
            if s.is_bull {
                "marubozu_bull"@
            } else {
                "marubozu_bear"@
            },
            spec_one(),
        )
    } else {
        p1
    };
    let spinning = le(body_pct, dn(30, 2)) && lt(s.body, s.upper) && lt(s.body, s.lower);
    let p3 = p2.insert("spinning_top"@, flag(spinning));
    match decimal_mul(s.body, spec_int(2)) {
        Some(b2) => {
            let hanging = le(b2, s.lower) && s.trend == Trend::Up && lt(spec_zero(), s.body);
            let p4 = if hanging {
                p3.insert("hanging_man"@, spec_one())
            } else {
                p3
            };
            Some(
                p4.insert("long_upper_shadow"@, flag(le(dn(66, 2), upper_pct))).insert(
                    "long_lower_shadow"@,
                    flag(le(dn(66, 2), lower_pct)),
                ),
            )
        },
        None => None,
    }
}

/// The single-candle patterns, for a candle with a non-zero range.
pub open spec fn spec_single(s: Shape, p: PMap) -> Option<PMap> {
    match (pct(s.body, s.range), pct(s.upper, s.range), pct(s.lower, s.range)) {
        (Some(bp), Some(up), Some(lp)) => match st_hammer(s, p) {
            Some(p1) => match st_inverted(s, st_hammer_default(p1)) {
                Some(p2) => match st_doji(s, bp, up, lp, p2) {
                    Some(p3) => st_body(s, bp, up, lp, st_candles(s, p3)),
                    None => None,
                },
                None => None,
            },
            None => None,
        },
        _ => None,
    }
}


// ------------------------------------------------------------ two candles

/// `min(x, 2) / 2` where `x` is the body over the previous body (1 without one).
pub open spec fn dominance(body: Dec, prev_body: Dec) -> Option<Dec> {
    let d = if lt(spec_zero(), prev_body) {
        decimal_div(body, prev_body)
    } else {
        Some(spec_one())
    };
    match d {
        Some(x) => decimal_div(spec_min(x, spec_int(2)), spec_int(2)),
        None => None,
    }
}

/// Engulfing patterns against the previous candle `v`.
pub open spec fn st_engulf(s: Shape, v: Candle, prev_body: Dec, p: PMap) -> Option<PMap> {
    let prev_bullish = lt(v.open, v.close);
    let prev_bearish = lt(v.close, v.open);
    let bull = prev_bearish && lt(s.o, s.cl) && le(s.o, v.close) && le(v.open, s.cl);
    let p1 = p.insert("bullish_engulfing"@, flag(bull));
    let p2 = if bull {
        match dominance(s.body, prev_body) {
            Some(x) => Some(p1.insert("bullish_engulfing_strength"@, x)),
            None => None,
        }
    } else {
        Some(p1)
    };
    match p2 {
        Some(q) => {
            let bear = prev_bullish && lt(s.cl, s.o) && le(v.close, s.o) && le(s.cl, v.open);
            let q1 = q.insert("bearish_engulfing"@, flag(bear));
            if bear {
                match dominance(s.body, prev_body) {
                    Some(x) => Some(q1.insert("bearish_engulfing_strength"@, x)),
                    None => None,
                }
            } else {
                Some(q1)
            }
        },
        None => None,
    }
}

/// `first && prev_body > body * 2`, the latter only evaluated after `first`.
pub open spec fn big_prev(first: bool, body: Dec, prev_body: Dec) -> Option<bool> {
    if first {
        match decimal_mul(body, spec_int(2)) {
            Some(b2) => Some(lt(b2, prev_body)),
            None => None,
        }
    } else {
        Some(false)
    }
}

/// Harami patterns against the previous candle `v`.
pub open spec fn st_harami(s: Shape, v: Candle, prev_body: Dec, p: PMap) -> Option<PMap> {
    let prev_bullish = lt(v.open, v.close);
    let prev_bearish = lt(v.close, v.open);
    match big_prev(prev_bearish, s.body, prev_body) {
        Some(b1) => {
            let bull = b1 && lt(s.o, s.cl) && le(v.close, s.o) && le(s.cl, v.open);
            let p1 = p.insert("bullish_harami"@, flag(bull));
            match big_prev(prev_bullish, s.body, prev_body) {
                Some(b2) => {
                    let bear = b2 && lt(s.cl, s.o) && le(s.o, v.close) && le(v.open, s.cl);
                    Some(p1.insert("bearish_harami"@, flag(bear)))
                },
                None => None,
            }
        },
        None => None,
    }
}

/// `round((a + b) / 2, 10)`.
pub open spec fn mid_of(a: Dec, b: Dec) -> Option<Dec> {
    match decimal_add(a, b) {
        Some(x) => match decimal_div(x, spec_int(2)) {
            Some(q) => Some(decimal_round_dp(q, 10)),
            None => None,
        },
        None => None,
    }
}

/// `min(num / |anchor - mid|, 1)`, or 0 when the anchor is the midpoint;
/// `num` is `sign_a - sign_b`.
pub open spec fn penetration(anchor: Dec, mid: Dec, sign_a: Dec, sign_b: Dec) -> Option<Dec> {
    if same(anchor, mid) {
        Some(spec_min(spec_zero(), spec_one()))
    } else {
        match (decimal_sub(sign_a, sign_b), decimal_sub(anchor, mid)) {
            (Some(n), Some(d)) => match decimal_div(n, spec_abs(d)) {
                Some(x) => Some(spec_min(x, spec_one())),
                None => None,
            },
            _ => None,
        }
    }
}

/// Piercing line and dark cloud cover against the previous candle `v`.
pub open spec fn st_pierce(s: Shape, v: Candle, prev_mid: Dec, p: PMap) -> Option<PMap> {
    let prev_bullish = lt(v.open, v.close);
    let prev_bearish = lt(v.close, v.open);
    let piercing = prev_bearish && lt(s.o, v.low) && lt(prev_mid, s.cl) && lt(s.cl, v.open);
    let p1 = p.insert("piercing_line"@, flag(piercing));
    let p2 = if piercing {
        match penetration(v.open, prev_mid, s.cl, prev_mid) {
            Some(x) => Some(p1.insert("piercing_strength"@, x)),
            None => None,
        }
    } else {
        Some(p1)
    };
    match p2 {
        Some(q) => {
            let dark = prev_bullish && lt(v.high, s.o) && lt(s.cl, prev_mid) && lt(v.open, s.cl);
            Some(q.insert("dark_cloud_cover"@, flag(dark)))
        },
        None => None,
    }
}

/// Tweezers, inside bar and failed breakouts against the previous candle `v`.
pub open spec fn st_breaks(s: Shape, v: Candle, p: PMap) -> Option<PMap> {
    match (decimal_mul(s.range, dn(5, 3)), decimal_sub(s.l, v.low), decimal_sub(s.h, v.high)) {
        (Some(tol), Some(dl), Some(dh)) => {
            let p1 = p.insert("tweezer_bottom"@, flag(le(spec_abs(dl), tol))).insert(
                "tweezer_top"@,
                flag(le(spec_abs(dh), tol)),
            );
            let inside = lt(s.h, v.high) && lt(v.low, s.l);
            let p2 = p1.insert("inside_bar"@, flag(inside));
            let bull_trap = lt(v.high, s.h) && lt(s.cl, v.high) && s.is_bear;
            let p3 = p2.insert("failed_breakout_up"@, flag(bull_trap));
            let p4 = if bull_trap {
                match decimal_sub(s.h, s.cl) {
                    Some(x) => match decimal_div(x, s.range) {
                        Some(r) => Some(p3.insert("failed_breakout_up_strength"@, r)),
                        None => None,
                    },
                    None => None,
                }
            } else {
                Some(p3)
            };
            match p4 {
                Some(q) => {
                    let bear_trap = lt(s.l, v.low) && lt(v.low, s.cl) && s.is_bull;
                    let q1 = q.insert("failed_breakout_down"@, flag(bear_trap));
                    if bear_trap {
                        match decimal_sub(s.cl, s.l) {
                            Some(x) => match decimal_div(x, s.range) {
                                Some(r) => Some(q1.insert("failed_breakout_down_strength"@, r)),
                                None => None,
                            },
                            None => None,
                        }
                    } else {
                        Some(q1)
                    }
                },
                None => None,
            }
        },
        _ => None,
    }
}

/// The two-candle patterns of the last candle against the one before it.
pub open spec fn spec_two(cs: Seq<Candle>, s: Shape, p: PMap) -> Option<PMap> {
    let v = cs[cs.len() - 2];
    match (ras(v.close, v.open), ras(v.high, v.low)) {
        (Some(pb), Some(_)) => match st_engulf(s, v, pb, p) {
            Some(p1) => match st_harami(s, v, pb, p1) {
                Some(p2) => match mid_of(v.open, v.close) {
                    Some(mid) => match st_pierce(s, v, mid, p2) {
                        Some(p3) => st_breaks(s, v, p3),
                        None => None,
                    },
                    None => None,
                },
                None => None,
            },
            None => None,
        },
        _ => None,
    }
}

// ------------------------------------------------------------ three candles

/// `first && |b.close - b.open| < |a.close - a.open| * 5e-10`, the second part
/// only evaluated after `first`.
pub open spec fn small_middle(first: bool, a: Candle, b: Candle) -> Option<bool> {
    if first {
        match (decimal_sub(b.close, b.open), decimal_sub(a.close, a.open)) {
            (Some(x), Some(y)) => match decimal_mul(spec_abs(y), dn(5, 10)) {
                Some(t) => Some(lt(spec_abs(x), t)),
                None => None,
            },
            _ => None,
        }
    } else {
        Some(false)
    }
}

/// Morning and evening stars over candles `a` (two back), `b` (one back) and the last.
pub open spec fn st_stars(s: Shape, a: Candle, b: Candle, mid: Dec, p: PMap) -> Option<PMap> {
    match small_middle(lt(a.close, a.open), a, b) {
        Some(m1) => {
            let morning = m1 && lt(s.o, s.cl) && lt(mid, s.cl);
            let p1 = p.insert("morning_star"@, flag(morning));
            let p2 = if morning {
                match penetration(a.open, mid, s.cl, mid) {
                    Some(x) => Some(p1.insert("morning_star_strength"@, x)),
                    None => None,
                }
            } else {
                Some(p1)
            };
            match p2 {
                Some(q) => match small_middle(lt(a.open, a.close), a, b) {
                    Some(m2) => {
                        let evening = m2 && lt(s.cl, s.o) && lt(s.cl, mid);
                        let q1 = q.insert("evening_star"@, flag(evening));
                        if evening {
                            match penetration(a.close, mid, mid, s.cl) {
                                Some(x) => Some(q1.insert("evening_star_strength"@, x)),
                                None => None,
                            }
                        } else {
                            Some(q1)
                        }
                    },
                    None => None,
                },
                None => None,
            }
        },
        None => None,
    }
}

/// Soldiers, crows and three-bar reversals over candles `a`, `b` and the last.
pub open spec fn st_threes(s: Shape, a: Candle, b: Candle, p: PMap) -> PMap {
    let soldiers = lt(a.open, a.close) && lt(b.open, b.close) && lt(s.o, s.cl) && lt(a.close, b.close)
        && lt(b.close, s.cl);
    let p1 = p.insert("three_white_soldiers"@, flag(soldiers));
    let p2 = if soldiers && s.trend == Trend::Down {
        p1.insert("three_soldiers_reversal"@, spec_one())
    } else {
        p1
    };
    let crows = lt(a.close, a.open) && lt(b.close, b.open) && lt(s.cl, s.o) && lt(b.close, a.close)
        && lt(s.cl, b.close);
    let p3 = p2.insert("three_black_crows"@, flag(crows));
    let p4 = if crows && s.trend == Trend::Up {
        p3.insert("three_crows_reversal"@, spec_one())
    } else {
        p3
    };
    let bar_bull = lt(a.close, a.open) && lt(b.close, b.open) && lt(s.o, s.cl) && lt(a.open, s.cl);
    let bar_bear = lt(a.open, a.close) && lt(b.open, b.close) && lt(s.cl, s.o) && lt(s.cl, a.open);
    p4.insert("three_bar_bull_reversal"@, flag(bar_bull)).insert(
        "three_bar_bear_reversal"@,
        flag(bar_bear),
    )
}

/// The three-candle patterns.
pub open spec fn spec_three(cs: Seq<Candle>, s: Shape, p: PMap) -> Option<PMap> {
    let a = cs[cs.len() - 3];
    let b = cs[cs.len() - 2];
    match mid_of(a.open, a.close) {
        Some(mid) => match st_stars(s, a, b, mid, p) {
            Some(p1) => Some(st_threes(s, a, b, p1)),
            None => None,
        },
        None => None,
    }
}

// ------------------------------------------------------------ runs

/// Every candle of `cs[lo..hi]` closed above its open.
pub open spec fn all_bull(cs: Seq<Candle>, lo: int, hi: int) -> bool {
    forall|i: int| lo <= i < hi ==> lt((#[trigger] cs[i]).open, cs[i].close)
}

/// Every candle of `cs[lo..hi]` closed below its open.
pub open spec fn all_bear(cs: Seq<Candle>, lo: int, hi: int) -> bool {
    forall|i: int| lo <= i < hi ==> lt((#[trigger] cs[i]).close, cs[i].open)
}

/// `|high - low|` of a candle.
pub open spec fn span(c: Candle) -> Option<Dec> {
    match decimal_sub(c.high, c.low) {
        Some(x) => Some(spec_abs(x)),
        None => None,
    }
}

/// The ranges of the last five candles can be computed.
pub open spec fn spans_ok(cs: Seq<Candle>) -> bool {
    forall|i: int| cs.len() - 5 <= i < cs.len() ==> (#[trigger] span(cs[i])) is Some
}

/// Each of the last five ranges is smaller than the one before.
pub open spec fn narrowing(cs: Seq<Candle>) -> bool {
    forall|i: int|
        cs.len() - 4 <= i < cs.len() ==> lt(span(#[trigger] cs[i]).unwrap(), span(cs[i - 1]).unwrap())
}

/// Each of the last five ranges is larger than the one before.
pub open spec fn expanding(cs: Seq<Candle>) -> bool {
    forall|i: int|
        cs.len() - 4 <= i < cs.len() ==> lt(span(cs[i - 1]).unwrap(), span(#[trigger] cs[i]).unwrap())
}

/// Exhaustion runs of four and five candles, narrowing and expanding ranges.
pub open spec fn spec_runs(cs: Seq<Candle>, p: PMap) -> Option<PMap> {
    let n = cs.len() as int;
    let p1 = if n >= 4 && all_bull(cs, n - 4, n) {
        p.insert("four_bull_exhaustion"@, spec_one())
    } else {
        p
    };
    let p2 = if n >= 4 && all_bear(cs, n - 4, n) {
        p1.insert("four_bear_exhaustion"@, spec_one())
    } else {
        p1
    };
    if n >= 5 {
        let p3 = if all_bull(cs, n - 5, n) {
            p2.insert("five_bull_exhaustion"@, spec_one())
        } else {
            p2
        };
        let p4 = if all_bear(cs, n - 5, n) {
            p3.insert("five_bear_exhaustion"@, spec_one())
        } else {
            p3
        };
        if !spans_ok(cs) {
            None
        } else {
            let p5 = if narrowing(cs) {
                p4.insert("narrowing_range"@, spec_one())
            } else {
                p4
            };
            Some(
                if expanding(cs) {
                    p5.insert("expanding_range"@, spec_one())
                } else {
                    p5
                },
            )
        }
    } else {
        Some(p2)
    }
}


// ---------------------------------------------------------------- exec

/// Insert or replace a pattern entry.
pub(crate) fn put(p: &mut StringHashMap<Dec>, k: &str, v: Dec)
    requires
        map_wf(old(p)@),
        v.wf(),
    ensures
        final(p)@ == old(p)@.insert(k@, v),
        map_wf(final(p)@),
{
    p.insert(String::from_str(k), v);
}

fn flag_of(b: bool) -> (r: Dec)
    ensures
        r == flag(b),
        r.wf(),
{
    if b {
        one()
    } else {
        zero()
    }
}

fn ras_exec(a: Dec, b: Dec) -> (r: Option<Dec>)
    requires
        a.wf(),
        b.wf(),
    ensures
        r == ras(a, b),
        r matches Some(d) ==> d.wf(),
        a.units() == b.units() ==> r is Some && r.unwrap().mantissa == 0,
{
    match checked_sub(a, b) {
        Some(x) => Some(round_dp(abs(x), 10)),
        None => None,
    }
}

fn trend_exec(cs: &[Candle]) -> (r: Trend)
    requires
        candles_wf(cs@),
    ensures
        r == trend_of(cs@),
{
    if cs.len() >= 10 {
        assert(cs@[cs@.len() - 10].wf());
        assert(cs@[cs@.len() - 1].wf());
        let starts = cs[cs.len() - 10].close;
        let ends = cs[cs.len() - 1].close;
        if less(starts, ends) {
            Trend::Up
        } else if less(ends, starts) {
            Trend::Down
        } else {
            Trend::Flat
        }
    } else {
        Trend::Flat
    }
}

/// Measurements of the latest candle.
pub fn shape(cs: &[Candle]) -> (r: Option<Shape>)
    requires
        candles_wf(cs@),
        cs@.len() >= 1,
    ensures
        r == spec_shape(cs@),
        r matches Some(s) ==> s.wf(),
        flat_candle(cs@.last()) && spec_atr(cs@, 14) is Some ==> r is Some && is_zero(r.unwrap().range),
{
    assert(cs@[cs@.len() - 1].wf());
    let c = &cs[cs.len() - 1];
    let body = match ras_exec(c.close, c.open) {
        Some(v) => v,
        None => return None,
    };
    let range = match ras_exec(c.high, c.low) {
        Some(v) => v,
        None => return None,
    };
    let upper = match ras_exec(c.high, max(c.open, c.close)) {
        Some(v) => v,
        None => return None,
    };
    let lower = match ras_exec(min(c.open, c.close), c.low) {
        Some(v) => v,
        None => return None,
    };
    let atr_val = match atr(cs, 14) {
        Some(Some(a)) => a,
        Some(None) => range,
        None => return None,
    };
    let bva = if less(zero(), atr_val) {
        match checked_div(body, atr_val) {
            Some(v) => v,
            None => return None,
        }
    } else {
        one()
    };
    Some(
        Shape {
            o: c.open,
            h: c.high,
            l: c.low,
            cl: c.close,
            body,
            range,
            upper,
            lower,
            body_vs_atr: bva,
            trend: trend_exec(cs),
            is_bull: less(c.open, c.close),
            is_bear: less(c.close, c.open),
        },
    )
}

fn pct_exec(x: Dec, range: Dec) -> (r: Option<Dec>)
    requires
        x.wf(),
        range.wf(),
    ensures
        r == pct(x, range),
        r matches Some(d) ==> d.wf(),
{
    match checked_div(x, range) {
        Some(q) => Some(round_dp(q, 6)),
        None => None,
    }
}

fn wick_strength_exec(a: Dec, b: Dec, c: Dec, d: Dec) -> (r: Option<Dec>)
    requires
        a.wf(),
        b.wf(),
        c.wf(),
        d.wf(),
    ensures
        r == wick_strength(a, b, c, d),
        r matches Some(x) ==> x.wf(),
{
    let bc = match checked_mul(b, c) {
        Some(v) => v,
        None => return None,
    };
    let x = match checked_add(a, bc) {
        Some(v) => v,
        None => return None,
    };
    match checked_add(x, d) {
        Some(y) => Some(min(y, one())),
        None => None,
    }
}

fn wick_cond_exec(body: Dec, x: Dec, y: Dec) -> (r: Option<bool>)
    requires
        body.wf(),
        x.wf(),
        y.wf(),
    ensures
        r == wick_cond(body, x, y),
{
    let b2 = match checked_mul(body, whole(2)) {
        Some(v) => v,
        None => return None,
    };
    if less_eq(b2, x) {
        match checked_mul(body, Dec::new(1, 1)) {
            Some(bt) => Some(less_eq(y, bt) && less(zero(), body)),
            None => None,
        }
    } else {
        Some(false)
    }
}

fn hammer(s: &Shape, p: &mut StringHashMap<Dec>) -> (ok: bool)
    requires
        s.wf(),
        map_wf(old(p)@),
    ensures
        map_wf(final(p)@),
        ok ==> st_hammer(*s, old(p)@) == Some(final(p)@),
        !ok ==> st_hammer(*s, old(p)@) is None,
{
    match wick_cond_exec(s.body, s.lower, s.upper) {
        Some(true) => {
            let w = if less(zero(), s.body) {
                match checked_div(s.lower, s.body) {
                    Some(v) => v,
                    None => return false,
                }
            } else {
                zero()
            };
            let boost = if s.trend == Trend::Down {
                Dec::new(15, 1)
            } else {
                zero()
            };
            match wick_strength_exec(Dec::new(5, 1), w, Dec::new(2, 1), boost) {
                Some(st) => {
                    put(p, "hammer", one());
                    put(p, "hammer_strength", st);
                    true
                },
                None => false,
            }
        },
        Some(false) => true,
        None => false,
    }
}

fn hammer_default(p: &mut StringHashMap<Dec>)
    requires
        map_wf(old(p)@),
    ensures
        map_wf(final(p)@),
        final(p)@ == st_hammer_default(old(p)@),
{
    let v = match p.get("hammer") {
        Some(v) => *v,
        None => zero(),
    };
    put(p, "hammer", v);
}

fn inverted(s: &Shape, p: &mut StringHashMap<Dec>) -> (ok: bool)
    requires
        s.wf(),
        map_wf(old(p)@),
    ensures
        map_wf(final(p)@),
        ok ==> st_inverted(*s, old(p)@) == Some(final(p)@),
        !ok ==> st_inverted(*s, old(p)@) is None,
{
    match wick_cond_exec(s.body, s.upper, s.lower) {
        Some(true) => {
            if s.trend == Trend::Down {
                put(p, "inverted_hammer", one());
                true
            } else if s.trend == Trend::Up {
                let w = if less(zero(), s.body) {
                    match checked_div(s.upper, s.body) {
                        Some(v) => v,
                        None => return false,
                    }
                } else {
                    zero()
                };
                match wick_strength_exec(Dec::new(5, 1), w, Dec::new(2, 1), zero()) {
                    Some(st) => {
                        put(p, "shooting_star", one());
                        put(p, "shooting_star_strength", st);
                        true
                    },
                    None => false,
                }
            } else {
                true
            }
        },
        Some(false) => true,
        None => false,
    }
}

fn doji(s: &Shape, body_pct: Dec, upper_pct: Dec, lower_pct: Dec, p: &mut StringHashMap<Dec>) -> (ok:
    bool)
    requires
        s.wf(),
        body_pct.wf(),
        upper_pct.wf(),
        lower_pct.wf(),
        map_wf(old(p)@),
    ensures
        map_wf(final(p)@),
        ok ==> st_doji(*s, body_pct, upper_pct, lower_pct, old(p)@) == Some(final(p)@),
        !ok ==> st_doji(*s, body_pct, upper_pct, lower_pct, old(p)@) is None,
{
    let is_doji = less_eq(body_pct, Dec::new(5, 2));
    put(p, "doji", flag_of(is_doji));
    if is_doji && less_eq(Dec::new(60, 2), lower_pct) && s.trend == Trend::Down {
        match checked_div(lower_pct, whole(100)) {
            Some(x) => {
                put(p, "dragonfly_doji", one());
                put(p, "dragonfly_strength", x);
            },
            None => return false,
        }
    }
    if is_doji && less_eq(Dec::new(60, 2), upper_pct) && s.trend == Trend::Up {
        match checked_div(upper_pct, whole(100)) {
            Some(x) => {
                put(p, "gravestone_doji", one());
                put(p, "gravestone_strength", x);
            },
            None => return false,
        }
    }
    true
}

fn candles_flags(s: &Shape, p: &mut StringHashMap<Dec>)
    requires
        s.wf(),
        map_wf(old(p)@),
    ensures
        map_wf(final(p)@),
        final(p)@ == st_candles(*s, old(p)@),
{
    let strong = less(Dec::new(5, 1), s.body_vs_atr);
    put(p, "bullish_candle", flag_of(s.is_bull && strong));
    put(p, "bearish_candle", flag_of(s.is_bear && strong));
    put(p, "weak_bullish", flag_of(s.is_bull && !strong));
    put(p, "weak_bearish", flag_of(s.is_bear && !strong));
}

fn body_flags(s: &Shape, body_pct: Dec, upper_pct: Dec, lower_pct: Dec, p: &mut StringHashMap<Dec>) -> (ok:
    bool)
    requires
        s.wf(),
        body_pct.wf(),
        upper_pct.wf(),
        lower_pct.wf(),
        map_wf(old(p)@),
    ensures
        map_wf(final(p)@),
        ok ==> st_body(*s, body_pct, upper_pct, lower_pct, old(p)@) == Some(final(p)@),
        !ok ==> st_body(*s, body_pct, upper_pct, lower_pct, old(p)@) is None,
{
    let is_marubozu = less_eq(Dec::new(90, 2), body_pct);
    put(p, "marubozu", flag_of(is_marubozu));
    if is_marubozu {
        put(p, "marubozu_strength", body_pct);
        if s.is_bull {
            put(p, "marubozu_bull", one());
        } else {
            put(p, "marubozu_bear", one());
        }
    }
    let spinning = less_eq(body_pct, Dec::new(30, 2)) && less(s.body, s.upper) && less(
        s.body,
        s.lower,
    );
    put(p, "spinning_top", flag_of(spinning));
    let b2 = match checked_mul(s.body, whole(2)) {
        Some(v) => v,
        None => return false,
    };
    if less_eq(b2, s.lower) && s.trend == Trend::Up && less(zero(), s.body) {
        put(p, "hanging_man", one());
    }
    put(p, "long_upper_shadow", flag_of(less_eq(Dec::new(66, 2), upper_pct)));
    put(p, "long_lower_shadow", flag_of(less_eq(Dec::new(66, 2), lower_pct)));
    true
}

/// The single-candle patterns of a candle with a non-zero range.
pub fn single(s: &Shape, p: &mut StringHashMap<Dec>) -> (ok: bool)
    requires
        s.wf(),
        map_wf(old(p)@),
    ensures
        map_wf(final(p)@),
        ok ==> spec_single(*s, old(p)@) == Some(final(p)@),
        !ok ==> spec_single(*s, old(p)@) is None,
{
    let bp = match pct_exec(s.body, s.range) {
        Some(v) => v,
        None => return false,
    };
    let up = match pct_exec(s.upper, s.range) {
        Some(v) => v,
        None => return false,
    };
    let lp = match pct_exec(s.lower, s.range) {
        Some(v) => v,
        None => return false,
    };
    if !hammer(s, p) {
        return false;
    }
    hammer_default(p);
    if !inverted(s, p) {
        return false;
    }
    if !doji(s, bp, up, lp, p) {
        return false;
    }
    candles_flags(s, p);
    body_flags(s, bp, up, lp, p)
}


// ------------------------------------------------------------ two candles, exec

fn dominance_exec(body: Dec, prev_body: Dec) -> (r: Option<Dec>)
    requires
        body.wf(),
        prev_body.wf(),
    ensures
        r == dominance(body, prev_body),
        r matches Some(x) ==> x.wf(),
{
    let d = if less(zero(), prev_body) {
        match checked_div(body, prev_body) {
            Some(v) => v,
            None => return None,
        }
    } else {
        one()
    };
    checked_div(min(d, whole(2)), whole(2))
}

fn engulf(s: &Shape, v: &Candle, prev_body: Dec, p: &mut StringHashMap<Dec>) -> (ok: bool)
    requires
        s.wf(),
        v.wf(),
        prev_body.wf(),
        map_wf(old(p)@),
    ensures
        map_wf(final(p)@),
        ok ==> st_engulf(*s, *v, prev_body, old(p)@) == Some(final(p)@),
        !ok ==> st_engulf(*s, *v, prev_body, old(p)@) is None,
{
    let prev_bullish = less(v.open, v.close);
    let prev_bearish = less(v.close, v.open);
    let bull = prev_bearish && less(s.o, s.cl) && less_eq(s.o, v.close) && less_eq(v.open, s.cl);
    put(p, "bullish_engulfing", flag_of(bull));
    if bull {
        match dominance_exec(s.body, prev_body) {
            Some(x) => put(p, "bullish_engulfing_strength", x),
            None => return false,
        }
    }
    let bear = prev_bullish && less(s.cl, s.o) && less_eq(v.close, s.o) && less_eq(s.cl, v.open);
    put(p, "bearish_engulfing", flag_of(bear));
    if bear {
        match dominance_exec(s.body, prev_body) {
            Some(x) => put(p, "bearish_engulfing_strength", x),
            None => return false,
        }
    }
    true
}

fn big_prev_exec(first: bool, body: Dec, prev_body: Dec) -> (r: Option<bool>)
    requires
        body.wf(),
        prev_body.wf(),
    ensures
        r == big_prev(first, body, prev_body),
{
    if first {
        match checked_mul(body, whole(2)) {
            Some(b2) => Some(less(b2, prev_body)),
            None => None,
        }
    } else {
        Some(false)
    }
}

fn harami(s: &Shape, v: &Candle, prev_body: Dec, p: &mut StringHashMap<Dec>) -> (ok: bool)
    requires
        s.wf(),
        v.wf(),
        prev_body.wf(),
        map_wf(old(p)@),
    ensures
        map_wf(final(p)@),
        ok ==> st_harami(*s, *v, prev_body, old(p)@) == Some(final(p)@),
        !ok ==> st_harami(*s, *v, prev_body, old(p)@) is None,
{
    let prev_bullish = less(v.open, v.close);
    let prev_bearish = less(v.close, v.open);
    let b1 = match big_prev_exec(prev_bearish, s.body, prev_body) {
        Some(b) => b,
        None => return false,
    };
    let bull = b1 && less(s.o, s.cl) && less_eq(v.close, s.o) && less_eq(s.cl, v.open);
    put(p, "bullish_harami", flag_of(bull));
    let b2 = match big_prev_exec(prev_bullish, s.body, prev_body) {
        Some(b) => b,
        None => return false,
    };
    let bear = b2 && less(s.cl, s.o) && less_eq(s.o, v.close) && less_eq(v.open, s.cl);
    put(p, "bearish_harami", flag_of(bear));
    true
}

fn mid_exec(a: Dec, b: Dec) -> (r: Option<Dec>)
    requires
        a.wf(),
        b.wf(),
    ensures
        r == mid_of(a, b),
        r matches Some(x) ==> x.wf(),
{
    match checked_add(a, b) {
        Some(x) => match checked_div(x, whole(2)) {
            Some(q) => Some(round_dp(q, 10)),
            None => None,
        },
        None => None,
    }
}

fn penetration_exec(anchor: Dec, mid: Dec, sign_a: Dec, sign_b: Dec) -> (r: Option<Dec>)
    requires
        anchor.wf(),
        mid.wf(),
        sign_a.wf(),
        sign_b.wf(),
    ensures
        r == penetration(anchor, mid, sign_a, sign_b),
        r matches Some(x) ==> x.wf(),
{
    if equal(anchor, mid) {
        Some(min(zero(), one()))
    } else {
        let n = match checked_sub(sign_a, sign_b) {
            Some(v) => v,
            None => return None,
        };
        let d = match checked_sub(anchor, mid) {
            Some(v) => v,
            None => return None,
        };
        match checked_div(n, abs(d)) {
            Some(x) => Some(min(x, one())),
            None => None,
        }
    }
}

fn pierce(s: &Shape, v: &Candle, prev_mid: Dec, p: &mut StringHashMap<Dec>) -> (ok: bool)
    requires
        s.wf(),
        v.wf(),
        prev_mid.wf(),
        map_wf(old(p)@),
    ensures
        map_wf(final(p)@),
        ok ==> st_pierce(*s, *v, prev_mid, old(p)@) == Some(final(p)@),
        !ok ==> st_pierce(*s, *v, prev_mid, old(p)@) is None,
{
    let prev_bullish = less(v.open, v.close);
    let prev_bearish = less(v.close, v.open);
    let piercing = prev_bearish && less(s.o, v.low) && less(prev_mid, s.cl) && less(s.cl, v.open);
    put(p, "piercing_line", flag_of(piercing));
    if piercing {
        match penetration_exec(v.open, prev_mid, s.cl, prev_mid) {
            Some(x) => put(p, "piercing_strength", x),
            None => return false,
        }
    }
    let dark = prev_bullish && less(v.high, s.o) && less(s.cl, prev_mid) && less(v.open, s.cl);
    put(p, "dark_cloud_cover", flag_of(dark));
    true
}

fn breaks(s: &Shape, v: &Candle, p: &mut StringHashMap<Dec>) -> (ok: bool)
    requires
        s.wf(),
        v.wf(),
        map_wf(old(p)@),
    ensures
        map_wf(final(p)@),
        ok ==> st_breaks(*s, *v, old(p)@) == Some(final(p)@),
        !ok ==> st_breaks(*s, *v, old(p)@) is None,
{
    let tol = match checked_mul(s.range, Dec::new(5, 3)) {
        Some(x) => x,
        None => return false,
    };
    let dl = match checked_sub(s.l, v.low) {
        Some(x) => x,
        None => return false,
    };
    let dh = match checked_sub(s.h, v.high) {
        Some(x) => x,
        None => return false,
    };
    put(p, "tweezer_bottom", flag_of(less_eq(abs(dl), tol)));
    put(p, "tweezer_top", flag_of(less_eq(abs(dh), tol)));
    let inside = less(s.h, v.high) && less(v.low, s.l);
    put(p, "inside_bar", flag_of(inside));
    let bull_trap = less(v.high, s.h) && less(s.cl, v.high) && s.is_bear;
    put(p, "failed_breakout_up", flag_of(bull_trap));
    if bull_trap {
        let x = match checked_sub(s.h, s.cl) {
            Some(x) => x,
            None => return false,
        };
        match checked_div(x, s.range) {
            Some(r) => put(p, "failed_breakout_up_strength", r),
            None => return false,
        }
    }
    let bear_trap = less(s.l, v.low) && less(v.low, s.cl) && s.is_bull;
    put(p, "failed_breakout_down", flag_of(bear_trap));
    if bear_trap {
        let x = match checked_sub(s.cl, s.l) {
            Some(x) => x,
            None => return false,
        };
        match checked_div(x, s.range) {
            Some(r) => put(p, "failed_breakout_down_strength", r),
            None => return false,
        }
    }
    true
}

/// The two-candle patterns of the last candle against the one before it.
pub fn two(cs: &[Candle], s: &Shape, p: &mut StringHashMap<Dec>) -> (ok: bool)
    requires
        candles_wf(cs@),
        cs@.len() >= 2,
        s.wf(),
        map_wf(old(p)@),
    ensures
        map_wf(final(p)@),
        ok ==> spec_two(cs@, *s, old(p)@) == Some(final(p)@),
        !ok ==> spec_two(cs@, *s, old(p)@) is None,
{
    assert(cs@[cs@.len() - 2].wf());
    let v = &cs[cs.len() - 2];
    let pb = match ras_exec(v.close, v.open) {
        Some(x) => x,
        None => return false,
    };
    if ras_exec(v.high, v.low).is_none() {
        return false;
    }
    if !engulf(s, v, pb, p) {
        return false;
    }
    if !harami(s, v, pb, p) {
        return false;
    }
    let mid = match mid_exec(v.open, v.close) {
        Some(x) => x,
        None => return false,
    };
    if !pierce(s, v, mid, p) {
        return false;
    }
    breaks(s, v, p)
}

// ------------------------------------------------------------ three candles, exec

fn small_middle_exec(first: bool, a: &Candle, b: &Candle) -> (r: Option<bool>)
    requires
        a.wf(),
        b.wf(),
    ensures
        r == small_middle(first, *a, *b),
{
    if first {
        let x = match checked_sub(b.close, b.open) {
            Some(v) => v,
            None => return None,
        };
        let y = match checked_sub(a.close, a.open) {
            Some(v) => v,
            None => return None,
        };
        match checked_mul(abs(y), Dec::new(5, 10)) {
            Some(t) => Some(less(abs(x), t)),
            None => None,
        }
    } else {
        Some(false)
    }
}

fn stars(s: &Shape, a: &Candle, b: &Candle, mid: Dec, p: &mut StringHashMap<Dec>) -> (ok: bool)
    requires
        s.wf(),
        a.wf(),
        b.wf(),
        mid.wf(),
        map_wf(old(p)@),
    ensures
        map_wf(final(p)@),
        ok ==> st_stars(*s, *a, *b, mid, old(p)@) == Some(final(p)@),
        !ok ==> st_stars(*s, *a, *b, mid, old(p)@) is None,
{
    let m1 = match small_middle_exec(less(a.close, a.open), a, b) {
        Some(m) => m,
        None => return false,
    };
    let morning = m1 && less(s.o, s.cl) && less(mid, s.cl);
    put(p, "morning_star", flag_of(morning));
    if morning {
        match penetration_exec(a.open, mid, s.cl, mid) {
            Some(x) => put(p, "morning_star_strength", x),
            None => return false,
        }
    }
    let m2 = match small_middle_exec(less(a.open, a.close), a, b) {
        Some(m) => m,
        None => return false,
    };
    let evening = m2 && less(s.cl, s.o) && less(s.cl, mid);
    put(p, "evening_star", flag_of(evening));
    if evening {
        match penetration_exec(a.close, mid, mid, s.cl) {
            Some(x) => put(p, "evening_star_strength", x),
            None => return false,
        }
    }
    true
}

fn threes(s: &Shape, a: &Candle, b: &Candle, p: &mut StringHashMap<Dec>)
    requires
        s.wf(),
        a.wf(),
        b.wf(),
        map_wf(old(p)@),
    ensures
        map_wf(final(p)@),
        final(p)@ == st_threes(*s, *a, *b, old(p)@),
{
    let soldiers = less(a.open, a.close) && less(b.open, b.close) && less(s.o, s.cl) && less(
        a.close,
        b.close,
    ) && less(b.close, s.cl);
    put(p, "three_white_soldiers", flag_of(soldiers));
    if soldiers && s.trend == Trend::Down {
        put(p, "three_soldiers_reversal", one());
    }
    let crows = less(a.close, a.open) && less(b.close, b.open) && less(s.cl, s.o) && less(
        b.close,
        a.close,
    ) && less(s.cl, b.close);
    put(p, "three_black_crows", flag_of(crows));
    if crows && s.trend == Trend::Up {
        put(p, "three_crows_reversal", one());
    }
    let bar_bull = less(a.close, a.open) && less(b.close, b.open) && less(s.o, s.cl) && less(
        a.open,
        s.cl,
    );
    let bar_bear = less(a.open, a.close) && less(b.open, b.close) && less(s.cl, s.o) && less(
        s.cl,
        a.open,
    );
    put(p, "three_bar_bull_reversal", flag_of(bar_bull));
    put(p, "three_bar_bear_reversal", flag_of(bar_bear));
}

/// The three-candle patterns.
pub fn three(cs: &[Candle], s: &Shape, p: &mut StringHashMap<Dec>) -> (ok: bool)
    requires
        candles_wf(cs@),
        cs@.len() >= 3,
        s.wf(),
        map_wf(old(p)@),
    ensures
        map_wf(final(p)@),
        ok ==> spec_three(cs@, *s, old(p)@) == Some(final(p)@),
        !ok ==> spec_three(cs@, *s, old(p)@) is None,
{
    assert(cs@[cs@.len() - 3].wf());
    assert(cs@[cs@.len() - 2].wf());
    let a = &cs[cs.len() - 3];
    let b = &cs[cs.len() - 2];
    let mid = match mid_exec(a.open, a.close) {
        Some(x) => x,
        None => return false,
    };
    if !stars(s, a, b, mid, p) {
        return false;
    }
    threes(s, a, b, p);
    true
}


// ------------------------------------------------------------ runs, exec

fn all_bull_exec(cs: &[Candle], lo: usize, hi: usize) -> (r: bool)
    requires
        candles_wf(cs@),
        lo <= hi <= cs@.len(),
    ensures
        r == all_bull(cs@, lo as int, hi as int),
{
    let mut i = lo;
    while i < hi
        invariant
            lo <= i <= hi,
            hi <= cs@.len(),
            candles_wf(cs@),
            all_bull(cs@, lo as int, i as int),
        decreases hi - i,
    {
        assert(cs@[i as int].wf());
        if !less(cs[i].open, cs[i].close) {
            return false;
        }
        i += 1;
    }
    true
}

fn all_bear_exec(cs: &[Candle], lo: usize, hi: usize) -> (r: bool)
    requires
        candles_wf(cs@),
        lo <= hi <= cs@.len(),
    ensures
        r == all_bear(cs@, lo as int, hi as int),
{
    let mut i = lo;
    while i < hi
        invariant
            lo <= i <= hi,
            hi <= cs@.len(),
            candles_wf(cs@),
            all_bear(cs@, lo as int, i as int),
        decreases hi - i,
    {
        assert(cs@[i as int].wf());
        if !less(cs[i].close, cs[i].open) {
            return false;
        }
        i += 1;
    }
    true
}

fn span_exec(c: &Candle) -> (r: Option<Dec>)
    requires
        c.wf(),
    ensures
        r == span(*c),
        r matches Some(x) ==> x.wf(),
{
    match checked_sub(c.high, c.low) {
        Some(x) => Some(abs(x)),
        None => None,
    }
}

/// The ranges of the last five candles, when each can be computed.
fn last_spans(cs: &[Candle]) -> (r: Option<Vec<Dec>>)
    requires
        candles_wf(cs@),
        cs@.len() >= 5,
    ensures
        r is None <==> !spans_ok(cs@),
        r matches Some(v) ==> v@.len() == 5 && forall|j: int|
            0 <= j < 5 ==> Some(#[trigger] v@[j]) == span(cs@[cs@.len() - 5 + j]) && v@[j].wf(),
{
    let n = cs.len();
    let mut v: Vec<Dec> = Vec::new();
    let mut i = n - 5;
    while i < n
        invariant
            n == cs@.len(),
            n >= 5,
            n - 5 <= i <= n,
            candles_wf(cs@),
            v@.len() == i - (n - 5),
            forall|j: int|
                0 <= j < v@.len() ==> Some(#[trigger] v@[j]) == span(cs@[n - 5 + j]) && v@[j].wf(),
        decreases n - i,
    {
        assert(cs@[i as int].wf());
        match span_exec(&cs[i]) {
            Some(x) => v.push(x),
            None => {
                assert(span(cs@[i as int]) is None);
                return None;
            },
        }
        i += 1;
    }
    assert forall|i: int| cs@.len() - 5 <= i < cs@.len() implies (#[trigger] span(cs@[i])) is Some by {
        assert(Some(v@[i - (n - 5)]) == span(cs@[i]));
    }
    Some(v)
}

/// Exhaustion runs and narrowing or expanding ranges over the last candles.
pub fn runs(cs: &[Candle], p: &mut StringHashMap<Dec>) -> (ok: bool)
    requires
        candles_wf(cs@),
        map_wf(old(p)@),
    ensures
        map_wf(final(p)@),
        ok ==> spec_runs(cs@, old(p)@) == Some(final(p)@),
        !ok ==> spec_runs(cs@, old(p)@) is None,
{
    let n = cs.len();
    if n >= 4 && all_bull_exec(cs, n - 4, n) {
        put(p, "four_bull_exhaustion", one());
    }
    if n >= 4 && all_bear_exec(cs, n - 4, n) {
        put(p, "four_bear_exhaustion", one());
    }
    if n >= 5 {
        if all_bull_exec(cs, n - 5, n) {
            put(p, "five_bull_exhaustion", one());
        }
        if all_bear_exec(cs, n - 5, n) {
            put(p, "five_bear_exhaustion", one());
        }
        let v = match last_spans(cs) {
            Some(v) => v,
            None => return false,
        };
        let mut narrow = true;
        let mut expand = true;
        let mut k: usize = 1;
        while k < 5
            invariant
                1 <= k <= 5,
                n == cs@.len(),
                n >= 5,
                v@.len() == 5,
                forall|j: int|
                    0 <= j < 5 ==> Some(#[trigger] v@[j]) == span(cs@[n - 5 + j]) && v@[j].wf(),
                narrow <==> forall|i: int|
                    n - 4 <= i < n - 5 + k ==> lt(
                        span(#[trigger] cs@[i]).unwrap(),
                        span(cs@[i - 1]).unwrap(),
                    ),
                expand <==> forall|i: int|
                    n - 4 <= i < n - 5 + k ==> lt(
                        span(cs@[i - 1]).unwrap(),
                        span(#[trigger] cs@[i]).unwrap(),
                    ),
            decreases 5 - k,
        {
            let ghost i = n - 5 + k;
            assert(Some(v@[k as int]) == span(cs@[i]));
            assert(Some(v@[k - 1]) == span(cs@[i - 1]));
            if !less(v[k], v[k - 1]) {
                narrow = false;
            }
            if !less(v[k - 1], v[k]) {
                expand = false;
            }
            k += 1;
        }
        assert(narrow == narrowing(cs@));
        assert(expand == expanding(cs@));
        if narrow {
            put(p, "narrowing_range", one());
        }
        if expand {
            put(p, "expanding_range", one());
        }
    }
    true
}

} // verus!
