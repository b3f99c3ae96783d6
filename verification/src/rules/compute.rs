//! Computing the indicator set from a window of candles.
//!
//! The Bollinger standard deviations are square roots of the band variances;
//! a square root is a floating-point operation, so the caller takes the
//! variances from `band_variances`, takes their roots, and hands the
//! deviations to `Indicators::compute`.
use crate::decimal::{
    checked_add, checked_div, checked_mul, checked_sub, decimal_div, decimal_mul, decimal_round_dp,
    decimal_sub, is_zero, is_zero_dec, less, lt, one, round_dp, spec_int, spec_one, spec_zero,
    whole, zero, Dec,
};
use crate::domain::{candles_wf, AppError, Candle, ErrorKind};
use crate::rules::chart::{detect_patterns, spec_patterns};
use crate::rules::divergence::{detect_divergence, spec_divergence};
use crate::rules::indicators::{map_wf, Indicators};
use crate::rules::oscillators::{
    adx, band_stats, bands, bands_from, fold_high, fold_low, highest_high, lowest_low, spec_adx,
    spec_stochastic, stochastic, window_stats,
};
use crate::rules::series::{
    atr, closes, closes_of, decs_wf, ema, macd, rsi, sma, spec_atr, spec_ema, spec_macd, spec_rsi,
    spec_sma, sum_of, sum_range,
};
use vstd::hash_map::HashMapWithView;
use vstd::prelude::*;
use vstd::slice::slice_subrange;

verus! {

/// The value, or `d` when the indicator had too little data.
pub open spec fn or_else(o: Option<Option<Dec>>, d: Dec) -> Option<Dec> {
    match o {
        Some(Some(v)) => Some(v),
        Some(None) => Some(d),
        None => None,
    }
}

/// `round((cur - base) / base * 100, dp)`, or 0 for a zero base.
pub open spec fn change_pct(cur: Dec, base: Dec, dp: u32) -> Option<Dec> {
    if is_zero(base) {
        Some(spec_zero())
    } else {
        match decimal_sub(cur, base) {
            Some(d) => match decimal_div(d, base) {
                Some(q) => match decimal_mul(q, spec_int(100)) {
                    Some(x) => Some(decimal_round_dp(x, dp)),
                    None => None,
                },
                None => None,
            },
            None => None,
        }
    }
}

/// Percentage change of the last close against the close `back` candles
/// earlier, to 4 places; 0 with too few candles.
pub open spec fn change_back(cs: Seq<Candle>, back: int) -> Option<Dec> {
    if cs.len() > back {
        change_pct(cs[cs.len() - 1].close, cs[cs.len() - 1 - back].close, 4)
    } else {
        Some(spec_zero())
    }
}

/// Number of Bollinger windows: one for each end from the last candle down to the 20th.
pub open spec fn band_count(n: int) -> int {
    if n >= 20 {
        n - 19
    } else {
        0
    }
}

/// Band variance of the window ending `k` candles before the end.
pub open spec fn variance_at(s: Seq<Dec>, k: int) -> Option<Dec> {
    match band_stats(s, s.len() - k, 20) {
        Some((_, v)) => Some(v),
        None => None,
    }
}

/// Upper, middle and lower band of the window ending `k` candles before the
/// end, with standard deviation `std_raw`.
pub open spec fn band_at(s: Seq<Dec>, k: int, std_raw: Dec) -> Option<(Dec, Dec, Dec)> {
    match band_stats(s, s.len() - k, 20) {
        Some((m, _)) => bands_from(m, std_raw),
        None => None,
    }
}

/// `round(upper - lower, 6)`.
pub open spec fn width_of(b: (Dec, Dec, Dec)) -> Option<Dec> {
    match decimal_sub(b.0, b.2) {
        Some(w) => Some(decimal_round_dp(w, 6)),
        None => None,
    }
}

pub open spec fn width_at(s: Seq<Dec>, stds: Seq<Dec>, k: int) -> Option<Dec> {
    match band_at(s, k, stds[k]) {
        Some(b) => width_of(b),
        None => None,
    }
}

/// Every band width can be computed.
pub open spec fn widths_ok(s: Seq<Dec>, stds: Seq<Dec>) -> bool {
    forall|k: int| 0 <= k < band_count(s.len() as int) ==> (#[trigger] width_at(s, stds, k)) is Some
}

/// Number of the first `k` widths below `x`.
pub open spec fn count_below(ws: Seq<Dec>, x: Dec, k: int) -> nat
    decreases k,
{
    if k <= 0 {
        0
    } else {
        count_below(ws, x, k - 1) + if lt(ws[k - 1], x) {
            1nat
        } else {
            0nat
        }
    }
}

/// Share of the widths below the current width, in percent; 0 without
/// widths or without a positive width.
pub open spec fn width_pct(ws: Seq<Dec>, w: Dec) -> Option<Dec> {
    if ws.len() > 0 && lt(spec_zero(), w) {
        match decimal_div(spec_int(count_below(ws, w, ws.len() as int) as int), spec_int(ws.len() as int)) {
            Some(q) => decimal_mul(q, spec_int(100)),
            None => None,
        }
    } else {
        Some(spec_zero())
    }
}

/// `round((x - base) / range * 100, 2)`.
pub open spec fn share_pct(x: Dec, base: Dec, range: Dec) -> Option<Dec> {
    match decimal_sub(x, base) {
        Some(d) => match decimal_div(d, range) {
            Some(q) => match decimal_mul(q, spec_int(100)) {
                Some(v) => Some(decimal_round_dp(v, 2)),
                None => None,
            },
            None => None,
        },
        None => None,
    }
}

/// Where the price sits between the bands, in percent; 50 for equal bands.
pub open spec fn position_pct(price: Dec, upper: Dec, lower: Dec) -> Option<Dec> {
    match decimal_sub(upper, lower) {
        Some(r) => if is_zero(r) {
            Some(spec_int(50))
        } else {
            share_pct(price, lower, r)
        },
        None => None,
    }
}

/// Distances of the price from the swing high and from the swing low, in
/// percent of the swing range; both 0 without a positive range.
pub open spec fn swing_dist(high: Dec, low: Dec, price: Dec) -> Option<(Dec, Dec)> {
    match decimal_sub(high, low) {
        Some(r) => if lt(spec_zero(), r) {
            match (share_pct(high, price, r), share_pct(price, low, r)) {
                (Some(a), Some(b)) => Some((a, b)),
                _ => None,
            }
        } else {
            Some((spec_zero(), spec_zero()))
        },
        None => None,
    }
}

/// "bullish", "bearish" or "neutral" by the candle's close against its open.
pub open spec fn direction(c: Candle) -> Seq<char> {
    if lt(c.open, c.close) {
        "bullish"@
    } else if lt(c.close, c.open) {
        "bearish"@
    } else {
        "neutral"@
    }
}

/// Number of bullish candles at the end of `cs[..n]`.
pub open spec fn trailing_bull(cs: Seq<Candle>, n: int) -> nat
    decreases n,
{
    if n <= 0 {
        0
    } else if lt(cs[n - 1].open, cs[n - 1].close) {
        trailing_bull(cs, n - 1) + 1
    } else {
        0
    }
}

/// Number of bearish candles at the end of `cs[..n]`.
pub open spec fn trailing_bear(cs: Seq<Candle>, n: int) -> nat
    decreases n,
{
    if n <= 0 {
        0
    } else if lt(cs[n - 1].close, cs[n - 1].open) {
        trailing_bear(cs, n - 1) + 1
    } else {
        0
    }
}

/// ATR(14) of the window that ends 14 candles earlier (with more than 28
/// candles), falling back to the current ATR.
pub open spec fn prev_atr_of(cs: Seq<Candle>, cur: Dec) -> Option<Dec> {
    if cs.len() > 28 {
        or_else(spec_atr(cs.subrange(0, cs.len() - 14), 14), cur)
    } else {
        Some(cur)
    }
}

/// "expanding" above 1.2 times the earlier ATR, "contracting" below 0.8
/// times it, "stable" otherwise.
pub open spec fn regime(cur: Dec, prev: Dec) -> Option<Seq<char>> {
    match decimal_mul(prev, spec_int(12)) {
        Some(a) => match decimal_div(a, spec_int(10)) {
            Some(hi) => if lt(hi, cur) {
                Some("expanding"@)
            } else {
                match decimal_mul(prev, spec_int(8)) {
                    Some(b) => match decimal_div(b, spec_int(10)) {
                        Some(lo) => Some(
                            if lt(cur, lo) {
                                "contracting"@
                            } else {
                                "stable"@
                            },
                        ),
                        None => None,
                    },
                    None => None,
                }
            },
            None => None,
        },
        None => None,
    }
}

/// Volumes of the candles.
pub open spec fn volumes_of(cs: Seq<Candle>) -> Seq<Dec> {
    cs.map_values(|c: Candle| c.volume)
}

/// Last volume over the mean volume of up to 20 candles before it, to 4
/// places; 1 without earlier candles or without a positive mean.
pub open spec fn volume_ratio_of(cs: Seq<Candle>) -> Option<Dec> {
    let n = cs.len() as int;
    let vl = if n < 21 {
        n
    } else {
        21
    };
    if vl > 1 {
        match sum_range(volumes_of(cs), n - vl, n - 1) {
            Some(total) => match decimal_div(total, spec_int(vl - 1)) {
                Some(avg) => if lt(spec_zero(), avg) {
                    match decimal_div(cs[n - 1].volume, avg) {
                        Some(q) => Some(decimal_round_dp(q, 4)),
                        None => None,
                    }
                } else {
                    Some(spec_one())
                },
                None => None,
            },
            None => None,
        }
    } else {
        Some(spec_one())
    }
}

/// The last candle.
pub open spec fn last_of(cs: Seq<Candle>) -> Candle {
    cs[cs.len() - 1]
}

pub open spec fn rsi14_of(cs: Seq<Candle>) -> Option<Dec> {
    or_else(spec_rsi(closes_of(cs), 14), spec_int(50))
}

pub open spec fn ema_of(cs: Seq<Candle>, period: int) -> Option<Dec> {
    or_else(spec_ema(closes_of(cs), period), last_of(cs).close)
}

pub open spec fn sma_of(cs: Seq<Candle>, period: int) -> Option<Dec> {
    or_else(spec_sma(closes_of(cs), period), last_of(cs).close)
}

pub open spec fn atr14_of(cs: Seq<Candle>) -> Option<Dec> {
    or_else(spec_atr(cs, 14), spec_zero())
}

/// Bollinger bands of the last 20 closes with deviation `stds[0]`; all three
/// are the last close with fewer than 20 candles.
pub open spec fn bb_of(cs: Seq<Candle>, stds: Seq<Dec>) -> Option<(Dec, Dec, Dec)> {
    if cs.len() < 20 {
        let c = last_of(cs).close;
        Some((c, c, c))
    } else {
        band_at(closes_of(cs), 0, stds[0])
    }
}

pub open spec fn bb_width_of(cs: Seq<Candle>, stds: Seq<Dec>) -> Option<Dec> {
    match bb_of(cs, stds) {
        Some(b) => width_of(b),
        None => None,
    }
}

/// Widths of every Bollinger window, latest first.
pub open spec fn widths_of(s: Seq<Dec>, stds: Seq<Dec>) -> Seq<Dec> {
    Seq::new(band_count(s.len() as int) as nat, |k: int| width_at(s, stds, k).unwrap())
}

pub open spec fn bb_width_pct_of(cs: Seq<Candle>, stds: Seq<Dec>) -> Option<Dec> {
    match bb_width_of(cs, stds) {
        Some(w) => if widths_ok(closes_of(cs), stds) {
            width_pct(widths_of(closes_of(cs), stds), w)
        } else {
            None
        },
        None => None,
    }
}

pub open spec fn bb_position_of(cs: Seq<Candle>, stds: Seq<Dec>) -> Option<Dec> {
    match bb_of(cs, stds) {
        Some(b) => position_pct(last_of(cs).close, b.0, b.2),
        None => None,
    }
}

/// Number of candles the swing levels look back over.
pub open spec fn swing_len(n: int) -> int {
    if n < 20 {
        n
    } else {
        20
    }
}

pub open spec fn swing_high_of(cs: Seq<Candle>) -> Dec {
    fold_high(cs, cs.len() - swing_len(cs.len() as int), cs.len() as int)
}

pub open spec fn swing_low_of(cs: Seq<Candle>) -> Dec {
    fold_low(cs, cs.len() - swing_len(cs.len() as int), cs.len() as int)
}

pub open spec fn dist_of(cs: Seq<Candle>) -> Option<(Dec, Dec)> {
    swing_dist(swing_high_of(cs), swing_low_of(cs), last_of(cs).close)
}

pub open spec fn prev_atr_at(cs: Seq<Candle>) -> Option<Dec> {
    match atr14_of(cs) {
        Some(cur) => prev_atr_of(cs, cur),
        None => None,
    }
}

pub open spec fn regime_of(cs: Seq<Candle>) -> Option<Seq<char>> {
    match (atr14_of(cs), prev_atr_at(cs)) {
        (Some(c), Some(p)) => regime(c, p),
        _ => None,
    }
}

/// Every part of the indicator set can be computed without overflow.
pub open spec fn compute_ok(cs: Seq<Candle>, stds: Seq<Dec>) -> bool {
    &&& change_back(cs, 1) is Some
    &&& rsi14_of(cs) is Some
    &&& ema_of(cs, 50) is Some
    &&& ema_of(cs, 200) is Some
    &&& sma_of(cs, 50) is Some
    &&& sma_of(cs, 200) is Some
    &&& atr14_of(cs) is Some
    &&& spec_macd(closes_of(cs)) is Some
    &&& spec_patterns(cs) is Some
    &&& bb_of(cs, stds) is Some
    &&& spec_stochastic(cs) is Some
    &&& spec_adx(cs, 14) is Some
    &&& prev_atr_at(cs) is Some
    &&& regime_of(cs) is Some
    &&& bb_width_of(cs, stds) is Some
    &&& bb_width_pct_of(cs, stds) is Some
    &&& bb_position_of(cs, stds) is Some
    &&& dist_of(cs) is Some
    &&& change_back(cs, 5) is Some
    &&& spec_divergence(cs) is Some
    &&& volume_ratio_of(cs) is Some
}

/// `ind` is the indicator set of the candles `cs` (at least one), with
/// Bollinger deviations `stds`.
pub open spec fn computed(cs: Seq<Candle>, stds: Seq<Dec>, ind: Indicators) -> bool {
    let n = cs.len() as int;
    let last = last_of(cs);
    let prev = cs[n - 2];
    let seq_len = if n < 5 {
        n
    } else {
        5
    };
    &&& ind.price == last.close
    &&& ind.high == last.high
    &&& ind.low == last.low
    &&& ind.close == last.close
    &&& ind.open == last.open
    &&& ind.volume == last.volume
    &&& Some(ind.pct_change) == change_back(cs, 1)
    &&& ind.rsi@ == Map::<usize, Dec>::empty().insert(14, rsi14_of(cs).unwrap())
    &&& ind.ema@ == Map::<usize, Dec>::empty().insert(50, ema_of(cs, 50).unwrap()).insert(
        200,
        ema_of(cs, 200).unwrap(),
    )
    &&& ind.sma@ == Map::<usize, Dec>::empty().insert(50, sma_of(cs, 50).unwrap()).insert(
        200,
        sma_of(cs, 200).unwrap(),
    )
    &&& ind.atr@ == Map::<usize, Dec>::empty().insert(14, atr14_of(cs).unwrap())
    &&& ind.macd == spec_macd(closes_of(cs))
    &&& (n >= 2 ==> ind.prev_open == prev.open && ind.prev_close == prev.close && ind.prev_high
        == prev.high && ind.prev_low == prev.low)
    &&& (n < 2 ==> ind.prev_open == spec_zero() && ind.prev_close == spec_zero() && ind.prev_high
        == spec_zero() && ind.prev_low == spec_zero())
    &&& Some(ind.patterns@) == spec_patterns(cs)
    &&& Some((ind.bb_upper, ind.bb_middle, ind.bb_lower)) == bb_of(cs, stds)
    &&& Some((ind.stoch_k, ind.stoch_d)) == spec_stochastic(cs)
    &&& Some(ind.adx) == spec_adx(cs, 14)
    &&& ind.swing_high == swing_high_of(cs)
    &&& ind.swing_low == swing_low_of(cs)
    &&& ind.candle_sequence@.len() == seq_len
    &&& (forall|i: int|
        0 <= i < seq_len ==> (#[trigger] ind.candle_sequence@[i])@ == direction(cs[n - seq_len + i]))
    &&& ind.consecutive_bullish == trailing_bull(cs, n)
    &&& ind.consecutive_bearish == trailing_bear(cs, n)
    &&& Some(ind.prev_atr) == prev_atr_at(cs)
    &&& Some(ind.volatility_regime@) == regime_of(cs)
    &&& Some(ind.bb_width) == bb_width_of(cs, stds)
    &&& Some(ind.bb_width_pct) == bb_width_pct_of(cs, stds)
    &&& Some(ind.bb_position_pct) == bb_position_of(cs, stds)
    &&& Some((ind.dist_from_swing_high_pct, ind.dist_from_swing_low_pct)) == dist_of(cs)
    &&& Some(ind.roc_5) == change_back(cs, 5)
    &&& Some((ind.rsi_divergence@, ind.macd_divergence@)) == spec_divergence(cs)
    &&& Some(ind.volume_ratio) == volume_ratio_of(cs)
}


// ---------------------------------------------------------------- exec

fn or_else_exec(o: Option<Option<Dec>>, d: Dec) -> (r: Option<Dec>)
    requires
        o matches Some(Some(v)) ==> v.wf(),
        d.wf(),
    ensures
        r == or_else(o, d),
        r matches Some(v) ==> v.wf(),
{
    match o {
        Some(Some(v)) => Some(v),
        Some(None) => Some(d),
        None => None,
    }
}

fn change_pct_exec(cur: Dec, base: Dec, dp: u32) -> (r: Option<Dec>)
    requires
        cur.wf(),
        base.wf(),
    ensures
        r == change_pct(cur, base, dp),
        r matches Some(v) ==> v.wf(),
{
    if is_zero_dec(base) {
        return Some(zero());
    }
    let d = match checked_sub(cur, base) {
        Some(v) => v,
        None => return None,
    };
    let q = match checked_div(d, base) {
        Some(v) => v,
        None => return None,
    };
    match checked_mul(q, whole(100)) {
        Some(x) => Some(round_dp(x, dp)),
        None => None,
    }
}

fn change_back_exec(cs: &[Candle], back: usize) -> (r: Option<Dec>)
    requires
        candles_wf(cs@),
        cs@.len() >= 1,
    ensures
        r == change_back(cs@, back as int),
        r matches Some(v) ==> v.wf(),
{
    if cs.len() > back {
        assert(cs@[cs@.len() - 1].wf());
        assert(cs@[cs@.len() - 1 - back].wf());
        change_pct_exec(cs[cs.len() - 1].close, cs[cs.len() - 1 - back].close, 4)
    } else {
        Some(zero())
    }
}

/// Variances of every Bollinger window, latest first: the window ending at
/// the last close, then one candle earlier, down to the window of the first
/// 20 closes.  Their square roots are the deviations `Indicators::compute` takes.
pub fn band_variances(cs: &[Candle]) -> (r: Option<Vec<Dec>>)
    requires
        candles_wf(cs@),
    ensures
        r is None <==> exists|k: int|
            0 <= k < band_count(cs@.len() as int) && (#[trigger] variance_at(closes_of(cs@), k))
                is None,
        r matches Some(v) ==> v@.len() == band_count(cs@.len() as int) && decs_wf(v@) && forall|
            k: int,
        | 0 <= k < v@.len() ==> Some(#[trigger] v@[k]) == variance_at(closes_of(cs@), k),
{
    let s = closes(cs);
    let n = s.len();
    let mut out: Vec<Dec> = Vec::new();
    if n < 20 {
        return Some(out);
    }
    let mut k: usize = 0;
    while k < n - 19
        invariant
            n == s@.len(),
            s@ == closes_of(cs@),
            n >= 20,
            decs_wf(s@),
            k <= n - 19,
            out@.len() == k,
            decs_wf(out@),
            forall|j: int| 0 <= j < k ==> Some(#[trigger] out@[j]) == variance_at(s@, j),
        decreases n - 19 - k,
    {
        match window_stats(s.as_slice(), n - k, 20) {
            Some((_, v)) => out.push(v),
            None => {
                assert(variance_at(s@, k as int) is None);
                return None;
            },
        }
        k += 1;
    }
    assert forall|j: int| 0 <= j < band_count(n as int) implies (#[trigger] variance_at(
        closes_of(cs@),
        j,
    )) is Some by {
        assert(Some(out@[j]) == variance_at(s@, j));
    }
    Some(out)
}

fn band_at_exec(s: &[Dec], k: usize, std_raw: Dec) -> (r: Option<(Dec, Dec, Dec)>)
    requires
        decs_wf(s@),
        k + 20 <= s@.len(),
        std_raw.wf(),
    ensures
        r == band_at(s@, k as int, std_raw),
        r matches Some(b) ==> b.0.wf() && b.1.wf() && b.2.wf(),
{
    match window_stats(s, s.len() - k, 20) {
        Some((m, _)) => bands(m, std_raw),
        None => None,
    }
}

fn width_exec(b: (Dec, Dec, Dec)) -> (r: Option<Dec>)
    requires
        b.0.wf(),
        b.2.wf(),
    ensures
        r == width_of(b),
        r matches Some(v) ==> v.wf(),
{
    match checked_sub(b.0, b.2) {
        Some(w) => Some(round_dp(w, 6)),
        None => None,
    }
}

fn widths_exec(s: &[Dec], stds: &[Dec]) -> (r: Option<Vec<Dec>>)
    requires
        decs_wf(s@),
        decs_wf(stds@),
        stds@.len() == band_count(s@.len() as int),
    ensures
        r is None <==> !widths_ok(s@, stds@),
        r matches Some(v) ==> v@ == widths_of(s@, stds@) && decs_wf(v@),
{
    let n = s.len();
    let mut out: Vec<Dec> = Vec::new();
    if n < 20 {
        assert(out@ =~= widths_of(s@, stds@));
        return Some(out);
    }
    let mut k: usize = 0;
    while k < n - 19
        invariant
            n == s@.len(),
            n >= 20,
            decs_wf(s@),
            decs_wf(stds@),
            stds@.len() == n - 19,
            k <= n - 19,
            out@.len() == k,
            decs_wf(out@),
            forall|j: int| 0 <= j < k ==> Some(#[trigger] out@[j]) == width_at(s@, stds@, j),
        decreases n - 19 - k,
    {
        let b = match band_at_exec(s, k, stds[k]) {
            Some(b) => b,
            None => {
                assert(width_at(s@, stds@, k as int) is None);
                return None;
            },
        };
        match width_exec(b) {
            Some(w) => out.push(w),
            None => {
                assert(width_at(s@, stds@, k as int) is None);
                return None;
            },
        }
        k += 1;
    }
    assert forall|j: int| 0 <= j < band_count(n as int) implies (#[trigger] width_at(
        s@,
        stds@,
        j,
    )) is Some by {
        assert(Some(out@[j]) == width_at(s@, stds@, j));
    }
    assert(out@ =~= widths_of(s@, stds@));
    Some(out)
}

fn count_below_exec(ws: &[Dec], x: Dec) -> (r: usize)
    requires
        decs_wf(ws@),
        x.wf(),
    ensures
        r == count_below(ws@, x, ws@.len() as int),
        r <= ws@.len(),
{
    let mut c: usize = 0;
    let mut i: usize = 0;
    while i < ws.len()
        invariant
            i <= ws@.len(),
            decs_wf(ws@),
            x.wf(),
            c == count_below(ws@, x, i as int),
            c <= i,
        decreases ws@.len() - i,
    {
        if less(ws[i], x) {
            c += 1;
        }
        i += 1;
    }
    c
}

fn width_pct_exec(ws: &[Dec], w: Dec) -> (r: Option<Dec>)
    requires
        decs_wf(ws@),
        w.wf(),
    ensures
        r == width_pct(ws@, w),
        r matches Some(v) ==> v.wf(),
{
    if ws.len() > 0 && less(zero(), w) {
        let below = count_below_exec(ws, w);
        match checked_div(Dec::from_usize(below), Dec::from_usize(ws.len())) {
            Some(q) => checked_mul(q, whole(100)),
            None => None,
        }
    } else {
        Some(zero())
    }
}

fn share_pct_exec(x: Dec, base: Dec, range: Dec) -> (r: Option<Dec>)
    requires
        x.wf(),
        base.wf(),
        range.wf(),
    ensures
        r == share_pct(x, base, range),
        r matches Some(v) ==> v.wf(),
{
    let d = match checked_sub(x, base) {
        Some(v) => v,
        None => return None,
    };
    let q = match checked_div(d, range) {
        Some(v) => v,
        None => return None,
    };
    match checked_mul(q, whole(100)) {
        Some(v) => Some(round_dp(v, 2)),
        None => None,
    }
}

fn position_pct_exec(price: Dec, upper: Dec, lower: Dec) -> (r: Option<Dec>)
    requires
        price.wf(),
        upper.wf(),
        lower.wf(),
    ensures
        r == position_pct(price, upper, lower),
        r matches Some(v) ==> v.wf(),
{
    match checked_sub(upper, lower) {
        Some(r) => if is_zero_dec(r) {
            Some(whole(50))
        } else {
            share_pct_exec(price, lower, r)
        },
        None => None,
    }
}

fn swing_dist_exec(high: Dec, low: Dec, price: Dec) -> (r: Option<(Dec, Dec)>)
    requires
        high.wf(),
        low.wf(),
        price.wf(),
    ensures
        r == swing_dist(high, low, price),
        r matches Some((a, b)) ==> a.wf() && b.wf(),
{
    match checked_sub(high, low) {
        Some(r) => if less(zero(), r) {
            match (share_pct_exec(high, price, r), share_pct_exec(price, low, r)) {
                (Some(a), Some(b)) => Some((a, b)),
                _ => None,
            }
        } else {
            Some((zero(), zero()))
        },
        None => None,
    }
}

fn direction_exec(c: &Candle) -> (r: String)
    requires
        c.wf(),
    ensures
        r@ == direction(*c),
{
    if less(c.open, c.close) {
        String::from_str("bullish")
    } else if less(c.close, c.open) {
        String::from_str("bearish")
    } else {
        String::from_str("neutral")
    }
}

fn sequence_exec(cs: &[Candle]) -> (r: Vec<String>)
    requires
        candles_wf(cs@),
    ensures
        r@.len() == (if cs@.len() < 5 { cs@.len() as int } else { 5 }),
        forall|i: int|
            0 <= i < r@.len() ==> (#[trigger] r@[i])@ == direction(cs@[cs@.len() - r@.len() + i]),
{
    let n = cs.len();
    let k = if n < 5 {
        n
    } else {
        5
    };
    let mut out: Vec<String> = Vec::new();
    let mut i: usize = n - k;
    while i < n
        invariant
            n == cs@.len(),
            k == (if n < 5 { n } else { 5 }),
            n - k <= i <= n,
            candles_wf(cs@),
            out@.len() == i - (n - k),
            forall|j: int| 0 <= j < out@.len() ==> (#[trigger] out@[j])@ == direction(cs@[n - k + j]),
        decreases n - i,
    {
        assert(cs@[i as int].wf());
        out.push(direction_exec(&cs[i]));
        i += 1;
    }
    out
}

fn trailing_bull_exec(cs: &[Candle]) -> (r: u32)
    requires
        candles_wf(cs@),
        cs@.len() <= u32::MAX,
    ensures
        r == trailing_bull(cs@, cs@.len() as int),
{
    let mut c: u32 = 0;
    let mut i = cs.len();
    while i > 0
        invariant
            i <= cs@.len() <= u32::MAX,
            candles_wf(cs@),
            c + i == cs@.len(),
            trailing_bull(cs@, cs@.len() as int) == c + trailing_bull(cs@, i as int),
        decreases i,
    {
        assert(cs@[i - 1].wf());
        if less(cs[i - 1].open, cs[i - 1].close) {
            c += 1;
            i -= 1;
        } else {
            return c;
        }
    }
    c
}

fn trailing_bear_exec(cs: &[Candle]) -> (r: u32)
    requires
        candles_wf(cs@),
        cs@.len() <= u32::MAX,
    ensures
        r == trailing_bear(cs@, cs@.len() as int),
{
    let mut c: u32 = 0;
    let mut i = cs.len();
    while i > 0
        invariant
            i <= cs@.len() <= u32::MAX,
            candles_wf(cs@),
            c + i == cs@.len(),
            trailing_bear(cs@, cs@.len() as int) == c + trailing_bear(cs@, i as int),
        decreases i,
    {
        assert(cs@[i - 1].wf());
        if less(cs[i - 1].close, cs[i - 1].open) {
            c += 1;
            i -= 1;
        } else {
            return c;
        }
    }
    c
}

fn prev_atr_exec(cs: &[Candle], cur: Dec) -> (r: Option<Dec>)
    requires
        candles_wf(cs@),
        cur.wf(),
    ensures
        r == prev_atr_of(cs@, cur),
        r matches Some(v) ==> v.wf(),
{
    if cs.len() > 28 {
        let pre = slice_subrange(cs, 0, cs.len() - 14);
        assert(candles_wf(pre@)) by {
            assert forall|i: int| 0 <= i < pre@.len() implies (#[trigger] pre@[i]).wf() by {
                assert(pre@[i] == cs@[i]);
            }
        }
        or_else_exec(atr(pre, 14), cur)
    } else {
        Some(cur)
    }
}

fn regime_exec(cur: Dec, prev: Dec) -> (r: Option<String>)
    requires
        cur.wf(),
        prev.wf(),
    ensures
        r matches Some(t) ==> regime(cur, prev) == Some(t@),
        r is None <==> regime(cur, prev) is None,
{
    let a = match checked_mul(prev, whole(12)) {
        Some(v) => v,
        None => return None,
    };
    let hi = match checked_div(a, whole(10)) {
        Some(v) => v,
        None => return None,
    };
    if less(hi, cur) {
        return Some(String::from_str("expanding"));
    }
    let b = match checked_mul(prev, whole(8)) {
        Some(v) => v,
        None => return None,
    };
    let lo = match checked_div(b, whole(10)) {
        Some(v) => v,
        None => return None,
    };
    if less(cur, lo) {
        Some(String::from_str("contracting"))
    } else {
        Some(String::from_str("stable"))
    }
}

fn volumes(cs: &[Candle]) -> (r: Vec<Dec>)
    requires
        candles_wf(cs@),
    ensures
        r@ == volumes_of(cs@),
        decs_wf(r@),
{
    let mut out: Vec<Dec> = Vec::new();
    let mut i: usize = 0;
    while i < cs.len()
        invariant
            i <= cs@.len(),
            candles_wf(cs@),
            out@.len() == i,
            forall|j: int| 0 <= j < i ==> #[trigger] out@[j] == cs@[j].volume,
            decs_wf(out@),
        decreases cs@.len() - i,
    {
        assert(cs@[i as int].wf());
        out.push(cs[i].volume);
        i += 1;
    }
    assert(out@ =~= volumes_of(cs@));
    out
}

fn volume_ratio_exec(cs: &[Candle]) -> (r: Option<Dec>)
    requires
        candles_wf(cs@),
        cs@.len() >= 1,
    ensures
        r == volume_ratio_of(cs@),
        r matches Some(v) ==> v.wf(),
{
    let n = cs.len();
    let vl = if n < 21 {
        n
    } else {
        21
    };
    if vl > 1 {
        let vs = volumes(cs);
        let total = match sum_of(vs.as_slice(), n - vl, n - 1) {
            Some(t) => t,
            None => return None,
        };
        let avg = match checked_div(total, Dec::from_usize(vl - 1)) {
            Some(a) => a,
            None => return None,
        };
        if less(zero(), avg) {
            assert(cs@[n - 1].wf());
            match checked_div(cs[n - 1].volume, avg) {
                Some(q) => Some(round_dp(q, 4)),
                None => None,
            }
        } else {
            Some(one())
        }
    } else {
        Some(one())
    }
}


fn single_map(k: usize, v: Dec) -> (m: HashMapWithView<usize, Dec>)
    requires
        v.wf(),
    ensures
        m@ == Map::<usize, Dec>::empty().insert(k, v),
        map_wf(m@),
{
    let mut m = HashMapWithView::<usize, Dec>::new();
    m.insert(k, v);
    m
}

fn pair_map(k1: usize, v1: Dec, k2: usize, v2: Dec) -> (m: HashMapWithView<usize, Dec>)
    requires
        v1.wf(),
        v2.wf(),
    ensures
        m@ == Map::<usize, Dec>::empty().insert(k1, v1).insert(k2, v2),
        map_wf(m@),
{
    let mut m = HashMapWithView::<usize, Dec>::new();
    m.insert(k1, v1);
    m.insert(k2, v2);
    m
}

impl Indicators {
    /// The indicator set of a window of candles, the last one being the
    /// current.  `stds` holds the Bollinger standard deviations, the square
    /// roots of what `band_variances` gives, in the same order.
    pub fn compute(candles: &[Candle], stds: &[Dec]) -> (r: Result<Indicators, AppError>)
        requires
            candles_wf(candles@),
            candles@.len() <= u32::MAX,
            decs_wf(stds@),
            stds@.len() == band_count(candles@.len() as int),
        ensures
            candles@.len() == 0 ==> (r matches Err(e) && e.view_err() == (
                ErrorKind::Internal,
                "no candles"@,
            )),
            candles@.len() > 0 && compute_ok(candles@, stds@) ==> (r matches Ok(ind) && computed(
                candles@,
                stds@,
                ind,
            ) && ind.wf()),
            candles@.len() > 0 && !compute_ok(candles@, stds@) ==> (r matches Err(e)
                && e.view_err() == crate::domain::overflow_err()),
            r is Ok ==> candles@.len() > 0 && compute_ok(candles@, stds@),
    {
        let n = candles.len();
        if n == 0 {
            return Err(AppError::Internal(String::from_str("no candles")));
        }
        let cs = candles;
        assert(cs@[n - 1].wf());
        let last = &cs[n - 1];
        let ghost g = cs@;
        let s = closes(cs);
        let sl = s.as_slice();
        let pct_change = match change_back_exec(cs, 1) {
            Some(v) => v,
            None => return Err(crate::domain::overflow()),
        };
        let rsi14 = match or_else_exec(rsi(sl, 14), whole(50)) {
            Some(v) => v,
            None => return Err(crate::domain::overflow()),
        };
        let ema50 = match or_else_exec(ema(sl, 50), last.close) {
            Some(v) => v,
            None => return Err(crate::domain::overflow()),
        };
        let ema200 = match or_else_exec(ema(sl, 200), last.close) {
            Some(v) => v,
            None => return Err(crate::domain::overflow()),
        };
        let sma50 = match or_else_exec(sma(sl, 50), last.close) {
            Some(v) => v,
            None => return Err(crate::domain::overflow()),
        };
        let sma200 = match or_else_exec(sma(sl, 200), last.close) {
            Some(v) => v,
            None => return Err(crate::domain::overflow()),
        };
        let atr14 = match or_else_exec(atr(cs, 14), zero()) {
            Some(v) => v,
            None => return Err(crate::domain::overflow()),
        };
        let macd_v = match macd(sl) {
            Some(v) => v,
            None => return Err(crate::domain::overflow()),
        };
        let (prev_open, prev_close, prev_high, prev_low) = if n >= 2 {
            assert(cs@[n - 2].wf());
            (cs[n - 2].open, cs[n - 2].close, cs[n - 2].high, cs[n - 2].low)
        } else {
            (zero(), zero(), zero(), zero())
        };
        let patterns = match detect_patterns(cs) {
            Some(p) => p,
            None => return Err(crate::domain::overflow()),
        };
        let bb = if n < 20 {
            (last.close, last.close, last.close)
        } else {
            match band_at_exec(sl, 0, stds[0]) {
                Some(b) => b,
                None => return Err(crate::domain::overflow()),
            }
        };
        let (stoch_k, stoch_d) = match stochastic(cs) {
            Some(p) => p,
            None => return Err(crate::domain::overflow()),
        };
        let adx_v = match adx(cs, 14) {
            Some(v) => v,
            None => return Err(crate::domain::overflow()),
        };
        let lookback = if n < 20 {
            n
        } else {
            20
        };
        let swing_high = highest_high(cs, n - lookback, n);
        let swing_low = lowest_low(cs, n - lookback, n);
        let candle_sequence = sequence_exec(cs);
        let consecutive_bullish = trailing_bull_exec(cs);
        let consecutive_bearish = trailing_bear_exec(cs);
        let prev_atr = match prev_atr_exec(cs, atr14) {
            Some(v) => v,
            None => return Err(crate::domain::overflow()),
        };
        let volatility_regime = match regime_exec(atr14, prev_atr) {
            Some(t) => t,
            None => return Err(crate::domain::overflow()),
        };
        let bb_width = match width_exec(bb) {
            Some(v) => v,
            None => return Err(crate::domain::overflow()),
        };
        let widths = match widths_exec(sl, stds) {
            Some(v) => v,
            None => return Err(crate::domain::overflow()),
        };
        let bb_width_pct = match width_pct_exec(widths.as_slice(), bb_width) {
            Some(v) => v,
            None => return Err(crate::domain::overflow()),
        };
        let bb_position_pct = match position_pct_exec(last.close, bb.0, bb.2) {
            Some(v) => v,
            None => return Err(crate::domain::overflow()),
        };
        let (dist_high, dist_low) = match swing_dist_exec(swing_high, swing_low, last.close) {
            Some(p) => p,
            None => return Err(crate::domain::overflow()),
        };
        let roc_5 = match change_back_exec(cs, 5) {
            Some(v) => v,
            None => return Err(crate::domain::overflow()),
        };
        let (rsi_div, macd_div) = match detect_divergence(cs) {
            Some(p) => p,
            None => return Err(crate::domain::overflow()),
        };
        let volume_ratio = match volume_ratio_exec(cs) {
            Some(v) => v,
            None => return Err(crate::domain::overflow()),
        };
        let ind = Indicators {
            rsi: single_map(14, rsi14),
            ema: pair_map(50, ema50, 200, ema200),
            sma: pair_map(50, sma50, 200, sma200),
            atr: single_map(14, atr14),
            macd: Some(macd_v),
            price: last.close,
            high: last.high,
            low: last.low,
            close: last.close,
            open: last.open,
            volume: last.volume,
            pct_change,
            patterns,
            prev_open,
            prev_close,
            prev_high,
            prev_low,
            bb_upper: bb.0,
            bb_middle: bb.1,
            bb_lower: bb.2,
            stoch_k,
            stoch_d,
            adx: adx_v,
            swing_high,
            swing_low,
            consecutive_bullish,
            consecutive_bearish,
            volatility_regime,
            prev_atr,
            bb_width,
            bb_width_pct,
            bb_position_pct,
            dist_from_swing_high_pct: dist_high,
            dist_from_swing_low_pct: dist_low,
            candle_sequence,
            roc_5,
            rsi_divergence: rsi_div,
            macd_divergence: macd_div,
            volume_ratio,
        };
        Ok(ind)
    }
}

} // verus!
