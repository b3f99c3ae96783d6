//! Bollinger band statistics, the stochastic oscillator and ADX.
//!
//! As elsewhere, an outer `None` means that a decimal operation overflowed.
use crate::decimal::{
    abs, checked_add, checked_div, checked_mul, checked_sub, decimal_add, decimal_div, decimal_mul,
    decimal_round_dp, decimal_sub, is_zero, is_zero_dec, less, lt, max, max_value, min, round_dp,
    spec_int, spec_max, spec_max_value, spec_min, spec_zero, whole, zero, Dec,
};
use crate::domain::{candles_wf, Candle};
use crate::rules::series::{
    add_o, dec_of, decs_wf, div_round, lemma_sum_none, spec_abs, sum_of, sum_range,
};
use vstd::prelude::*;

verus! {

// ------------------------------------------------------------ Bollinger

/// `round(d * d, 10)`.
pub open spec fn sq_round(d: Dec) -> Option<Dec> {
    match decimal_mul(d, d) {
        Some(x) => Some(decimal_round_dp(x, 10)),
        None => None,
    }
}

/// Sum of rounded squared deviations from `mean` over `s[lo..hi]`.
pub open spec fn dev_sum(s: Seq<Dec>, mean: Dec, lo: int, hi: int) -> Option<Dec>
    decreases hi - lo,
{
    if hi <= lo {
        Some(spec_zero())
    } else {
        match (dev_sum(s, mean, lo, hi - 1), decimal_sub(s[hi - 1], mean)) {
            (Some(a), Some(d)) => match sq_round(d) {
                Some(q) => decimal_add(a, q),
                None => None,
            },
            _ => None,
        }
    }
}

/// Mean and variance (both to 10 places) of the `period` values ending at `end`.
pub open spec fn band_stats(s: Seq<Dec>, end: int, period: int) -> Option<(Dec, Dec)> {
    match div_round(sum_range(s, end - period, end), dec_of(period), 10) {
        Some(mean) => match div_round(dev_sum(s, mean, end - period, end), dec_of(period), 10) {
            Some(var) => Some((mean, var)),
            None => None,
        },
        None => None,
    }
}

/// Bands from a mean and a standard deviation: the deviation is rounded to
/// 10 places and the bands lie two deviations either side of the mean.
pub open spec fn bands_from(mean: Dec, std_raw: Dec) -> Option<(Dec, Dec, Dec)> {
    let std = decimal_round_dp(std_raw, 10);
    match decimal_mul(spec_int(2), std) {
        Some(w) => match (decimal_add(mean, w), decimal_sub(mean, w)) {
            (Some(u), Some(l)) => Some((u, mean, l)),
            _ => None,
        },
        None => None,
    }
}

pub proof fn lemma_dev_none(s: Seq<Dec>, mean: Dec, lo: int, j: int, hi: int)
    requires
        j <= hi,
        dev_sum(s, mean, lo, j) is None,
    ensures
        dev_sum(s, mean, lo, hi) is None,
    decreases hi - j,
{
    if j < hi {
        lemma_dev_none(s, mean, lo, j, hi - 1);
    }
}

/// Mean and variance of the `period` values ending at `end`.
pub fn window_stats(s: &[Dec], end: usize, period: usize) -> (r: Option<(Dec, Dec)>)
    requires
        decs_wf(s@),
        0 < period <= end <= s@.len(),
    ensures
        r == band_stats(s@, end as int, period as int),
        r matches Some((m, v)) ==> m.wf() && v.wf(),
{
    let lo = end - period;
    let n = Dec::from_usize(period);
    let total = match sum_of(s, lo, end) {
        Some(t) => t,
        None => return None,
    };
    let mean = match checked_div(total, n) {
        Some(q) => round_dp(q, 10),
        None => return None,
    };
    let mut acc = zero();
    let mut i = lo;
    while i < end
        invariant
            lo <= i <= end <= s@.len(),
            decs_wf(s@),
            mean.wf(),
            acc.wf(),
            dev_sum(s@, mean, lo as int, i as int) == Some(acc),
            lo == end - period,
            div_round(sum_range(s@, lo as int, end as int), dec_of(period as int), 10) == Some(mean),
        decreases end - i,
    {
        proof {
            if dev_sum(s@, mean, lo as int, i + 1) is None {
                lemma_dev_none(s@, mean, lo as int, i + 1, end as int);
            }
        }
        let d = match checked_sub(s[i], mean) {
            Some(d) => d,
            None => return None,
        };
        let q = match checked_mul(d, d) {
            Some(x) => round_dp(x, 10),
            None => return None,
        };
        match checked_add(acc, q) {
            Some(a) => acc = a,
            None => return None,
        }
        i += 1;
    }
    match checked_div(acc, n) {
        Some(v) => Some((mean, round_dp(v, 10))),
        None => None,
    }
}

/// Upper, middle and lower band from a mean and a standard deviation.
pub fn bands(mean: Dec, std_raw: Dec) -> (r: Option<(Dec, Dec, Dec)>)
    requires
        mean.wf(),
        std_raw.wf(),
    ensures
        r == bands_from(mean, std_raw),
        r matches Some((u, m, l)) ==> u.wf() && m.wf() && l.wf(),
{
    let std = round_dp(std_raw, 10);
    let w = match checked_mul(whole(2), std) {
        Some(w) => w,
        None => return None,
    };
    match (checked_add(mean, w), checked_sub(mean, w)) {
        (Some(u), Some(l)) => Some((u, mean, l)),
        _ => None,
    }
}

// ------------------------------------------------------------ Stochastic

/// Highest high of `cs[lo..hi]`, folding `Decimal::max` from zero.
pub open spec fn fold_high(cs: Seq<Candle>, lo: int, hi: int) -> Dec
    decreases hi - lo,
{
    if hi <= lo {
        spec_zero()
    } else {
        spec_max(fold_high(cs, lo, hi - 1), cs[hi - 1].high)
    }
}

/// Lowest low of `cs[lo..hi]`, folding `Decimal::min` from `Decimal::MAX`.
pub open spec fn fold_low(cs: Seq<Candle>, lo: int, hi: int) -> Dec
    decreases hi - lo,
{
    if hi <= lo {
        spec_max_value()
    } else {
        spec_min(fold_low(cs, lo, hi - 1), cs[hi - 1].low)
    }
}

/// Highest high of `cs[lo..hi]`.
pub fn highest_high(cs: &[Candle], lo: usize, hi: usize) -> (r: Dec)
    requires
        lo <= hi <= cs@.len(),
        candles_wf(cs@),
    ensures
        r == fold_high(cs@, lo as int, hi as int),
        r.wf(),
{
    let mut acc = zero();
    let mut i = lo;
    while i < hi
        invariant
            lo <= i <= hi <= cs@.len(),
            candles_wf(cs@),
            acc == fold_high(cs@, lo as int, i as int),
            acc.wf(),
        decreases hi - i,
    {
        assert(cs@[i as int].wf());
        acc = max(acc, cs[i].high);
        i += 1;
    }
    acc
}

/// Lowest low of `cs[lo..hi]`.
pub fn lowest_low(cs: &[Candle], lo: usize, hi: usize) -> (r: Dec)
    requires
        lo <= hi <= cs@.len(),
        candles_wf(cs@),
    ensures
        r == fold_low(cs@, lo as int, hi as int),
        r.wf(),
{
    let mut acc = max_value();
    let mut i = lo;
    while i < hi
        invariant
            lo <= i <= hi <= cs@.len(),
            candles_wf(cs@),
            acc == fold_low(cs@, lo as int, i as int),
            acc.wf(),
        decreases hi - i,
    {
        assert(cs@[i as int].wf());
        acc = min(acc, cs[i].low);
        i += 1;
    }
    acc
}

/// %K of the `period` candles ending at `end`: where the last close sits in
/// the window's range, in percent to 4 places; 50 for a flat window.
pub open spec fn stoch_k_at(cs: Seq<Candle>, end: int, period: int) -> Option<Dec> {
    let highest = fold_high(cs, end - period, end);
    let lowest = fold_low(cs, end - period, end);
    let close = cs[end - 1].close;
    match decimal_sub(highest, lowest) {
        Some(range) => if is_zero(range) {
            Some(spec_int(50))
        } else {
            match decimal_sub(close, lowest) {
                Some(num) => match decimal_div(num, range) {
                    Some(q) => match decimal_mul(q, spec_int(100)) {
                        Some(x) => Some(decimal_round_dp(x, 4)),
                        None => None,
                    },
                    None => None,
                },
                None => None,
            }
        },
        None => None,
    }
}

/// %K for every window end from `lo` to `hi` can be computed.
pub open spec fn all_k_ok(cs: Seq<Candle>, lo: int, hi: int, period: int) -> bool {
    forall|e: int| lo <= e <= hi ==> (#[trigger] stoch_k_at(cs, e, period)) is Some
}

/// %K as a number, given that it was computed.
pub open spec fn k_of(cs: Seq<Candle>, e: int, period: int) -> Dec {
    stoch_k_at(cs, e, period).unwrap()
}

/// Stochastic oscillator (14, 3): %K of the latest window and %D, the mean of
/// the latest three %K values, to 4 places; (50, 50) with fewer than 17
/// candles.  Every window's %K is computed, so an overflow in any of them
/// makes the whole result overflow.
pub open spec fn spec_stochastic(cs: Seq<Candle>) -> Option<(Dec, Dec)> {
    let n = cs.len() as int;
    if n < 17 {
        Some((spec_int(50), spec_int(50)))
    } else if !all_k_ok(cs, 14, n, 14) {
        None
    } else {
        let ks = seq![k_of(cs, n, 14), k_of(cs, n - 1, 14), k_of(cs, n - 2, 14)];
        match div_round(sum_range(ks, 0, 3), dec_of(3), 4) {
            Some(d) => Some((ks[0], d)),
            None => None,
        }
    }
}

fn stoch_k(cs: &[Candle], end: usize, period: usize) -> (r: Option<Dec>)
    requires
        candles_wf(cs@),
        0 < period <= end <= cs@.len(),
    ensures
        r == stoch_k_at(cs@, end as int, period as int),
        r matches Some(d) ==> d.wf(),
{
    let highest = highest_high(cs, end - period, end);
    let lowest = lowest_low(cs, end - period, end);
    assert(cs@[end - 1].wf());
    let close = cs[end - 1].close;
    let range = match checked_sub(highest, lowest) {
        Some(r) => r,
        None => return None,
    };
    if is_zero_dec(range) {
        return Some(whole(50));
    }
    let num = match checked_sub(close, lowest) {
        Some(v) => v,
        None => return None,
    };
    let q = match checked_div(num, range) {
        Some(v) => v,
        None => return None,
    };
    match checked_mul(q, whole(100)) {
        Some(x) => Some(round_dp(x, 4)),
        None => None,
    }
}

/// Stochastic oscillator (14, 3).
pub fn stochastic(cs: &[Candle]) -> (r: Option<(Dec, Dec)>)
    requires
        candles_wf(cs@),
    ensures
        r == spec_stochastic(cs@),
        r matches Some((k, d)) ==> k.wf() && d.wf(),
{
    let n = cs.len();
    if n < 17 {
        return Some((whole(50), whole(50)));
    }
    let mut ks: Vec<Dec> = Vec::new();
    let mut e = n;
    while e >= 14
        invariant
            n == cs@.len(),
            n >= 17,
            13 <= e <= n,
            candles_wf(cs@),
            ks@.len() == n - e,
            forall|j: int| e < j <= n ==> (#[trigger] stoch_k_at(cs@, j, 14)) is Some,
            forall|m: int| 0 <= m < ks@.len() ==> #[trigger] ks@[m] == k_of(cs@, n - m, 14),
            forall|m: int| 0 <= m < ks@.len() ==> (#[trigger] ks@[m]).wf(),
        decreases e,
    {
        match stoch_k(cs, e, 14) {
            Some(k) => {
                ks.push(k);
            },
            None => {
                assert(!all_k_ok(cs@, 14, n as int, 14));
                return None;
            },
        }
        e -= 1;
    }
    assert(all_k_ok(cs@, 14, n as int, 14));
    let ghost kk = seq![k_of(cs@, n as int, 14), k_of(cs@, n - 1, 14), k_of(cs@, n - 2, 14)];
    assert(ks@.len() >= 3);
    assert(ks@.subrange(0, 3) =~= kk);
    let mut first3: Vec<Dec> = Vec::new();
    first3.push(ks[0]);
    first3.push(ks[1]);
    first3.push(ks[2]);
    assert(first3@ =~= kk);
    let total = match sum_of(first3.as_slice(), 0, 3) {
        Some(t) => t,
        None => return None,
    };
    match checked_div(total, whole(3)) {
        Some(q) => Some((ks[0], round_dp(q, 4))),
        None => None,
    }
}


// ------------------------------------------------------------ ADX

/// Directional movement and true range of bar `i` against bar `i - 1`:
/// (+DM, -DM, TR).
pub open spec fn dm_at(cs: Seq<Candle>, i: int) -> Option<(Dec, Dec, Dec)> {
    let c = cs[i];
    let p = cs[i - 1];
    match (
        decimal_sub(c.high, p.high),
        decimal_sub(p.low, c.low),
        decimal_sub(c.high, c.low),
        decimal_sub(c.high, p.close),
        decimal_sub(c.low, p.close),
    ) {
        (Some(up), Some(down), Some(hl), Some(hc), Some(lc)) => {
            let plus = if lt(down, up) && lt(spec_zero(), up) {
                up
            } else {
                spec_zero()
            };
            let minus = if lt(up, down) && lt(spec_zero(), down) {
                down
            } else {
                spec_zero()
            };
            Some((plus, minus, spec_max(spec_max(hl, spec_abs(hc)), spec_abs(lc))))
        },
        _ => None,
    }
}

/// Every bar after the first has its movement computed.
pub open spec fn all_dm_ok(cs: Seq<Candle>) -> bool {
    forall|i: int| 1 <= i < cs.len() ==> (#[trigger] dm_at(cs, i)) is Some
}

/// The +DM series (index `j` is bar `j + 1`).
pub open spec fn plus_dms(cs: Seq<Candle>) -> Seq<Dec> {
    Seq::new((cs.len() - 1) as nat, |j: int| dm_at(cs, j + 1).unwrap().0)
}

/// The -DM series.
pub open spec fn minus_dms(cs: Seq<Candle>) -> Seq<Dec> {
    Seq::new((cs.len() - 1) as nat, |j: int| dm_at(cs, j + 1).unwrap().1)
}

/// The true range series.
pub open spec fn trs_of(cs: Seq<Candle>) -> Seq<Dec> {
    Seq::new((cs.len() - 1) as nat, |j: int| dm_at(cs, j + 1).unwrap().2)
}

/// Wilder smoothing state: running sums and the DX values so far.
pub struct AdxState {
    pub atr_sum: Dec,
    pub plus_sum: Dec,
    pub minus_sum: Dec,
    pub dxs: Seq<Dec>,
}

/// `sum - sum / n + x`.
pub open spec fn wilder(sum: Dec, n: Dec, x: Dec) -> Option<Dec> {
    match decimal_div(sum, n) {
        Some(q) => match decimal_sub(sum, q) {
            Some(r) => decimal_add(r, x),
            None => None,
        },
        None => None,
    }
}

/// `round(sum / n * 100 / atr, 4)`.
pub open spec fn di_of(sum: Dec, n: Dec, atr: Dec) -> Option<Dec> {
    match decimal_div(sum, n) {
        Some(a) => match decimal_mul(a, spec_int(100)) {
            Some(b) => match decimal_div(b, atr) {
                Some(c) => Some(decimal_round_dp(c, 4)),
                None => None,
            },
            None => None,
        },
        None => None,
    }
}

/// DX from the two directional indicators: `round(|+DI - -DI| / (+DI + -DI) * 100, 4)`,
/// or 0 when both are zero in sum.
pub open spec fn dx_of(pdi: Dec, mdi: Dec) -> Option<Dec> {
    match decimal_add(pdi, mdi) {
        Some(sum) => if is_zero(sum) {
            Some(spec_zero())
        } else {
            match decimal_sub(pdi, mdi) {
                Some(diff) => match decimal_div(spec_abs(diff), sum) {
                    Some(q) => match decimal_mul(q, spec_int(100)) {
                        Some(x) => Some(decimal_round_dp(x, 4)),
                        None => None,
                    },
                    None => None,
                },
                None => None,
            }
        },
        None => None,
    }
}

/// One smoothing step with bar values `tr`, `pl`, `mi`: record a DX when the
/// average true range is non-zero, then roll the sums forward.
pub open spec fn adx_step(st: AdxState, n: Dec, tr: Dec, pl: Dec, mi: Dec) -> Option<AdxState> {
    match decimal_div(st.atr_sum, n) {
        Some(q) => {
            let atr = decimal_round_dp(q, 10);
            let dxs = if is_zero(atr) {
                Some(st.dxs)
            } else {
                match (di_of(st.plus_sum, n, atr), di_of(st.minus_sum, n, atr)) {
                    (Some(pdi), Some(mdi)) => match dx_of(pdi, mdi) {
                        Some(dx) => Some(st.dxs.push(dx)),
                        None => None,
                    },
                    _ => None,
                }
            };
            match (dxs, wilder(st.atr_sum, n, tr), wilder(st.plus_sum, n, pl), wilder(st.minus_sum, n, mi)) {
                (Some(d), Some(a), Some(p), Some(m)) => Some(
                    AdxState { atr_sum: a, plus_sum: p, minus_sum: m, dxs: d },
                ),
                _ => None,
            }
        },
        None => None,
    }
}

/// Smoothing over the series from index `i` on.
pub open spec fn adx_loop(
    trs: Seq<Dec>,
    pls: Seq<Dec>,
    mis: Seq<Dec>,
    st: Option<AdxState>,
    n: Dec,
    i: int,
) -> Option<AdxState>
    decreases trs.len() - i,
{
    if i < 0 || i >= trs.len() {
        st
    } else {
        match st {
            Some(s) => adx_loop(trs, pls, mis, adx_step(s, n, trs[i], pls[i], mis[i]), n, i + 1),
            None => None,
        }
    }
}

/// ADX(period): Wilder-smoothed directional movement; the mean of the last
/// (at most `period`) DX values, to 2 places; 0 with fewer than
/// `2 * period + 1` candles or when no DX could be formed.
pub open spec fn spec_adx(cs: Seq<Candle>, period: int) -> Option<Dec> {
    if cs.len() < period * 2 + 1 {
        Some(spec_zero())
    } else if !all_dm_ok(cs) {
        None
    } else {
        let trs = trs_of(cs);
        let pls = plus_dms(cs);
        let mis = minus_dms(cs);
        let n = dec_of(period);
        match (sum_range(trs, 0, period), sum_range(pls, 0, period), sum_range(mis, 0, period)) {
            (Some(a), Some(p), Some(m)) => {
                let init = AdxState { atr_sum: a, plus_sum: p, minus_sum: m, dxs: Seq::empty() };
                match adx_loop(trs, pls, mis, Some(init), n, period) {
                    Some(fin) => if fin.dxs.len() == 0 {
                        Some(spec_zero())
                    } else {
                        let take = if fin.dxs.len() < period {
                            fin.dxs.len() as int
                        } else {
                            period
                        };
                        div_round(
                            sum_range(fin.dxs, fin.dxs.len() - take, fin.dxs.len() as int),
                            dec_of(take),
                            2,
                        )
                    },
                    None => None,
                }
            },
            _ => None,
        }
    }
}

pub proof fn lemma_adx_none(
    trs: Seq<Dec>,
    pls: Seq<Dec>,
    mis: Seq<Dec>,
    n: Dec,
    i: int,
)
    ensures
        adx_loop(trs, pls, mis, None, n, i) is None,
    decreases trs.len() - i,
{
}

fn dm_of(cs: &[Candle], i: usize) -> (r: Option<(Dec, Dec, Dec)>)
    requires
        candles_wf(cs@),
        1 <= i < cs@.len(),
    ensures
        r == dm_at(cs@, i as int),
        r matches Some((a, b, c)) ==> a.wf() && b.wf() && c.wf(),
{
    assert(cs@[i as int].wf());
    assert(cs@[i - 1].wf());
    let c = &cs[i];
    let p = &cs[i - 1];
    let up = match checked_sub(c.high, p.high) {
        Some(v) => v,
        None => return None,
    };
    let down = match checked_sub(p.low, c.low) {
        Some(v) => v,
        None => return None,
    };
    let hl = match checked_sub(c.high, c.low) {
        Some(v) => v,
        None => return None,
    };
    let hc = match checked_sub(c.high, p.close) {
        Some(v) => v,
        None => return None,
    };
    let lc = match checked_sub(c.low, p.close) {
        Some(v) => v,
        None => return None,
    };
    let plus = if less(down, up) && less(zero(), up) {
        up
    } else {
        zero()
    };
    let minus = if less(up, down) && less(zero(), down) {
        down
    } else {
        zero()
    };
    Some((plus, minus, max(max(hl, abs(hc)), abs(lc))))
}

fn wilder_exec(sum: Dec, n: Dec, x: Dec) -> (r: Option<Dec>)
    requires
        sum.wf(),
        n.wf(),
        x.wf(),
    ensures
        r == wilder(sum, n, x),
        r matches Some(d) ==> d.wf(),
{
    let q = match checked_div(sum, n) {
        Some(v) => v,
        None => return None,
    };
    let r = match checked_sub(sum, q) {
        Some(v) => v,
        None => return None,
    };
    checked_add(r, x)
}

fn di_exec(sum: Dec, n: Dec, atr: Dec) -> (r: Option<Dec>)
    requires
        sum.wf(),
        n.wf(),
        atr.wf(),
    ensures
        r == di_of(sum, n, atr),
        r matches Some(d) ==> d.wf(),
{
    let a = match checked_div(sum, n) {
        Some(v) => v,
        None => return None,
    };
    let b = match checked_mul(a, whole(100)) {
        Some(v) => v,
        None => return None,
    };
    match checked_div(b, atr) {
        Some(c) => Some(round_dp(c, 4)),
        None => None,
    }
}

fn dx_exec(pdi: Dec, mdi: Dec) -> (r: Option<Dec>)
    requires
        pdi.wf(),
        mdi.wf(),
    ensures
        r == dx_of(pdi, mdi),
        r matches Some(d) ==> d.wf(),
{
    let sum = match checked_add(pdi, mdi) {
        Some(v) => v,
        None => return None,
    };
    if is_zero_dec(sum) {
        return Some(zero());
    }
    let diff = match checked_sub(pdi, mdi) {
        Some(v) => v,
        None => return None,
    };
    let q = match checked_div(abs(diff), sum) {
        Some(v) => v,
        None => return None,
    };
    match checked_mul(q, whole(100)) {
        Some(x) => Some(round_dp(x, 4)),
        None => None,
    }
}

/// Average directional index over `period`.
pub fn adx(cs: &[Candle], period: usize) -> (r: Option<Dec>)
    requires
        candles_wf(cs@),
        0 < period || cs@.len() <= 1,
    ensures
        r == spec_adx(cs@, period as int),
        r matches Some(d) ==> d.wf(),
        cs@.len() < period * 2 + 1 ==> r == Some(spec_zero()),
{
    let len = cs.len();
    if period == 0 {
        // At most one candle: no movement to smooth.
        proof {
            if len == 1 {
                let ghost tv = trs_of(cs@);
                assert(tv.len() == 0);
                assert(all_dm_ok(cs@));
                let ghost init = AdxState {
                    atr_sum: spec_zero(),
                    plus_sum: spec_zero(),
                    minus_sum: spec_zero(),
                    dxs: Seq::empty(),
                };
                assert(sum_range(trs_of(cs@), 0, 0) == Some(spec_zero()));
                assert(sum_range(plus_dms(cs@), 0, 0) == Some(spec_zero()));
                assert(sum_range(minus_dms(cs@), 0, 0) == Some(spec_zero()));
                assert(adx_loop(trs_of(cs@), plus_dms(cs@), minus_dms(cs@), Some(init), dec_of(0), 0)
                    == Some(init));
            }
        }
        return Some(zero());
    }
    if len == 0 || (len - 1) / 2 < period {
        assert(len < period * 2 + 1) by (nonlinear_arith)
            requires
                len == 0 || (len - 1) / 2 < period,
        ;
        return Some(zero());
    }
    assert(len >= period * 2 + 1) by (nonlinear_arith)
        requires
            len > 0,
            (len - 1) / 2 >= period,
    ;
    let mut pls: Vec<Dec> = Vec::new();
    let mut mis: Vec<Dec> = Vec::new();
    let mut trs: Vec<Dec> = Vec::new();
    let mut i: usize = 1;
    while i < len
        invariant
            len == cs@.len(),
            1 <= i <= len,
            len >= period * 2 + 1,
            0 < period,
            candles_wf(cs@),
            pls@.len() == i - 1,
            mis@.len() == i - 1,
            trs@.len() == i - 1,
            forall|j: int| 1 <= j < i ==> (#[trigger] dm_at(cs@, j)) is Some,
            forall|j: int| 0 <= j < i - 1 ==> #[trigger] pls@[j] == dm_at(cs@, j + 1).unwrap().0,
            forall|j: int| 0 <= j < i - 1 ==> #[trigger] mis@[j] == dm_at(cs@, j + 1).unwrap().1,
            forall|j: int| 0 <= j < i - 1 ==> #[trigger] trs@[j] == dm_at(cs@, j + 1).unwrap().2,
            decs_wf(pls@),
            decs_wf(mis@),
            decs_wf(trs@),
        decreases len - i,
    {
        match dm_of(cs, i) {
            Some((p, m, t)) => {
                pls.push(p);
                mis.push(m);
                trs.push(t);
            },
            None => {
                assert(!all_dm_ok(cs@));
                return None;
            },
        }
        i += 1;
    }
    assert(all_dm_ok(cs@));
    let ghost tv = trs_of(cs@);
    let ghost pv = plus_dms(cs@);
    let ghost mv = minus_dms(cs@);
    assert(trs@ =~= tv);
    assert(pls@ =~= pv);
    assert(mis@ =~= mv);
    let n = Dec::from_usize(period);
    let a0 = match sum_of(trs.as_slice(), 0, period) {
        Some(v) => v,
        None => return None,
    };
    let p0 = match sum_of(pls.as_slice(), 0, period) {
        Some(v) => v,
        None => return None,
    };
    let m0 = match sum_of(mis.as_slice(), 0, period) {
        Some(v) => v,
        None => return None,
    };
    let ghost init = AdxState { atr_sum: a0, plus_sum: p0, minus_sum: m0, dxs: Seq::empty() };
    let mut atr_sum = a0;
    let mut plus_sum = p0;
    let mut minus_sum = m0;
    let mut dxs: Vec<Dec> = Vec::new();
    let mut k: usize = period;
    while k < trs.len()
        invariant
            period <= k <= trs@.len(),
            0 < period,
            cs@.len() >= period * 2 + 1,
            all_dm_ok(cs@),
            tv == trs_of(cs@),
            pv == plus_dms(cs@),
            mv == minus_dms(cs@),
            sum_range(tv, 0, period as int) == Some(init.atr_sum),
            sum_range(pv, 0, period as int) == Some(init.plus_sum),
            sum_range(mv, 0, period as int) == Some(init.minus_sum),
            init.dxs == Seq::<Dec>::empty(),
            trs@ == tv,
            pls@ == pv,
            mis@ == mv,
            tv.len() == pv.len(),
            tv.len() == mv.len(),
            n == dec_of(period as int),
            n.wf(),
            decs_wf(pls@),
            decs_wf(mis@),
            decs_wf(trs@),
            decs_wf(dxs@),
            atr_sum.wf(),
            plus_sum.wf(),
            minus_sum.wf(),
            adx_loop(tv, pv, mv, Some(init), n, period as int) == adx_loop(
                tv,
                pv,
                mv,
                Some(AdxState { atr_sum, plus_sum, minus_sum, dxs: dxs@ }),
                n,
                k as int,
            ),
        decreases trs@.len() - k,
    {
        proof {
            lemma_adx_none(tv, pv, mv, n, k + 1);
        }
        let q = match checked_div(atr_sum, n) {
            Some(v) => v,
            None => return None,
        };
        let atr = round_dp(q, 10);
        if !is_zero_dec(atr) {
            let pdi = match di_exec(plus_sum, n, atr) {
                Some(v) => v,
                None => return None,
            };
            let mdi = match di_exec(minus_sum, n, atr) {
                Some(v) => v,
                None => return None,
            };
            let dx = match dx_exec(pdi, mdi) {
                Some(v) => v,
                None => return None,
            };
            dxs.push(dx);
        }
        let a = match wilder_exec(atr_sum, n, trs[k]) {
            Some(v) => v,
            None => return None,
        };
        let p = match wilder_exec(plus_sum, n, pls[k]) {
            Some(v) => v,
            None => return None,
        };
        let m = match wilder_exec(minus_sum, n, mis[k]) {
            Some(v) => v,
            None => return None,
        };
        atr_sum = a;
        plus_sum = p;
        minus_sum = m;
        k += 1;
    }
    if dxs.len() == 0 {
        return Some(zero());
    }
    let take = if dxs.len() < period {
        dxs.len()
    } else {
        period
    };
    let total = match sum_of(dxs.as_slice(), dxs.len() - take, dxs.len()) {
        Some(v) => v,
        None => return None,
    };
    match checked_div(total, Dec::from_usize(take)) {
        Some(q) => Some(round_dp(q, 2)),
        None => None,
    }
}

} // verus!
