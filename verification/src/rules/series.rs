//! Indicator formulas over price series: sums, moving averages, RSI, ATR,
//! MACD, Bollinger band statistics, the stochastic oscillator and ADX.
//!
//! A result of `None` at the outer level means a decimal operation
//! overflowed; indicators that need more data than given say so with an
//! inner `None` or with their documented fallback value.
use crate::decimal::{
    abs, checked_add, checked_div, checked_mul, checked_sub, decimal_add, decimal_div, decimal_mul,
    decimal_round_dp, decimal_sub, equal, is_zero, is_zero_dec, less, lt, max, max_value, min, one,
    round_dp, same, spec_int, spec_max, spec_max_value, spec_min, spec_one, spec_zero, whole, zero,
    Dec, le, lemma_units_sign,
};
use crate::domain::{candles_wf, Candle};
use vstd::prelude::*;

verus! {

/// All decimals of the sequence are valid.
pub open spec fn decs_wf(s: Seq<Dec>) -> bool {
    forall|i: int| 0 <= i < s.len() ==> #[trigger] s[i].wf()
}

/// Closing prices of candles.
pub open spec fn closes_of(cs: Seq<Candle>) -> Seq<Dec> {
    cs.map_values(|c: Candle| c.close)
}

/// `a + b` on possibly overflowed values.
pub open spec fn add_o(a: Option<Dec>, b: Dec) -> Option<Dec> {
    match a {
        Some(x) => decimal_add(x, b),
        None => None,
    }
}

/// Left-to-right sum of `s[lo..hi]`, starting from zero, as `Iterator::sum` does.
pub open spec fn sum_range(s: Seq<Dec>, lo: int, hi: int) -> Option<Dec>
    decreases hi - lo,
{
    if hi <= lo {
        Some(spec_zero())
    } else {
        add_o(sum_range(s, lo, hi - 1), s[hi - 1])
    }
}

/// `Decimal::from(n)` for a count.
pub open spec fn dec_of(n: int) -> Dec {
    spec_int(n)
}

/// `x / n` rounded to `dp` places, on possibly overflowed values.
pub open spec fn div_round(x: Option<Dec>, n: Dec, dp: u32) -> Option<Dec> {
    match x {
        Some(v) => match decimal_div(v, n) {
            Some(q) => Some(decimal_round_dp(q, dp)),
            None => None,
        },
        None => None,
    }
}

/// Simple moving average of the last `period` values, to 10 places;
/// inner `None` when there are fewer values.
pub open spec fn spec_sma(s: Seq<Dec>, period: int) -> Option<Option<Dec>> {
    if s.len() < period {
        Some(None)
    } else {
        match div_round(sum_range(s, s.len() - period, s.len() as int), dec_of(period), 10) {
            Some(v) => Some(Some(v)),
            None => None,
        }
    }
}

/// One EMA step: `round(c * k + e * (1 - k), 10)`.
pub open spec fn ema_step(c: Dec, k: Dec, e: Dec) -> Option<Dec> {
    match decimal_mul(c, k) {
        Some(ck) => match decimal_sub(spec_one(), k) {
            Some(rest) => match decimal_mul(e, rest) {
                Some(er) => match decimal_add(ck, er) {
                    Some(x) => Some(decimal_round_dp(x, 10)),
                    None => None,
                },
                None => None,
            },
            None => None,
        },
        None => None,
    }
}

/// EMA carried over `s[i..]` from the value `e`.
pub open spec fn ema_from(s: Seq<Dec>, k: Dec, e: Option<Dec>, i: int) -> Option<Dec>
    decreases s.len() - i,
{
    if i >= s.len() || i < 0 {
        e
    } else {
        match e {
            Some(v) => ema_from(s, k, ema_step(s[i], k, v), i + 1),
            None => None,
        }
    }
}

/// The EMA smoothing factor `round(2 / (period + 1), 10)`.
pub open spec fn ema_factor(period: int) -> Option<Dec> {
    match decimal_div(spec_int(2), dec_of(period + 1)) {
        Some(k) => Some(decimal_round_dp(k, 10)),
        None => None,
    }
}

/// Exponential moving average: seeded with the SMA of the first `period`
/// values... of the last `period` values, then carried over the values after
/// the first `period`; inner `None` with fewer than `period` values.
pub open spec fn spec_ema(s: Seq<Dec>, period: int) -> Option<Option<Dec>> {
    if s.len() < period {
        Some(None)
    } else {
        match ema_factor(period) {
            Some(k) => match spec_sma(s, period) {
                Some(Some(seed)) => match ema_from(s, k, Some(seed), period) {
                    Some(v) => Some(Some(v)),
                    None => None,
                },
                Some(None) => Some(None),
                None => None,
            },
            None => None,
        }
    }
}

/// Gains and losses over adjacent pairs of `s[lo..hi]`: a positive change
/// adds to gains, any other change is subtracted from losses.
pub open spec fn gains_losses(s: Seq<Dec>, lo: int, hi: int) -> Option<(Dec, Dec)>
    decreases hi - lo,
{
    if hi <= lo + 1 {
        Some((spec_zero(), spec_zero()))
    } else {
        match gains_losses(s, lo, hi - 1) {
            Some((g, l)) => match decimal_sub(s[hi - 1], s[hi - 2]) {
                Some(diff) => if lt(spec_zero(), diff) {
                    match decimal_add(g, diff) {
                        Some(g2) => Some((g2, l)),
                        None => None,
                    }
                } else {
                    match decimal_sub(l, diff) {
                        Some(l2) => Some((g, l2)),
                        None => None,
                    }
                },
                None => None,
            },
            None => None,
        }
    }
}

/// RSI over the last `period` changes, to 4 places; 100 when there was no
/// loss; inner `None` with `period` values or fewer.
pub open spec fn spec_rsi(s: Seq<Dec>, period: int) -> Option<Option<Dec>> {
    if s.len() <= period {
        Some(None)
    } else {
        match gains_losses(s, s.len() - period - 1, s.len() as int) {
            Some((g, l)) => {
                let n = dec_of(period);
                match (div_round(Some(g), n, 10), div_round(Some(l), n, 10)) {
                    (Some(avg_gain), Some(avg_loss)) => if is_zero(avg_loss) {
                        Some(Some(spec_int(100)))
                    } else {
                        match div_round(Some(avg_gain), avg_loss, 10) {
                            Some(rs) => match decimal_add(spec_one(), rs) {
                                Some(d) => match decimal_div(spec_int(100), d) {
                                    Some(q) => match decimal_sub(spec_int(100), q) {
                                        Some(v) => Some(Some(decimal_round_dp(v, 4))),
                                        None => None,
                                    },
                                    None => None,
                                },
                                None => None,
                            },
                            None => None,
                        }
                    },
                    _ => None,
                }
            },
            None => None,
        }
    }
}

/// True range of a candle against a fixed previous close:
/// the largest of high-low, |high-prev| and |low-prev|.
pub open spec fn true_range(c: Candle, prev_close: Dec) -> Option<Dec> {
    match (
        decimal_sub(c.high, c.low),
        decimal_sub(c.high, prev_close),
        decimal_sub(c.low, prev_close),
    ) {
        (Some(hl), Some(hp), Some(lp)) => Some(
            spec_max(spec_max(hl, spec_abs(hp)), spec_abs(lp)),
        ),
        _ => None,
    }
}

/// The absolute value, as `Decimal::abs` gives it.
pub open spec fn spec_abs(d: Dec) -> Dec {
    Dec {
        mantissa: if d.mantissa < 0 {
            (-d.mantissa) as i128
        } else {
            d.mantissa
        },
        scale: d.scale,
    }
}

/// Sum of the true ranges of `cs[lo..hi]` against one previous close.
pub open spec fn tr_sum(cs: Seq<Candle>, prev_close: Dec, lo: int, hi: int) -> Option<Dec>
    decreases hi - lo,
{
    if hi <= lo {
        Some(spec_zero())
    } else {
        match (tr_sum(cs, prev_close, lo, hi - 1), true_range(cs[hi - 1], prev_close)) {
            (Some(a), Some(tr)) => decimal_add(a, tr),
            _ => None,
        }
    }
}

/// ATR: mean true range of the last `period` candles, all measured against
/// the close just before the window, to 10 places; inner `None` with `period`
/// candles or fewer.
pub open spec fn spec_atr(cs: Seq<Candle>, period: int) -> Option<Option<Dec>> {
    if cs.len() <= period {
        Some(None)
    } else {
        let prev_close = cs[cs.len() - period - 1].close;
        match div_round(tr_sum(cs, prev_close, cs.len() - period, cs.len() as int), dec_of(period), 10) {
            Some(v) => Some(Some(v)),
            None => None,
        }
    }
}

/// MACD line: EMA(12) - EMA(26), each 0 when not available, to 10 places.
pub open spec fn spec_macd(s: Seq<Dec>) -> Option<Dec> {
    match (spec_ema(s, 12), spec_ema(s, 26)) {
        (Some(f), Some(sl)) => {
            let fast = match f {
                Some(v) => v,
                None => spec_zero(),
            };
            let slow = match sl {
                Some(v) => v,
                None => spec_zero(),
            };
            match decimal_sub(fast, slow) {
                Some(d) => Some(decimal_round_dp(d, 10)),
                None => None,
            }
        },
        _ => None,
    }
}

/// Once a sum overflows it stays overflowed.
pub proof fn lemma_sum_none(s: Seq<Dec>, lo: int, j: int, hi: int)
    requires
        j <= hi,
        sum_range(s, lo, j) is None,
    ensures
        sum_range(s, lo, hi) is None,
    decreases hi - j,
{
    if j < hi {
        lemma_sum_none(s, lo, j, hi - 1);
    }
}

/// Once the gains/losses overflow they stay overflowed.
pub proof fn lemma_gains_none(s: Seq<Dec>, lo: int, j: int, hi: int)
    requires
        j <= hi,
        gains_losses(s, lo, j) is None,
    ensures
        gains_losses(s, lo, hi) is None,
    decreases hi - j,
{
    if j < hi {
        lemma_gains_none(s, lo, j, hi - 1);
    }
}

/// Once the true-range sum overflows it stays overflowed.
pub proof fn lemma_tr_none(cs: Seq<Candle>, pc: Dec, lo: int, j: int, hi: int)
    requires
        j <= hi,
        tr_sum(cs, pc, lo, j) is None,
    ensures
        tr_sum(cs, pc, lo, hi) is None,
    decreases hi - j,
{
    if j < hi {
        lemma_tr_none(cs, pc, lo, j, hi - 1);
    }
}

/// An overflowed EMA stays overflowed.
pub proof fn lemma_ema_none(s: Seq<Dec>, k: Dec, i: int)
    ensures
        ema_from(s, k, None, i) is None,
    decreases s.len() - i,
{
}

// ---------------------------------------------------------------- exec

/// The closing prices.
pub fn closes(cs: &[Candle]) -> (r: Vec<Dec>)
    requires
        candles_wf(cs@),
    ensures
        r@ == closes_of(cs@),
        decs_wf(r@),
{
    let mut out: Vec<Dec> = Vec::new();
    let mut i: usize = 0;
    while i < cs.len()
        invariant
            i <= cs@.len(),
            candles_wf(cs@),
            out@ == closes_of(cs@).take(i as int),
        decreases cs@.len() - i,
    {
        assert(cs@[i as int].wf());
        out.push(cs[i].close);
        assert(closes_of(cs@).take(i + 1) =~= closes_of(cs@).take(i as int).push(cs@[i as int].close));
        i += 1;
    }
    assert(closes_of(cs@).take(cs@.len() as int) =~= closes_of(cs@));
    assert forall|i: int| 0 <= i < out@.len() implies #[trigger] out@[i].wf() by {
        assert(cs@[i].wf());
    }
    out
}

/// Sum of `s[lo..hi]`.
pub fn sum_of(s: &[Dec], lo: usize, hi: usize) -> (r: Option<Dec>)
    requires
        lo <= hi <= s@.len(),
        decs_wf(s@),
    ensures
        r == sum_range(s@, lo as int, hi as int),
        r matches Some(d) ==> d.wf(),
{
    let mut acc = zero();
    let mut i = lo;
    while i < hi
        invariant
            lo <= i <= hi <= s@.len(),
            decs_wf(s@),
            Some(acc) == sum_range(s@, lo as int, i as int),
            acc.wf(),
        decreases hi - i,
    {
        match checked_add(acc, s[i]) {
            Some(a) => acc = a,
            None => {
                proof {
                    lemma_sum_none(s@, lo as int, i + 1, hi as int);
                }
                return None;
            },
        }
        i += 1;
    }
    Some(acc)
}

fn div_round_exec(x: Dec, n: Dec, dp: u32) -> (r: Option<Dec>)
    requires
        x.wf(),
        n.wf(),
    ensures
        r == div_round(Some(x), n, dp),
        r matches Some(d) ==> d.wf(),
        x.mantissa == 0 && n.mantissa != 0 ==> r == Some(spec_zero()),
{
    match checked_div(x, n) {
        Some(q) => Some(round_dp(q, dp)),
        None => None,
    }
}

/// Simple moving average of the last `period` values.
pub fn sma(s: &[Dec], period: usize) -> (r: Option<Option<Dec>>)
    requires
        decs_wf(s@),
        0 < period,
    ensures
        r == spec_sma(s@, period as int),
        r matches Some(Some(d)) ==> d.wf(),
{
    if s.len() < period {
        return Some(None);
    }
    let total = match sum_of(s, s.len() - period, s.len()) {
        Some(t) => t,
        None => return None,
    };
    match div_round_exec(total, Dec::from_usize(period), 10) {
        Some(v) => Some(Some(v)),
        None => None,
    }
}

/// Exponential moving average over the whole series.
pub fn ema(s: &[Dec], period: usize) -> (r: Option<Option<Dec>>)
    requires
        decs_wf(s@),
        0 < period,
    ensures
        r == spec_ema(s@, period as int),
        r matches Some(Some(d)) ==> d.wf(),
{
    if s.len() < period {
        return Some(None);
    }
    let k = match div_round_exec(whole(2), Dec::from_usize_succ(period), 10) {
        Some(k) => k,
        None => return None,
    };
    let seed = match sma(s, period) {
        Some(Some(v)) => v,
        Some(None) => return Some(None),
        None => return None,
    };
    let mut e = seed;
    let mut i = period;
    while i < s.len()
        invariant
            period <= i <= s@.len(),
            decs_wf(s@),
            k.wf(),
            e.wf(),
            ema_from(s@, k, Some(seed), period as int) == ema_from(s@, k, Some(e), i as int),
            ema_factor(period as int) == Some(k),
            spec_sma(s@, period as int) == Some(Some(seed)),
            s@.len() >= period,
        decreases s@.len() - i,
    {
        proof {
            lemma_ema_none(s@, k, i + 1);
        }
        let ck = match checked_mul(s[i], k) {
            Some(v) => v,
            None => return None,
        };
        let rest = match checked_sub(one(), k) {
            Some(v) => v,
            None => return None,
        };
        let er = match checked_mul(e, rest) {
            Some(v) => v,
            None => return None,
        };
        let x = match checked_add(ck, er) {
            Some(v) => v,
            None => return None,
        };
        e = round_dp(x, 10);
        i += 1;
    }
    Some(Some(e))
}

/// No value in the last `period` changes rose above the one before.
pub open spec fn no_rise(s: Seq<Dec>, period: int) -> bool {
    forall|k: int| s.len() - period <= k < s.len() ==> le(#[trigger] s[k], s[k - 1])
}

/// No value in the last `period` changes fell below the one before.
pub open spec fn no_fall(s: Seq<Dec>, period: int) -> bool {
    forall|k: int| s.len() - period <= k < s.len() ==> le(s[k - 1], #[trigger] s[k])
}

/// The average loss of the RSI window rounds to zero.
pub open spec fn avg_loss_is_zero(s: Seq<Dec>, period: int) -> bool {
    match gains_losses(s, s.len() - period - 1, s.len() as int) {
        Some((_, l)) => match div_round(Some(l), dec_of(period), 10) {
            Some(a) => is_zero(a),
            None => false,
        },
        None => false,
    }
}

/// Relative strength index over the last `period` changes.
pub fn rsi(s: &[Dec], period: usize) -> (r: Option<Option<Dec>>)
    requires
        decs_wf(s@),
        0 < period,
    ensures
        r == spec_rsi(s@, period as int),
        r matches Some(Some(d)) ==> d.wf(),
        no_rise(s@, period as int) ==> (r matches Some(Some(v)) ==> v.mantissa == 0 || (v == spec_int(100)
            && avg_loss_is_zero(s@, period as int))),
        no_fall(s@, period as int) ==> (r matches Some(Some(v)) ==> v == spec_int(100)),
{
    if s.len() <= period {
        return Some(None);
    }
    let lo = s.len() - period - 1;
    let mut gains = zero();
    let mut losses = zero();
    let mut i = lo + 1;
    while i < s.len()
        invariant
            lo + 1 <= i <= s@.len(),
            lo == s@.len() - period - 1,
            decs_wf(s@),
            gains.wf(),
            losses.wf(),
            gains_losses(s@, lo as int, i as int) == Some((gains, losses)),
            (forall|k: int| lo + 1 <= k < i ==> le(#[trigger] s@[k], s@[k - 1])) ==> gains == spec_zero(),
            (forall|k: int| lo + 1 <= k < i ==> le(s@[k - 1], #[trigger] s@[k])) ==> losses.mantissa == 0,
        decreases s@.len() - i,
    {
        proof {
            if gains_losses(s@, lo as int, i + 1) is None {
                lemma_gains_none(s@, lo as int, i + 1, s@.len() as int);
            }
        }
        let diff = match checked_sub(s[i], s[i - 1]) {
            Some(d) => d,
            None => return None,
        };
        let ghost g0 = gains;
        let ghost l0 = losses;
        proof {
            lemma_units_sign(diff);
        }
        if less(zero(), diff) {
            match checked_add(gains, diff) {
                Some(g) => gains = g,
                None => return None,
            }
        } else {
            match checked_sub(losses, diff) {
                Some(l) => losses = l,
                None => return None,
            }
        }
        proof {
            if forall|k: int| lo + 1 <= k < i + 1 ==> le(#[trigger] s@[k], s@[k - 1]) {
                assert(le(s@[i as int], s@[i - 1]));
                assert forall|k: int| lo + 1 <= k < i implies le(#[trigger] s@[k], s@[k - 1]) by {
                    assert(lo + 1 <= k < i + 1);
                }
                assert(g0 == spec_zero());
                assert(!(diff.mantissa > 0));
                assert(gains == spec_zero());
            }
            if forall|k: int| lo + 1 <= k < i + 1 ==> le(s@[k - 1], #[trigger] s@[k]) {
                assert(le(s@[i - 1], s@[i as int]));
                assert forall|k: int| lo + 1 <= k < i implies le(s@[k - 1], #[trigger] s@[k]) by {
                    assert(lo + 1 <= k < i + 1);
                }
                assert(l0.mantissa == 0);
                assert(!(diff.mantissa < 0));
                lemma_units_sign(l0);
            }
        }
        i += 1;
    }
    let n = Dec::from_usize(period);
    assert(no_rise(s@, period as int) ==> gains == spec_zero()) by {
        if no_rise(s@, period as int) {
            assert forall|k: int| lo + 1 <= k < s@.len() implies le(#[trigger] s@[k], s@[k - 1]) by {
                assert(s@.len() - period <= k < s@.len());
            }
        }
    }
    assert(no_fall(s@, period as int) ==> losses.mantissa == 0) by {
        if no_fall(s@, period as int) {
            assert forall|k: int| lo + 1 <= k < s@.len() implies le(s@[k - 1], #[trigger] s@[k]) by {
                assert(s@.len() - period <= k < s@.len());
            }
        }
    }
    let avg_gain = match div_round_exec(gains, n, 10) {
        Some(v) => v,
        None => return None,
    };
    let avg_loss = match div_round_exec(losses, n, 10) {
        Some(v) => v,
        None => return None,
    };
    if is_zero_dec(avg_loss) {
        return Some(Some(whole(100)));
    }
    proof {
        lemma_units_sign(avg_loss);
    }
    let rs = match div_round_exec(avg_gain, avg_loss, 10) {
        Some(v) => v,
        None => return None,
    };
    let d = match checked_add(one(), rs) {
        Some(v) => v,
        None => return None,
    };
    let q = match checked_div(whole(100), d) {
        Some(v) => v,
        None => return None,
    };
    match checked_sub(whole(100), q) {
        Some(v) => Some(Some(round_dp(v, 4))),
        None => None,
    }
}

/// True range of a candle against a previous close.
pub fn true_range_of(c: &Candle, prev_close: Dec) -> (r: Option<Dec>)
    requires
        c.wf(),
        prev_close.wf(),
    ensures
        r == true_range(*c, prev_close),
        r matches Some(d) ==> d.wf(),
{
    let hl = match checked_sub(c.high, c.low) {
        Some(v) => v,
        None => return None,
    };
    let hp = match checked_sub(c.high, prev_close) {
        Some(v) => v,
        None => return None,
    };
    let lp = match checked_sub(c.low, prev_close) {
        Some(v) => v,
        None => return None,
    };
    Some(max(max(hl, abs(hp)), abs(lp)))
}

/// Average true range over the last `period` candles.
pub fn atr(cs: &[Candle], period: usize) -> (r: Option<Option<Dec>>)
    requires
        candles_wf(cs@),
        0 < period,
    ensures
        r == spec_atr(cs@, period as int),
        r matches Some(Some(d)) ==> d.wf(),
{
    if cs.len() <= period {
        return Some(None);
    }
    assert(cs@[cs@.len() - period - 1].wf());
    let prev_close = cs[cs.len() - period - 1].close;
    let lo = cs.len() - period;
    let mut acc = zero();
    let mut i = lo;
    while i < cs.len()
        invariant
            lo <= i <= cs@.len(),
            lo == cs@.len() - period,
            candles_wf(cs@),
            prev_close.wf(),
            acc.wf(),
            tr_sum(cs@, prev_close, lo as int, i as int) == Some(acc),
            prev_close == cs@[cs@.len() - period - 1].close,
            cs@.len() > period,
        decreases cs@.len() - i,
    {
        assert(cs@[i as int].wf());
        proof {
            if tr_sum(cs@, prev_close, lo as int, i + 1) is None {
                lemma_tr_none(cs@, prev_close, lo as int, i + 1, cs@.len() as int);
            }
        }
        let tr = match true_range_of(&cs[i], prev_close) {
            Some(v) => v,
            None => return None,
        };
        match checked_add(acc, tr) {
            Some(a) => acc = a,
            None => return None,
        }
        i += 1;
    }
    match div_round_exec(acc, Dec::from_usize(period), 10) {
        Some(v) => Some(Some(v)),
        None => None,
    }
}

/// MACD line.
pub fn macd(s: &[Dec]) -> (r: Option<Dec>)
    requires
        decs_wf(s@),
    ensures
        r == spec_macd(s@),
        r matches Some(d) ==> d.wf(),
{
    let fast = match ema(s, 12) {
        Some(Some(v)) => v,
        Some(None) => zero(),
        None => return None,
    };
    let slow = match ema(s, 26) {
        Some(Some(v)) => v,
        Some(None) => zero(),
        None => return None,
    };
    match checked_sub(fast, slow) {
        Some(d) => Some(round_dp(d, 10)),
        None => None,
    }
}

} // verus!
